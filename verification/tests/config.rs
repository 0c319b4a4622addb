use yamato::config::{
    built_in_profiles, default_log_max_mb, display_temp, is_built_in, strip_mark, unit_suffix,
    watchdog_floor, Config, ConfigError, EcLayout, Profile, StartupMode, Stored, StoredPoint,
    HYST_DOWN_MAX, HYST_UP_MAX, LOG_MAX_MB_MAX, LOG_MAX_MB_MIN, MANUAL_ESCAPE_MAX,
    MANUAL_ESCAPE_MIN, POLL_SECS_MAX, SCHEMA_VERSION, STANDBY_POLL_SECS_MIN,
};
use yamato::curve::{Curve, CurveError, CurvePoint};

fn point(temp: i8, level: u8, hyst_up: i8, hyst_down: i8) -> StoredPoint {
    StoredPoint { temp, level, hyst_up, hyst_down }
}

/// Settings with one profile named X, as a file of a given version.
fn stored(version: u32, points: Vec<StoredPoint>) -> Config {
    Config {
        version,
        poll_secs: 5,
        watchdog_secs: 30,
        startup_mode: StartupMode::Smart,
        active_profile: "X".to_string(),
        profiles: vec![Profile { name: "X".to_string(), points }],
        ..Config::default()
    }
}

#[test]
fn an_active_profile_that_vanished_falls_back() {
    let mut cfg = Config::default();
    cfg.active_profile = "Deleted".into();
    cfg.validate().unwrap();
    assert_eq!(cfg.active_profile, cfg.profiles[0].name);
}

#[test]
fn poll_and_watchdog_are_kept_sane() {
    let mut cfg = Config::default();
    cfg.poll_secs = 0; // would spin a core
    cfg.watchdog_secs = 1; // would fire during normal running
    cfg.validate().unwrap();

    assert_eq!(cfg.poll_secs, 1);
    assert!(cfg.watchdog_secs >= cfg.poll_secs * 3);
}

#[test]
fn standby_backs_the_poll_rate_off() {
    // Services survive Modern Standby, so we can keep the curve running.
    // Polling at the awake rate would keep waking a parked CPU for no gain.
    let cfg = Config::default();
    assert!(cfg.poll_interval(true) > cfg.poll_interval(false));
}

#[test]
fn temperatures_convert_for_display_only() {
    // The curve stays Celsius underneath whatever the window shows.
    assert_eq!(display_temp(0, false), 0);
    assert_eq!(display_temp(100, false), 100);
    assert_eq!(display_temp(0, true), 32);
    assert_eq!(display_temp(100, true), 212);
    assert_eq!(display_temp(46, true), 114);
}

#[test]
fn the_unit_suffix_matches_the_setting() {
    assert!(unit_suffix(false).ends_with('C'));
    assert!(unit_suffix(true).ends_with('F'));
}

#[test]
fn celsius_is_the_default() {
    assert!(!Config::default().fahrenheit);
}

#[test]
fn profiles_can_be_added_and_switched_between() {
    let mut cfg = Config::default();
    let shipped = cfg.profiles.len();
    cfg.profiles.push(Profile::new("Silent", &Curve::default()));
    cfg.profiles.push(Profile::new("Aggressive", &Curve::default()));
    cfg.active_profile = "Silent".into();
    cfg.validate().unwrap();

    assert_eq!(cfg.profiles.len(), shipped + 2);
    assert_eq!(cfg.active_profile, "Silent");
    assert!(cfg.active_curve().is_ok());
}

#[test]
fn the_active_curve_resolves() {
    let cfg = Config::default();
    assert!(cfg.active_curve().is_ok());
}

#[test]
fn a_fresh_install_has_more_than_one_profile_to_pick_from() {
    // One entry in a picker looks exactly like none at all.
    let cfg = Config::default();
    assert!(cfg.profiles.len() >= 3);
    assert_eq!(cfg.active_profile, "Balanced");
    assert!(cfg.profiles.iter().any(|p| p.name == "Quiet"));
    assert!(cfg.profiles.iter().any(|p| p.name == "Performance"));
}

#[test]
fn every_shipped_profile_is_a_curve_the_engine_would_accept() {
    // A default that does not validate breaks the program on first run for
    // everyone at once.
    for profile in Config::default().profiles {
        let curve = profile.to_curve().unwrap_or_else(|e| {
            panic!("the shipped \"{}\" curve does not validate: {}", profile.name, e.to_string())
        });

        let points = curve.points();
        assert!(!points.is_empty(), "{} is empty", profile.name);
        assert!(
            points.last().is_some_and(|p| p.is_bios()),
            "{} does not hand back to the firmware at the top",
            profile.name
        );

        for point in points {
            assert_ne!(
                point.level,
                yamato::ec::FAN_DISENGAGED,
                "{} asks for the disengaged level",
                profile.name
            );
        }
    }
}

#[test]
fn upgrading_from_the_first_shape_gains_the_other_built_in_profiles() {
    // Version one shipped one profile, so the picker had one entry and
    // nothing to switch to. Anyone upgrading kept that file and concluded
    // profiles did not work.
    let mut old = Config::default();
    old.version = 1;
    old.profiles = vec![Profile::new("Balanced", &Curve::default())];

    old.migrate().expect("an old file should migrate, not be refused");

    let names: Vec<&str> = old.profiles.iter().map(|p| p.name.as_str()).collect();
    assert!(names.contains(&"Quiet"), "Quiet was not added");
    assert!(names.contains(&"Performance"), "Performance was not added");
    assert_eq!(old.version, SCHEMA_VERSION);
}

#[test]
fn a_profile_someone_named_themselves_is_not_overwritten_by_the_migration() {
    // Somebody's own curve called Quiet is theirs. Adding a built-in over
    // the top of it would replace tuning with a default and say nothing.
    let mine =
        Curve::new(vec![CurvePoint::new(70, 4), CurvePoint::new(85, yamato::ec::FAN_BIOS)])
            .unwrap();

    let mut old = Config::default();
    old.version = 1;
    old.profiles = vec![Profile::new("Quiet", &mine)];

    old.migrate().unwrap();

    let kept = old.profiles.iter().find(|p| p.name == "Quiet").unwrap();
    assert_eq!(kept.points.len(), 2, "the built-in replaced a user's curve");
    assert_eq!(kept.points[0].temp, 70, "the built-in replaced a user's curve");
}

#[test]
fn the_profiles_that_ship_are_named_and_recognized() {
    // The delete paths ask this to decide whether a profile may go, so a
    // name drifting apart from the curve it belongs to would quietly make
    // one of them deletable again.
    for name in built_in_profiles() {
        assert!(is_built_in(name));
        assert!(
            Config::default().profiles.iter().any(|p| p.name == name),
            "{name} is named as built in but is not one of the defaults"
        );
    }

    assert!(!is_built_in("Balanced 2"));
    assert!(!is_built_in(""));
}

#[test]
fn a_profile_with_no_points_at_all_ends_up_runnable() {
    // Nothing stored is not a level somebody chose, so there is nothing to
    // preserve and the baseline curve is the honest answer.
    let mut cfg = Config::default();
    cfg.version = 2;
    cfg.profiles = vec![Profile { name: "Empty".into(), points: Vec::new() }];

    cfg.migrate().unwrap();
    cfg.validate().expect("an empty profile must not fail the whole file either");

    let curve = cfg.profiles[0].to_curve().unwrap();
    assert_eq!(curve.points().len(), Curve::default().points().len());
}

#[test]
fn the_migration_runs_only_once() {
    // Deleting a built-in profile has to stick. If the migration ran on
    // every load it would come back.
    let mut config = Config::default();
    config.migrate().unwrap();
    config.profiles.retain(|p| p.name != "Quiet");

    config.migrate().unwrap();

    assert!(
        !config.profiles.iter().any(|p| p.name == "Quiet"),
        "a deleted profile came back"
    );
}

#[test]
fn the_profiles_are_ordered_by_how_loud_they_are() {
    // The names are a promise, and idle is where it is easiest to break.
    // Below its first step a curve holds that step's level, so a Quiet
    // profile whose lowest point is level 1 runs the fan on a cold machine
    // while Balanced sits silent. Comparing across the range catches that.
    let profiles = Config::default().profiles;
    let curve_named = |name: &str| {
        profiles
            .iter()
            .find(|p| p.name == name)
            .unwrap_or_else(|| panic!("{name} should be a default profile"))
            .to_curve()
            .unwrap_or_else(|_| panic!("{name} should be a valid curve"))
    };

    let quiet = curve_named("Quiet");
    let balanced = curve_named("Balanced");
    let performance = curve_named("Performance");

    // A fresh decision at each temperature, so hysteresis cannot mask a
    // difference by holding a level over from the step before.
    let level_at = |c: &Curve, t: i8| {
        let i = c.evaluate(t, None);
        c.points()[i].level
    };

    for temp in 20..=99i8 {
        let (q, b, p) = (
            level_at(&quiet, temp),
            level_at(&balanced, temp),
            level_at(&performance, temp),
        );

        // The firmware step is not a fan level and does not compare.
        if [q, b, p].iter().any(|l| *l == yamato::ec::FAN_BIOS) {
            continue;
        }

        assert!(q <= b, "Quiet is louder than Balanced at {temp}C");
        assert!(b <= p, "Balanced is louder than Performance at {temp}C");
    }
}

#[test]
fn the_baseline_profile_is_the_curve_that_has_always_shipped() {
    let cfg = Config::default();
    let balanced = cfg.profiles.iter().find(|p| p.name == "Balanced").unwrap();
    let shipped = Curve::default();

    assert_eq!(balanced.points.len(), shipped.points().len());
    for (stored, point) in balanced.points.iter().zip(shipped.points()) {
        assert_eq!(stored.temp, point.temp);
        assert_eq!(stored.level, point.level);
    }
}

#[test]
fn quiet_is_never_louder_than_balanced_once_the_fan_is_running() {
    // The point of the profile. Below Balanced's first step it is the
    // other way round by design, because Balanced stops the fan there and
    // Quiet does not.
    let cfg = Config::default();
    let quiet = cfg.profiles.iter().find(|p| p.name == "Quiet").unwrap().to_curve().unwrap();
    let balanced = Curve::default();
    let fast = cfg
        .profiles
        .iter()
        .find(|p| p.name == "Performance")
        .unwrap()
        .to_curve()
        .unwrap();

    // Firmware control is not a speed, so comparisons stop where it starts.
    let level = |c: &Curve, t: i8| c.level_at(c.evaluate(t, None));

    for temp in 52..=84 {
        let (q, b, p) = (level(&quiet, temp), level(&balanced, temp), level(&fast, temp));

        if q != yamato::ec::FAN_BIOS && b != yamato::ec::FAN_BIOS {
            assert!(q <= b, "quiet is louder than balanced at {temp} C");
        }
        if p != yamato::ec::FAN_BIOS && b != yamato::ec::FAN_BIOS {
            assert!(p >= b, "performance is quieter than balanced at {temp} C");
        }
    }
}

#[test]
fn logging_is_off_until_it_is_asked_for() {
    // Writing to the disk every few seconds is not something to start
    // doing because nobody said not to.
    assert!(!Config::default().log_enabled);
}

#[test]
fn the_log_size_is_kept_within_something_sane() {
    let mut cfg = Config::default();

    cfg.log_max_mb = 0; // would rotate on every line
    cfg.validate().unwrap();
    assert_eq!(cfg.log_max_mb, LOG_MAX_MB_MIN);

    cfg.log_max_mb = 100_000; // would fill the disk before rotating
    cfg.validate().unwrap();
    assert_eq!(cfg.log_max_mb, LOG_MAX_MB_MAX);
}

#[test]
fn the_published_bounds_are_the_ones_validation_applies() {
    // The tray and the settings window clamp against these before saving,
    // so if they ever stopped matching what the loader does, a control
    // would appear to set a value the engine never used.
    let mut cfg = Config {
        poll_secs: POLL_SECS_MAX + 1,
        standby_poll_secs: STANDBY_POLL_SECS_MIN - 1,
        ..Config::default()
    };
    cfg.validate().unwrap();

    assert_eq!(cfg.poll_secs, POLL_SECS_MAX);
    assert_eq!(cfg.standby_poll_secs, STANDBY_POLL_SECS_MIN);
    assert_eq!(
        cfg.watchdog_secs,
        cfg.watchdog_secs.max(watchdog_floor(cfg.poll_secs, cfg.standby_poll_secs))
    );
}

#[test]
fn the_manual_escape_cannot_be_switched_off_or_made_a_formality() {
    // This is what pulls the fan off a fixed level when the machine gets
    // hot with nobody watching. A hand-edited file does not get to remove
    // it by writing a large number, or make manual mode unusable with a
    // small one.
    let mut cfg = Config { manual_escape_c: 127, ..Config::default() };
    cfg.validate().unwrap();
    assert_eq!(cfg.manual_escape_c, MANUAL_ESCAPE_MAX);

    let mut cfg = Config { manual_escape_c: -40, ..Config::default() };
    cfg.validate().unwrap();
    assert_eq!(cfg.manual_escape_c, MANUAL_ESCAPE_MIN);

    assert_eq!(Config::default().manual_escape_c, yamato::engine::MANUAL_ESCAPE_C);
}

#[test]
fn hysteresis_is_clamped_in_both_directions_but_not_equally() {
    // Down is comfort: a generous one holds the fan higher for longer. Up
    // is safety: a generous one delays the fan on a machine that is
    // already climbing, so it gets much less room.
    let mut cfg = Config::default();
    cfg.profiles[0].points[0].hyst_up = 100;
    cfg.profiles[0].points[0].hyst_down = 100;
    cfg.validate().unwrap();

    assert_eq!(cfg.profiles[0].points[0].hyst_up, HYST_UP_MAX);
    assert_eq!(cfg.profiles[0].points[0].hyst_down, HYST_DOWN_MAX);
    assert!(
        cfg.profiles[0].points[0].hyst_up < cfg.profiles[0].points[0].hyst_down,
        "delaying a ramp is not as safe as delaying a drop"
    );

    let mut cfg = Config::default();
    cfg.profiles[0].points[0].hyst_up = -9;
    cfg.profiles[0].points[0].hyst_down = -9;
    cfg.validate().unwrap();

    assert_eq!(cfg.profiles[0].points[0].hyst_up, 0);
    assert_eq!(cfg.profiles[0].points[0].hyst_down, 0);
}

#[test]
fn everything_this_program_ships_is_inside_its_own_hysteresis_bounds() {
    for profile in Config::default().profiles {
        for point in profile.points {
            assert!(point.hyst_up <= HYST_UP_MAX, "{} climbs late", profile.name);
            assert!(point.hyst_down <= HYST_DOWN_MAX, "{} falls late", profile.name);
        }
    }
}

#[test]
fn the_tray_shows_numbers_unless_told_otherwise() {
    assert!(Config::default().tray_numbers);
}

#[test]
fn the_stored_layout_and_the_driven_layout_agree_both_ways() {
    // The conversion is the seam between the file and the hardware; a
    // crossed pair here would drive the wrong ports on exactly the
    // machines nobody debugging a config file can test.
    for layout in [EcLayout::Standard, EcLayout::Compat] {
        assert_eq!(EcLayout::from(yamato::pawnio::Layout::from(layout)), layout);
    }

    assert_eq!(yamato::pawnio::Layout::from(EcLayout::Compat), yamato::pawnio::Layout::Alternate);
}

#[test]
fn the_watchdog_floor_follows_the_slowest_poll() {
    // Standby is usually the slow one, but not always: someone who polls
    // every 60 seconds awake and every 5 asleep needs the same protection.
    assert_eq!(watchdog_floor(5, 30), 90);
    assert_eq!(watchdog_floor(60, 5), 180);
    // Reachable from a hand-edited file, and a wrap here would leave the
    // watchdog firing on the first tick.
    assert_eq!(watchdog_floor(u32::MAX, 1), u32::MAX);
}

#[test]
fn a_missing_file_is_a_first_run_not_a_failure() {
    let cfg = Config::load(Stored::Missing).unwrap();
    assert_eq!(cfg.version, SCHEMA_VERSION);
    assert!(!cfg.profiles.is_empty());
}

#[test]
fn a_byte_order_mark_is_taken_off_and_nothing_else_is() {
    assert_eq!(strip_mark("\u{feff}{\"poll_secs\": 9}"), "{\"poll_secs\": 9}");
    assert_eq!(strip_mark("{}"), "{}");
    assert_eq!(strip_mark(""), "");
    assert_eq!(strip_mark("{\u{feff}}"), "{\u{feff}}");
}

#[test]
fn a_stored_curve_that_broke_the_rules_is_reported_not_repaired() {
    // 0x40 disengages the fan governor. Even from disk, it is refused.
    let file = stored(1, vec![point(90, 64, 0, 4)]);
    match Config::load(Stored::Parsed(file)) {
        Err(ConfigError::Curve { profile, .. }) => assert_eq!(profile, "X"),
        other => panic!("expected a curve error, got {other:?}"),
    }
}

#[test]
fn a_newer_schema_is_refused_rather_than_guessed_at() {
    let file = stored(99, vec![point(50, 1, 0, 4), point(88, 128, 0, 5)]);
    match Config::load(Stored::Parsed(file)) {
        Err(e) => {
            assert!(matches!(e, ConfigError::FromTheFuture { found: 99, .. }));
            assert_eq!(
                e.to_string(),
                "the settings file is version 99, but this build only understands 3. \
                 Install a newer Yamato, or move the file aside to start fresh."
            );
        }
        Ok(_) => panic!("a newer file was accepted"),
    }
}

#[test]
fn a_file_that_cannot_be_used_says_which_way() {
    let e = Config::load(Stored::Unreadable("access denied".to_string())).unwrap_err();
    assert!(matches!(e, ConfigError::Io(_)));
    assert_eq!(e.to_string(), "could not read or write the settings file: access denied");
    let e = Config::load(Stored::Garbled("line 1".to_string())).unwrap_err();
    assert!(matches!(e, ConfigError::Parse(_)));
    assert_eq!(e.to_string(), "the settings file is not valid JSON: line 1");
}

#[test]
fn a_profile_left_with_one_point_does_not_cost_the_user_the_whole_file() {
    let file = Config {
        version: 2,
        poll_secs: 9,
        watchdog_secs: 30,
        startup_mode: StartupMode::Bios,
        active_profile: "Mine".to_string(),
        ignored_sensors: vec![3],
        standby_poll_secs: 45,
        fahrenheit: true,
        profiles: vec![
            Profile {
                name: "Mine".to_string(),
                points: vec![point(50, 1, 0, 4), point(88, 128, 0, 5)],
            },
            Profile { name: "Old".to_string(), points: vec![point(60, 3, 0, 4)] },
        ],
        ..Config::default()
    };

    let cfg = Config::load(Stored::Parsed(file))
        .expect("one short curve must not cost the whole file");

    // Everything else is still theirs.
    assert_eq!(cfg.poll_secs, 9);
    assert_eq!(cfg.standby_poll_secs, 45);
    assert_eq!(cfg.startup_mode, StartupMode::Bios);
    assert_eq!(cfg.active_profile, "Mine");
    assert_eq!(cfg.ignored_sensors, vec![3usize]);
    assert!(cfg.fahrenheit);
    assert_eq!(cfg.profiles.len(), 2);

    // And the short one is a curve now: the level they chose, kept, with a
    // hotter step handing the fan back to the firmware above it.
    let repaired = cfg.profiles.iter().find(|p| p.name == "Old").unwrap();
    assert_eq!(repaired.points.len(), 2);
    assert_eq!(repaired.points[0].temp, 60);
    assert_eq!(repaired.points[0].level, 3);
    assert!(repaired.points[1].temp > repaired.points[0].temp);
    assert_eq!(repaired.points[1].level, yamato::ec::FAN_BIOS);
    repaired.to_curve().expect("the repaired profile must be a curve the engine accepts");
}

#[test]
fn a_lone_point_at_the_very_top_still_gets_a_step_above_it() {
    let file = Config {
        version: 2,
        profiles: vec![Profile { name: "Hot".to_string(), points: vec![point(127, 5, 0, 4)] }],
        ..Config::default()
    };
    let cfg = Config::load(Stored::Parsed(file)).unwrap();
    assert_eq!(cfg.profiles[0].points[0].temp, 126);
    assert_eq!(cfg.profiles[0].points[1].temp, 127);
    assert_eq!(cfg.profiles[0].points[1].level, yamato::ec::FAN_BIOS);
}

#[test]
fn a_curve_that_is_wrong_in_some_other_way_is_still_reported_not_repaired() {
    let file = stored(2, vec![point(60, 4, 0, 4), point(80, 1, 0, 4)]);
    match Config::load(Stored::Parsed(file)) {
        Err(ConfigError::Curve { profile, source }) => {
            assert_eq!(profile, "X");
            assert_eq!(source, CurveError::Backwards { index: 1 });
        }
        other => panic!("expected a curve error, got {other:?}"),
    }
}

#[test]
fn what_a_file_does_not_say_is_taken_from_the_defaults() {
    assert!(!Config::default().single_fan);
    assert_eq!(Config::default().ec_layout, None);
    assert_eq!(default_log_max_mb(), 8);
    assert_eq!(Config::default().log_max_mb, default_log_max_mb());
    assert_eq!(Config::default().standby_poll_secs, 30);
}

#[test]
fn a_sensor_that_is_not_there_is_not_shown() {
    let mut cfg = Config::default();
    cfg.tray_sensor = Some(12);
    cfg.validate().unwrap();
    assert_eq!(cfg.tray_sensor, None);
    cfg.tray_sensor = Some(11);
    cfg.validate().unwrap();
    assert_eq!(cfg.tray_sensor, Some(11));
}

#[test]
fn settings_live_under_the_shared_folder() {
    assert_eq!(
        Config::default_path(Some("D:\\Data")),
        "D:\\Data\\Yamato\\config.json"
    );
    assert_eq!(Config::default_path(None), "C:\\ProgramData\\Yamato\\config.json");
    assert_eq!(
        Config::temporary_path("C:\\ProgramData\\Yamato\\config.json"),
        "C:\\ProgramData\\Yamato\\config.json.new"
    );
}

#[test]
fn validating_twice_changes_nothing_more() {
    let mut cfg = Config::default();
    cfg.poll_secs = 500;
    cfg.watchdog_secs = 0;
    cfg.validate().unwrap();
    let (poll, watchdog) = (cfg.poll_secs, cfg.watchdog_secs);
    cfg.validate().unwrap();
    assert_eq!((cfg.poll_secs, cfg.watchdog_secs), (poll, watchdog));
    assert_eq!(poll, POLL_SECS_MAX);
}
