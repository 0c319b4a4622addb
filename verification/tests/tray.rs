use yamato::config::{Config, Profile, Stored};
use yamato::curve::{Curve, CurvePoint};
use yamato::ec::{FAN_BIOS, FAN_LEVEL_MAX};
use yamato::importing;
use yamato::importing::{
    chooser_failed, could_not_read, curves_in_text, numbered_name, offered_name, read_curves,
    ImportAsk, ImportHeard, ImportRun, FILTER,
};
use yamato::ipc;
use yamato::ipc::{Sample, Shared, SENSOR_COUNT, SINGLE_FAN_HINT};
use yamato::menu;
use yamato::menu::{
    leave, live_profile, offer_pawnio, on_command, run_elevated, service_command,
    start_service_if_stopped, track_menu, Action, DriverStep, Entry, LaunchStep, Leaf, LeaveStep,
    MenuSees, Offer, ServiceStep, Verb, ID_ABOUT, ID_EXIT, ID_LOGGING, ID_LOG_FOLDER, ID_MANUAL_BASE,
    ID_MODE_BIOS, ID_MODE_SMART, ID_PAWNIO, ID_PROFILE_BASE, ID_PROF_DELETE, ID_SETTINGS,
    ID_STARTUP, ID_SVC_INSTALL, ID_SVC_STOP, ID_TRAY_NUMBERS, ID_TRAY_SENSOR_BASE, ID_UNITS,
};
use yamato::pawnio_status::Missing;
use yamato::profiles::{
    add_profile_from_curve, apply_profile_action, name_fits, next_profile, profile_question,
    switch_profile, switch_saved, written, ProfileAction, Question, Switch,
};
use yamato::prompt::Area;
use yamato::service::Guid;
use yamato::theme::{COOL_HEX, HOT_AT, HOT_HEX, IDLE_HEX, WARM_AT, WARM_HEX};
use yamato::tray::{
    alone, band_color, change_setting, icon_dpi, icon_size, suggest_single_fan, tip_field,
    Followed, Setting, SettingsStep, Tray, WindowSeen, SERVICE_RUNNING,
};
use yamato::window::{
    on_display_state, wnd_proc, Message, Pauses, Wanted, HOTKEY_BIOS, HOTKEY_PROFILE,
    HOTKEY_SMART, REFRESH_MS, REFRESH_MS_DARK, WM_DESTROY, WM_HOTKEY, WM_POWERBROADCAST, WM_TIMER,
    WM_TRAY,
};

fn names() -> Vec<String> {
    ["CPU", "APS", "PCM", "GPU", "BAT", "X7D", "BAT", "X7F", "BUS", "PCI", "PWR", "XC3"]
        .iter()
        .map(|s| s.to_string())
        .collect()
}

fn block(temp: i8) -> Shared {
    let mut sensors = [None; SENSOR_COUNT];
    sensors[0] = Some(temp);
    sensors[3] = Some(44);
    let mut block = Shared::zeroed();
    block.publish(
        &Sample {
            fan_ctrl: 3,
            mode: ipc::MODE_SMART,
            hottest: Some((0, temp)),
            fan_rpm: [2100, 0],
            sensors,
            fault: false,
            status: ipc::STATUS_OK,
            fan_write_declined: false,
            publish_secs: 5,
        },
        "Balanced",
    );
    block
}

#[test]
fn thermal_bands_are_ordered() {
    assert!(WARM_AT < HOT_AT);
    assert_eq!(band_color(0), COOL_HEX);
    assert_eq!(band_color(1), WARM_HEX);
    assert_eq!(band_color(2), HOT_HEX);
    assert_eq!(band_color(3), IDLE_HEX);
    assert_eq!(band_color(200), IDLE_HEX);
}

#[test]
fn the_single_fan_hint_demands_the_whole_signature() {
    // Declined writes, a second fan that has never spun, and the setting not
    // already on: only all three together.
    assert!(suggest_single_fan(true, false, false));

    // One revolution of fan 2 is proof of a dual-fan machine, and the hint
    // must never appear on one.
    assert!(!suggest_single_fan(true, true, false));

    // A controller that is not declining, whether healthy or simply not
    // answering, is not this problem.
    assert!(!suggest_single_fan(false, false, false));

    // Advice already taken is noise.
    assert!(!suggest_single_fan(true, false, true));
}

#[test]
fn a_hotkey_arriving_while_something_modal_is_open_is_turned_away() {
    for msg in [WM_HOTKEY, WM_TIMER, WM_TRAY, 0x0111, 0xc123] {
        let m = Message { msg, wparam: 1, lparam: 0x0205 };
        assert_eq!(wnd_proc(&m, true, 0xc123, 1), Wanted::Nothing, "{msg:#x} got through");
        assert_ne!(wnd_proc(&m, true, 0xc123, 0), Wanted::Nothing, "{msg:#x} was turned away");
    }
}

#[test]
fn no_hotkey_asks_for_a_fixed_fan_level() {
    // Choosing a level takes the firmware out of the loop, and a chord is a
    // thing that gets pressed by accident, or leant on.
    for id in [HOTKEY_BIOS, HOTKEY_SMART, HOTKEY_PROFILE] {
        assert!(!(ID_MANUAL_BASE..ID_MANUAL_BASE + 8).contains(&(id as usize)));
    }
    assert_eq!([HOTKEY_BIOS, HOTKEY_SMART, HOTKEY_PROFILE].len(), 3);

    let press = |id: i32| {
        wnd_proc(&Message { msg: WM_HOTKEY, wparam: id as u64, lparam: 0 }, true, 0, 0)
    };
    assert_eq!(press(HOTKEY_BIOS), Wanted::Command(ID_MODE_BIOS));
    assert_eq!(press(HOTKEY_SMART), Wanted::Command(ID_MODE_SMART));
    assert_eq!(press(HOTKEY_PROFILE), Wanted::CycleProfile);
    assert_eq!(press(4), Wanted::Nothing);
}

#[test]
fn profile_ids_cannot_collide_with_fixed_commands() {
    for id in [
        ID_MODE_BIOS,
        ID_SETTINGS,
        ID_SVC_INSTALL,
        ID_STARTUP,
        ID_LOGGING,
        ID_LOG_FOLDER,
        ID_EXIT,
        ID_PAWNIO,
        ID_TRAY_NUMBERS,
        ID_ABOUT,
        ID_MANUAL_BASE + FAN_LEVEL_MAX as usize - 1,
        ID_TRAY_SENSOR_BASE + SENSOR_COUNT,
    ] {
        assert!(id < ID_PROFILE_BASE);
    }
}

#[test]
fn the_sensor_ids_sit_clear_of_the_ranges_on_either_side() {
    assert!(ID_MANUAL_BASE + FAN_LEVEL_MAX as usize <= ID_TRAY_SENSOR_BASE);
    assert!(ID_TRAY_SENSOR_BASE + SENSOR_COUNT < ID_PROFILE_BASE);
}

#[test]
fn the_menu_hands_its_choice_back_instead_of_posting_it() {
    // Whatever the menu shows, choosing it comes back as one id, and that id
    // says what to do.
    let mut tray = Tray::new();
    tray.set_profiles(vec!["Quiet".to_string(), "Mine".to_string()]);
    match on_command(&mut tray, ID_PROFILE_BASE + 1) {
        Action::SwitchProfile(name) => assert_eq!(name, "Mine"),
        other => panic!("{other:?}"),
    }
    assert!(matches!(on_command(&mut tray, ID_PROFILE_BASE + 2), Action::Nothing));
    assert!(matches!(
        on_command(&mut tray, ID_MANUAL_BASE),
        Action::Post { mode: ipc::MODE_MANUAL, level: 1 }
    ));
    assert!(matches!(
        on_command(&mut tray, ID_MANUAL_BASE + 6),
        Action::Post { mode: ipc::MODE_MANUAL, level: 7 }
    ));
    assert!(matches!(on_command(&mut tray, ID_MANUAL_BASE + 7), Action::Nothing));
    assert!(matches!(
        on_command(&mut tray, ID_TRAY_SENSOR_BASE),
        Action::Change(Setting::Sensor(None))
    ));
    assert!(matches!(
        on_command(&mut tray, ID_TRAY_SENSOR_BASE + 12),
        Action::Change(Setting::Sensor(Some(11)))
    ));
    assert!(matches!(on_command(&mut tray, ID_UNITS), Action::Change(Setting::Units)));
    assert!(matches!(on_command(&mut tray, ID_EXIT), Action::Exit { .. }));
    assert!(matches!(on_command(&mut tray, 1), Action::Nothing));
}

#[test]
fn the_tip_names_everything_it_shows() {
    let mut tray = Tray::new();
    let picture = tray.refresh(Some(&block(61)), &names()).expect("a live engine");
    assert_eq!(picture.tip, "Yamato  61\u{b0}C (hottest)\nSmart  level 3  Balanced\n2100 rpm");
    assert_eq!(picture.band, 0);
    assert_eq!(picture.reading, Some(61));

    let mut config = Config::default();
    config.fahrenheit = true;
    config.tray_sensor = Some(3);
    tray.reload_settings(Stored::Parsed(config));
    let mut shared = block(90);
    shared.state_seq = 9;
    shared.fan_ctrl = FAN_BIOS;
    shared.fan_rpm = [2100, 1900];
    let picture = tray.refresh(Some(&shared), &names()).unwrap();
    assert_eq!(
        picture.tip,
        "Yamato  111\u{b0}F (GPU)\nSmart  firmware  Balanced\n2100 / 1900 rpm"
    );
    // The color follows the reading that is shown.
    assert_eq!(picture.band, 0);
    shared.fan_ctrl = 0x40;
    shared.state_seq = 10;
    let picture = tray.refresh(Some(&shared), &names()).unwrap();
    assert!(picture.tip.contains("  0x40  "), "{}", picture.tip);
}

#[test]
fn a_sensor_gone_quiet_gives_way_to_the_hottest() {
    let mut tray = Tray::new();
    let mut config = Config::default();
    config.tray_sensor = Some(1);
    tray.reload_settings(Stored::Parsed(config));
    let picture = tray.refresh(Some(&block(86)), &names()).unwrap();
    assert!(picture.tip.contains("(hottest)"));
    assert_eq!(picture.band, 2);
}

#[test]
fn trouble_outranks_the_reading_and_the_hint_outranks_the_detail() {
    let mut tray = Tray::new();
    let mut shared = block(61);
    shared.status = ipc::STATUS_SURRENDERED;
    shared.fault = 1;
    let picture = tray.refresh(Some(&shared), &names()).unwrap();
    assert_eq!(picture.band, 3);
    assert_eq!(picture.reading, None);
    assert_eq!(
        picture.tip,
        "Yamato\nThe firmware has the fan\nYamato stepped aside after a fault; the curve returns shortly."
    );
    shared.fan_write_declined = 1;
    shared.state_seq = 2;
    let picture = tray.refresh(Some(&shared), &names()).unwrap();
    assert!(picture.tip.ends_with(SINGLE_FAN_HINT));
    // One revolution of the second fan, and the hint is gone for good.
    shared.fan_rpm[1] = 1;
    shared.state_seq = 3;
    assert!(!tray.refresh(Some(&shared), &names()).unwrap().tip.ends_with(SINGLE_FAN_HINT));
    shared.fan_rpm[1] = 0;
    shared.state_seq = 4;
    assert!(!tray.refresh(Some(&shared), &names()).unwrap().tip.ends_with(SINGLE_FAN_HINT));
    assert!(!tray.readout(Some(&shared)).single_fan_hint);
}

#[test]
fn an_engine_that_stops_writing_is_noticed() {
    let mut tray = Tray::new();
    let mut shared = block(61);
    assert!(tray.refresh(Some(&shared), &names()).is_some());
    // Five seconds and a margin of three: the eighth still look is one too
    // many.
    for _ in 0..7 {
        assert!(tray.refresh(Some(&shared), &names()).is_some());
    }
    assert!(tray.refresh(Some(&shared), &names()).is_none());
    // It writes again, and is believed again.
    shared.state_seq += 1;
    assert!(tray.refresh(Some(&shared), &names()).is_some());
    // An absurd interval does not buy it hours.
    shared.publish_secs = 65_000;
    let mut looks = 0;
    while tray.refresh(Some(&shared), &names()).is_some() {
        looks += 1;
        assert!(looks < 200);
    }
    assert_eq!(looks, 122);
    assert!(tray.refresh(None, &names()).is_none());
}

#[test]
fn with_no_engine_the_tip_says_what_to_do() {
    let tip = |missing: Missing, state: i32| alone(&missing, state).tip;
    assert_eq!(
        tip(Missing::Nothing, -1),
        "Yamato\nNot controlling the fan\nNo engine installed. Right-click to install the service."
    );
    assert!(tip(Missing::Nothing, 1).ends_with("The service is stopped. Right-click to start it."));
    assert!(tip(Missing::Nothing, SERVICE_RUNNING).contains("Starting up"));
    assert!(tip(Missing::Driver, 1).ends_with("PawnIO is not installed. Right-click to fix it."));
    for missing in [Missing::Driver, Missing::Module("x".to_string()), Missing::Nothing] {
        for state in [-1, 1, 4] {
            assert!(alone(&missing, state).tip.encode_utf16().count() < 128);
        }
    }
}

#[test]
fn a_tip_that_is_too_long_is_cut_and_closed() {
    let short = tip_field("ab");
    assert_eq!(short, vec![0x61, 0x62, 0, 0]);
    let long = tip_field(&"x".repeat(500));
    assert_eq!(long.len(), 128);
    assert_eq!(long[126], b'x' as u16);
    assert_eq!(long[127], 0);
}

#[test]
fn an_icon_is_redrawn_only_when_it_would_look_different() {
    let mut tray = Tray::new();
    let picture = tray.refresh(Some(&block(61)), &names()).unwrap();
    let drawn = tray.redraw(16, &picture).expect("nothing was drawn yet");
    assert_eq!((drawn.size, drawn.band, drawn.number), (16, 0, Some(61)));
    tray.drew(drawn);
    assert!(tray.redraw(16, &picture).is_none());
    assert!(tray.redraw(24, &picture).is_some());
    // Stopping the service asks for a redraw.
    on_command(&mut tray, ID_SVC_STOP);
    assert!(tray.redraw(16, &picture).is_some());

    let mut config = Config::default();
    config.tray_numbers = false;
    tray.reload_settings(Stored::Parsed(config));
    assert_eq!(tray.redraw(16, &picture).unwrap().number, None);
    assert_eq!(icon_size(12), 16);
    assert_eq!(icon_size(24), 24);
    assert_eq!(icon_dpi(96, 144), Some(144));
    assert_eq!(icon_dpi(0, 0), None);
}

#[test]
fn the_settings_window_gets_the_whole_sample() {
    let tray = Tray::new();
    let readout = tray.readout(Some(&block(61)));
    assert_eq!(readout.sensors[0], Some(61));
    assert_eq!(readout.sensors[1], None);
    assert_eq!(readout.hottest, Some((0, 61)));
    assert_eq!(readout.mode, "Smart");
    assert_eq!(readout.profile, "Balanced");
    let nothing = tray.readout(None);
    assert!(nothing.fault);
    assert_eq!(nothing.hottest, None);
    let mut blind = block(0);
    blind.fault = 1;
    assert_eq!(tray.readout(Some(&blind)).hottest, None);
}

#[test]
fn a_setting_is_saved_before_it_is_shown() {
    let mut tray = Tray::new();
    let config = change_setting(Setting::Units, Stored::Missing).unwrap();
    assert!(config.fahrenheit);
    assert!(matches!(tray.setting_saved(Setting::Units, &config, false), Followed::Nothing));
    assert!(!tray.prefs.fahrenheit);
    assert!(matches!(tray.setting_saved(Setting::Units, &config, true), Followed::Refresh));
    assert!(tray.prefs.fahrenheit);

    let config = change_setting(Setting::Sensor(Some(3)), Stored::Missing).unwrap();
    assert!(matches!(
        tray.setting_saved(Setting::Sensor(Some(3)), &config, false),
        Followed::Say("Yamato could not save its settings file.")
    ));
    tray.setting_saved(Setting::Sensor(Some(3)), &config, true);
    assert_eq!(tray.prefs.tray_sensor, Some(3));

    let unreadable = || Stored::Unreadable("denied".to_string());
    assert!(matches!(change_setting(Setting::Logging, unreadable()), Err(None)));
    assert!(matches!(change_setting(Setting::Sensor(None), unreadable()), Err(Some(_))));
}

#[test]
fn the_settings_window_is_shown_again_or_built_again() {
    let mut tray = Tray::new();
    let seen = |exists, visible, iconic| WindowSeen {
        exists,
        visible,
        iconic,
        at: Some(Area { left: 10, top: 20, right: 310, bottom: 220 }),
    };
    assert_eq!(tray.open_settings(None), SettingsStep::Build);
    assert_eq!(tray.open_settings(Some(seen(false, false, false))), SettingsStep::Build);
    assert_eq!(tray.open_settings(Some(seen(true, false, false))), SettingsStep::Show);
    assert_eq!(tray.open_settings(Some(seen(true, true, true))), SettingsStep::Restore);
    assert_eq!(tray.toggle_settings(Some(seen(true, true, false))), SettingsStep::Close);
    assert_eq!(tray.settings_rect, Some((10, 20, 300, 200)));
    assert_eq!(tray.toggle_settings(Some(seen(true, false, false))), SettingsStep::Show);
}

fn labels(menu: &Vec<Entry>) -> Vec<String> {
    menu.iter()
        .filter_map(|e| match e {
            Entry::Item(item) => Some(item.label.clone()),
            Entry::Menu { label, .. } => Some(label.to_string()),
            Entry::Separator => None,
        })
        .collect()
}

#[test]
fn the_menu_reflects_what_is_there() {
    let mut tray = Tray::new();
    tray.set_profiles(vec!["Quiet".to_string(), "Balanced".to_string(), "Mine".to_string()]);
    let sensors = names();
    let sees = MenuSees {
        sensors: &sensors,
        missing: &Missing::Nothing,
        service: SERVICE_RUNNING,
        another_tool: true,
        starts_with_windows: true,
    };
    let shared = block(61);
    let menu = track_menu(&tray, &sees, Some(&shared));
    assert_eq!(
        labels(&menu),
        vec![
            "BIOS control",
            "Smart",
            "Manual",
            "Profile",
            "Quiet",
            "Balanced",
            "Mine",
            "Manage profiles",
            "Settings and fan curve...",
            "TPFanControl is running - close it, they will fight",
            "PawnIO driver...",
            "Stop service",
            "Uninstall service",
            "Fahrenheit",
            "Temperature in the tray icon",
            "Tray shows",
            "Start with Windows",
            "Log temperatures",
            "Open log folder",
            "About Yamato...",
            "Exit and stop controlling the fan",
        ]
    );
    match &menu[1] {
        Entry::Item(item) => {
            assert!(item.checked);
            assert_eq!(item.offer, Offer::Open);
            assert_eq!(item.id, ID_MODE_SMART);
        }
        other => panic!("{other:?}"),
    }
    for entry in &menu {
        if let Entry::Menu { label: "Manage profiles", lines, .. } = entry {
            // The running profile is one that ships, so it cannot be deleted.
            match &lines[4] {
                Leaf::Item(item) => {
                    assert_eq!(item.id, ID_PROF_DELETE);
                    assert_eq!(item.offer, Offer::Grayed);
                }
                other => panic!("{other:?}"),
            }
        }
        if let Entry::Menu { label: "Tray shows", lines, .. } = entry {
            assert_eq!(lines.len(), 14);
            match &lines[2] {
                Leaf::Item(item) => assert_eq!(item.label, "CPU  61\u{b0}C"),
                other => panic!("{other:?}"),
            }
            match &lines[3] {
                Leaf::Item(item) => {
                    assert_eq!(item.label, "APS  --");
                    assert_eq!(item.offer, Offer::Grayed);
                }
                other => panic!("{other:?}"),
            }
        }
    }
}

#[test]
fn without_an_engine_a_mode_cannot_be_asked_for() {
    let tray = Tray::new();
    let sensors = names();
    let sees = MenuSees {
        sensors: &sensors,
        missing: &Missing::Driver,
        service: -1,
        another_tool: false,
        starts_with_windows: false,
    };
    let menu = track_menu(&tray, &sees, None);
    match &menu[0] {
        Entry::Item(item) => assert_eq!(item.offer, Offer::Grayed),
        other => panic!("{other:?}"),
    }
    let labels = labels(&menu);
    assert!(labels.contains(&"Yamato needs PawnIO - click to fix".to_string()));
    assert!(labels.contains(&"Install service".to_string()));
    assert!(!labels.contains(&"Profile".to_string()));
}

#[test]
fn a_held_level_is_ticked_and_an_escaped_one_is_not() {
    let tray = Tray::new();
    let sensors = names();
    let sees = MenuSees {
        sensors: &sensors,
        missing: &Missing::Nothing,
        service: 1,
        another_tool: false,
        starts_with_windows: false,
    };
    let ticked = |shared: &Shared| -> Vec<String> {
        let menu = track_menu(&tray, &sees, Some(shared));
        match &menu[2] {
            Entry::Menu { lines, .. } => lines
                .iter()
                .filter_map(|l| match l {
                    Leaf::Item(item) if item.checked => Some(item.label.clone()),
                    _ => None,
                })
                .collect(),
            other => panic!("{other:?}"),
        }
    };
    let mut shared = block(61);
    shared.mode = ipc::MODE_MANUAL;
    assert_eq!(ticked(&shared), vec!["Level 3"]);
    shared.fan_ctrl = FAN_BIOS;
    assert!(ticked(&shared).is_empty());
}

#[test]
fn the_service_is_asked_directly_first() {
    assert_eq!(service_command(Verb::Stop, None, None), ServiceStep::Directly);
    assert_eq!(service_command(Verb::Stop, Some(true), None), ServiceStep::Done);
    assert_eq!(service_command(Verb::Stop, Some(false), None), ServiceStep::Elevated);
    assert_eq!(service_command(Verb::Stop, Some(false), Some(false)), ServiceStep::Say);
    assert_eq!(service_command(Verb::Install, None, None), ServiceStep::Elevated);
    assert_eq!(service_command(Verb::Install, None, Some(true)), ServiceStep::Done);
    assert_eq!(Verb::Start.argument(), "--start-service");
    assert_eq!(start_service_if_stopped(-1, None, None), LaunchStep::Tried(false));
    assert_eq!(start_service_if_stopped(SERVICE_RUNNING, None, None), LaunchStep::Tried(false));
    assert_eq!(start_service_if_stopped(1, None, None), LaunchStep::Directly);
    assert_eq!(start_service_if_stopped(1, Some(false), None), LaunchStep::Elevated);
    assert_eq!(start_service_if_stopped(1, Some(false), Some(true)), LaunchStep::Tried(true));
    assert!(!run_elevated(false, true, Some(0)));
    assert!(run_elevated(true, false, None));
    assert!(run_elevated(true, true, Some(0)));
    assert!(!run_elevated(true, true, Some(1)));
    assert!(!run_elevated(true, true, None));
}

#[test]
fn a_missing_module_is_said_and_a_missing_driver_is_asked_about() {
    assert!(matches!(offer_pawnio(&Missing::Module("x".to_string())), DriverStep::Say(_)));
    assert!(matches!(offer_pawnio(&Missing::Driver), DriverStep::AskWhetherToOpen(_)));
    assert!(matches!(offer_pawnio(&Missing::Nothing), DriverStep::AskWhetherToOpen(_)));
}

#[test]
fn what_is_posted_keeps_the_profile_and_what_is_announced_keeps_the_mode() {
    let mut shared = block(61);
    menu::post(&mut shared, ipc::MODE_MANUAL, 4);
    assert_eq!((shared.cmd_mode, shared.cmd_level), (ipc::MODE_MANUAL, 4));
    assert_eq!(shared.read_cmd_profile(), "Balanced");
    menu::announce(&mut shared, "Quiet");
    assert_eq!((shared.cmd_mode, shared.cmd_level), (ipc::MODE_KEEP, 0));
    assert_eq!(shared.read_cmd_profile(), "Quiet");
    assert_eq!(shared.cmd_seq, 2);
    assert_eq!(live_profile(Some(&shared), "Mine"), "Balanced");
    assert_eq!(live_profile(None, "Mine"), "Mine");
}

#[test]
fn the_tray_looks_less_often_in_the_dark() {
    let display = Guid { data1: 1, data2: 2, data3: 3, data4: [4; 8] };
    let other = Guid { data1: 9, ..display };
    let changed = 0x8013;
    assert_eq!(
        on_display_state(changed, Some(&display), &display, Some(0)),
        Some(REFRESH_MS_DARK)
    );
    assert_eq!(on_display_state(changed, Some(&display), &display, Some(2)), Some(REFRESH_MS));
    assert_eq!(on_display_state(changed, Some(&other), &display, Some(0)), None);
    assert_eq!(on_display_state(changed, Some(&display), &display, None), None);
    assert_eq!(on_display_state(4, Some(&display), &display, Some(0)), None);
    assert_eq!(on_display_state(changed, None, &display, Some(0)), None);

    let mut pauses = Pauses::new();
    pauses.pause();
    pauses.pause();
    pauses.look_every(REFRESH_MS_DARK);
    assert_eq!(pauses.resume(), REFRESH_MS_DARK);
    assert_eq!(pauses.depth, 1);
}

#[test]
fn a_message_asks_for_what_it_says() {
    let want = |msg, wparam, lparam| wnd_proc(&Message { msg, wparam, lparam }, true, 0xc123, 0);
    assert_eq!(want(WM_POWERBROADCAST, 0, 0), Wanted::DisplayState);
    assert_eq!(want(WM_TIMER, 1, 0), Wanted::Refresh);
    assert_eq!(want(WM_TIMER, 2, 0), Wanted::Default);
    assert_eq!(want(WM_TRAY, 0, 0x0205), Wanted::ShowMenu);
    assert_eq!(want(WM_TRAY, 0, 0x7b), Wanted::ShowMenu);
    assert_eq!(want(WM_TRAY, 0, 0x0202), Wanted::ToggleSettings);
    assert_eq!(want(WM_TRAY, 0, 0x0203), Wanted::Command(ID_SETTINGS));
    assert_eq!(want(WM_TRAY, 0, 0x0200), Wanted::Nothing);
    assert_eq!(want(WM_TRAY, 0, -0x1_0000_0000 + 0x0205), Wanted::ShowMenu);
    assert_eq!(want(0x0111, 0x7_0065, 0), Wanted::Command(101));
    assert_eq!(want(0xc123, 0, 0), Wanted::AddIcon);
    assert_eq!(want(WM_DESTROY, 0, 0), Wanted::Quit);
    let early = Message { msg: WM_TRAY, wparam: 0, lparam: 0x0205 };
    assert_eq!(wnd_proc(&early, false, 0xc123, 0), Wanted::Default);
}

fn mine() -> Config {
    let mut config = Config::default();
    config.profiles.push(Profile::new("Mine", &Curve::default()));
    config
}

fn names_in(config: &Config) -> Vec<&str> {
    config.profiles.iter().map(|p| p.name.as_str()).collect()
}

#[test]
fn a_profile_is_created_from_the_live_one() {
    let after =
        apply_profile_action(ProfileAction::New, "Quiet", "Silent", Stored::Missing).unwrap();
    assert_eq!(names_in(&after), vec!["Quiet", "Balanced", "Performance", "Silent"]);
    assert_eq!(after.active_profile, "Silent");
    assert_eq!(after.profiles[3].points.len(), after.profiles[0].points.len());
    assert_eq!(
        apply_profile_action(ProfileAction::Duplicate, "Quiet", "Quiet", Stored::Missing)
            .unwrap_err(),
        "A profile with that name already exists."
    );
    assert_eq!(
        apply_profile_action(ProfileAction::New, "Gone", "Silent", Stored::Missing).unwrap_err(),
        "Yamato could not find the current profile."
    );
}

#[test]
fn a_rename_follows_the_active_profile() {
    let mut config = mine();
    config.active_profile = "Mine".to_string();
    let after =
        apply_profile_action(ProfileAction::Rename, "Mine", "Ours", Stored::Parsed(config))
            .unwrap();
    assert_eq!(after.active_profile, "Ours");
    assert_eq!(after.profiles[3].name, "Ours");
    // Under its own name it is no change, and under another's it is refused.
    assert!(
        apply_profile_action(ProfileAction::Rename, "Mine", "Mine", Stored::Parsed(mine())).is_ok()
    );
    assert!(
        apply_profile_action(ProfileAction::Rename, "Mine", "Quiet", Stored::Parsed(mine()))
            .is_err()
    );
}

#[test]
fn the_built_ins_and_the_last_profile_stay() {
    assert_eq!(
        apply_profile_action(ProfileAction::Delete, "Quiet", "Quiet", Stored::Missing).unwrap_err(),
        "The built-in profiles cannot be deleted. You can edit one instead."
    );
    let after =
        apply_profile_action(ProfileAction::Delete, "Mine", "Mine", Stored::Parsed(mine()))
            .unwrap();
    assert_eq!(names_in(&after), vec!["Quiet", "Balanced", "Performance"]);
    assert_eq!(after.active_profile, "Performance");

    let mut lone = Config::default();
    lone.profiles = vec![Profile::new("Mine", &Curve::default())];
    lone.active_profile = "Mine".to_string();
    assert_eq!(
        apply_profile_action(ProfileAction::Delete, "Mine", "Mine", Stored::Parsed(lone))
            .unwrap_err(),
        "The last profile cannot be deleted."
    );
}

#[test]
fn a_name_too_long_for_the_channel_is_refused() {
    let long = "x".repeat(64);
    assert!(!name_fits(&long));
    assert!(name_fits(&"x".repeat(63)));
    assert!(!name_fits(&"\u{e9}".repeat(32)));
    assert_eq!(
        apply_profile_action(ProfileAction::New, "Quiet", &long, Stored::Missing).unwrap_err(),
        "That name is too long. Please use a shorter one."
    );
    let unreadable = Stored::Unreadable("denied".to_string());
    assert_eq!(
        apply_profile_action(ProfileAction::New, "Quiet", "New", unreadable).unwrap_err(),
        "Yamato could not read its settings file."
    );
    assert_eq!(
        written(Config::default(), false).unwrap_err(),
        "Yamato could not save its settings file."
    );
    assert!(written(Config::default(), true).is_ok());
}

#[test]
fn profiles_are_cycled_and_switched() {
    let mut config = Config::default();
    assert_eq!(next_profile(&config).unwrap(), "Performance");
    config.active_profile = "Performance".to_string();
    assert_eq!(next_profile(&config).unwrap(), "Quiet");
    config.active_profile = "Gone".to_string();
    assert_eq!(next_profile(&config).unwrap(), "Balanced");
    config.profiles.truncate(1);
    assert_eq!(next_profile(&config), None);

    let mut tray = Tray::new();
    assert_eq!(tray.cycle_profile(Stored::Missing).unwrap(), "Performance");
    assert_eq!(tray.profiles, vec!["Quiet", "Balanced", "Performance"]);

    assert!(matches!(switch_profile("Balanced", Stored::Missing), Switch::Announce));
    assert!(matches!(switch_profile("Gone", Stored::Missing), Switch::Ignore));
    match switch_profile("Quiet", Stored::Missing) {
        Switch::Save(config) => assert_eq!(config.active_profile, "Quiet"),
        other => panic!("{other:?}"),
    }
    let unreadable = Stored::Unreadable("denied".to_string());
    assert!(matches!(switch_profile("Quiet", unreadable), Switch::Say(_)));
    assert!(matches!(switch_saved(true), Switch::Announce));
    assert!(matches!(switch_saved(false), Switch::Say(_)));
}

#[test]
fn deleting_is_asked_about_by_name() {
    match profile_question(ProfileAction::Delete, "Mine") {
        Question::Confirm(words) => assert_eq!(
            words,
            "Delete the profile \"Mine\"?\n\nIts curve goes with it, and there is no undo."
        ),
        other => panic!("{other:?}"),
    }
    match profile_question(ProfileAction::Duplicate, "Mine") {
        Question::Name { title, initial } => {
            assert_eq!((title, initial.as_str()), ("Duplicate profile", "Mine copy"))
        }
        other => panic!("{other:?}"),
    }
}

#[test]
fn the_filter_is_a_run_of_terminated_pairs() {
    // A common way to get this wrong is to write it as one string with
    // separators, which the dialog reads as a single unusable filter.
    let filter = FILTER;

    assert!(filter.ends_with("\0\0"));
    assert_eq!(filter.matches('\0').count(), 5);
    assert_eq!(filter, "TPFanControl settings (*.ini)\0*.ini\0All files\0*.*\0\0");
}

const INI: &str = "Level=46 0 0 3\nLevel=90 64 0 7\n\nLevel2=55 2 0 40\nLevel2=95 128 0 6\n";

/// Runs an import against a settings file that starts fresh.
fn import(name: &str, saves: &[bool]) -> (Result<String, String>, Option<Config>) {
    let found = curves_in_text(INI).unwrap();
    let mut run = ImportRun::new(name.to_string(), found);
    let mut file: Option<Config> = None;
    let mut saved = saves.iter();
    let copy = |c: &Config| Config {
        active_profile: c.active_profile.clone(),
        profiles: c.profiles.clone(),
        ..Config::default()
    };
    let mut ask = ImportAsk::Load;
    for _ in 0..20 {
        let heard = match ask {
            ImportAsk::Load => ImportHeard::File(match &file {
                Some(config) => Stored::Parsed(copy(config)),
                None => Stored::Missing,
            }),
            ImportAsk::Save => {
                let ok = *saved.next().unwrap_or(&true);
                if ok {
                    file = run.to_save().map(copy);
                }
                ImportHeard::Saved(ok)
            }
            ImportAsk::Finished(words) => return (Ok(words), file),
            ImportAsk::Failed(words) => return (Err(words), file),
        };
        ask = run.hear(heard);
    }
    panic!("an import did not end");
}

#[test]
fn every_curve_of_a_file_arrives_and_the_first_is_active() {
    let (said, file) = import("T14", &[]);
    let file = file.unwrap();
    assert_eq!(names_in(&file)[3..], ["T14", "T14 2"]);
    assert_eq!(file.active_profile, "T14");
    assert_eq!(
        said.unwrap(),
        "That file had 2 curves in it. Imported \"T14\" with 2 points, and \"T14 2\" with 2 \
         points, and switched to \"T14\".\n\nThe disengaged fan setting at 90 \u{b0}C is not \
         something Yamato will run, so it came across as the firmware step, which hands the fan \
         back to the BIOS.\n\nThat file has a second curve in it. Import it again and pick the \
         same file to bring the other one over.\n\nOnly the curve was imported. Everything else \
         in that file is either something Yamato decides for itself or something it does \
         differently."
    );
}

#[test]
fn a_first_curve_that_cannot_be_added_ends_the_import() {
    let (said, file) = import("Quiet", &[]);
    assert_eq!(said.unwrap_err(), "A profile with that name already exists.");
    assert!(file.is_none());
    let (said, file) = import("T14", &[false]);
    assert_eq!(said.unwrap_err(), "Yamato could not save its settings file.");
    assert!(file.is_none());
}

#[test]
fn a_second_curve_that_cannot_be_added_costs_nothing() {
    let (said, file) = import("T14", &[true, false]);
    assert!(said.unwrap().starts_with("Imported 2 points into \"T14\"."));
    assert_eq!(names_in(&file.unwrap())[3..], ["T14"]);
}

#[test]
fn an_import_is_named_after_its_file() {
    assert_eq!(offered_name(r"C:\TPFC\T14.ini"), "T14");
    assert_eq!(offered_name(r"C:\TPFC\TPFanControl.INI"), "Imported");
    assert_eq!(offered_name(""), "Imported");
    assert_eq!(numbered_name("T14", 0), "T14");
    assert_eq!(numbered_name("T14", 1), "T14 2");
    assert_eq!(could_not_read("x.ini"), "Yamato could not read x.ini.");
    assert!(chooser_failed(0).is_none());
    assert!(chooser_failed(7).unwrap().contains("(error 7)"));
    assert_eq!(importing::CUSTOMARY_HOME, r"C:\TPFC");
}

#[test]
fn a_stray_byte_in_a_comment_does_not_cost_the_curve() {
    let mut bytes = b"Level=46 0 0 3 //caf".to_vec();
    bytes.push(0xe9);
    bytes.extend_from_slice(b"\nLevel=90 128 0 7\n");
    let found = read_curves(&bytes).unwrap();
    assert_eq!(found[0].curve.points().len(), 2);
    assert_eq!(
        read_curves(&vec![]).unwrap_err(),
        "there are no Level= lines in that file, so there is no curve in it to import"
    );
}

#[test]
fn a_curve_from_elsewhere_is_added_under_its_name() {
    let curve = Curve::new(vec![CurvePoint::new(50, 1), CurvePoint::new(70, 4)]).unwrap();
    let after = add_profile_from_curve("New", &curve, Stored::Missing).unwrap();
    assert_eq!(after.active_profile, "New");
    assert_eq!(after.profiles[3].points.len(), 2);
    assert!(add_profile_from_curve("Quiet", &curve, Stored::Missing).is_err());
    assert!(add_profile_from_curve(&"x".repeat(64), &curve, Stored::Missing).is_err());
}

#[test]
fn leaving_saves_stops_what_runs_and_quits() {
    assert_eq!(leave(false, None, false), LeaveStep::Save);
    assert_eq!(leave(true, None, false), LeaveStep::Look);
    assert_eq!(leave(true, Some(SERVICE_RUNNING), false), LeaveStep::Stop);
    assert_eq!(leave(true, Some(SERVICE_RUNNING), true), LeaveStep::Quit);
    assert_eq!(leave(true, Some(1), false), LeaveStep::Quit);
    assert_eq!(leave(true, Some(-1), false), LeaveStep::Quit);
}
