use yamato::about;
use yamato::command::{usage, Command};
use yamato::config::{Config, Stored};
use yamato::host::PowerState;
use yamato::pawnio::Layout;
use yamato::pawnio_status::{beside_exe, diagnose, Missing};
use yamato::prompt;
use yamato::prompt::{answered, ask, centered, pump, pumped, Answer, Area, PumpAsk, Pumped};
use yamato::service;
use yamato::service::{
    service_command_line, standby_event, PowerNews, PowerSigns, StateStep, Told, NOT_INSTALLED,
};
use yamato::startup::{clear_runasadmin_layer, run_value, toggle, was_removed, Layer};
use yamato::text::{contains, to_returns, wide};
use yamato::theme::{
    band, channels, colorref, COOL_HEX, HOT_AT, HOT_HEX, TEMP_MAX, TEMP_MIN, WARM_AT, WARM_HEX,
};

fn parse(args: &[&str]) -> Command {
    let args: Vec<String> = args.iter().map(|s| s.to_string()).collect();
    Command::parse(&args)
}

#[test]
fn no_arguments_means_the_window() {
    assert_eq!(parse(&[]), Command::Tray);
}

#[test]
fn accepts_both_dash_and_slash_in_either_case() {
    // The service manager and a command prompt disagree about style, and
    // people type whichever they are used to.
    for form in ["--service", "-service", "/service", "-s", "--SERVICE"] {
        assert_eq!(parse(&[form]), Command::Service, "{form} was not understood");
    }
}

#[test]
fn install_and_uninstall_are_distinct() {
    assert_eq!(parse(&["--install"]), Command::Install);
    assert_eq!(parse(&["--uninstall"]), Command::Uninstall);
}

#[test]
fn anything_unrecognized_shows_usage_rather_than_guessing() {
    // Guessing at an unknown flag on a program that drives cooling hardware is
    // not a good instinct.
    assert_eq!(parse(&["--bogus"]), Command::Help);
    assert_eq!(parse(&[""]), Command::Help);
    assert_eq!(parse(&["--enable-startup"]), Command::EnableStartup);
    assert_eq!(parse(&["/START-SERVICE", "--install"]), Command::StartService);
    assert_eq!(parse(&["--stop-service"]), Command::StopService);
    assert!(usage("1.0.0").starts_with("Yamato 1.0.0\n\nUsage:\n"));
}

#[test]
fn every_state_says_something_a_tooltip_can_hold() {
    for m in [Missing::Driver, Missing::Module("x".to_string()), Missing::Nothing] {
        assert!(!m.short().is_empty());
        assert!(m.short().len() < 64, "too long for a shared tooltip");
    }
}

#[test]
fn the_long_form_names_the_missing_file() {
    let m = Missing::Module(r"C:\Program Files\Yamato\LpcACPIEC.bin".to_string());

    // Naming the path is the whole point: "a file is missing" without saying
    // which one leaves someone no better off than silence did.
    assert!(m.explain().contains("LpcACPIEC.bin"));
}

#[test]
fn diagnosing_is_safe_to_call_anywhere() {
    for registered in [false, true] {
        for exe in [None, Some(r"C:\Program Files\Yamato\yamato.exe"), Some("")] {
            for (standard, alternate) in [(false, false), (true, false), (true, true)] {
                let _ = diagnose(registered, exe, standard, alternate);
            }
        }
    }
}

#[test]
fn what_is_missing_is_named_in_order() {
    let exe = Some(r"C:\Yamato\yamato.exe");
    assert!(matches!(diagnose(false, exe, true, true), Missing::Driver));
    match diagnose(true, exe, false, false) {
        Missing::Module(path) => assert_eq!(path, r"C:\Yamato\LpcACPIEC.bin"),
        other => panic!("{other:?}"),
    }
    match diagnose(true, exe, true, false) {
        Missing::Module(path) => assert_eq!(path, r"C:\Yamato\LpcIO.bin"),
        other => panic!("{other:?}"),
    }
    assert!(matches!(diagnose(true, exe, true, true), Missing::Nothing));
    assert!(matches!(diagnose(true, None, false, false), Missing::Nothing));
    assert_eq!(beside_exe("yamato.exe", Layout::Standard), "LpcACPIEC.bin");
}

#[test]
fn the_run_value_would_be_quoted() {
    // "C:\Program Files\Yamato\yamato.exe" unquoted is read as the command
    // "C:\Program" with arguments.
    let value = run_value(r"C:\Program Files\Yamato\yamato.exe");
    assert!(value.starts_with('"') && value.ends_with('"'));
    assert_eq!(value, "\"C:\\Program Files\\Yamato\\yamato.exe\"");
}

#[test]
fn only_the_elevation_flag_is_stripped_from_a_layer() {
    match clear_runasadmin_layer("~ REGISTERAPPRESTART RUNASADMIN HIGHDPIAWARE") {
        Layer::Keep(rest) => assert_eq!(rest, "~ REGISTERAPPRESTART HIGHDPIAWARE"),
        other => panic!("{other:?}"),
    }
    assert!(matches!(clear_runasadmin_layer("~ runasadmin"), Layer::Remove));
    assert!(matches!(clear_runasadmin_layer("~ HIGHDPIAWARE"), Layer::Leave));
    assert!(matches!(clear_runasadmin_layer(""), Layer::Leave));
}

#[test]
fn startup_is_flipped_and_already_absent_is_success() {
    assert!(toggle(false));
    assert!(!toggle(true));
    assert!(was_removed(0) && was_removed(2));
    assert!(!was_removed(5));
}

#[test]
fn colors_decode_from_hex_correctly() {
    assert_eq!(channels(0xffffff), (255, 255, 255));
    assert_eq!(channels(0x123456), (0x12, 0x34, 0x56));
    assert_eq!(colorref(0x123456), 0x563412);
    // What the About box paints with is the theme's own, blue first.
    assert_eq!(colorref(0x0f1116), about::BACK);
    assert_eq!(colorref(0x161921), about::FIELD);
    assert_eq!(colorref(0xe8eaf0), about::INK);
    assert_eq!(colorref(0x99a0ae), about::DIM);
    assert_eq!(colorref(0x5f6674), about::FAINT);
}

#[test]
fn thermal_bands_agree_with_the_tray() {
    // The graph and the tray icon must never disagree about "warm".
    assert_eq!(WARM_AT, 70);
    assert_eq!(HOT_AT, 85);
    assert_eq!(band(WARM_AT), yamato::tray::band_color(1));
    assert_eq!(band(HOT_AT), yamato::tray::band_color(2));
}

#[test]
fn band_selection_is_ordered() {
    assert_eq!(band(50), COOL_HEX);
    assert_eq!(band(75), WARM_HEX);
    assert_eq!(band(95), HOT_HEX);
    let (r, g, _) = channels(band(50));
    assert!(g > r, "cool should be green");
    let (r, g, _) = channels(band(95));
    assert!(r > g, "hot should be red");
    let (r, g, b) = channels(band(75));
    assert!(r > b && g > b, "warm should be amber");
}

#[test]
fn the_graph_covers_every_reachable_temperature() {
    // A curve point outside the axes would be undraggable.
    assert!(TEMP_MIN < 40 && TEMP_MAX >= 100);
}

#[test]
fn the_about_text_keeps_the_facts_that_matter() {
    let text = about::text("1.0.0", "https://example.org/yamato");

    assert!(text.contains("1.0.0"), "the version has gone");

    for owed in [
        "PawnIO",
        "namazso",
        "GPL-2.0-or-later",
        "https://pawnio.eu",
        "DeviceIoControl",
        "LpcACPIEC.bin",
        "LpcIO.bin",
        "LGPL-2.1-or-later",
        "https://github.com/ThinkPad-Forum/TPFanControl",
        "https://github.com/byrnes/TPFanControl",
        "https://github.com/Shuzhengz/TPFanCtrl2",
        "https://github.com/FanDjango/TPFanCtrl2",
        "thinkpad_acpi",
        "ThinkWiki",
        "No code was copied",
        "THIRD-PARTY-LICENSES.txt",
        "LICENSE.LGPL-2.1.txt",
        "NOTICE.md",
    ] {
        assert!(text.contains(owed), "the About text no longer credits: {owed}");
    }

    for said in ["\"as is\"", "without warranty of any kind", "shall not be liable"] {
        assert!(text.contains(said), "the disclaimer lost: {said}");
    }

    for said in [
        "embedded controller",
        "thermal management off",
        "hands the fan back to the firmware",
        "disengaged",
        "level 0",
    ] {
        assert!(text.contains(said), "the hardware warning lost: {said}");
    }

    for said in ["hobby project", "no support", "TPFanControl and its forks"] {
        assert!(text.contains(said), "the no-support note lost: {said}");
    }

    for said in [
        "Yamato",
        "MIT licensed",
        "Not affiliated with, endorsed by, or supported by Lenovo",
    ] {
        assert!(text.contains(said), "the identity block lost: {said}");
    }
    assert!(text.ends_with("Project page: https://example.org/yamato\n"));
}

#[test]
fn the_disclaimer_is_read_before_the_credits() {
    let text = about::text("1.0.0", "https://example.org/yamato");

    let warning = text.find("thermal management off").expect("warning missing");
    let disclaimer = text.find("without warranty").expect("disclaimer missing");
    let credits = text.find("https://github.com/ThinkPad-Forum").expect("credits missing");

    assert!(warning < credits, "the hardware warning sits below the credits");
    assert!(disclaimer < credits, "the disclaimer sits below the credits");
}

#[test]
fn the_about_box_is_laid_out_inside_its_client_area() {
    let controls = about::controls("p", 644, 601);
    assert_eq!(controls.len(), 4);
    assert_eq!(controls[0].height, 601 - 20 - 32 - 16 - 118);
    assert_eq!(controls[3].x, 644 - 20 - 116);
    assert!(!controls[0].label.replace("\r\n", "").contains('\n'));
    let inset = about::inset(644, 601, 17);
    assert_eq!((inset.left, inset.right), (12, 644 - 40 - 17 - 12));
    let lines = about::header("1.0.0", 644);
    assert_eq!(lines[0].text, "Yamato 1.0.0");
    assert_eq!(lines[1].at.top, 56);
    assert_eq!(about::requested(0x0111, 101), about::Request::OpenFolder);
    assert_eq!(about::requested(0x0111, 0x5_0066), about::Request::OpenPage);
    assert_eq!(about::requested(0x0111, 2), about::Request::Close);
    assert_eq!(about::requested(0x0010, 0), about::Request::Close);
    assert_eq!(about::requested(0x0002, 0), about::Request::Default);
    assert_eq!(about::button_colors(false, false), (about::FIELD, about::EDGE));
    assert_eq!(about::button_colors(true, false), (about::RAISED, about::EDGE_LIT));
}

#[test]
fn a_name_is_trimmed_and_an_empty_one_is_none() {
    assert_eq!(ask(Some("  Quiet one \t")), Some("Quiet one".to_string()));
    assert_eq!(ask(Some("   ")), None);
    assert_eq!(ask(None), None);
    assert_eq!(answered(0x0111, 1), Answer::Accept);
    assert_eq!(answered(0x0111, 2), Answer::Cancel);
    assert_eq!(answered(0x0010, 0), Answer::Cancel);
    assert_eq!(answered(0x0002, 0), Answer::Default);
    assert_eq!(prompt::controls("x")[0].label, "x");
}

#[test]
fn a_box_lands_in_the_middle() {
    let area = Area { left: 100, top: 0, right: 1100, bottom: 600 };
    assert_eq!(centered(&area, 360, 150), (420, 225));
    // Larger than the area, it hangs over on both sides.
    let small = Area { left: 0, top: 0, right: 100, bottom: 101 };
    assert_eq!(centered(&small, 360, 150), (-130, -24));
}

#[test]
fn a_modal_loop_puts_a_quit_back() {
    assert_eq!(pump(None, true, true), PumpAsk::Wait);
    assert_eq!(pump(Some(pumped(1)), true, true), PumpAsk::Dispatch);
    match pump(Some(pumped(0)), true, false) {
        PumpAsk::Leave(ending) => {
            assert!(ending.destroy && ending.post_quit && !ending.enable_owner)
        }
        other => panic!("{other:?}"),
    }
    match pump(Some(Pumped::Broken), true, true) {
        PumpAsk::Leave(ending) => {
            assert!(ending.destroy && !ending.post_quit && ending.enable_owner)
        }
        other => panic!("{other:?}"),
    }
    match pump(None, false, true) {
        PumpAsk::Leave(ending) => assert!(!ending.destroy && !ending.post_quit),
        other => panic!("{other:?}"),
    }
}

#[test]
fn the_service_command_line_is_quoted() {
    let command = service_command_line(r"C:\Program Files\Yamato\yamato.exe");
    assert!(command.starts_with('"'));
    assert!(command.contains("\" --service"));
}

#[test]
fn querying_a_service_that_is_not_installed_is_not_an_error() {
    // -1 rather than a panic, so callers can just ask.
    let mut heard: Vec<Told> = vec![];
    for _ in 0..10 {
        match service::state(&heard) {
            StateStep::Ask(_) => {
                let code = service::ERROR_SERVICE_DOES_NOT_EXIST;
                // The manager answers, and has never heard of the service.
                heard.push(Told { ok: heard.is_empty(), code, state: 0, at: 0 })
            }
            StateStep::End(state) => {
                assert_eq!(state, NOT_INSTALLED);
                return;
            }
        }
    }
    panic!("asking about the service did not end");
}

#[test]
fn a_dark_screen_and_a_suspend_are_told_apart() {
    let mut signs = PowerSigns::new();
    assert_eq!(signs.publish_power(), PowerState::Awake);
    signs.hear(PowerNews::Suspend);
    assert_eq!(signs.publish_power(), PowerState::Suspended);
    signs.hear(PowerNews::Resume);
    assert_ne!(signs.publish_power(), PowerState::Suspended);
    assert!(standby_event("<Event/>").is_none());
}

#[test]
fn text_is_handed_to_the_system_in_its_own_form() {
    assert_eq!(to_returns("a\nb\n"), "a\r\nb\r\n");
    assert_eq!(wide("a\u{e9}"), vec![0x61, 0xe9, 0]);
    let mut expected: Vec<u16> = "x\u{1f4a8}y".encode_utf16().collect();
    expected.push(0);
    assert_eq!(wide("x\u{1f4a8}y"), expected);
    assert!(contains("standby", "and"));
    assert!(!contains("standby", "andy"));
}

#[test]
fn the_settings_window_opens_on_the_active_profile() {
    let (curve, name) = yamato::tray::settings_to_edit(Stored::Missing).unwrap();
    assert_eq!(name, "Balanced");
    assert_eq!(curve.points().len(), Config::default().active_curve().unwrap().points().len());
    let (_, name) =
        yamato::tray::settings_to_edit(Stored::Unreadable("denied".to_string())).unwrap();
    assert_eq!(name, "Balanced");
}
