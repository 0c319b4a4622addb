use yamato::curve::CurveError;
use yamato::ec::{FAN_BIOS, FAN_DISENGAGED, FAN_LEVEL_MAX};
use yamato::import::{clamp_hysteresis, parse_tpfancontrol_ini, translate_level, ImportError};

/// The owner's own file, which is the one case that has to be exactly
/// right.
const REAL: &str = "\
Level=46 0 0 3
Level=52 1 0 5
Level=60 2 0 5
Level=68 3 0 6
Level=76 4 0 6
Level=84 5 0 6
Level=90 128 0 7
";

#[test]
fn a_real_file_comes_across_point_for_point() {
    let found = parse_tpfancontrol_ini(REAL).unwrap();
    assert_eq!(found.len(), 1);

    let points = found[0].curve.points();
    assert_eq!(points.len(), 7);

    let expected = [
        (46i8, 0u8, 0i8, 3i8),
        (52, 1, 0, 5),
        (60, 2, 0, 5),
        (68, 3, 0, 6),
        (76, 4, 0, 6),
        (84, 5, 0, 6),
        (90, FAN_BIOS, 0, 7),
    ];

    for (point, (temp, level, up, down)) in points.iter().zip(expected) {
        assert_eq!(point.temp, temp);
        assert_eq!(point.level, level, "level at {temp} C");
        assert_eq!(point.hyst_up, up);
        assert_eq!(point.hyst_down, down);
    }

    assert!(found[0].disengaged_at.is_empty());
}

#[test]
fn a_silent_idle_survives_the_trip() {
    // Level 0 is legal in a curve and is the point of the first step in
    // most of these files. Importing it as anything else would be
    // importing a different curve.
    let found = parse_tpfancontrol_ini(REAL).unwrap();
    assert_eq!(found[0].curve.points()[0].level, 0);
}

#[test]
fn the_firmware_step_is_recognized() {
    // Two steps, because one is not a curve: a lone point holds its level
    // at every temperature with the firmware switched off, and the loader
    // refuses it however it arrived.
    let found = parse_tpfancontrol_ini("Level=50 1 0 4\nLevel=80 128 0 4\n").unwrap();
    assert!(found[0].curve.points()[1].is_bios());
}

#[test]
fn the_disengaged_byte_is_substituted_and_said_out_loud() {
    // 0x40 is refused everywhere else in this program, and importing one
    // is not a way around that.
    let found = parse_tpfancontrol_ini("Level=50 1 0 4\nLevel=88 64 0 5\n").unwrap();

    assert_eq!(found[0].curve.points()[1].level, FAN_LEVEL_MAX);
    assert_eq!(found[0].disengaged_at, vec![88]);

    for point in found[0].curve.points() {
        assert_ne!(point.level, FAN_DISENGAGED);
    }
}

#[test]
fn trailing_comments_are_not_part_of_the_numbers() {
    let found =
        parse_tpfancontrol_ini("Level=46 0 0 3 //was 44\nLevel=60 2 0 5\n").unwrap();

    assert_eq!(found[0].curve.points()[0].temp, 46);
    assert_eq!(found[0].curve.points()[0].hyst_down, 3);
}

#[test]
fn the_second_smart_profile_comes_across_as_its_own_curve() {
    let text = "\
Level=46 0 0 3
Level=90 128 0 7

Level2=55 2 0 4
Level2=95 128 0 6
";
    let found = parse_tpfancontrol_ini(text).unwrap();

    assert_eq!(found.len(), 2);
    assert_eq!(found[0].key, "Level");
    assert_eq!(found[1].key, "Level2");
    assert_eq!(found[1].curve.points()[0].temp, 55);
}

#[test]
fn the_untidiness_of_a_hand_edited_file_is_tolerated() {
    // Windows line endings, blank lines, leading and inner whitespace,
    // lower case keys, and settings that are none of our business.
    let text = "Cycle=5\r\n\r\n  level = 50   1  0   4  \r\nLEVEL=70 3 1 6\r\nManModeExit=78 //x\r\n";
    let found = parse_tpfancontrol_ini(text).unwrap();

    assert_eq!(found.len(), 1);
    let points = found[0].curve.points();
    assert_eq!(points.len(), 2);
    assert_eq!(points[0].temp, 50);
    assert_eq!(points[1].hyst_up, 1);
}

#[test]
fn nothing_but_curves_is_taken() {
    // Each of these has a counterpart Yamato decides for itself. Importing
    // them silently would change how the program behaves on the strength
    // of a file somebody only meant to lift a curve out of.
    let text = "Cycle=2\nManModeExit=78\nSensorName=CPU\nLevel=46 0 0 3\nLevel=90 128 0 7\n";
    let found = parse_tpfancontrol_ini(text).unwrap();

    assert_eq!(found.len(), 1);
    assert_eq!(found[0].curve.points().len(), 2);
}

#[test]
fn a_file_with_no_curve_in_it_says_so() {
    assert_eq!(
        parse_tpfancontrol_ini("Cycle=5\nManModeExit=78\n").unwrap_err(),
        ImportError::NoCurve
    );
    assert_eq!(parse_tpfancontrol_ini("").unwrap_err(), ImportError::NoCurve);
}

#[test]
fn a_curve_that_does_not_climb_is_reported_rather_than_repaired() {
    // Two points at one temperature is a contradiction, not a sorting
    // problem, and it is the user's file to fix.
    let err = parse_tpfancontrol_ini("Level=50 1 0 4\nLevel=50 3 0 4\n").unwrap_err();

    assert!(matches!(err, ImportError::Curve(CurveError::NotAscending { .. })), "{err:?}");
    assert!(err.to_string().contains("not usable"));
}

#[test]
fn points_out_of_order_are_sorted_rather_than_refused() {
    // The order in the file is presentation; the curve is the same one.
    let found = parse_tpfancontrol_ini("Level=90 128 0 7\nLevel=46 0 0 3\n").unwrap();

    assert_eq!(found[0].curve.points()[0].temp, 46);
    assert_eq!(found[0].curve.points()[1].temp, 90);
}

#[test]
fn a_line_that_is_not_a_curve_point_is_skipped_not_fatal() {
    let found = parse_tpfancontrol_ini("Level=oops\nLevel=46 0 0 3\nLevel=90 128\n").unwrap();

    let points = found[0].curve.points();
    assert_eq!(points.len(), 2);
    // Missing hysteresis figures fall back to the same defaults a new
    // point gets here.
    assert_eq!(points[1].hyst_down, 4);
}

#[test]
fn tuned_hysteresis_comes_across_untouched() {
    // The reason anyone imports one of these files rather than dragging a
    // new curve: the numbers in it were arrived at over an evening.
    let found = parse_tpfancontrol_ini(REAL).unwrap();

    assert!(!found[0].hysteresis_clamped);
    let downs: Vec<i8> = found[0].curve.points().iter().map(|p| p.hyst_down).collect();
    assert_eq!(downs, vec![3, 5, 5, 6, 6, 6, 7]);
}

#[test]
fn hysteresis_beyond_what_this_program_runs_is_brought_in_and_admitted() {
    // Not silently: somebody chose those numbers, and changing them
    // without a word is the surprise this feature exists to avoid.
    let found = parse_tpfancontrol_ini("Level=50 1 40 40\nLevel=70 3 0 4\n").unwrap();

    assert!(found[0].hysteresis_clamped);
    assert_eq!(found[0].curve.points()[0].hyst_up, yamato::config::HYST_UP_MAX);
    assert_eq!(found[0].curve.points()[0].hyst_down, yamato::config::HYST_DOWN_MAX);
}

#[test]
fn an_imported_curve_is_one_the_engine_would_accept() {
    // The same rules as any other curve, applied on the way in instead of
    // discovered later.
    for (_, level) in parse_tpfancontrol_ini(REAL)
        .unwrap()
        .iter()
        .flat_map(|f| f.curve.points())
        .map(|p| (p.temp, p.level))
    {
        assert!(level <= FAN_LEVEL_MAX || level == FAN_BIOS);
        assert_ne!(level, FAN_DISENGAGED);
    }
}

#[test]
fn a_level_is_translated_or_brought_in() {
    assert_eq!(translate_level(0), (0, false));
    assert_eq!(translate_level(7), (7, false));
    assert_eq!(translate_level(128), (FAN_BIOS, false));
    assert_eq!(translate_level(64), (FAN_LEVEL_MAX, true));
    assert_eq!(clamp_hysteresis(40, 5), (5, true));
    assert_eq!(clamp_hysteresis(-1, 5), (0, true));
    assert_eq!(clamp_hysteresis(3, 5), (3, false));
}

#[test]
fn a_refused_file_says_why() {
    assert_eq!(
        ImportError::NoCurve.to_string(),
        "there are no Level= lines in that file, so there is no curve in it to import"
    );
}
