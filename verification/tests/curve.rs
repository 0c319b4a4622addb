use yamato::curve::{Curve, CurveError, CurvePoint};
use yamato::ec::{FAN_BIOS, FAN_DISENGAGED};
use yamato::engine::{MANUAL_ESCAPE_C, SMART_CEILING_C};

fn curve() -> Curve {
    Curve::new(vec![
        CurvePoint::new(50, 0).with_hysteresis(0, 5),
        CurvePoint::new(60, 2).with_hysteresis(0, 5),
        CurvePoint::new(70, 4).with_hysteresis(0, 5),
        CurvePoint::new(80, FAN_BIOS).with_hysteresis(0, 5),
    ])
    .unwrap()
}

#[test]
fn cold_start_lands_directly_on_the_right_step() {
    // No climbing through intermediate levels on the first decision.
    assert_eq!(curve().evaluate(75, None), 2);
}

#[test]
fn ramps_up_as_soon_as_the_threshold_is_met() {
    let c = curve();
    assert_eq!(c.evaluate(60, Some(0)), 1);
    assert_eq!(c.evaluate(70, Some(1)), 2);
}

#[test]
fn holds_its_step_until_clear_of_hysteresis() {
    let c = curve();
    // On step 2 (70 C, drop at 65). 66 is not far enough down.
    assert_eq!(c.evaluate(66, Some(2)), 2);
    assert_eq!(c.evaluate(65, Some(2)), 1);
}

#[test]
fn a_single_point_is_refused_however_it_arrives() {
    assert!(matches!(
        Curve::new(vec![CurvePoint::new(50, 0)]),
        Err(CurveError::TooFewPoints { count: 1 })
    ));
    assert!(matches!(
        Curve::new(vec![CurvePoint::new(50, FAN_BIOS)]),
        Err(CurveError::TooFewPoints { count: 1 })
    ));

    // Two is enough to be a curve, and still has to satisfy the rest.
    assert!(Curve::new(vec![CurvePoint::new(50, 0), CurvePoint::new(80, FAN_BIOS)]).is_ok());
}

#[test]
fn the_firmware_takes_over_above_the_ceiling_whatever_the_curve_says() {
    for profile in [Curve::default()] {
        let hottest = profile.points().last().expect("a curve has points");
        assert!(
            hottest.is_bios() || hottest.temp < SMART_CEILING_C,
            "a shipped curve is still deciding at the ceiling"
        );
    }

    assert!(SMART_CEILING_C > MANUAL_ESCAPE_C);
}

#[test]
fn does_not_hunt_between_neighboring_steps() {
    let c = curve();
    let mut at = c.evaluate(72, None);
    for temp in [69, 71, 68, 72, 67, 70] {
        let next = c.evaluate(temp, Some(at));
        assert_eq!(next, at, "stepped at {temp} C when it should have held");
        at = next;
    }
}

#[test]
fn evaluation_ignores_the_hardware_entirely() {
    let c = curve();
    assert_eq!(c.evaluate(75, Some(1)), 2);
    assert_eq!(c.evaluate(75, Some(1)), 2);
}

#[test]
fn hands_over_to_firmware_at_the_top() {
    let c = curve();
    let idx = c.evaluate(85, None);
    assert_eq!(c.level_at(idx), FAN_BIOS);
    assert!(c.points()[idx].is_bios());
}

#[test]
fn below_the_first_point_stays_on_the_first_step() {
    assert_eq!(curve().evaluate(20, None), 0);
}

#[test]
fn rejects_curves_that_do_not_climb() {
    let e = Curve::new(vec![CurvePoint::new(60, 1), CurvePoint::new(50, 2)]);
    assert_eq!(e.unwrap_err(), CurveError::NotAscending { index: 1 });
}

#[test]
fn rejects_the_disengaged_level() {
    // 0x40 runs the blower unregulated. No curve gets to ask for it.
    let e = Curve::new(vec![CurvePoint::new(90, FAN_DISENGAGED)]);
    assert_eq!(e.unwrap_err(), CurveError::IllegalLevel { index: 0, level: 0x40 });
}

#[test]
fn rejects_empty_curves() {
    assert_eq!(Curve::new(vec![]).unwrap_err(), CurveError::Empty);
}

#[test]
fn the_default_curve_is_quiet_at_idle_and_defers_high_up() {
    let c = Curve::default();
    assert_eq!(c.level_at(c.evaluate(40, None)), 0);
    assert_eq!(c.level_at(c.evaluate(95, None)), FAN_BIOS);
}

#[test]
fn a_curve_cannot_ease_the_fan_off_as_it_heats() {
    let backwards = Curve::new(vec![
        CurvePoint::new(60, 2),
        CurvePoint::new(76, 4),
        CurvePoint::new(82, 1),
    ]);

    assert_eq!(backwards.unwrap_err(), CurveError::Backwards { index: 2 });

    // Level steps at the same height are fine: that is a plateau.
    assert!(Curve::new(vec![
        CurvePoint::new(60, 2),
        CurvePoint::new(70, 2),
        CurvePoint::new(80, 5),
    ])
    .is_ok());

    // The firmware step is a handoff, not a slower fan, so it is exempt both
    // above and below.
    assert!(Curve::new(vec![CurvePoint::new(60, 5), CurvePoint::new(90, FAN_BIOS)]).is_ok());
}

#[test]
fn every_fault_of_a_curve_has_its_own_words() {
    assert_eq!(CurveError::Empty.to_string(), "a curve needs at least one point");
    let words: Vec<String> = vec![
        CurveError::Empty.to_string(),
        CurveError::TooFewPoints { count: 1 }.to_string(),
        CurveError::NotAscending { index: 1 }.to_string(),
        CurveError::IllegalLevel { index: 0, level: 0x40 }.to_string(),
        CurveError::Backwards { index: 2 }.to_string(),
    ];
    for (i, one) in words.iter().enumerate() {
        for other in &words[i + 1..] {
            assert_ne!(one, other);
        }
    }
    assert_eq!(
        words[3],
        "point 0 asks for level 64; only 0 to 7 and the firmware handoff are allowed"
    );
}

#[test]
fn a_hotter_machine_never_gets_a_lower_step() {
    let c = curve();
    for cool in -128..=126i8 {
        assert!(c.evaluate(cool, None) <= c.evaluate(cool + 1, None));
        for at in 0..4usize {
            assert!(c.evaluate(cool, Some(at)) <= c.evaluate(cool + 1, Some(at)));
        }
    }
}

#[test]
fn a_step_below_reach_saturates_instead_of_wrapping() {
    // Margins at the ends of the range must not turn into their opposites.
    let c = Curve::new(vec![
        CurvePoint::new(-128, 0).with_hysteresis(0, 127),
        CurvePoint::new(127, 3).with_hysteresis(127, 0),
    ])
    .unwrap();
    assert_eq!(c.evaluate(-128, None), 0);
    assert_eq!(c.evaluate(127, None), 1);
    assert_eq!(c.evaluate(126, Some(1)), 0);
}
