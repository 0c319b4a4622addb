use yamato::curve::{Curve, CurvePoint};
use yamato::ec::{EcState, FAN_BIOS};
use yamato::engine::{Engine, FanGuard, Guarding, Mode, DEFAULT_WATCHDOG, RELEASE_PAUSE};
use yamato::pawnio::Fault;

fn reading(temp: Option<i8>, fan_ctrl: u8) -> EcState {
    let mut sensors = [None; 12];
    sensors[0] = temp;
    EcState { fan_ctrl, fan_ctrl_per_fan: [fan_ctrl, fan_ctrl], fan_rpm: [2000, 0], sensors }
}

#[test]
fn default_mode_is_firmware_controlled() {
    // A crash before the first decision must not leave a level pinned.
    assert_eq!(Mode::default(), Mode::Bios);
}

#[test]
fn changing_mode_forgets_the_curve_step() {
    // Otherwise a mode switch resumes from a step chosen under different rules
    // and walks to the right answer instead of jumping to it.
    let c = Curve::new(vec![CurvePoint::new(50, 1), CurvePoint::new(70, 4)]).unwrap();
    let mut step = Some(1usize);

    let mode_changed = true;
    if mode_changed {
        step = None;
    }

    assert_eq!(c.evaluate(75, step), 1);
}

#[test]
fn the_fan_guard_has_no_way_to_be_stood_down() {
    // The guarantee rests on there being no state to get wrong: a release
    // always asks for the fan to be handed back, and the guard can be asked as
    // often as anybody likes.
    let guard = FanGuard::new();
    for _ in 0..3 {
        assert!(matches!(guard.release(&vec![]), Guarding::Release { after: 0 }));
    }
    assert!(matches!(guard.release(&vec![Ok(())]), Guarding::End(Ok(()))));
    assert!(matches!(guard.release(&vec![]), Guarding::Release { after: 0 }));
}

#[test]
fn watchdog_reports_a_stall() {
    let engine = Engine::new(Curve::default(), 1_000);
    assert!(60_000 > DEFAULT_WATCHDOG);
    assert!(engine.is_stalled(1_000 + 60_000));
    assert!(!engine.is_stalled(1_000 + DEFAULT_WATCHDOG));
    assert!(!engine.is_stalled(0));
}

#[test]
fn a_guard_tries_three_times_and_then_says_so() {
    let guard = FanGuard::new();
    let once = vec![Err(Fault::Busy)];
    assert!(matches!(guard.release(&once), Guarding::Release { after } if after == RELEASE_PAUSE));
    let twice = vec![Err(Fault::Busy), Err(Fault::Busy)];
    assert!(matches!(guard.release(&twice), Guarding::Release { .. }));
    let thrice = vec![Err(Fault::Busy), Err(Fault::Busy), Err(Fault::Busy)];
    assert!(matches!(guard.release(&thrice), Guarding::End(Err(Fault::Busy))));
}

#[test]
fn blindness_gives_the_fan_to_the_firmware() {
    let mut engine = Engine::new(Curve::default(), 0);
    engine.set_mode(Mode::Smart);
    let d = engine.tick(Ok(reading(None, 3))).unwrap();
    assert_eq!(d.wanted, FAN_BIOS);
    engine.set_mode(Mode::Manual(4));
    let d = engine.tick(Ok(reading(None, 3))).unwrap();
    assert_eq!(d.wanted, FAN_BIOS);
}

#[test]
fn a_held_level_is_abandoned_and_stays_abandoned() {
    let mut engine = Engine::new(Curve::default(), 0);
    engine.set_mode(Mode::Manual(4));
    assert_eq!(engine.tick(Ok(reading(Some(79), 4))).unwrap().wanted, 4);
    assert_eq!(engine.tick(Ok(reading(Some(80), 4))).unwrap().wanted, FAN_BIOS);
    assert!(engine.manual_escaped());
    assert_eq!(engine.tick(Ok(reading(Some(40), 4))).unwrap().wanted, FAN_BIOS);
    // Any instruction clears it, including the one it is already in.
    engine.set_mode(Mode::Manual(4));
    assert_eq!(engine.tick(Ok(reading(Some(40), 4))).unwrap().wanted, 4);
}

#[test]
fn the_ceiling_outranks_the_curve() {
    let flat = Curve::new(vec![CurvePoint::new(30, 1), CurvePoint::new(60, 2)]).unwrap();
    let mut engine = Engine::new(flat, 0);
    engine.set_mode(Mode::Smart);
    assert_eq!(engine.tick(Ok(reading(Some(94), 0))).unwrap().wanted, 2);
    assert_eq!(engine.tick(Ok(reading(Some(95), 0))).unwrap().wanted, FAN_BIOS);
}

#[test]
fn a_level_is_written_only_when_it_has_to_be() {
    let mut engine = Engine::new(Curve::default(), 0);
    engine.set_mode(Mode::Manual(3));
    let d = engine.tick(Ok(reading(Some(50), 0x80))).unwrap();
    assert!(d.write);
    let tick = engine.written(&d, Ok(3), 5).unwrap();
    assert_eq!(tick.applied, 3);
    assert!(tick.changed);

    // Now the register agrees, and so does what was last asked for.
    let d = engine.tick(Ok(reading(Some(50), 3))).unwrap();
    assert!(!d.write);

    // One fan that disagrees is enough.
    let mut state = reading(Some(50), 3);
    state.fan_ctrl_per_fan[1] = 0x80;
    assert!(engine.tick(Ok(state)).unwrap().write);
}

#[test]
fn a_failed_write_leaves_the_watchdog_running() {
    let mut engine = Engine::new(Curve::default(), 0);
    engine.set_mode(Mode::Manual(3));
    let d = engine.tick(Ok(reading(Some(50), 0x80))).unwrap();
    assert!(engine.written(&d, Err(Fault::Busy), DEFAULT_WATCHDOG + 1).is_err());
    assert!(engine.is_stalled(DEFAULT_WATCHDOG + 1));
    assert!(engine.tick(Err(Fault::Busy)).is_err());
}

#[test]
fn ignored_sensors_do_not_decide() {
    let mut engine = Engine::new(Curve::default(), 0);
    engine.set_mode(Mode::Manual(3));
    engine.set_manual_escape(60);
    engine.set_ignored_sensors(vec![0]);
    let mut state = reading(Some(90), 3);
    state.sensors[1] = Some(40);
    let d = engine.tick(Ok(state)).unwrap();
    assert_eq!(d.hottest, Some((1, 40)));
    assert_eq!(d.wanted, 3);
}
