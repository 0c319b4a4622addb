use yamato::config::{Config, Stored};
use yamato::ec::{Ec, EcState, Probe, FAN_BIOS};
use yamato::engine::{Guarding, Mode};
use yamato::host::{
    how_to_open, mode_asked, next_to_start, record_layout, status_for, Finding, Host, HostAsk,
    HostHeard, PowerState, SleepClock,
    Starting, StopFlag, ENGINE_LOCK,
};
use yamato::ipc;
use yamato::ipc::Shared;
use yamato::pawnio::{Fault, Layout};

#[test]
fn a_sleeping_machine_is_left_to_its_firmware() {
    // Once a machine is believed asleep the poll backs off, rather than waking
    // it every few seconds to read a temperature that is not moving.
    let config = Config::default();
    assert!(config.poll_interval(true) > config.poll_interval(false));
}

#[test]
fn the_sleep_clock_reports_no_sleep_on_a_machine_that_is_running() {
    // Both counters advance together while the machine works, so the
    // difference between them is nothing.
    let mut clock = SleepClock::new();

    // The first call has no interval behind it and must not invent one.
    assert_eq!(clock.slept_since_last_pass(Some((1_000, 1_000))), 0);
    assert_eq!(clock.slept_since_last_pass(Some((501_000, 501_000))), 0);
    // Asleep for half of a second, in counts of a hundred nanoseconds.
    assert_eq!(
        clock.slept_since_last_pass(Some((10_501_000, 5_501_000))),
        500_000_000
    );
    // Counters that cannot be read say nothing.
    assert_eq!(clock.slept_since_last_pass(None), 0);
}

#[test]
fn forgetting_stops_a_resume_reading_as_sleep() {
    // The pass after a wake would otherwise measure across the whole suspend
    // and hand the fan back at the moment the machine came up.
    let mut clock = SleepClock::new();
    clock.slept_since_last_pass(Some((1_000, 1_000)));

    clock.forget();
    assert_eq!(
        clock.slept_since_last_pass(Some((900_000_000, 2_000))),
        0,
        "a forgotten clock has no interval to report"
    );
}

#[test]
fn a_screen_that_went_off_is_not_the_same_state_as_a_suspend() {
    assert_ne!(PowerState::ScreenOff, PowerState::Suspended);
    assert_ne!(PowerState::ScreenOff, PowerState::Awake);
}

#[test]
fn the_engine_lock_is_global() {
    // Session-local would give the service and a user-session window two
    // separate locks, which is no lock at all.
    assert!(ENGINE_LOCK.starts_with(r"Global\"));
}

#[test]
fn the_three_kinds_of_trouble_are_told_apart() {
    assert_eq!(status_for(false, false, false), ipc::STATUS_OK);
    assert_eq!(status_for(true, false, false), ipc::STATUS_UNREACHABLE);
    assert_eq!(status_for(false, true, false), ipc::STATUS_SURRENDERED);
    assert_eq!(status_for(false, false, true), ipc::STATUS_HANDBACK_FAILED);
}

#[test]
fn a_failed_handback_is_reported_over_anything_else() {
    for fault in [false, true] {
        for surrendered in [false, true] {
            assert_eq!(status_for(fault, surrendered, true), ipc::STATUS_HANDBACK_FAILED);
        }
    }
}

#[test]
fn a_controller_that_cannot_be_read_outranks_the_step_aside_it_caused() {
    assert_eq!(status_for(true, true, false), ipc::STATUS_UNREACHABLE);
}

#[test]
fn every_unhealthy_state_also_sets_the_flag_older_readers_watch() {
    for (fault, surrendered, handback) in [
        (true, false, false),
        (false, true, false),
        (false, false, true),
    ] {
        let published_fault = fault || handback || surrendered;
        assert_ne!(status_for(fault, surrendered, handback), ipc::STATUS_OK);
        assert!(published_fault, "an unhealthy state that no reader would show");
    }
}

#[test]
fn only_one_process_can_hold_the_lock() {
    // A claim that is refused ends the start before anything else is asked.
    assert!(matches!(next_to_start(&vec![]), Starting::Claim));
    assert!(matches!(next_to_start(&vec![false]), Starting::Refused(_)));
    assert!(matches!(next_to_start(&vec![true]), Starting::Share));
    assert!(matches!(next_to_start(&vec![true, false]), Starting::Refused(_)));
    assert!(matches!(next_to_start(&vec![true, true]), Starting::Open));
}

#[test]
fn stop_flag_is_shared_between_handler_and_loop() {
    let mut flag = StopFlag::new();
    assert!(!flag.stopped());
    flag.stop();
    assert!(flag.stopped(), "a stop must be seen");
}

#[test]
fn a_posted_level_is_brought_inside_what_can_be_held() {
    assert_eq!(mode_asked(ipc::MODE_SMART, 0), Mode::Smart);
    assert_eq!(mode_asked(ipc::MODE_BIOS, 5), Mode::Bios);
    assert_eq!(mode_asked(99, 5), Mode::Bios);
    assert_eq!(mode_asked(ipc::MODE_MANUAL, 5), Mode::Manual(5));
    // Level 0 stops the fan with the firmware switched off, so it is refused
    // as a held level.
    assert_ne!(mode_asked(ipc::MODE_MANUAL, 0), Mode::Manual(0));
    assert_ne!(mode_asked(ipc::MODE_MANUAL, 0x40), Mode::Manual(0x40));
}

/// Everything outside the host, as a test stages it.
struct World {
    stamp: Option<u64>,
    clocks: Option<(u64, u64)>,
    shared: Shared,
    sample: Result<EcState, Fault>,
    handback: Result<(), Fault>,
    write: Result<(), Fault>,
    now: u64,
    handbacks: usize,
    written: Vec<u8>,
}

fn reading(temp: i8) -> EcState {
    let mut sensors = [None; 12];
    sensors[0] = Some(temp);
    EcState { fan_ctrl: FAN_BIOS, fan_ctrl_per_fan: [FAN_BIOS; 2], fan_rpm: [2000, 1900], sensors }
}

fn world(temp: i8) -> World {
    World {
        stamp: Some(7),
        clocks: Some((0, 0)),
        shared: Shared::zeroed(),
        sample: Ok(reading(temp)),
        handback: Ok(()),
        write: Ok(()),
        now: 1_000,
        handbacks: 0,
        written: vec![],
    }
}

fn host() -> Host {
    let mut ec = Ec::with_layout(Layout::Standard);
    ec.set_prepared();
    let config = Config::load(Stored::Missing).unwrap();
    match Host::start(config, ec, Some(7), 1_000) {
        Ok(host) => host,
        Err(e) => panic!("{}", e.to_string()),
    }
}

/// One pass, carried out against a world.
fn pass(host: &mut Host, world: &mut World) {
    let mut heard = HostHeard::Ready;
    for _ in 0..200 {
        let ask = host.tick(heard, false, world.now);
        heard = match ask {
            HostAsk::Stamp => HostHeard::Stamped(world.stamp),
            HostAsk::Load => HostHeard::Loaded(Stored::Missing),
            HostAsk::Clocks => HostHeard::Clocks(world.clocks),
            HostAsk::HandBack => {
                world.handbacks += 1;
                HostHeard::HandedBack(world.handback)
            }
            HostAsk::Command => HostHeard::Command(world.shared),
            HostAsk::Acknowledge(seq) => {
                world.shared.acknowledge(seq);
                HostHeard::Ready
            }
            HostAsk::Sample => HostHeard::Sampled(world.sample),
            HostAsk::SetFan(value) => {
                world.written.push(value);
                HostHeard::Wrote(world.write.map(|_| value))
            }
            HostAsk::Pause(ms) => {
                world.now += ms;
                HostHeard::Ready
            }
            HostAsk::Publish => {
                let sample = host.sample();
                let profile = host.active_profile().to_string();
                world.shared.publish(&sample, &profile);
                HostHeard::Ready
            }
            HostAsk::Record => HostHeard::Ready,
            HostAsk::Done => return,
        };
    }
    panic!("a pass did not end");
}

#[test]
fn a_healthy_pass_decides_writes_and_publishes() {
    let mut host = host();
    let mut world = world(70);
    pass(&mut host, &mut world);
    // The shipped curve asks for level 3 at 70.
    assert_eq!(world.written, vec![3]);
    assert_eq!(world.shared.mode, ipc::MODE_SMART);
    assert_eq!(world.shared.fan_ctrl, 3);
    assert_eq!(world.shared.hottest_temp, 70);
    assert_eq!(world.shared.fault, 0);
    assert_eq!(world.shared.state_seq, 1);
    assert_eq!(world.shared.read_profile(), "Balanced");
    assert_eq!(world.shared.publish_secs, host.publish_interval_secs());
}

#[test]
fn a_posted_mode_is_obeyed_and_acknowledged() {
    let mut host = host();
    let mut world = world(50);
    world.shared.post_command(ipc::MODE_MANUAL, 5, "Balanced");
    assert!(host.command_waiting(&world.shared));
    pass(&mut host, &mut world);
    assert_eq!(world.written, vec![5]);
    assert_eq!(world.shared.mode, ipc::MODE_MANUAL);
    assert!(!host.command_waiting(&world.shared));
}

#[test]
fn choosing_a_profile_leaves_the_mode_alone() {
    let mut host = host();
    let mut world = world(50);
    world.shared.post_command(ipc::MODE_MANUAL, 5, "Balanced");
    pass(&mut host, &mut world);
    world.shared.post_command(ipc::MODE_KEEP, 0, "Quiet");
    pass(&mut host, &mut world);
    assert_eq!(world.shared.mode, ipc::MODE_MANUAL);
    assert_eq!(host.active_profile(), "Quiet");
    // One nobody has is ignored, and still acknowledged.
    world.shared.post_command(ipc::MODE_KEEP, 0, "Nonsense");
    pass(&mut host, &mut world);
    assert_eq!(host.active_profile(), "Quiet");
    assert!(!host.command_waiting(&world.shared));
}

#[test]
fn a_run_of_failures_hands_the_fan_back_and_good_passes_take_it_again() {
    let mut host = host();
    let mut world = world(70);
    pass(&mut host, &mut world);
    world.sample = Err(Fault::Call { function: "ec_not_idle", code: 0 });
    let mut passes = 0;
    while world.handbacks == 0 && passes < 20 {
        pass(&mut host, &mut world);
        passes += 1;
    }
    assert_eq!(passes, 5);
    assert_ne!(world.shared.fault, 0);

    world.sample = Ok(reading(70));
    for _ in 0..2 {
        pass(&mut host, &mut world);
        assert_eq!(world.shared.mode, ipc::MODE_BIOS);
    }
    for _ in 0..2 {
        pass(&mut host, &mut world);
    }
    assert_eq!(world.shared.mode, ipc::MODE_SMART);
}

#[test]
fn a_suspend_hands_the_fan_back_and_a_wake_restores_the_mode() {
    let mut host = host();
    let mut world = world(70);
    pass(&mut host, &mut world);
    assert!(host.set_power_state(PowerState::Suspended));
    host.handed_back(Ok(()));
    pass(&mut host, &mut world);
    assert_eq!(world.shared.mode, ipc::MODE_BIOS);
    assert!(host.poll_interval() > 5);
    host.set_power_state(PowerState::Awake);
    pass(&mut host, &mut world);
    assert_eq!(world.shared.mode, ipc::MODE_SMART);
    assert_eq!(host.poll_interval(), 5);
}

#[test]
fn a_failed_handback_is_said_until_there_is_evidence() {
    let mut host = host();
    let mut world = world(70);
    pass(&mut host, &mut world);
    world.handback = Err(Fault::Busy);
    host.set_power_state(PowerState::Suspended);
    host.handed_back(Err(Fault::Busy));
    let mut held = reading(40);
    held.fan_ctrl = 3;
    held.fan_ctrl_per_fan = [3, 3];
    world.sample = Ok(held);
    world.write = Err(Fault::Busy);
    pass(&mut host, &mut world);
    assert_eq!(world.shared.status, ipc::STATUS_HANDBACK_FAILED);
    assert_ne!(world.shared.fault, 0);
}

#[test]
fn shutting_down_always_tries_to_hand_back() {
    let host = host();
    assert!(matches!(host.shutdown(&vec![]), Guarding::Release { after: 0 }));
    assert!(matches!(host.shutdown(&vec![Ok(())]), Guarding::End(Ok(()))));
}

#[test]
fn nothing_is_recorded_unless_it_was_asked_for() {
    let mut host = host();
    let mut world = world(70);
    pass(&mut host, &mut world);
    assert!(host.record().is_none());
}

#[test]
fn a_first_start_probes_and_the_next_one_does_not() {
    let mut config = Config::default();
    assert_eq!(how_to_open(&config), Finding::Probe);

    // A fallback nothing vouched for is never frozen in as an answer.
    assert!(!record_layout(&mut config, &Ec::with_layout(Layout::Standard)));
    assert_eq!(how_to_open(&config), Finding::Probe);

    let mut ec = Ec::with_layout(Layout::Alternate);
    ec.probes = vec![
        Probe::rejected(Layout::Standard, "nothing there".to_string()),
        Probe {
            layout: Layout::Alternate,
            fan_ctrl: Some(0x80),
            temps: Some([40; 8]),
            failure: None,
        },
    ];
    assert!(record_layout(&mut config, &ec));
    assert_eq!(how_to_open(&config), Finding::Configured(Layout::Alternate));

    // Somebody's own choice stands, whatever is found later.
    assert!(!record_layout(&mut config, &ec));
}

#[test]
fn failures_of_every_kind_count_together_and_contention_between_them_does_not() {
    let mut host = host();
    let mut world = world(70);
    pass(&mut host, &mut world);

    let faults = [
        Fault::Call { function: "ec_not_idle", code: 0 },
        Fault::Busy,
        Fault::Call { function: "ioctl_pio_read", code: 31 },
        Fault::PortNotPermitted(0x70),
        Fault::Busy,
        Fault::Call { function: "ec_not_idle", code: 5 },
    ];
    for fault in faults {
        world.sample = Err(fault);
        pass(&mut host, &mut world);
        assert_eq!(world.handbacks, 0);
    }
    world.sample = Err(Fault::PortNotPermitted(0x71));
    pass(&mut host, &mut world);
    assert_eq!(world.handbacks, 1);
    assert_eq!(world.shared.mode, ipc::MODE_BIOS);

    // Two good passes, a failure, and the count starts over.
    for (good, temp) in [(true, 60), (true, 70), (false, 0), (true, 65), (true, 75)] {
        world.sample = if good { Ok(reading(temp)) } else { Err(Fault::Busy) };
        pass(&mut host, &mut world);
        assert_eq!(world.shared.mode, ipc::MODE_BIOS);
    }
    world.sample = Ok(reading(72));
    pass(&mut host, &mut world);
    pass(&mut host, &mut world);
    assert_eq!(world.shared.mode, ipc::MODE_SMART);
}
