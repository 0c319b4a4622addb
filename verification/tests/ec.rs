use std::cell::RefCell;

use yamato::ec::{
    chosen_layout, mirror_lone_fan, plausible_fan_ctrl, plausible_temps, Ec, EcState, Probe,
    FAN_BIOS, FAN_DISENGAGED, PROBE_TEMPS, REG_FAN_CTRL, REG_FAN_SELECT, REG_FAN_SPEED_HI,
    REG_FAN_SPEED_LO, REG_TEMP_BANK0, SENSOR_COUNT,
};
use yamato::handshake::{next, Access, Answer, Exchange, PortAsk, CMD_READ, CMD_WRITE, OBF};
use yamato::pass::{Ask, Looked, Step};
use yamato::pawnio::{Error, Fault, Layout};

const SET_FAN_DECLINED: &str = "set_fan_declined";

/// Where a fake controller is in the command sequence.
enum Phase {
    Idle,
    /// A read command was issued; the next data byte is the address.
    WantReadAddress,
    /// A write command was issued; the next data byte is the address.
    WantWriteAddress,
    /// The address arrived; the next data byte is the value for it.
    WantValue(u8),
}

/// A controller with the protocol and none of the hardware. It follows the
/// ACPI command sequence: command on the status port, address and value on the
/// data port, a status bit raised when a result is waiting.
struct FakeEc {
    layout: Layout,
    state: RefCell<FakeState>,
}

struct FakeState {
    /// Whether the module's setup has run. Matters on the alternate layout
    /// only.
    prepared: bool,
    /// A window that is decoded but has nothing behind it.
    dead: bool,
    phase: Phase,
    /// The byte waiting in the output buffer, if any.
    obf: Option<u8>,
    /// Port reads that fail before the controller starts answering.
    failing_reads: usize,
    /// Fan register writes the controller drops before it starts holding them.
    dropped_ctrl_writes: usize,
    selector: usize,
    fan_ctrl: [u8; 2],
    /// Fans that take every byte of a write and then do not hold the value.
    declines: [bool; 2],
    temps: [u8; PROBE_TEMPS],
    /// Every register-level write, in order.
    writes: Vec<(u8, u8)>,
    /// A clock that counts milliseconds.
    now: u64,
}

impl FakeEc {
    /// A healthy ThinkPad at this layout: firmware owns both fans and the
    /// sensor bank reads like a laptop.
    fn thinkpad(layout: Layout) -> FakeEc {
        FakeEc {
            layout,
            state: RefCell::new(FakeState {
                prepared: true,
                dead: false,
                phase: Phase::Idle,
                obf: None,
                failing_reads: 0,
                dropped_ctrl_writes: 0,
                selector: 0,
                fan_ctrl: [FAN_BIOS; 2],
                declines: [false; 2],
                temps: [0x30, 0x2e, 0x00, 0x2d, 0x00, 0x00, 0x00, 0x00],
                writes: Vec::new(),
                now: 1_000,
            }),
        }
    }

    /// The same machine before the module's setup.
    fn unprepared(layout: Layout) -> FakeEc {
        let fake = FakeEc::thinkpad(layout);
        fake.state.borrow_mut().prepared = false;
        fake
    }

    /// A window the machine decodes with no controller behind it.
    fn dead_window(layout: Layout) -> FakeEc {
        let fake = FakeEc::thinkpad(layout);
        fake.state.borrow_mut().dead = true;
        fake
    }

    fn hold_levels(&self, levels: [u8; 2]) {
        self.state.borrow_mut().fan_ctrl = levels;
    }

    fn fail_next_reads(&self, count: usize) {
        self.state.borrow_mut().failing_reads = count;
    }

    fn drop_ctrl_writes(&self, count: usize) {
        self.state.borrow_mut().dropped_ctrl_writes = count;
    }

    fn decline_fan(&self, fan: usize) {
        self.state.borrow_mut().declines[fan] = true;
    }

    fn temps(&self, temps: [u8; PROBE_TEMPS]) {
        self.state.borrow_mut().temps = temps;
    }

    fn fan_ctrl(&self) -> [u8; 2] {
        self.state.borrow().fan_ctrl
    }

    fn writes(&self) -> Vec<(u8, u8)> {
        self.state.borrow().writes.clone()
    }

    fn now(&self) -> u64 {
        self.state.borrow().now
    }

    fn sleep(&self, ms: u64) {
        self.state.borrow_mut().now += ms;
    }

    fn read_port(&self, port: u16) -> Result<u8, Fault> {
        assert!(
            self.layout.permits(port),
            "read of port {port:#06x} outside the {}",
            self.layout.describe()
        );

        let mut state = self.state.borrow_mut();

        if state.failing_reads > 0 {
            state.failing_reads -= 1;
            return Err(Fault::Call { function: "read_result", code: 0 });
        }

        if self.layout == Layout::Alternate && !state.prepared {
            return Err(Fault::Call { function: "device_not_ready", code: 0 });
        }

        if state.dead {
            return Ok(0);
        }

        if port == self.layout.status_port() {
            return Ok(if state.obf.is_some() { OBF } else { 0 });
        }

        Ok(state.obf.take().unwrap_or(0xff))
    }

    fn write_port(&self, port: u16, value: u8) -> Result<u8, Fault> {
        assert!(
            self.layout.permits(port),
            "write of port {port:#06x} outside the {}",
            self.layout.describe()
        );

        let mut state = self.state.borrow_mut();

        if self.layout == Layout::Alternate && !state.prepared {
            return Err(Fault::Call { function: "device_not_ready", code: 0 });
        }

        if state.dead {
            return Ok(0);
        }

        if port == self.layout.status_port() {
            state.phase = match value {
                CMD_READ => Phase::WantReadAddress,
                CMD_WRITE => Phase::WantWriteAddress,
                _ => Phase::Idle,
            };

            return Ok(0);
        }

        match state.phase {
            Phase::WantReadAddress => {
                state.obf = Some(read_reg(&state, value));
                state.phase = Phase::Idle;
            }
            Phase::WantWriteAddress => state.phase = Phase::WantValue(value),
            Phase::WantValue(address) => {
                write_reg(&mut state, address, value);
                state.phase = Phase::Idle;
            }
            Phase::Idle => {}
        }

        Ok(0)
    }

    /// Carries out one access, port by port.
    fn access(&self, access: Access) -> Result<u8, Fault> {
        let started = self.now();
        let mut heard: Vec<Answer> = Vec::new();
        loop {
            let got = match next(self.layout, access, started, &heard) {
                Exchange::End(result) => return result,
                Exchange::Ask(PortAsk::Read(port)) => self.read_port(port),
                Exchange::Ask(PortAsk::Write(port, value)) => self.write_port(port, value),
                Exchange::Ask(PortAsk::Sleep(ms)) => {
                    self.sleep(ms);
                    Ok(0)
                }
            };
            heard.push(Answer { got, at: self.now() });
        }
    }

    fn perform(&self, ask: Ask) -> Answer {
        let got = match ask {
            Ask::Lock => Ok(0),
            Ask::Prepare => {
                self.state.borrow_mut().prepared = true;
                Ok(0)
            }
            Ask::Read(register) => self.access(Access::Read(register)),
            Ask::Write(register, value) => self.access(Access::Write(register, value)),
            Ask::Sleep(ms) => {
                self.sleep(ms);
                Ok(0)
            }
        };
        Answer { got, at: self.now() }
    }
}

fn read_reg(state: &FakeState, address: u8) -> u8 {
    match address {
        REG_FAN_CTRL => state.fan_ctrl[state.selector],
        REG_FAN_SELECT => state.selector as u8,
        REG_FAN_SPEED_LO => 0x10,
        REG_FAN_SPEED_HI => 0x0e,
        a if (REG_TEMP_BANK0..REG_TEMP_BANK0 + PROBE_TEMPS as u8).contains(&a) => {
            state.temps[(a - REG_TEMP_BANK0) as usize]
        }
        _ => 0,
    }
}

fn write_reg(state: &mut FakeState, address: u8, value: u8) {
    state.writes.push((address, value));

    match address {
        REG_FAN_SELECT => state.selector = (value as usize).min(1),
        REG_FAN_CTRL if state.dropped_ctrl_writes > 0 => state.dropped_ctrl_writes -= 1,
        REG_FAN_CTRL if !state.declines[state.selector] => {
            state.fan_ctrl[state.selector] = value;
        }
        _ => {}
    }
}

/// A handle and the controller behind it.
struct Rig {
    ec: Ec,
    fake: FakeEc,
}

impl Rig {
    fn sample(&self) -> Result<EcState, Fault> {
        let mut heard: Vec<Answer> = Vec::new();
        loop {
            match self.ec.sample(&heard) {
                Step::End(result) => return result,
                Step::Ask(ask) => heard.push(self.fake.perform(ask)),
            }
        }
    }

    fn set_fan(&self, value: u8) -> Result<u8, Fault> {
        let mut heard: Vec<Answer> = Vec::new();
        loop {
            match self.ec.set_fan(value, &heard) {
                Step::End(result) => return result,
                Step::Ask(ask) => heard.push(self.fake.perform(ask)),
            }
        }
    }

    fn release_to_bios(&self) -> Result<(), Fault> {
        let mut heard: Vec<Answer> = Vec::new();
        loop {
            match self.ec.release_to_bios(&heard) {
                Step::End(result) => return result,
                Step::Ask(ask) => heard.push(self.fake.perform(ask)),
            }
        }
    }

    fn probe(&self, started: u64) -> Result<Probe, Fault> {
        let mut heard: Vec<Answer> = Vec::new();
        loop {
            match self.ec.probe(started, &heard) {
                Step::End(result) => return result,
                Step::Ask(ask) => heard.push(self.fake.perform(ask)),
            }
        }
    }

    fn probe_persistently(&self) -> Probe {
        let started = self.fake.now();
        loop {
            let look = self.probe(started);
            match self.ec.probe_persistently(look, started, self.fake.now()) {
                Looked::Verdict(probe) => return probe,
                Looked::Again(pause) => self.fake.sleep(pause),
            }
        }
    }
}

fn ec_with(fake: FakeEc) -> Rig {
    let mut ec = Ec::with_layout(fake.layout);
    ec.set_prepared();
    Rig { ec, fake }
}

fn fake(rig: &Rig) -> &FakeEc {
    &rig.fake
}

/// One probe attempt with a fresh budget.
fn probe_once(rig: &Rig) -> Result<Probe, Fault> {
    rig.probe(rig.fake.now())
}

#[test]
fn the_handback_is_the_same_bytes_on_both_layouts() {
    // The one guarantee everything else rests on: 0x80 reaches register
    // 0x2f, on every fan, whichever ports carry the transaction. The
    // handback is one piece of code parameterized on the layout, and this
    // proves the parameterization changes nothing that matters: the
    // register-level write sequence, captured on each layout, must be
    // identical byte for byte.
    let mut journals = Vec::new();

    for layout in [Layout::Standard, Layout::Alternate] {
        let controller = FakeEc::thinkpad(layout);
        controller.hold_levels([0x07, 0x03]);

        let ec = ec_with(controller);
        ec.release_to_bios().expect("a healthy controller must accept the handback");

        assert_eq!(
            fake(&ec).fan_ctrl(),
            [FAN_BIOS, FAN_BIOS],
            "both fans must end under firmware control"
        );
        journals.push(fake(&ec).writes());
    }

    assert_eq!(journals[0], journals[1], "the layouts must run the same handback");

    // And the sequence itself: each fan selected, handed 0x80, and the
    // selector parked where the rest of the code expects it.
    assert_eq!(
        journals[0],
        vec![
            (REG_FAN_SELECT, 0),
            (REG_FAN_CTRL, FAN_BIOS),
            (REG_FAN_SELECT, 1),
            (REG_FAN_CTRL, FAN_BIOS),
            (REG_FAN_SELECT, 0),
        ]
    );
}

#[test]
fn set_fan_lands_on_both_fans_whatever_the_layout() {
    for layout in [Layout::Standard, Layout::Alternate] {
        let ec = ec_with(FakeEc::thinkpad(layout));

        ec.set_fan(3).expect("a healthy controller must take a level");
        assert_eq!(fake(&ec).fan_ctrl(), [3, 3]);
    }
}

#[test]
fn a_declining_fan_fails_the_handback_loudly_on_either_layout() {
    // A fan that takes the bytes and drops the value is the silent
    // failure the verified write exists to catch, and the alternate path
    // must catch it with exactly the same behavior: report the failure,
    // and still write the fan that is willing.
    for layout in [Layout::Standard, Layout::Alternate] {
        let controller = FakeEc::thinkpad(layout);
        controller.hold_levels([0x07, 0x07]);
        controller.decline_fan(1);

        let ec = ec_with(controller);
        let error = ec.release_to_bios().expect_err("a dropped 0x80 must be reported");

        assert!(!error.is_contention());
        assert_eq!(
            fake(&ec).fan_ctrl()[0],
            FAN_BIOS,
            "one fan refusing is no reason to abandon the other"
        );
    }
}

#[test]
fn a_probe_accepts_a_thinkpad_on_either_layout() {
    for layout in [Layout::Standard, Layout::Alternate] {
        let ec = ec_with(FakeEc::thinkpad(layout));
        let probe = probe_once(&ec).expect("nothing contends in a test");

        assert!(probe.passed(), "{}", probe.to_string());
        assert_eq!(probe.fan_ctrl, Some(FAN_BIOS));
    }
}

#[test]
fn a_probe_outlasts_the_transient_failures_a_restart_leaves_behind() {
    // The measured defect: four back-to-back service restarts, and three
    // of them rejected the standard layout on IOCTL failures from the
    // previous instance still letting go of the controller. One look is
    // not a fair chance. The tick path already retries a failed pass;
    // the probe extends the same patience before it believes anything.
    let flaky = FakeEc::thinkpad(Layout::Standard);
    flaky.fail_next_reads(1);

    let ec = ec_with(flaky);
    let single = probe_once(&ec).expect("nothing contends in a test");
    assert!(!single.passed(), "the staged failure must reach a single attempt");
    assert!(!single.definitive(), "an IOCTL failure is not evidence about the machine");

    let flaky = FakeEc::thinkpad(Layout::Standard);
    flaky.fail_next_reads(2);

    let ec = ec_with(flaky);
    let probe = ec.probe_persistently();
    assert!(probe.passed(), "retries must turn a transient failure into a pass: {}", probe.to_string());
}

#[test]
fn a_controller_slow_to_take_the_handoff_is_not_called_unwritable() {
    // set_fan retries a write that did not hold, because the controller
    // can take a moment to accept a change. The probe's write test
    // judges the machine on the same action and owes it the same
    // patience: a fan register that holds the value on a later attempt
    // is a working EC, not a refusal to record against.
    let controller = FakeEc::thinkpad(Layout::Standard);
    controller.hold_levels([0x03, 0x03]);
    controller.drop_ctrl_writes(2);

    let ec = ec_with(controller);
    let probe = probe_once(&ec).expect("nothing contends in a test");

    assert!(probe.passed(), "{}", probe.to_string());
    assert_eq!(fake(&ec).fan_ctrl()[0], FAN_BIOS, "the handoff must have landed");
}

/// A probe that passed, for staging selection evidence by hand.
fn passing(layout: Layout) -> Probe {
    Probe { layout, fan_ctrl: Some(FAN_BIOS), temps: None, failure: None }
}

// The recording table, one test per row. The question the record has to
// survive is whether the layout that was not examined could have beaten
// the winner, and the four rows are the four answers.

#[test]
fn a_standard_win_is_recorded_whatever_became_of_the_alternate() {
    // Row one, the common machine. Ties go to the standard layout, so
    // nothing the alternate could have said would have changed this
    // outcome: even a pass would have lost. Holding the record back
    // here would re-probe the most ordinary machines on every boot,
    // through the SuperIO walk the record exists to avoid.
    let mut ec = ec_with(FakeEc::thinkpad(Layout::Standard));
    ec.ec.probes = vec![
        passing(Layout::Standard),
        Probe::unexamined(Layout::Alternate, "no handshake: test".to_string()),
    ];

    assert!(ec.ec.worth_recording(), "an unexamined alternate cannot outrank a standard pass");

    let summary = ec.ec.selection_summary();
    assert!(summary.starts_with("driving the"), "{summary}");
    assert!(!summary.contains("without recording"), "{summary}");

    // A definitive alternate changes nothing about the verdict, whether
    // it was rejected or even passed and lost the tie.
    ec.ec.probes = vec![passing(Layout::Standard), passing(Layout::Alternate)];
    assert!(ec.ec.worth_recording(), "a tie the standard layout won is a full verdict");
}

#[test]
fn a_compat_win_over_a_rejected_standard_is_recorded() {
    // Row two, the P53 class. The standard layout answered and is not
    // this machine's controller; that is evidence about the machine,
    // and the record may stand on it so no later boot asks again.
    let mut ec = ec_with(FakeEc::thinkpad(Layout::Alternate));
    ec.ec.probes = vec![
        Probe::rejected(Layout::Standard, "fan register 0xff is not a fan state".to_string()),
        passing(Layout::Alternate),
    ];

    assert!(ec.ec.worth_recording(), "a standard rejection is evidence to record on");
    assert!(!ec.ec.selection_summary().contains("without recording"));
}

#[test]
fn a_compat_win_over_an_unexamined_standard_is_driven_but_not_recorded() {
    // Row three, the only unrecorded win, and the case the whole rule
    // guards: the standard layout would have taken precedence had it
    // passed, and nobody got to ask it. Recording compatibility mode
    // here is exactly how one unlucky boot used to strand a standard
    // machine permanently. The winner still drives this session; the
    // record stays unset so the next start looks again.
    let mut ec = ec_with(FakeEc::thinkpad(Layout::Alternate));
    ec.ec.probes = vec![
        Probe::unexamined(Layout::Standard, "lock busy".to_string()),
        passing(Layout::Alternate),
    ];

    assert!(ec.ec.validated(), "the winner still drives this session");
    assert!(!ec.ec.worth_recording(), "the loser might have won; nothing may be recorded");

    // And the summary says which happened, in as many words, because
    // this line is what the next bug report carries.
    let summary = ec.ec.selection_summary();
    assert!(summary.contains("without recording"), "{summary}");
    assert!(summary.contains("could not be examined"), "{summary}");
    assert!(!summary.contains("falling back"), "{summary}");
}

#[test]
fn a_boot_where_nothing_passed_records_nothing() {
    // Row four, unchanged from before the rule: the fallback is nothing
    // vouched for, whatever mix of rejection and silence produced it.
    let mut ec = ec_with(FakeEc::thinkpad(Layout::Standard));
    ec.ec.probes = vec![
        Probe::unexamined(Layout::Standard, "lock busy".to_string()),
        Probe::rejected(
            Layout::Alternate,
            "bank 0 does not read like temperature sensors".to_string(),
        ),
    ];

    assert!(!ec.ec.validated());
    assert!(!ec.ec.worth_recording(), "a fallback nothing vouched for is never recorded");
    assert!(ec.ec.selection_summary().contains("falling back"));
}

#[test]
fn a_probe_rejects_a_controller_it_can_read_but_not_drive() {
    // The gap the write test closes: a window can complete handshakes
    // and serve plausible values while quietly dropping writes, and a
    // layout picked on reads alone would leave the engine believing it
    // has control it does not have. Held at a manual level first, so a
    // dropped 0x80 is distinguishable from a register that already read
    // as firmware controlled.
    for layout in [Layout::Standard, Layout::Alternate] {
        let controller = FakeEc::thinkpad(layout);
        controller.hold_levels([0x03, 0x03]);
        controller.decline_fan(0);

        let ec = ec_with(controller);
        let probe = probe_once(&ec).expect("nothing contends in a test");

        assert!(!probe.passed(), "a read-only fan register was accepted: {}", probe.to_string());
        // A refusal that outlasted the write test's own retries is a
        // verdict on the machine, the kind a layout record may rest on.
        assert!(probe.definitive(), "a persistent refusal must be a rejection: {}", probe.to_string());
    }
}

#[test]
fn a_passing_probe_leaves_the_firmware_in_charge() {
    // The write test's value is the firmware handoff, chosen because it
    // is the state that is safe to leave behind: interrupted after the
    // write, rejected after the read, or passed outright, the register
    // must never end at a manual level the probe set. The original level
    // still travels in the evidence.
    let controller = FakeEc::thinkpad(Layout::Standard);
    controller.hold_levels([0x07, 0x07]);

    let ec = ec_with(controller);
    let probe = probe_once(&ec).expect("nothing contends in a test");

    assert!(probe.passed(), "{}", probe.to_string());
    assert_eq!(probe.fan_ctrl, Some(0x07), "the evidence must keep the original value");
    assert_eq!(fake(&ec).fan_ctrl()[0], FAN_BIOS, "the probe must not leave a level set");
}

#[test]
fn a_probe_writes_nothing_through_a_window_that_failed_the_read_checks() {
    // The write test runs last on purpose: a window that already failed
    // plausibility gets no byte written into it, so probing the layout a
    // machine does not use stays read only there.
    let controller = FakeEc::thinkpad(Layout::Alternate);
    controller.temps([0x30; PROBE_TEMPS]);

    let ec = ec_with(controller);
    let probe = probe_once(&ec).expect("nothing contends in a test");

    assert!(!probe.passed(), "constant sensors must still be rejected");
    assert!(
        fake(&ec).writes().is_empty(),
        "a rejected window took a write: {:?}",
        fake(&ec).writes()
    );
}

#[test]
fn a_configured_handle_claims_no_verdict_it_never_reached() {
    // The configured path probes nothing, so its summary must say the
    // layout came from the settings rather than reading like a verdict
    // on hardware, and validated() must not vouch for it: that answer
    // decides whether a probe result is written into the settings, and a
    // configured boot has none to write.
    let mut ec = ec_with(FakeEc::thinkpad(Layout::Alternate));
    ec.ec.configured = true;

    assert!(!ec.ec.validated());

    let summary = ec.ec.selection_summary();
    assert!(summary.contains("settings"), "{summary}");
    assert!(summary.contains("without probing"), "{summary}");
    assert!(!summary.contains("falling back"), "{summary}");
}

#[test]
fn a_decoded_but_empty_window_never_passes_and_is_never_evidence() {
    // The measured machine: an EC at the standard ports, and an alternate
    // window that also decodes, reading 0x00 at the status port. "IBF
    // clear, OBF clear, ready" is exactly what a naive check sees there.
    // The handshake cannot complete against it, because OBF never rises
    // in answer to the read command, so the window can never pass. It is
    // also never a rejection: the same silence comes from a real EC with
    // another tool mid-transaction on it, so the honest verdict is that
    // the window could not be examined, and the layout record stays
    // unset for the next start to try again.
    let ec = ec_with(FakeEc::dead_window(Layout::Alternate));
    let probe = probe_once(&ec).expect("nothing contends in a test");

    assert!(!probe.passed());
    assert!(!probe.definitive(), "a timeout must not read as a verdict on the machine");
    assert!(probe.fan_ctrl.is_none(), "no handshake means no value to trust");
}

#[test]
fn the_alternate_path_prepares_itself_before_any_traffic() {
    // LpcIO answers STATUS_DEVICE_NOT_READY to any port access before
    // slot select and BAR discovery, in that order. The configured path
    // opens without probing, so nothing has prepared the handle by the
    // time the first pass runs; the pass has to do it itself, under the
    // lock, or a remembered alternate layout would be dead on every
    // boot.
    let mut ec = ec_with(FakeEc::unprepared(Layout::Alternate));
    ec.ec.prepared = false;
    assert!(ec.sample().is_ok(), "the first pass must prepare the module");

    let probe = probe_once(&ec).expect("nothing contends in a test");
    assert!(probe.passed(), "{}", probe.to_string());
}

#[test]
fn fan_register_plausibility_is_a_whitelist() {
    // Firmware control, bare or with the firmware's own level showing in
    // the low bits, and with reserved bits set as some machines do.
    assert!(plausible_fan_ctrl(0x80));
    assert!(plausible_fan_ctrl(0x84));
    assert!(plausible_fan_ctrl(0xa0));

    // Manual levels and the bare disengage bit.
    assert!(plausible_fan_ctrl(0x00));
    assert!(plausible_fan_ctrl(0x07));
    assert!(plausible_fan_ctrl(FAN_DISENGAGED));

    // The floating bus answer, and states no ThinkPad produces.
    assert!(!plausible_fan_ctrl(0xff));
    assert!(!plausible_fan_ctrl(0xc0));
    assert!(!plausible_fan_ctrl(0x47));
}

#[test]
fn temperature_plausibility_rejects_constant_windows() {
    // What a decoded-but-empty window returns: one value, forever.
    assert!(!plausible_temps(&[0x00; PROBE_TEMPS]));
    assert!(!plausible_temps(&[0xff; PROBE_TEMPS]));
    // Any constant, not just the classic two.
    assert!(!plausible_temps(&[0x30; PROBE_TEMPS]));

    // Varied, but nothing a running machine could be at.
    assert!(!plausible_temps(&[0xf0, 0xf1, 0xf2, 0xf3, 0xf4, 0xf5, 0xf6, 0xf7]));

    // A real bank: live sensors beside absent ones.
    assert!(plausible_temps(&[0x30, 0x2e, 0x00, 0x2d, 0x00, 0x00, 0x00, 0x00]));
    // One live sensor is enough, provided the bank disagrees with itself.
    assert!(plausible_temps(&[0x00, 0x00, 0x00, 0x00, 0x00, 0x00, 0x00, 0x37]));
}

#[test]
fn selection_needs_evidence_and_prefers_the_standard_layout() {
    let pass = |layout| Probe { layout, fan_ctrl: Some(FAN_BIOS), temps: None, failure: None };
    let fail = |layout| Probe::rejected(layout, "no handshake".to_string());

    // Both pass: the specified location wins the tie.
    assert_eq!(
        chosen_layout(&[pass(Layout::Standard), pass(Layout::Alternate)]),
        Some(Layout::Standard)
    );
    // The order the evidence arrived in must not matter, only its content.
    assert_eq!(
        chosen_layout(&[pass(Layout::Alternate), pass(Layout::Standard)]),
        Some(Layout::Standard)
    );
    // Only one passes: evidence outranks preference.
    assert_eq!(
        chosen_layout(&[fail(Layout::Standard), pass(Layout::Alternate)]),
        Some(Layout::Alternate)
    );
    // Neither passes: no controller, and no guessing.
    assert_eq!(chosen_layout(&[fail(Layout::Standard), fail(Layout::Alternate)]), None);

    // A layout that could not be examined is not evidence either way:
    // it neither wins nor blocks the layout that answered.
    let missing = |layout| Probe::unexamined(layout, "lock busy".to_string());
    assert_eq!(
        chosen_layout(&[missing(Layout::Standard), pass(Layout::Alternate)]),
        Some(Layout::Alternate)
    );
    assert_eq!(
        chosen_layout(&[missing(Layout::Standard), missing(Layout::Alternate)]),
        None
    );
}

#[test]
fn the_summary_says_plainly_when_the_choice_was_a_fallback() {
    // A fallback must not read like a choice the evidence made.
    let mut ec = ec_with(FakeEc::thinkpad(Layout::Standard));

    ec.ec.probes = vec![
        Probe::rejected(Layout::Standard, "no handshake: test".to_string()),
        Probe::rejected(Layout::Alternate, "no handshake: test".to_string()),
    ];

    let fallback = ec.ec.selection_summary();
    assert!(fallback.contains("no layout validated"), "{fallback}");
    assert!(fallback.contains("falling back"), "{fallback}");

    // And a validated pass must not cry wolf.
    ec.ec.probes = vec![
        Probe {
            layout: Layout::Standard,
            fan_ctrl: Some(FAN_BIOS),
            temps: None,
            failure: None,
        },
        Probe::rejected(Layout::Alternate, "no handshake: test".to_string()),
    ];

    let validated = ec.ec.selection_summary();
    assert!(validated.starts_with("driving the"), "{validated}");
    assert!(!validated.contains("falling back"), "{validated}");
}

#[test]
fn a_sample_reads_the_same_machine_the_same_way_on_both_layouts() {
    let mut states = Vec::new();

    for layout in [Layout::Standard, Layout::Alternate] {
        let ec = ec_with(FakeEc::thinkpad(layout));
        states.push(ec.sample().expect("a healthy controller must be readable"));
    }

    let (a, b) = (&states[0], &states[1]);
    assert_eq!(a.fan_ctrl_per_fan, b.fan_ctrl_per_fan);
    assert_eq!(a.fan_rpm, b.fan_rpm);
    assert_eq!(a.sensors, b.sensors);

    // And the reading itself decodes as the fake's machine.
    assert!(a.is_bios_controlled());
    assert_eq!(a.fan_rpm[0], 0x0e10);
    assert_eq!(a.sensors[0], Some(0x30));
    assert_eq!(a.sensors[2], None);
}

fn state_with(sensors: [Option<i8>; SENSOR_COUNT], fan_ctrl: u8) -> EcState {
    EcState {
        fan_ctrl,
        fan_ctrl_per_fan: [fan_ctrl; 2],
        fan_rpm: [0; 2],
        sensors,
    }
}

#[test]
fn one_fan_still_held_is_not_bios_controlled() {
    // The dual fan case. Reading the register once described fan 1 only,
    // so a machine with fan 2 pinned at a manual level, firmware disabled,
    // reported itself healthy and handed back.
    let mut state = state_with([None; SENSOR_COUNT], FAN_BIOS);
    state.fan_ctrl_per_fan = [FAN_BIOS, 0x07];

    assert!(!state.is_bios_controlled());

    state.fan_ctrl_per_fan = [FAN_BIOS, FAN_BIOS];
    assert!(state.is_bios_controlled());
}

#[test]
fn a_single_fan_sample_is_judged_on_the_fan_it_has() {
    // What sample() produces when single_fan is set: the second slot is
    // never read, so it mirrors the first and the handback is judged on
    // the real fan alone. Without this a single-fan machine could never
    // satisfy is_bios_controlled, and the "fan may be held" warning stayed
    // latched forever over nothing.
    let mut state = state_with([None; SENSOR_COUNT], FAN_BIOS);
    state.fan_ctrl_per_fan = [FAN_BIOS, 0x07];
    mirror_lone_fan(&mut state);

    assert!(state.is_bios_controlled());

    // And the mirror must not manufacture a handback either: the one real
    // fan holding a level is still a fan holding a level.
    state.fan_ctrl_per_fan = [0x07, FAN_BIOS];
    mirror_lone_fan(&mut state);

    assert!(!state.is_bios_controlled());
}

#[test]
fn a_declined_fan_write_is_told_apart_from_an_unanswered_one() {
    // The single-fan hint hangs off this distinction: declined means the
    // controller is answering and refusing the value, which with a second
    // fan that has never spun points at the setting. Unreachable means no
    // such thing.
    assert!(Fault::Call { function: SET_FAN_DECLINED, code: 7 }.is_fan_write_declined());
    assert!(!Fault::Call { function: "ec_not_idle", code: 0 }.is_fan_write_declined());
    assert!(!Fault::Busy.is_fan_write_declined());
    assert!(Error::Call { function: SET_FAN_DECLINED, code: 7 }.is_fan_write_declined());
    assert!(!Error::Busy.is_fan_write_declined());
}

#[test]
fn hottest_skips_absent_and_ignored_sensors() {
    let mut s = [None; SENSOR_COUNT];
    s[0] = Some(50);
    s[1] = Some(91); // the one we will ignore
    s[2] = Some(62);

    let st = state_with(s, FAN_BIOS);
    assert_eq!(st.hottest(&[]), Some((1, 91)));
    assert_eq!(st.hottest(&[1]), Some((2, 62)));
}

#[test]
fn hottest_is_none_when_nothing_reports() {
    let st = state_with([None; SENSOR_COUNT], FAN_BIOS);
    assert_eq!(st.hottest(&[]), None);
}

#[test]
fn bios_bit_and_manual_level_decode() {
    assert!(state_with([None; SENSOR_COUNT], FAN_BIOS).is_bios_controlled());
    assert_eq!(state_with([None; SENSOR_COUNT], FAN_BIOS).manual_level(), None);

    let manual = state_with([None; SENSOR_COUNT], 0x03);
    assert!(!manual.is_bios_controlled());
    assert_eq!(manual.manual_level(), Some(3));
}


#[test]
fn a_declined_write_is_reported_as_declined() {
    let controller = FakeEc::thinkpad(Layout::Standard);
    controller.decline_fan(1);
    let mut rig = ec_with(controller);
    let error = rig.set_fan(3).expect_err("a dropped level must be reported");
    assert!(error.is_fan_write_declined());
    // A machine with one fan is judged on the one it has.
    rig.ec.set_single_fan(true);
    assert_eq!(rig.set_fan(3).unwrap(), 3);
}

#[test]
fn a_window_that_stays_silent_runs_out_of_time() {
    let rig = ec_with(FakeEc::dead_window(Layout::Standard));
    let before = rig.fake.now();
    assert!(rig.sample().is_err());
    assert!(rig.fake.now() - before >= 750);
    let probe = rig.probe_persistently();
    assert!(!probe.passed());
}

#[test]
fn opening_goes_by_the_evidence() {
    let open = |standard: Result<Probe, Error>, alternate: Result<Probe, Error>| {
        Ec::open(standard).expect("the driver is there").finish(alternate)
    };
    let rejected = |layout| Probe::rejected(layout, "no".to_string());

    let ec = open(Ok(passing(Layout::Standard)), Ok(passing(Layout::Alternate))).unwrap();
    assert_eq!(ec.layout(), Layout::Standard);
    assert!(ec.worth_recording());
    assert_eq!(ec.selection().len(), 2);

    let ec = open(Ok(rejected(Layout::Standard)), Ok(passing(Layout::Alternate))).unwrap();
    assert_eq!(ec.layout(), Layout::Alternate);

    let ec = open(Ok(rejected(Layout::Standard)), Ok(rejected(Layout::Alternate))).unwrap();
    assert_eq!(ec.layout(), Layout::Standard);
    assert!(!ec.validated());
}

#[test]
fn a_driver_that_is_not_there_opens_nothing() {
    assert!(matches!(Ec::open(Err(Error::DriverUnavailable)), Err(Error::DriverUnavailable)));
}
