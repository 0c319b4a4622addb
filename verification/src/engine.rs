//! The control loop's decisions, and the guarantee that wraps them.
//!
//! Writing a manual level to the fan register takes the firmware out of the
//! loop until 0x80 goes back, so a level left set by something that stopped
//! running means a laptop with no thermal management.

use vstd::prelude::*;

use crate::curve::{Curve, CurvePoint};
use crate::ec::{EcState, EcStateView, FAN_BIOS, FAN_BITS, FAN_DISENGAGED, FAN_LEVEL_MAX};
use crate::pawnio::Fault;

verus! {

/// What the engine is currently doing.
#[derive(Debug, Clone, Copy, PartialEq, Eq, Structural)]
pub enum Mode {
    /// Hands the fan to the firmware and stops deciding.
    Bios,
    /// Follows a curve.
    Smart,
    /// Holds one level.
    Manual(u8),
}

impl Default for Mode {
    /// Starting in firmware mode means a crash before the first decision
    /// leaves the machine cooled rather than pinned.
    fn default() -> (r: Self)
        ensures
            r == Mode::Bios,
    {
        Mode::Bios
    }
}

/// One pass of the loop, for the window and the log.
#[derive(Debug, Clone, Copy)]
pub struct Tick {
    pub state: EcState,
    /// Sensor index and reading the decision was made on.
    pub hottest: Option<(usize, i8)>,
    /// What we asked the fan register to be.
    pub applied: u8,
    /// True when this pass changed the register.
    pub changed: bool,
}

/// How often a handback is tried before its failure is reported.
pub const RELEASE_ATTEMPTS: usize = 3;

/// The pause between those tries, in milliseconds.
pub const RELEASE_PAUSE: u64 = 50;

/// What a guard does next.
#[derive(Debug, Clone, Copy)]
pub enum Guarding {
    /// Hand the fan back, after waiting this many milliseconds.
    Release { after: u64 },
    End(Result<(), Fault>),
}

/// Restores firmware control on the way out, whatever the reason. It has no
/// state, so there is none to get wrong.
#[derive(Debug, Clone, Copy)]
pub struct FanGuard;

/// What a guard does next, given how its handbacks so far came out.
pub open spec fn guarding(tried: Seq<Result<(), Fault>>) -> Guarding {
    if tried.len() == 0 {
        Guarding::Release { after: 0 }
    } else if tried.last() is Ok {
        Guarding::End(Ok(()))
    } else if tried.len() < RELEASE_ATTEMPTS {
        Guarding::Release { after: RELEASE_PAUSE }
    } else {
        Guarding::End(tried.last())
    }
}

impl FanGuard {
    pub fn new() -> (r: Self)
        ensures
            r == FanGuard,
    {
        FanGuard
    }

    /// Hands the fan back, unconditionally: tried three times, and the caller
    /// is told if that was not enough.
    pub fn release(&self, tried: &Vec<Result<(), Fault>>) -> (r: Guarding)
        ensures
            r == guarding(tried@),
    {
        if tried.len() == 0 {
            return Guarding::Release { after: 0 };
        }
        match tried[tried.len() - 1] {
            Ok(_) => Guarding::End(Ok(())),
            Err(f) => if tried.len() < RELEASE_ATTEMPTS {
                Guarding::Release { after: RELEASE_PAUSE }
            } else {
                Guarding::End(Err(f))
            },
        }
    }
}

/// Temperature at which a held manual level is abandoned.
pub const MANUAL_ESCAPE_C: i8 = 80;

/// Where the firmware takes a curve's fan back, whatever the curve says.
pub const SMART_CEILING_C: i8 = 95;

/// How long the loop may go without a decision before the fan is handed back,
/// in milliseconds.
pub const DEFAULT_WATCHDOG: u64 = 30_000;

/// The engine's whole memory.
#[derive(Debug)]
pub struct Engine {
    curve: Curve,
    mode: Mode,
    ignored_sensors: Vec<usize>,
    /// Which curve step we settled on. Ours, not read back from hardware.
    step: Option<usize>,
    /// What we last asked for, to avoid pointless writes.
    applied: Option<u8>,
    last_decision: u64,
    watchdog: u64,
    manual_escape: i8,
    /// Set once a held level has been abandoned for being too hot. Cleared
    /// only by a new instruction, never by cooling down.
    manual_escaped: bool,
}

/// The engine's memory, mathematically.
pub struct EngineView {
    pub curve: Seq<CurvePoint>,
    pub mode: Mode,
    pub ignored_sensors: Seq<usize>,
    pub step: Option<usize>,
    pub applied: Option<u8>,
    pub last_decision: u64,
    pub watchdog: u64,
    pub manual_escape: i8,
    pub manual_escaped: bool,
}

impl View for Engine {
    type V = EngineView;

    closed spec fn view(&self) -> EngineView {
        EngineView {
            curve: self.curve@,
            mode: self.mode,
            ignored_sensors: self.ignored_sensors@,
            step: self.step,
            applied: self.applied,
            last_decision: self.last_decision,
            watchdog: self.watchdog,
            manual_escape: self.manual_escape,
            manual_escaped: self.manual_escaped,
        }
    }
}

impl EngineView {
    /// Whether this reading ends a held level: it is hot enough, or it ended
    /// one before and nothing has been said since.
    pub open spec fn escapes(self, hottest: Option<(usize, i8)>) -> bool {
        self.manual_escaped || (hottest matches Some((_, t)) && t >= self.manual_escape)
    }

    /// The step of the curve this reading settles on.
    pub open spec fn settles_on(self, temp: i8) -> int {
        crate::curve::settled_step(self.curve, temp, crate::curve::as_step(self.step))
    }

    /// What the fan register should be, on this reading.
    ///
    /// With no sensor reporting, everything defers to the firmware. A held
    /// level stands only below the escape temperature, and a curve is trusted
    /// only below the ceiling.
    pub open spec fn wanted(self, hottest: Option<(usize, i8)>) -> u8 {
        match (self.mode, hottest) {
            (Mode::Bios, _) => FAN_BIOS,
            (_, None) => FAN_BIOS,
            (Mode::Manual(level), Some(_)) => if self.escapes(hottest) {
                FAN_BIOS
            } else if level > FAN_LEVEL_MAX {
                FAN_LEVEL_MAX
            } else {
                level
            },
            (Mode::Smart, Some((_, temp))) => if temp >= SMART_CEILING_C {
                FAN_BIOS
            } else {
                crate::curve::level_of_step(self.curve, self.settles_on(temp))
            },
        }
    }

    /// The memory after deciding on this reading: a curve followed remembers
    /// its step, and an escape is remembered until a new instruction.
    pub open spec fn decided(self, hottest: Option<(usize, i8)>) -> EngineView {
        match (self.mode, hottest) {
            (Mode::Manual(_), Some(_)) => EngineView {
                manual_escaped: self.escapes(hottest),
                ..self
            },
            (Mode::Smart, Some((_, temp))) => if temp >= SMART_CEILING_C {
                self
            } else {
                EngineView { step: Some(self.settles_on(temp) as usize), ..self }
            },
            _ => self,
        }
    }

    /// The memory after being told a mode. Any instruction clears the manual
    /// escape, and one that changes the mode forgets the step of the curve.
    pub open spec fn instructed(self, mode: Mode) -> EngineView {
        EngineView {
            mode,
            manual_escaped: false,
            step: if self.mode != mode {
                None
            } else {
                self.step
            },
            ..self
        }
    }

    /// Whether too long has passed since a decision.
    pub open spec fn stalled(self, now: u64) -> bool {
        now > self.last_decision + self.watchdog
    }

    /// Whether the register has to be written: it is not what was last
    /// applied, or some fan's own register disagrees.
    pub open spec fn must_write(self, state: EcStateView, wanted: u8) -> bool {
        self.applied != Some(wanted) || exists|f: int|
            0 <= f < state.fan_ctrl_per_fan.len() && (#[trigger] state.fan_ctrl_per_fan[f])
                & FAN_BITS != wanted & FAN_BITS
    }
}

/// What a pass decided.
#[derive(Debug, Clone, Copy)]
pub struct Decision {
    pub state: EcState,
    pub hottest: Option<(usize, i8)>,
    pub wanted: u8,
    /// Whether the register has to be written.
    pub write: bool,
}

impl Engine {
    pub fn new(curve: Curve, now: u64) -> (r: Self)
        ensures
            r@ == (EngineView {
                curve: curve@,
                mode: Mode::Bios,
                ignored_sensors: Seq::empty(),
                step: None,
                applied: None,
                last_decision: now,
                watchdog: 30_000,
                manual_escape: 80,
                manual_escaped: false,
            }),
    {
        Engine {
            curve,
            mode: Mode::default(),
            ignored_sensors: Vec::new(),
            step: None,
            applied: None,
            last_decision: now,
            watchdog: DEFAULT_WATCHDOG,
            manual_escape: MANUAL_ESCAPE_C,
            manual_escaped: false,
        }
    }

    pub fn mode(&self) -> (r: &Mode)
        ensures
            *r == self@.mode,
    {
        &self.mode
    }

    /// Switching mode forgets where we were on the curve, so the next pass
    /// lands directly on the right step. Any instruction, including one that
    /// names the mode we are in, clears the manual escape.
    pub fn set_mode(&mut self, mode: Mode)
        ensures
            final(self)@ == old(self)@.instructed(mode),
    {
        self.manual_escaped = false;
        if self.mode != mode {
            self.mode = mode;
            self.step = None;
        }
    }

    /// Whether a held manual level has been abandoned for being too hot.
    pub fn manual_escaped(&self) -> (r: bool)
        ensures
            r == self@.manual_escaped,
    {
        self.manual_escaped
    }

    pub fn set_curve(&mut self, curve: Curve)
        ensures
            final(self)@ == (EngineView { curve: curve@, step: None, ..old(self)@ }),
    {
        self.curve = curve;
        self.step = None;
    }

    pub fn set_ignored_sensors(&mut self, ignored: Vec<usize>)
        ensures
            final(self)@ == (EngineView { ignored_sensors: ignored@, ..old(self)@ }),
    {
        self.ignored_sensors = ignored;
    }

    pub fn set_manual_escape(&mut self, celsius: i8)
        ensures
            final(self)@ == (EngineView { manual_escape: celsius, ..old(self)@ }),
    {
        self.manual_escape = celsius;
    }

    /// How long, in milliseconds, the loop may go without a decision.
    pub fn set_watchdog(&mut self, watchdog: u64)
        ensures
            final(self)@ == (EngineView { watchdog, ..old(self)@ }),
    {
        self.watchdog = watchdog;
    }

    /// True when too long has passed since a decision.
    pub fn is_stalled(&self, now: u64) -> (r: bool)
        ensures
            r == self@.stalled(now),
    {
        now >= self.last_decision && now - self.last_decision > self.watchdog
    }

    /// Decides on a reading of the controller, and whether the answer has to
    /// be written.
    fn decide(&mut self, state: EcState) -> (r: Decision)
        ensures
            r.state == state,
            r.hottest == state@.hottest(old(self)@.ignored_sensors),
            r.wanted == old(self)@.wanted(r.hottest),
            r.write == old(self)@.must_write(state@, r.wanted),
            final(self)@ == old(self)@.decided(r.hottest),
            r.wanted <= FAN_LEVEL_MAX || r.wanted == FAN_BIOS,
    {
        let hottest = state.hottest(self.ignored_sensors.as_slice());
        let wanted: u8 = match self.mode {
            Mode::Bios => FAN_BIOS,
            Mode::Manual(level) => match hottest {
                None => FAN_BIOS,
                Some((_, temp)) => {
                    if self.manual_escaped || temp >= self.manual_escape {
                        self.manual_escaped = true;
                        FAN_BIOS
                    } else if level > FAN_LEVEL_MAX {
                        FAN_LEVEL_MAX
                    } else {
                        level
                    }
                },
            },
            Mode::Smart => match hottest {
                None => FAN_BIOS,
                Some((_, temp)) => {
                    if temp >= SMART_CEILING_C {
                        FAN_BIOS
                    } else {
                        let step = self.curve.evaluate(temp, self.step);
                        self.step = Some(step);
                        self.curve.level_at(step)
                    }
                },
            },
        };
        let meaning: u8 = wanted & FAN_BITS;
        let first: u8 = state.fan_ctrl_per_fan[0];
        let second: u8 = state.fan_ctrl_per_fan[1];
        proof {
            assert(state@.fan_ctrl_per_fan[0] == first);
            assert(state@.fan_ctrl_per_fan[1] == second);
        }
        let disagrees = first & FAN_BITS != meaning || second & FAN_BITS != meaning;
        let same = match self.applied {
            Some(applied) => applied == wanted,
            None => false,
        };
        Decision { state, hottest, wanted, write: !same || disagrees }
    }

    /// One pass, as far as the write: decides on what sampling the controller
    /// brought. A controller that could not be sampled leaves everything as
    /// it was.
    pub fn tick(&mut self, sampled: Result<EcState, Fault>) -> (r: Result<Decision, Fault>)
        ensures
            match sampled {
                Err(f) => r == Err::<Decision, Fault>(f) && final(self)@ == old(self)@,
                Ok(state) => {
                    let hottest = state@.hottest(old(self)@.ignored_sensors);
                    &&& r matches Ok(d)
                    &&& d.state == state
                    &&& d.hottest == hottest
                    &&& d.wanted == old(self)@.wanted(hottest)
                    &&& d.write == old(self)@.must_write(state@, d.wanted)
                    &&& final(self)@ == old(self)@.decided(hottest)
                },
            },
    {
        match sampled {
            Ok(state) => Ok(self.decide(state)),
            Err(f) => Err(f),
        }
    }

    /// The rest of a pass: what came of the write, where one was needed. A
    /// write that failed leaves everything as it was, watchdog included.
    pub fn written(&mut self, decision: &Decision, wrote: Result<u8, Fault>, now: u64) -> (r: Result<
        Tick,
        Fault,
    >)
        requires
            !decision.write ==> wrote is Ok && old(self)@.applied == Some(decision.wanted),
        ensures
            match wrote {
                Err(f) => r == Err::<Tick, Fault>(f) && final(self)@ == old(self)@,
                Ok(_) => {
                    &&& r matches Ok(tick)
                    &&& tick.state == decision.state
                    &&& tick.hottest == decision.hottest
                    &&& tick.applied == decision.wanted
                    &&& tick.changed == decision.write
                    &&& final(self)@ == (EngineView {
                        applied: Some(decision.wanted),
                        last_decision: now,
                        ..old(self)@
                    })
                },
            },
    {
        match wrote {
            Ok(_) => Ok(self.settle(decision, now)),
            Err(f) => Err(f),
        }
    }

    /// Hands the fan back and stops. Safe to ask for more than once.
    pub fn shutdown(&self, tried: &Vec<Result<(), Fault>>) -> (r: Guarding)
        ensures
            r == guarding(tried@),
    {
        FanGuard::new().release(tried)
    }

    /// Closes a pass that succeeded: what was wanted is applied, and the
    /// watchdog starts again. Only a pass whose write, where it needed one,
    /// was proved gets here, so a failing controller trips the watchdog.
    fn settle(&mut self, decision: &Decision, now: u64) -> (r: Tick)
        requires
            !decision.write ==> old(self)@.applied == Some(decision.wanted),
        ensures
            final(self)@ == (EngineView {
                applied: Some(decision.wanted),
                last_decision: now,
                ..old(self)@
            }),
            r.state == decision.state,
            r.hottest == decision.hottest,
            r.applied == decision.wanted,
            r.changed == decision.write,
    {
        self.applied = Some(decision.wanted);
        self.last_decision = now;
        Tick {
            state: decision.state,
            hottest: decision.hottest,
            applied: decision.wanted,
            changed: decision.write,
        }
    }
}

/// No decision ever asks for the disengaged fan, or for anything but an
/// ordinary level or the firmware handoff.
pub proof fn the_fan_is_never_disengaged(e: EngineView, hottest: Option<(usize, i8)>)
    requires
        crate::curve::valid_curve(e.curve),
    ensures
        e.wanted(hottest) <= FAN_LEVEL_MAX || e.wanted(hottest) == FAN_BIOS,
        e.wanted(hottest) != FAN_DISENGAGED,
{
    match (e.mode, hottest) {
        (Mode::Smart, Some((_, temp))) => {
            crate::curve::settles_on_a_step(e.curve, temp, crate::curve::as_step(e.step));
            crate::curve::no_curve_disengages(e.curve, e.settles_on(temp));
        },
        _ => {},
    }
}

/// Blind counts as too hot: with no sensor reporting, every mode gives the
/// fan to the firmware.
pub proof fn blind_means_firmware(e: EngineView)
    ensures
        e.wanted(None) == FAN_BIOS,
{
}

/// At the ceiling and above, a curve's fan is the firmware's, whatever the
/// curve says.
pub proof fn the_firmware_takes_over_at_the_ceiling(e: EngineView, sensor: usize, temp: i8)
    requires
        e.mode == Mode::Smart,
        temp >= SMART_CEILING_C,
    ensures
        e.wanted(Some((sensor, temp))) == FAN_BIOS,
{
}

/// A held level is given up at the escape temperature and stays given up:
/// whatever is read afterwards, the fan is the firmware's and the escape is
/// still remembered, until a new instruction.
pub proof fn an_escape_is_latched(
    e: EngineView,
    level: u8,
    sensor: usize,
    temp: i8,
    later: Option<(usize, i8)>,
)
    requires
        e.mode == Mode::Manual(level),
        temp >= e.manual_escape,
    ensures
        e.wanted(Some((sensor, temp))) == FAN_BIOS,
        e.decided(Some((sensor, temp))).manual_escaped,
        e.decided(Some((sensor, temp))).wanted(later) == FAN_BIOS,
        e.decided(Some((sensor, temp))).decided(later).manual_escaped,
{
}

/// Below the escape temperature, and not escaped before, a held level is held.
pub proof fn a_held_level_is_held_below_the_escape(
    e: EngineView,
    level: u8,
    sensor: usize,
    temp: i8,
)
    requires
        e.mode == Mode::Manual(level),
        level <= FAN_LEVEL_MAX,
        !e.manual_escaped,
        temp < e.manual_escape,
    ensures
        e.wanted(Some((sensor, temp))) == level,
        e.decided(Some((sensor, temp))) == e,
{
}

/// Deciding never looks at the fan register: two readings with the same
/// sensors ask for the same level.
pub proof fn the_level_ignores_the_register(e: EngineView, a: EcStateView, b: EcStateView)
    requires
        a.sensors == b.sensors,
    ensures
        e.wanted(a.hottest(e.ignored_sensors)) == e.wanted(b.hottest(e.ignored_sensors)),
        e.decided(a.hottest(e.ignored_sensors)) == e.decided(b.hottest(e.ignored_sensors)),
{
}

/// A guard told nothing hands the fan back, and one whose handback failed
/// three times says so. There is no way for it to end without having tried.
pub proof fn a_guard_always_tries(tried: Seq<Result<(), Fault>>)
    ensures
        guarding(tried) is End ==> tried.len() > 0,
        guarding(tried) == Guarding::End(Ok(())) <==> tried.len() > 0 && tried.last() is Ok,
        (guarding(tried) matches Guarding::End(Err(_))) ==> tried.len() >= RELEASE_ATTEMPTS,
{
}

/// A remembered step is held until it is cleared by its own margin: in smart
/// mode below the ceiling, a reading that reaches no later step and is still
/// above the step's threshold less its down margin asks for that step's level
/// again, and the step stays remembered.
pub proof fn a_remembered_step_is_held_inside_its_margin(
    e: EngineView,
    sensor: usize,
    temp: i8,
    c: usize,
)
    requires
        e.mode == Mode::Smart,
        temp < 95,
        e.step == Some(c),
        c < e.curve.len(),
        forall|j: int| c < j < e.curve.len() ==> temp < (#[trigger] e.curve[j]).temp,
        temp > e.curve[c as int].temp - e.curve[c as int].hyst_down >= i8::MIN,
    ensures
        e.wanted(Some((sensor, temp))) == e.curve[c as int].level,
        e.decided(Some((sensor, temp))) == e,
{
    crate::curve::bare_step_is_a_step(e.curve, temp);
    crate::curve::bare_step_is_the_highest_reached(e.curve, temp);
}

/// A remembered step is left upwards only by the target's own margin. Where
/// `k` is the highest step whose threshold the reading has reached, and it
/// lies above the remembered one, a reading at its threshold plus its up
/// margin asks for its level and remembers it; any cooler one stays put.
pub proof fn a_higher_step_is_taken_by_its_margin(
    e: EngineView,
    sensor: usize,
    temp: i8,
    c: usize,
    k: usize,
)
    requires
        e.mode == Mode::Smart,
        temp < 95,
        e.step == Some(c),
        c < k < e.curve.len(),
        temp >= e.curve[k as int].temp,
        forall|j: int| k < j < e.curve.len() ==> temp < (#[trigger] e.curve[j]).temp,
    ensures
        temp >= e.curve[k as int].temp + e.curve[k as int].hyst_up ==> {
            &&& e.wanted(Some((sensor, temp))) == e.curve[k as int].level
            &&& e.decided(Some((sensor, temp))) == (EngineView { step: Some(k), ..e })
        },
        temp < e.curve[k as int].temp + e.curve[k as int].hyst_up ==> {
            &&& e.wanted(Some((sensor, temp))) == e.curve[c as int].level
            &&& e.decided(Some((sensor, temp))) == e
        },
{
    crate::curve::bare_step_is_a_step(e.curve, temp);
    crate::curve::bare_step_is_the_highest_reached(e.curve, temp);
    assert(crate::curve::bare_step(e.curve, temp) == k);
}

/// Once a remembered step is cleared by its down margin, the fan goes straight
/// to the step the reading reaches: the highest whose threshold it has met,
/// or the first where it has met none.
pub proof fn a_cleared_step_gives_way(
    e: EngineView,
    sensor: usize,
    temp: i8,
    c: usize,
    k: usize,
)
    requires
        e.mode == Mode::Smart,
        temp < 95,
        e.step == Some(c),
        k < c < e.curve.len(),
        k == 0 || temp >= e.curve[k as int].temp,
        forall|j: int| k < j < e.curve.len() ==> temp < (#[trigger] e.curve[j]).temp,
        temp <= e.curve[c as int].temp - e.curve[c as int].hyst_down,
    ensures
        e.wanted(Some((sensor, temp))) == e.curve[k as int].level,
        e.decided(Some((sensor, temp))) == (EngineView { step: Some(k), ..e }),
{
    crate::curve::bare_step_is_a_step(e.curve, temp);
    crate::curve::bare_step_is_the_highest_reached(e.curve, temp);
    assert(crate::curve::bare_step(e.curve, temp) == k);
}

/// With no step remembered there is no margin: the first reading lands on the
/// highest step whose threshold it has met, or on the first step.
pub proof fn a_forgotten_step_is_found_by_threshold(
    e: EngineView,
    sensor: usize,
    temp: i8,
    k: usize,
)
    requires
        e.mode == Mode::Smart,
        temp < 95,
        e.step is None || e.step->0 >= e.curve.len(),
        k < e.curve.len(),
        k == 0 || temp >= e.curve[k as int].temp,
        forall|j: int| k < j < e.curve.len() ==> temp < (#[trigger] e.curve[j]).temp,
    ensures
        e.wanted(Some((sensor, temp))) == e.curve[k as int].level,
        e.decided(Some((sensor, temp))) == (EngineView { step: Some(k), ..e }),
{
    crate::curve::bare_step_is_a_step(e.curve, temp);
    crate::curve::bare_step_is_the_highest_reached(e.curve, temp);
    assert(crate::curve::bare_step(e.curve, temp) == k);
}

/// Away from a curve below its ceiling, a decision is settled by the mode
/// alone: firmware mode and blindness give the fan away and remember nothing
/// new, a curve at 95 or more gives it away and keeps its step, and a held
/// level above 7 is held at 7.
pub proof fn what_does_not_need_the_curve(e: EngineView, sensor: usize, temp: i8, level: u8)
    ensures
        e.mode == Mode::Bios ==> e.wanted(Some((sensor, temp))) == 0x80 && e.decided(
            Some((sensor, temp)),
        ) == e,
        e.wanted(None) == 0x80 && e.decided(None) == e,
        e.mode == Mode::Smart && temp >= 95 ==> e.wanted(Some((sensor, temp))) == 0x80
            && e.decided(Some((sensor, temp))) == e,
        e.mode == Mode::Manual(level) && !e.manual_escaped && temp < e.manual_escape
            ==> e.wanted(Some((sensor, temp))) == (if level > 7 {
            7u8
        } else {
            level
        }) && e.decided(Some((sensor, temp))) == e,
        e.mode == Mode::Manual(level) && (e.manual_escaped || temp >= e.manual_escape)
            ==> e.wanted(Some((sensor, temp))) == 0x80 && e.decided(Some((sensor, temp))) == (
        EngineView { manual_escaped: true, ..e }),
{
}

/// Being told a mode: the mode is the one told, an escape is forgiven, a step
/// survives only an instruction that changes nothing, and the rest stays.
pub proof fn an_instruction_is_followed(e: EngineView, mode: Mode)
    ensures
        e.instructed(mode).mode == mode,
        !e.instructed(mode).manual_escaped,
        e.mode == mode ==> e.instructed(mode).step == e.step,
        e.mode != mode ==> e.instructed(mode).step is None,
        e.instructed(mode).curve == e.curve,
        e.instructed(mode).ignored_sensors == e.ignored_sensors,
        e.instructed(mode).applied == e.applied,
        e.instructed(mode).last_decision == e.last_decision,
        e.instructed(mode).watchdog == e.watchdog,
        e.instructed(mode).manual_escape == e.manual_escape,
{
}

/// A level is written exactly when it is not the one last applied or when
/// some fan's register differs from it in the firmware flag, the disengage
/// bit or the level.
pub proof fn a_register_is_written_only_when_it_must_be(
    e: EngineView,
    state: EcStateView,
    wanted: u8,
)
    requires
        state.fan_ctrl_per_fan.len() == 2,
    ensures
        e.must_write(state, wanted) <==> {
            ||| e.applied is None
            ||| e.applied->0 != wanted
            ||| state.fan_ctrl_per_fan[0] & 0xc7 != wanted & 0xc7
            ||| state.fan_ctrl_per_fan[1] & 0xc7 != wanted & 0xc7
        },
{
    let first = state.fan_ctrl_per_fan[0];
    let second = state.fan_ctrl_per_fan[1];
    assert(first & FAN_BITS != wanted & FAN_BITS ==> e.must_write(state, wanted));
    assert(second & FAN_BITS != wanted & FAN_BITS ==> e.must_write(state, wanted));
}

/// The watchdog runs out once more than its time has passed since the last
/// decision, and a clock that went back never runs it out.
pub proof fn the_watchdog_counts_from_the_last_decision(e: EngineView, now: u64)
    ensures
        now <= e.last_decision ==> !e.stalled(now),
        now > e.last_decision ==> (e.stalled(now) <==> now - e.last_decision > e.watchdog),
{
}

/// A handback is tried at once, then up to twice more after 50 ms each, and
/// it ends with the last outcome.
pub proof fn a_guard_tries_three_times(tried: Seq<Result<(), Fault>>)
    ensures
        tried.len() == 0 ==> guarding(tried) == (Guarding::Release { after: 0 }),
        0 < tried.len() < 3 && tried.last() is Err ==> guarding(tried) == (Guarding::Release {
            after: 50,
        }),
        tried.len() >= 3 ==> (tried.last() matches Err(f) ==> guarding(tried) == Guarding::End(
            Err(f),
        )),
        tried.len() > 0 && tried.last() is Ok ==> guarding(tried) == Guarding::End(Ok(())),
{
}

} // verus!
