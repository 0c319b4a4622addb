//! Running as a Windows service, and installing ourselves as one.
//!
//! The service is how the fan gets controlled before anyone logs in. What is
//! here is what it makes of what the system tells it, how long it keeps
//! trying to hand the fan back, and what installing and removing it say.

use vstd::prelude::*;

use crate::host::PowerState;
use crate::text::push_u64;

verus! {

pub const SERVICE_NAME: &'static str = "Yamato";

pub const DISPLAY_NAME: &'static str = "Yamato Fan Control";

/// How many times to try handing the fan back before giving up and letting
/// the service manager decide.
pub const HANDBACK_ATTEMPTS: u32 = 6;

/// Total time the stop path will spend trying to hand the fan back, in
/// milliseconds.
pub const HANDBACK_BUDGET: u64 = 45_000;

/// Longest a single handback attempt can credibly take, in milliseconds.
pub const ATTEMPT_WORST_CASE_MS: u64 = 110_000;

/// How long a suspend waits for the fan to be handed back, in milliseconds.
pub const SUSPEND_ACK_WAIT: u64 = 1_500;

/// A setting the system notifies about.
#[derive(Debug, Clone, Copy)]
pub struct Guid {
    pub data1: u32,
    pub data2: u16,
    pub data3: u16,
    pub data4: [u8; 8],
}

/// Whether two identifiers are the same, field by field.
pub open spec fn alike(a: Guid, b: Guid) -> bool {
    a.data1 == b.data1 && a.data2 == b.data2 && a.data3 == b.data3 && a.data4@ == b.data4@
}

/// Whether two identifiers are the same, field by field.
pub fn same_guid(a: &Guid, b: &Guid) -> (r: bool)
    ensures
        r == alike(*a, *b),
{
    if a.data1 != b.data1 || a.data2 != b.data2 || a.data3 != b.data3 {
        return false;
    }
    let mut i: usize = 0;
    while i < 8
        invariant
            i <= 8,
            forall|k: int| 0 <= k < i ==> a.data4@[k] == b.data4@[k],
        decreases 8 - i,
    {
        if a.data4[i] != b.data4[i] {
            return false;
        }
        i += 1;
    }
    proof {
        assert(a.data4@ =~= b.data4@);
    }
    true
}

/// Which setting changed.
#[derive(Debug, Clone, Copy, PartialEq, Eq, Structural)]
pub enum PowerSetting {
    /// The console display: off, on or dimmed.
    Display,
    /// The lid switch: closed or open.
    Lid,
    /// The power source: the wall, a battery, or a short-term supply.
    Source,
    /// Nothing that was asked about.
    Other,
}

/// What the system says about power.
#[derive(Debug, Clone, Copy, PartialEq, Eq, Structural)]
pub enum PowerNews {
    /// A setting changed, to this, where it came with a value.
    Setting { which: PowerSetting, value: Option<u8> },
    /// The machine is about to lose power to everything but the controller.
    Suspend,
    /// The machine is running again.
    Resume,
    /// A Modern Standby session began.
    StandbyBegan,
    /// A Modern Standby session ended.
    StandbyEnded,
    /// Something else.
    Other,
}

/// What the service manager wants.
#[derive(Debug, Clone, Copy, PartialEq, Eq, Structural)]
pub enum Control {
    Stop,
    Shutdown,
    Preshutdown,
    Power(PowerNews),
    Interrogate,
    Other,
}

/// What to do about it.
#[derive(Debug, Clone, Copy, PartialEq, Eq, Structural)]
pub enum Reply {
    /// Report that the stop is under way, ask the loop to unwind, and wake it.
    Stop,
    /// Wake the loop: the power state may have changed.
    Wake,
    /// Wake the loop, and wait a while for it to hand the fan back.
    WakeAndWait,
    /// Nothing.
    Nothing,
    /// Say that this is not something the service answers to.
    NotImplemented,
}

/// What the system has told us, kept apart because the pieces change
/// independently and any of them can arrive first.
#[derive(Debug, Clone, Copy, PartialEq, Eq, Structural)]
pub struct PowerSigns {
    pub display_on: bool,
    pub suspending: bool,
    pub lid_open: bool,
    pub on_battery: bool,
    /// Whether a Modern Standby session is open, on the system's own say-so.
    pub in_modern_standby: bool,
}

impl PowerSigns {
    /// The state that changes nothing, so a machine that never reports any of
    /// it behaves as though none of it had been asked for.
    pub fn new() -> (r: Self)
        ensures
            r == (PowerSigns {
                display_on: true,
                suspending: false,
                lid_open: true,
                on_battery: false,
                in_modern_standby: false,
            }),
    {
        PowerSigns {
            display_on: true,
            suspending: false,
            lid_open: true,
            on_battery: false,
            in_modern_standby: false,
        }
    }

    /// The power state the signs add up to. Suspending outranks everything,
    /// because it came with a guarantee; then a lid shut on battery, whatever
    /// the display claims; below that the screen decides.
    pub open spec fn state(self) -> PowerState {
        if self.suspending || self.in_modern_standby {
            PowerState::Suspended
        } else if !self.lid_open && self.on_battery || !self.display_on {
            PowerState::ScreenOff
        } else {
            PowerState::Awake
        }
    }

    /// The power state the signs add up to.
    pub fn publish_power(&self) -> (r: PowerState)
        ensures
            r == self.state(),
    {
        if self.suspending || self.in_modern_standby {
            PowerState::Suspended
        } else if !self.lid_open && self.on_battery {
            // Shut and unplugged, whatever the display claims: nobody is
            // looking at it.
            PowerState::ScreenOff
        } else if self.display_on {
            PowerState::Awake
        } else {
            PowerState::ScreenOff
        }
    }

    /// The signs with this among them. A screen coming on, or a resume, ends a
    /// standby session whether or not its own end was heard of; a resume says
    /// nothing about the screen.
    pub open spec fn with_news(self, news: PowerNews) -> PowerSigns {
        match news {
            PowerNews::Setting { which, value: Some(v) } => match which {
                PowerSetting::Display => PowerSigns {
                    display_on: v != 0,
                    in_modern_standby: self.in_modern_standby && v == 0,
                    ..self
                },
                PowerSetting::Lid => PowerSigns { lid_open: v != 0, ..self },
                PowerSetting::Source => PowerSigns { on_battery: v != 0, ..self },
                PowerSetting::Other => self,
            },
            PowerNews::Suspend => PowerSigns { suspending: true, ..self },
            PowerNews::Resume => PowerSigns {
                suspending: false,
                in_modern_standby: false,
                ..self
            },
            PowerNews::StandbyBegan => PowerSigns { in_modern_standby: true, ..self },
            PowerNews::StandbyEnded => PowerSigns { in_modern_standby: false, ..self },
            _ => self,
        }
    }

    /// Takes in what the system says about power. Returns what to do about it.
    pub fn hear(&mut self, news: PowerNews) -> (r: Reply)
        ensures
            *final(self) == old(self).with_news(news),
            r == answer_to(news),
    {
        match news {
            PowerNews::Setting { which, value } => match value {
                Some(v) => match which {
                    PowerSetting::Display => {
                        // A screen coming on is the other end of a standby
                        // session.
                        if v != 0 {
                            self.in_modern_standby = false;
                        }
                        self.display_on = v != 0;
                        Reply::Wake
                    },
                    PowerSetting::Lid => {
                        self.lid_open = v != 0;
                        Reply::Wake
                    },
                    PowerSetting::Source => {
                        self.on_battery = v != 0;
                        Reply::Wake
                    },
                    PowerSetting::Other => Reply::Nothing,
                },
                None => Reply::Nothing,
            },
            PowerNews::Suspend => {
                self.suspending = true;
                Reply::WakeAndWait
            },
            PowerNews::Resume => {
                self.suspending = false;
                self.in_modern_standby = false;
                Reply::Wake
            },
            PowerNews::StandbyBegan => {
                self.in_modern_standby = true;
                Reply::Wake
            },
            PowerNews::StandbyEnded => {
                self.in_modern_standby = false;
                Reply::Wake
            },
            PowerNews::Other => Reply::Nothing,
        }
    }

    /// Takes in what the service manager wants. Returns what to do about it.
    pub fn control_handler(&mut self, control: Control) -> (r: Reply)
        ensures
            *final(self) == match control {
                Control::Power(news) => old(self).with_news(news),
                _ => *old(self),
            },
            r == match control {
                Control::Stop | Control::Shutdown | Control::Preshutdown => Reply::Stop,
                Control::Power(news) => answer_to(news),
                Control::Interrogate => Reply::Nothing,
                Control::Other => Reply::NotImplemented,
            },
    {
        match control {
            Control::Stop | Control::Shutdown | Control::Preshutdown => Reply::Stop,
            Control::Power(news) => self.hear(news),
            Control::Interrogate => Reply::Nothing,
            Control::Other => Reply::NotImplemented,
        }
    }
}

/// What to do about news of the power: wake the loop for anything that was
/// asked about, and wait for it where the power is about to go.
pub open spec fn answer_to(news: PowerNews) -> Reply {
    match news {
        PowerNews::Setting { which, value } => if value is Some && which
            != PowerSetting::Other {
            Reply::Wake
        } else {
            Reply::Nothing
        },
        PowerNews::Suspend => Reply::WakeAndWait,
        PowerNews::Resume | PowerNews::StandbyBegan | PowerNews::StandbyEnded => Reply::Wake,
        PowerNews::Other => Reply::Nothing,
    }
}

/// A suspend is believed until the system says the machine is running again,
/// whatever else is heard meanwhile.
pub proof fn a_suspend_stands_until_a_resume(signs: PowerSigns, news: PowerNews)
    requires
        signs.suspending,
        news != PowerNews::Resume,
    ensures
        signs.with_news(news).state() == PowerState::Suspended,
{
}

/// A lid shut on battery is a dark screen, whatever the display claims, and
/// either one changing puts things straight back.
pub proof fn a_shut_lid_on_battery_is_a_dark_screen(signs: PowerSigns)
    requires
        !signs.lid_open,
        signs.on_battery,
        !signs.suspending,
        !signs.in_modern_standby,
        signs.display_on,
    ensures
        signs.state() == PowerState::ScreenOff,
        signs.with_news(
            PowerNews::Setting { which: PowerSetting::Lid, value: Some(1) },
        ).state() == PowerState::Awake,
        signs.with_news(
            PowerNews::Setting { which: PowerSetting::Source, value: Some(0) },
        ).state() == PowerState::Awake,
{
}

/// The power cord says nothing on its own: with the lid open, the screen
/// decides.
pub proof fn the_cord_alone_says_nothing(signs: PowerSigns, value: u8)
    requires
        signs.lid_open,
    ensures
        signs.with_news(
            PowerNews::Setting { which: PowerSetting::Source, value: Some(value) },
        ).state() == signs.state(),
{
}

/// A resume with the screen still off is not a wake.
pub proof fn a_resume_says_nothing_about_the_screen(signs: PowerSigns)
    ensures
        signs.with_news(PowerNews::Resume).display_on == signs.display_on,
        !signs.display_on ==> signs.with_news(PowerNews::Resume).state() == PowerState::ScreenOff,
{
}

/// What an entry of the event log says of Modern Standby: that a session
/// began, that one ended, or nothing.
pub open spec fn standby_said(xml: Seq<char>) -> Option<bool> {
    if crate::text::holds(xml, "<EventID>506</EventID>"@) {
        Some(true)
    } else if crate::text::holds(xml, "<EventID>507</EventID>"@) {
        Some(false)
    } else {
        None
    }
}

/// What an entry of the event log says of Modern Standby. A search rather than
/// a parse, for one number in a document whose shape is fixed.
pub fn standby_event(xml: &str) -> (r: Option<PowerNews>)
    ensures
        r == match standby_said(xml@) {
            Some(true) => Some(PowerNews::StandbyBegan),
            Some(false) => Some(PowerNews::StandbyEnded),
            None => None,
        },
{
    if crate::text::contains(xml, "<EventID>506</EventID>") {
        Some(PowerNews::StandbyBegan)
    } else if crate::text::contains(xml, "<EventID>507</EventID>") {
        Some(PowerNews::StandbyEnded)
    } else {
        None
    }
}

/// The state a service reports.
#[derive(Debug, Clone, Copy, PartialEq, Eq, Structural)]
pub enum ServiceState {
    StartPending,
    Running,
    StopPending,
    Stopped,
}

/// What a service reports of itself.
#[derive(Debug, Clone, Copy, PartialEq, Eq, Structural)]
pub struct Report {
    pub state: ServiceState,
    /// Whether stops, shutdowns and power events are accepted.
    pub accepts_controls: bool,
    /// Whether the stop is one the service manager should act on.
    pub failed: bool,
    pub checkpoint: u32,
    /// How long to wait for the next report, in milliseconds.
    pub wait_hint: u32,
}

/// Counts the reports made while something is pending. One that never moves
/// reads as a hung service.
#[derive(Debug, Clone, Copy, PartialEq, Eq, Structural)]
pub struct Reporter {
    pub checkpoint: u32,
}

impl Reporter {
    pub fn new() -> (r: Self)
        ensures
            r.checkpoint == 0,
    {
        Reporter { checkpoint: 0 }
    }

    /// What to report. Progress is counted while something is pending, and
    /// starts over once nothing is.
    pub fn report(&mut self, state: ServiceState, wait_hint: u32) -> (r: Report)
        ensures
            final(self).checkpoint == if state == ServiceState::Running || state
                == ServiceState::Stopped {
                0
            } else {
                crate::ipc::bumped(old(self).checkpoint)
            },
            r == (Report {
                state,
                accepts_controls: state == ServiceState::Running,
                failed: false,
                checkpoint: final(self).checkpoint,
                wait_hint,
            }),
    {
        self.checkpoint = if state == ServiceState::Running || state == ServiceState::Stopped {
            0
        } else {
            self.checkpoint.wrapping_add(1)
        };
        Report {
            state,
            accepts_controls: state == ServiceState::Running,
            failed: false,
            checkpoint: self.checkpoint,
            wait_hint,
        }
    }

    /// A stop the service manager should act on.
    pub fn report_failure(&self) -> (r: Report)
        ensures
            r == (Report {
                state: ServiceState::Stopped,
                accepts_controls: false,
                failed: true,
                checkpoint: 0,
                wait_hint: 0,
            }),
    {
        Report {
            state: ServiceState::Stopped,
            accepts_controls: false,
            failed: true,
            checkpoint: 0,
            wait_hint: 0,
        }
    }
}

/// How long to sleep on the wake events, in milliseconds, as far as that can
/// be said: one short of waiting forever.
pub fn wait_for_wake(left: u64) -> (r: u32)
    ensures
        r == if left > 0xffff_fffe {
            0xffff_fffe
        } else {
            left as int
        },
{
    if left > 0xffff_fffe {
        0xffff_fffe
    } else {
        left as u32
    }
}

/// Where the run loop is, and what it is waiting for.
#[derive(Debug, Clone, Copy, PartialEq, Eq, Structural)]
pub enum RunPhase {
    /// The top of the loop.
    Top,
    /// The power state being applied.
    Applying { power: PowerState },
    /// A suspend being acknowledged.
    Acknowledging { power: PowerState },
    /// A pass.
    Passing { power: PowerState },
    /// The wake events being cleared.
    Clearing { power: PowerState, deadline: u64 },
    /// The interval running out, or something happening.
    Waiting { power: PowerState, deadline: u64 },
    /// The fan being handed back.
    HandingBack { attempt: u32, deadline: u64 },
    /// Room being given to whatever holds the controller.
    Yielding { attempt: u32, deadline: u64 },
    /// A handback that never completed being written down.
    Complaining,
    /// Over.
    Ended,
}

/// What the run loop wants done.
#[derive(Debug, Clone, Copy, PartialEq, Eq, Structural)]
pub enum RunAsk {
    /// Tell the host this power state, and hand the fan back if it says so.
    Apply(PowerState),
    /// Tell whoever is waiting that a suspend has been acted on.
    Acknowledge,
    /// Run one pass.
    Pass,
    /// Clear the wake events.
    Clear,
    /// Sleep until something happens or this many milliseconds are over.
    Wait(u64),
    /// Report a stop under way with this hint, then hand the fan back.
    HandBack { hint: u64 },
    /// Wait this many milliseconds.
    Pause(u64),
    /// Record that the fan could not be handed back.
    Complain,
    /// Leave.
    Leave,
}

/// What the run loop sees when it looks up.
#[derive(Debug, Clone, Copy, PartialEq, Eq, Structural)]
pub struct RunSees {
    /// Whether a stop was asked for.
    pub stopping: bool,
    /// The power state the system's signs add up to.
    pub power: PowerState,
    /// Whether a window has posted a command.
    pub command_waiting: bool,
    /// Whether the last handback worked.
    pub released: bool,
    /// Seconds between passes.
    pub interval: u64,
    /// The time, in milliseconds.
    pub now: u64,
}

/// A time this much later, as far as time can be counted.
pub open spec fn later(now: u64, ms: int) -> u64 {
    if now + ms > u64::MAX {
        u64::MAX
    } else {
        (now + ms) as u64
    }
}

/// The time left until a deadline.
pub open spec fn left_until(deadline: u64, now: u64) -> u64 {
    if deadline > now {
        (deadline - now) as u64
    } else {
        0
    }
}

/// The wait to ask the service manager for around one handback attempt: the
/// time left, or the attempt's worst case, and a little more.
pub open spec fn hint_for(deadline: u64, now: u64) -> u64 {
    let left = left_until(deadline, now);
    later(
        if left > ATTEMPT_WORST_CASE_MS {
            left
        } else {
            ATTEMPT_WORST_CASE_MS
        },
        5_000,
    )
}

/// The run loop at its top: on to the next pass, or, once a stop was asked
/// for, to handing the fan back.
pub open spec fn turned(sees: RunSees) -> RunPhase {
    if sees.stopping {
        RunPhase::HandingBack { attempt: 0, deadline: later(sees.now, HANDBACK_BUDGET as int) }
    } else {
        RunPhase::Applying { power: sees.power }
    }
}

impl RunPhase {
    /// The run loop, one look up further on.
    pub open spec fn after(self, sees: RunSees) -> RunPhase {
        match self {
            RunPhase::Top => turned(sees),
            RunPhase::Applying { power } => if power == PowerState::Suspended {
                RunPhase::Acknowledging { power }
            } else {
                RunPhase::Passing { power }
            },
            RunPhase::Acknowledging { power } => RunPhase::Passing { power },
            RunPhase::Passing { power } => if sees.stopping {
                turned(sees)
            } else {
                RunPhase::Clearing { power, deadline: later(sees.now, sees.interval * 1000) }
            },
            RunPhase::Clearing { power, deadline } => if sees.stopping || sees.power != power
                || sees.command_waiting || left_until(deadline, sees.now) == 0 {
                turned(sees)
            } else {
                RunPhase::Waiting { power, deadline }
            },
            RunPhase::Waiting { power, deadline } => RunPhase::Clearing { power, deadline },
            RunPhase::HandingBack { attempt, deadline } => if sees.released {
                RunPhase::Ended
            } else if sees.now >= deadline || attempt + 1 >= HANDBACK_ATTEMPTS {
                RunPhase::Complaining
            } else {
                RunPhase::Yielding { attempt, deadline }
            },
            RunPhase::Yielding { attempt, deadline } => RunPhase::HandingBack {
                attempt: crate::host::more(attempt),
                deadline,
            },
            RunPhase::Complaining => RunPhase::Ended,
            RunPhase::Ended => RunPhase::Ended,
        }
    }

    /// What has to be done there.
    pub open spec fn asks(self, now: u64) -> RunAsk {
        match self {
            RunPhase::Top => RunAsk::Clear,
            RunPhase::Applying { power } => RunAsk::Apply(power),
            RunPhase::Acknowledging { .. } => RunAsk::Acknowledge,
            RunPhase::Passing { .. } => RunAsk::Pass,
            RunPhase::Clearing { .. } => RunAsk::Clear,
            RunPhase::Waiting { deadline, .. } => RunAsk::Wait(left_until(deadline, now)),
            RunPhase::HandingBack { deadline, .. } => RunAsk::HandBack {
                hint: hint_for(deadline, now),
            },
            RunPhase::Yielding { .. } => RunAsk::Pause(500),
            RunPhase::Complaining => RunAsk::Complain,
            RunPhase::Ended => RunAsk::Leave,
        }
    }
}

/// Drives the host, applying power state changes as they come, and does not
/// leave while the fan is still ours without having said so.
#[derive(Debug, Clone, Copy)]
pub struct RunLoop {
    pub phase: RunPhase,
}

/// The run loop at its top.
fn turn(sees: &RunSees) -> (r: RunPhase)
    ensures
        r == turned(*sees),
{
    if sees.stopping {
        RunPhase::HandingBack { attempt: 0, deadline: sees.now.saturating_add(HANDBACK_BUDGET) }
    } else {
        RunPhase::Applying { power: sees.power }
    }
}

impl RunLoop {
    pub fn new() -> (r: Self)
        ensures
            r.phase == RunPhase::Top,
    {
        RunLoop { phase: RunPhase::Top }
    }

    /// Looks up, and says what has to be done next.
    pub fn next(&mut self, sees: &RunSees) -> (r: RunAsk)
        ensures
            final(self).phase == old(self).phase.after(*sees),
            r == final(self).phase.asks(sees.now),
    {
        self.phase = match self.phase {
            RunPhase::Top => turn(sees),
            RunPhase::Applying { power } => if power == PowerState::Suspended {
                RunPhase::Acknowledging { power }
            } else {
                RunPhase::Passing { power }
            },
            RunPhase::Acknowledging { power } => RunPhase::Passing { power },
            RunPhase::Passing { power } => if sees.stopping {
                turn(sees)
            } else {
                let deadline: u64 = if sees.interval > u64::MAX / 1000 {
                    u64::MAX
                } else {
                    sees.now.saturating_add(sees.interval * 1000)
                };
                RunPhase::Clearing { power, deadline }
            },
            RunPhase::Clearing { power, deadline } => {
                // Cleared before the conditions are read, not after, so a
                // command that lands in between is not lost.
                if sees.stopping || sees.power != power || sees.command_waiting || deadline
                    <= sees.now {
                    turn(sees)
                } else {
                    RunPhase::Waiting { power, deadline }
                }
            },
            RunPhase::Waiting { power, deadline } => RunPhase::Clearing { power, deadline },
            RunPhase::HandingBack { attempt, deadline } => if sees.released {
                RunPhase::Ended
            } else if sees.now >= deadline || attempt >= HANDBACK_ATTEMPTS - 1 {
                RunPhase::Complaining
            } else {
                RunPhase::Yielding { attempt, deadline }
            },
            RunPhase::Yielding { attempt, deadline } => RunPhase::HandingBack {
                attempt: attempt.saturating_add(1),
                deadline,
            },
            RunPhase::Complaining => RunPhase::Ended,
            RunPhase::Ended => RunPhase::Ended,
        };
        match self.phase {
            RunPhase::Top => RunAsk::Clear,
            RunPhase::Applying { power } => RunAsk::Apply(power),
            RunPhase::Acknowledging { power: _ } => RunAsk::Acknowledge,
            RunPhase::Passing { power: _ } => RunAsk::Pass,
            RunPhase::Clearing { power: _, deadline: _ } => RunAsk::Clear,
            RunPhase::Waiting { power: _, deadline } => RunAsk::Wait(
                deadline.saturating_sub(sees.now),
            ),
            RunPhase::HandingBack { attempt: _, deadline } => {
                // Sized to a single attempt's worst case, not to the time left
                // in the loop: a smaller hint invites the manager to kill us
                // part way through a handback.
                let left: u64 = deadline.saturating_sub(sees.now);
                let hint: u64 = if left > ATTEMPT_WORST_CASE_MS {
                    left
                } else {
                    ATTEMPT_WORST_CASE_MS
                };
                RunAsk::HandBack { hint: hint.saturating_add(5_000) }
            },
            RunPhase::Yielding { attempt: _, deadline: _ } => RunAsk::Pause(500),
            RunPhase::Complaining => RunAsk::Complain,
            RunPhase::Ended => RunAsk::Leave,
        }
    }
}

/// What is written down when the fan could not be handed back in time.
pub const HANDBACK_FAILURE: &'static str =
    "Yamato could not return the fan to firmware control before stopping. The fan may be held at a fixed level with firmware management disabled. Restart Yamato, or reboot, to restore automatic fan control.";

/// The loop never leaves without the fan handed back, or a record that it was
/// not.
pub proof fn the_loop_does_not_leave_with_the_fan(phase: RunPhase, sees: RunSees)
    requires
        phase != RunPhase::Ended,
        phase.after(sees) == RunPhase::Ended,
    ensures
        phase == RunPhase::Complaining || (phase is HandingBack && sees.released),
{
}

/// A stop is acted on at the top of the loop, after a pass, and during the
/// wait: what comes next is handing the fan back.
pub proof fn a_stop_is_acted_on(phase: RunPhase, sees: RunSees)
    requires
        sees.stopping,
        phase is Top || phase is Passing || phase is Clearing,
    ensures
        phase.after(sees) is HandingBack,
{
}

/// Without a stop the loop goes on.
pub proof fn nothing_but_a_stop_ends_the_loop(phase: RunPhase, sees: RunSees)
    requires
        !sees.stopping,
        !(phase is HandingBack),
        !(phase is Yielding),
        !(phase is Complaining),
        !(phase is Ended),
    ensures
        !(phase.after(sees) is HandingBack),
        !(phase.after(sees) is Ended),
        !(phase.after(sees) is Complaining),
{
}

/// A suspend is acknowledged only once the host has been told of it.
pub proof fn a_suspend_is_acknowledged_after_it_is_applied(phase: RunPhase, sees: RunSees)
    requires
        phase.after(sees) is Acknowledging,
    ensures
        phase == (RunPhase::Applying { power: PowerState::Suspended }),
{
}

/// The hint always covers a single attempt's worst case.
pub proof fn the_hint_covers_an_attempt(deadline: u64, now: u64)
    ensures
        hint_for(deadline, now) >= ATTEMPT_WORST_CASE_MS + 5_000,
{
}

/// Why a service could not be managed.
#[derive(Debug, Clone, Copy, PartialEq, Eq, Structural)]
pub enum ServiceError {
    /// The service manager could not be opened.
    Manager,
    /// The service manager could not be opened for changing anything.
    NotAdministrator,
    Open(u32),
    Create(u32),
    Start,
    Stop(u32),
    Lost,
    DidNotStop,
    NotRemoved,
    Remove(u32),
}

impl ServiceError {
    /// The sentence that explains the trouble.
    pub open spec fn words(self) -> Seq<char> {
        match self {
            ServiceError::Manager => "could not open the service manager"@,
            ServiceError::NotAdministrator =>
                "could not open the service manager; try running as administrator"@,
            ServiceError::Open(code) => "could not open the service (error "@
                + crate::text::decimal_nat(code as nat) + ")"@,
            ServiceError::Create(code) => "could not create the service (error "@
                + crate::text::decimal_nat(code as nat) + ")"@,
            ServiceError::Start => "could not start the service"@,
            ServiceError::Stop(code) => "could not stop the service (error "@
                + crate::text::decimal_nat(code as nat) + ")"@,
            ServiceError::Lost => "lost track of the service while it was stopping"@,
            ServiceError::DidNotStop =>
                "the service did not stop in time; the fan may still be held"@,
            ServiceError::NotRemoved =>
                "the service did not stop, so it was not removed. It may still be controlling the fan. Try again in a moment."@,
            ServiceError::Remove(code) => "could not remove the service (error "@
                + crate::text::decimal_nat(code as nat) + ")"@,
        }
    }

    /// The sentence that explains the trouble.
    pub fn to_string(&self) -> (r: String)
        ensures
            r@ == self.words(),
    {
        match self {
            ServiceError::Manager => "could not open the service manager".to_owned(),
            ServiceError::NotAdministrator =>
                "could not open the service manager; try running as administrator".to_owned(),
            ServiceError::Open(code) => with_code("could not open the service (error ", *code),
            ServiceError::Create(code) => with_code("could not create the service (error ", *code),
            ServiceError::Start => "could not start the service".to_owned(),
            ServiceError::Stop(code) => with_code("could not stop the service (error ", *code),
            ServiceError::Lost => "lost track of the service while it was stopping".to_owned(),
            ServiceError::DidNotStop =>
                "the service did not stop in time; the fan may still be held".to_owned(),
            ServiceError::NotRemoved =>
                "the service did not stop, so it was not removed. It may still be controlling the fan. Try again in a moment.".to_owned(),
            ServiceError::Remove(code) => with_code("could not remove the service (error ", *code),
        }
    }
}

/// A sentence that ends in an error code.
fn with_code(words: &str, code: u32) -> (r: String)
    ensures
        r@ == words@ + crate::text::decimal_nat(code as nat) + ")"@,
{
    let mut s = words.to_owned();
    push_u64(&mut s, code as u64);
    s.append(")");
    s
}

/// The command line the service manager starts: quoted, because an unquoted
/// path with a space in it is read as a command followed by arguments.
pub fn service_command_line(exe: &str) -> (r: String)
    ensures
        r@ == "\""@ + exe@ + "\" --service"@,
{
    let mut s = "\"".to_owned();
    s.append(exe);
    s.append("\" --service");
    s
}

/// What managing a service asks of the service manager.
#[derive(Debug, Clone, Copy, PartialEq, Eq, Structural)]
pub enum ManagerAsk {
    /// Open the service manager, to use it.
    Connect,
    /// Open the service manager, to change it.
    OpenManager,
    /// Register the service.
    Create,
    /// Open the service that is registered.
    OpenService,
    /// Point the registration at this program.
    Repoint,
    /// Have the service restarted when it fails.
    RestartOnFailure,
    /// Let people at this machine start and stop the service.
    AllowUsers,
    /// Start the service.
    Start,
    /// Ask the service to stop.
    Stop,
    /// Ask what the service is doing.
    Query,
    /// Wait this many milliseconds.
    Sleep(u64),
    /// Remove the registration.
    Delete,
}

/// What came of it.
#[derive(Debug, Clone, Copy, PartialEq, Eq, Structural)]
pub struct Told {
    pub ok: bool,
    /// Why it did not work, where it did not.
    pub code: u32,
    /// What the service is doing, where that was asked.
    pub state: u32,
    /// The time, in milliseconds.
    pub at: u64,
}

/// What managing a service does next.
#[derive(Debug, Clone, Copy, PartialEq, Eq)]
pub enum ManagerStep {
    Ask(ManagerAsk),
    End(Result<(), ServiceError>),
}

/// No service of that name is registered.
pub const ERROR_SERVICE_DOES_NOT_EXIST: u32 = 1060;

/// The service is not running.
pub const ERROR_SERVICE_NOT_ACTIVE: u32 = 1062;

/// A service of that name is registered already.
pub const ERROR_SERVICE_EXISTS: u32 = 1073;

/// The service manager's code for a service that has stopped.
pub const STATE_STOPPED: u32 = 1;

/// The service manager's code for a service that is running.
pub const STATE_RUNNING: u32 = 4;

/// How long stopping a service is waited for, in milliseconds: long enough to
/// outlast a handback that is waiting on the shared lock.
pub const STOP_WAIT: u64 = 90_000;

/// How long removing a service waits for it to stop: its whole handback
/// budget, and then some.
pub const REMOVE_WAIT: u64 = 75_000;

/// What waiting for a service to stop came to.
#[derive(Debug, Clone, Copy, PartialEq, Eq, Structural)]
pub enum Watch {
    Ask(ManagerAsk),
    /// It was seen stopped, by the answer at this place.
    Stopped(usize),
    /// It could not be seen any more.
    Lost,
    /// The time ran out.
    TimedOut,
}

/// Waiting for a service to stop, from the answer at place `i` on: asked
/// about, and then left alone for a quarter of a second.
pub open spec fn watching(heard: Seq<Told>, i: int, deadline: u64) -> Watch
    decreases heard.len() - i,
{
    if heard[i - 1].at >= deadline {
        Watch::TimedOut
    } else if i >= heard.len() {
        Watch::Ask(ManagerAsk::Query)
    } else if !heard[i].ok {
        Watch::Lost
    } else if heard[i].state == STATE_STOPPED {
        Watch::Stopped(i as usize)
    } else if i + 1 >= heard.len() {
        Watch::Ask(ManagerAsk::Sleep(250))
    } else {
        watching(heard, i + 2, deadline)
    }
}

/// Waiting for a service to stop.
fn watch(heard: &Vec<Told>, from: usize, deadline: u64) -> (r: Watch)
    requires
        1 <= from <= heard.len(),
    ensures
        r == watching(heard@, from as int, deadline),
        r matches Watch::Stopped(i) ==> from <= i < heard@.len() && heard@[i as int].ok
            && heard@[i as int].state == STATE_STOPPED,
{
    let mut i: usize = from;
    loop
        invariant
            1 <= from <= i <= heard@.len() == heard.len(),
            watching(heard@, from as int, deadline) == watching(heard@, i as int, deadline),
        decreases heard@.len() - i,
    {
        if heard[i - 1].at >= deadline {
            return Watch::TimedOut;
        }
        if i >= heard.len() {
            return Watch::Ask(ManagerAsk::Query);
        }
        let told = heard[i];
        if !told.ok {
            return Watch::Lost;
        }
        if told.state == STATE_STOPPED {
            return Watch::Stopped(i);
        }
        if i >= heard.len() - 1 {
            return Watch::Ask(ManagerAsk::Sleep(250));
        }
        i += 2;
    }
}

/// Stopping a running service without removing it, given what came of it so
/// far.
pub open spec fn stopping(heard: Seq<Told>) -> ManagerStep {
    if heard.len() == 0 {
        ManagerStep::Ask(ManagerAsk::Connect)
    } else if !heard[0].ok {
        ManagerStep::End(Err(ServiceError::Manager))
    } else if heard.len() == 1 {
        ManagerStep::Ask(ManagerAsk::OpenService)
    } else if !heard[1].ok {
        ManagerStep::End(
            if heard[1].code == ERROR_SERVICE_DOES_NOT_EXIST {
                Ok(())
            } else {
                Err(ServiceError::Open(heard[1].code))
            },
        )
    } else if heard.len() == 2 {
        ManagerStep::Ask(ManagerAsk::Stop)
    } else if !heard[2].ok {
        ManagerStep::End(
            if heard[2].code == ERROR_SERVICE_NOT_ACTIVE {
                Ok(())
            } else {
                Err(ServiceError::Stop(heard[2].code))
            },
        )
    } else {
        match watching(heard, 3, later(heard[2].at, STOP_WAIT as int)) {
            Watch::Ask(ask) => ManagerStep::Ask(ask),
            Watch::Stopped(_) => ManagerStep::End(Ok(())),
            Watch::Lost => ManagerStep::End(Err(ServiceError::Lost)),
            Watch::TimedOut => ManagerStep::End(Err(ServiceError::DidNotStop)),
        }
    }
}

/// Stops a running service without removing it.
///
/// Stopping is how the fan gets handed back, so this reports honestly: a
/// timeout or a failed query does not tell the caller the fan was released.
pub fn stop(heard: &Vec<Told>) -> (r: ManagerStep)
    ensures
        r == stopping(heard@),
{
    if heard.len() == 0 {
        return ManagerStep::Ask(ManagerAsk::Connect);
    }
    if !heard[0].ok {
        return ManagerStep::End(Err(ServiceError::Manager));
    }
    if heard.len() == 1 {
        return ManagerStep::Ask(ManagerAsk::OpenService);
    }
    let opened = heard[1];
    if !opened.ok {
        return if opened.code == ERROR_SERVICE_DOES_NOT_EXIST {
            ManagerStep::End(Ok(()))
        } else {
            ManagerStep::End(Err(ServiceError::Open(opened.code)))
        };
    }
    if heard.len() == 2 {
        return ManagerStep::Ask(ManagerAsk::Stop);
    }
    let asked = heard[2];
    if !asked.ok {
        // Already stopped is the outcome we wanted, not a failure.
        return if asked.code == ERROR_SERVICE_NOT_ACTIVE {
            ManagerStep::End(Ok(()))
        } else {
            ManagerStep::End(Err(ServiceError::Stop(asked.code)))
        };
    }
    match watch(heard, 3, asked.at.saturating_add(STOP_WAIT)) {
        Watch::Ask(ask) => ManagerStep::Ask(ask),
        Watch::Stopped(_) => ManagerStep::End(Ok(())),
        Watch::Lost => ManagerStep::End(Err(ServiceError::Lost)),
        Watch::TimedOut => ManagerStep::End(Err(ServiceError::DidNotStop)),
    }
}

/// Removing a service, given what came of it so far: stopped first, and
/// removed only once it was seen stopped.
pub open spec fn removing(heard: Seq<Told>) -> ManagerStep {
    if heard.len() == 0 {
        ManagerStep::Ask(ManagerAsk::OpenManager)
    } else if !heard[0].ok {
        ManagerStep::End(Err(ServiceError::NotAdministrator))
    } else if heard.len() == 1 {
        ManagerStep::Ask(ManagerAsk::OpenService)
    } else if !heard[1].ok {
        ManagerStep::End(
            if heard[1].code == ERROR_SERVICE_DOES_NOT_EXIST {
                Ok(())
            } else {
                Err(ServiceError::Open(heard[1].code))
            },
        )
    } else if heard.len() == 2 {
        ManagerStep::Ask(ManagerAsk::Stop)
    } else {
        match watching(heard, 3, later(heard[2].at, REMOVE_WAIT as int)) {
            Watch::Ask(ask) => ManagerStep::Ask(ask),
            Watch::Stopped(i) => if i + 1 >= heard.len() {
                ManagerStep::Ask(ManagerAsk::Delete)
            } else if heard[i + 1].ok {
                ManagerStep::End(Ok(()))
            } else {
                ManagerStep::End(Err(ServiceError::Remove(heard[i + 1].code)))
            },
            _ => ManagerStep::End(Err(ServiceError::NotRemoved)),
        }
    }
}

/// Stops and removes the service.
///
/// Refused rather than removing one that is still running: a pending removal
/// leaves it driving the fan while everything reports it gone.
pub fn uninstall(heard: &Vec<Told>) -> (r: ManagerStep)
    ensures
        r == removing(heard@),
{
    if heard.len() == 0 {
        return ManagerStep::Ask(ManagerAsk::OpenManager);
    }
    if !heard[0].ok {
        return ManagerStep::End(Err(ServiceError::NotAdministrator));
    }
    if heard.len() == 1 {
        return ManagerStep::Ask(ManagerAsk::OpenService);
    }
    let opened = heard[1];
    if !opened.ok {
        return if opened.code == ERROR_SERVICE_DOES_NOT_EXIST {
            ManagerStep::End(Ok(()))
        } else {
            ManagerStep::End(Err(ServiceError::Open(opened.code)))
        };
    }
    if heard.len() == 2 {
        return ManagerStep::Ask(ManagerAsk::Stop);
    }
    match watch(heard, 3, heard[2].at.saturating_add(REMOVE_WAIT)) {
        Watch::Ask(ask) => ManagerStep::Ask(ask),
        Watch::Stopped(i) => if i >= heard.len() - 1 {
            ManagerStep::Ask(ManagerAsk::Delete)
        } else if heard[i + 1].ok {
            ManagerStep::End(Ok(()))
        } else {
            ManagerStep::End(Err(ServiceError::Remove(heard[i + 1].code)))
        },
        Watch::Lost => ManagerStep::End(Err(ServiceError::NotRemoved)),
        Watch::TimedOut => ManagerStep::End(Err(ServiceError::NotRemoved)),
    }
}

/// What is asked of a service that is registered and open, from place `i` of
/// what was heard on: none of it can make an installation fail.
pub open spec fn settling(heard: Seq<Told>, i: int) -> ManagerStep {
    if heard.len() <= i {
        ManagerStep::Ask(ManagerAsk::RestartOnFailure)
    } else if heard.len() == i + 1 {
        ManagerStep::Ask(ManagerAsk::AllowUsers)
    } else if heard.len() == i + 2 {
        ManagerStep::Ask(ManagerAsk::Start)
    } else {
        ManagerStep::End(Ok(()))
    }
}

/// Installing the service, given what came of it so far. One that is already
/// registered is taken over, pointed at wherever this program is.
pub open spec fn installing(heard: Seq<Told>) -> ManagerStep {
    if heard.len() == 0 {
        ManagerStep::Ask(ManagerAsk::OpenManager)
    } else if !heard[0].ok {
        ManagerStep::End(Err(ServiceError::NotAdministrator))
    } else if heard.len() == 1 {
        ManagerStep::Ask(ManagerAsk::Create)
    } else if heard[1].ok {
        settling(heard, 2)
    } else if heard[1].code != ERROR_SERVICE_EXISTS {
        ManagerStep::End(Err(ServiceError::Create(heard[1].code)))
    } else if heard.len() == 2 {
        ManagerStep::Ask(ManagerAsk::OpenService)
    } else if !heard[2].ok {
        ManagerStep::End(Err(ServiceError::Create(heard[2].code)))
    } else if heard.len() == 3 {
        ManagerStep::Ask(ManagerAsk::Repoint)
    } else {
        settling(heard, 4)
    }
}

/// What is asked of a service that is registered and open.
fn settle(heard: &Vec<Told>, i: usize) -> (r: ManagerStep)
    requires
        i <= 4,
    ensures
        r == settling(heard@, i as int),
{
    if heard.len() <= i {
        ManagerStep::Ask(ManagerAsk::RestartOnFailure)
    } else if heard.len() == i + 1 {
        ManagerStep::Ask(ManagerAsk::AllowUsers)
    } else if heard.len() == i + 2 {
        ManagerStep::Ask(ManagerAsk::Start)
    } else {
        ManagerStep::End(Ok(()))
    }
}

/// Installs the service and starts it, so the fan is controlled without
/// waiting for a reboot.
pub fn install(heard: &Vec<Told>) -> (r: ManagerStep)
    ensures
        r == installing(heard@),
{
    if heard.len() == 0 {
        return ManagerStep::Ask(ManagerAsk::OpenManager);
    }
    if !heard[0].ok {
        return ManagerStep::End(Err(ServiceError::NotAdministrator));
    }
    if heard.len() == 1 {
        return ManagerStep::Ask(ManagerAsk::Create);
    }
    let created = heard[1];
    if created.ok {
        return settle(heard, 2);
    }
    // An upgrade finds the service already registered, and creating it again
    // correctly fails. The existing registration is adopted instead.
    if created.code != ERROR_SERVICE_EXISTS {
        return ManagerStep::End(Err(ServiceError::Create(created.code)));
    }
    if heard.len() == 2 {
        return ManagerStep::Ask(ManagerAsk::OpenService);
    }
    let existing = heard[2];
    if !existing.ok {
        return ManagerStep::End(Err(ServiceError::Create(existing.code)));
    }
    if heard.len() == 3 {
        return ManagerStep::Ask(ManagerAsk::Repoint);
    }
    settle(heard, 4)
}

/// Starting an installed service, given what came of it so far.
pub open spec fn beginning(heard: Seq<Told>) -> ManagerStep {
    if heard.len() == 0 {
        ManagerStep::Ask(ManagerAsk::Connect)
    } else if !heard[0].ok {
        ManagerStep::End(Err(ServiceError::Manager))
    } else if heard.len() == 1 {
        ManagerStep::Ask(ManagerAsk::OpenService)
    } else if !heard[1].ok {
        ManagerStep::End(Err(ServiceError::Start))
    } else if heard.len() == 2 {
        ManagerStep::Ask(ManagerAsk::Start)
    } else if heard[2].ok {
        ManagerStep::End(Ok(()))
    } else {
        ManagerStep::End(Err(ServiceError::Start))
    }
}

/// Starts an installed service.
pub fn start(heard: &Vec<Told>) -> (r: ManagerStep)
    ensures
        r == beginning(heard@),
{
    if heard.len() == 0 {
        return ManagerStep::Ask(ManagerAsk::Connect);
    }
    if !heard[0].ok {
        return ManagerStep::End(Err(ServiceError::Manager));
    }
    if heard.len() == 1 {
        return ManagerStep::Ask(ManagerAsk::OpenService);
    }
    if !heard[1].ok {
        return ManagerStep::End(Err(ServiceError::Start));
    }
    if heard.len() == 2 {
        return ManagerStep::Ask(ManagerAsk::Start);
    }
    if heard[2].ok {
        ManagerStep::End(Ok(()))
    } else {
        ManagerStep::End(Err(ServiceError::Start))
    }
}

/// What stands for the state of a service that is not installed.
pub const NOT_INSTALLED: i32 = -1;

/// What a service is doing.
#[derive(Debug, Clone, Copy, PartialEq, Eq, Structural)]
pub enum StateStep {
    Ask(ManagerAsk),
    /// -1 when it is not installed, otherwise its state.
    End(i32),
}

/// Asking what a service is doing, given what came of it so far. Anything that
/// does not work means it is not installed.
pub open spec fn asking_state(heard: Seq<Told>) -> StateStep {
    if heard.len() == 0 {
        StateStep::Ask(ManagerAsk::Connect)
    } else if !heard[0].ok {
        StateStep::End(NOT_INSTALLED)
    } else if heard.len() == 1 {
        StateStep::Ask(ManagerAsk::OpenService)
    } else if !heard[1].ok {
        StateStep::End(NOT_INSTALLED)
    } else if heard.len() == 2 {
        StateStep::Ask(ManagerAsk::Query)
    } else if !heard[2].ok {
        StateStep::End(NOT_INSTALLED)
    } else {
        StateStep::End(as_signed(heard[2].state))
    }
}

/// A state as a signed number.
pub open spec fn as_signed(state: u32) -> i32 {
    if state > i32::MAX {
        (state - 0x1_0000_0000) as i32
    } else {
        state as i32
    }
}

/// -1 when not installed, otherwise the current state.
pub fn state(heard: &Vec<Told>) -> (r: StateStep)
    ensures
        r == asking_state(heard@),
{
    if heard.len() == 0 {
        return StateStep::Ask(ManagerAsk::Connect);
    }
    if !heard[0].ok {
        return StateStep::End(NOT_INSTALLED);
    }
    if heard.len() == 1 {
        return StateStep::Ask(ManagerAsk::OpenService);
    }
    if !heard[1].ok {
        return StateStep::End(NOT_INSTALLED);
    }
    if heard.len() == 2 {
        return StateStep::Ask(ManagerAsk::Query);
    }
    let told = heard[2];
    if !told.ok {
        return StateStep::End(NOT_INSTALLED);
    }
    if told.state > 0x7fff_ffff {
        StateStep::End((told.state as i64 - 0x1_0000_0000) as i32)
    } else {
        StateStep::End(told.state as i32)
    }
}

proof fn a_watch_saw_it(heard: Seq<Told>, i: int, deadline: u64)
    requires
        1 <= i <= heard.len(),
        heard.len() < usize::MAX,
    ensures
        watching(heard, i, deadline) matches Watch::Stopped(at) ==> i <= at < heard.len()
            && heard[at as int].ok && heard[at as int].state == STATE_STOPPED,
        watching(heard, i, deadline) matches Watch::Ask(ask) ==> ask != ManagerAsk::Delete,
    decreases heard.len() - i,
{
    if i + 1 < heard.len() {
        a_watch_saw_it(heard, i + 2, deadline);
    }
}

/// A service is removed only once it was seen stopped.
pub proof fn nothing_running_is_removed(heard: Seq<Told>)
    requires
        heard.len() < usize::MAX,
        removing(heard) == ManagerStep::Ask(ManagerAsk::Delete),
    ensures
        exists|i: int|
            3 <= i < heard.len() && (#[trigger] heard[i]).ok && heard[i].state == STATE_STOPPED,
{
    a_watch_saw_it(heard, 3, later(heard[2].at, REMOVE_WAIT as int));
}

/// A stop is reported as done only where the service was seen stopped, was not
/// running, or is not there.
pub proof fn a_stop_is_reported_honestly(heard: Seq<Told>)
    requires
        heard.len() < usize::MAX,
        stopping(heard) == ManagerStep::End(Ok::<(), ServiceError>(())),
    ensures
        ({
            ||| !heard[1].ok && heard[1].code == ERROR_SERVICE_DOES_NOT_EXIST
            ||| !heard[2].ok && heard[2].code == ERROR_SERVICE_NOT_ACTIVE
            ||| exists|i: int|
                3 <= i < heard.len() && (#[trigger] heard[i]).ok && heard[i].state
                    == STATE_STOPPED
        }),
{
    if heard[1].ok && heard[2].ok {
        a_watch_saw_it(heard, 3, later(heard[2].at, STOP_WAIT as int));
    }
}

/// What the signs add up to: suspended while the system says so or is in
/// modern standby; dark while the screen is off, or the lid is shut on
/// battery; awake otherwise.
pub proof fn the_signs_add_up(signs: PowerSigns)
    ensures
        signs.state() == PowerState::Suspended <==> signs.suspending || signs.in_modern_standby,
        signs.state() == PowerState::Awake <==> {
            &&& !signs.suspending && !signs.in_modern_standby
            &&& signs.display_on
            &&& signs.lid_open || !signs.on_battery
        },
{
}

/// Each piece of news changes the sign it is about and no other, except that
/// the screen coming on and a resume also end a standby. News that cannot be
/// read, or is about something else, changes nothing and wakes nobody.
pub proof fn news_changes_its_own_sign(signs: PowerSigns, v: u8, value: Option<u8>)
    ensures
        signs.with_news(
            PowerNews::Setting { which: PowerSetting::Display, value: Some(v) },
        ) == (PowerSigns {
            display_on: v != 0,
            in_modern_standby: signs.in_modern_standby && v == 0,
            ..signs
        }),
        signs.with_news(PowerNews::Setting { which: PowerSetting::Lid, value: Some(v) }) == (
        PowerSigns { lid_open: v != 0, ..signs }),
        signs.with_news(PowerNews::Setting { which: PowerSetting::Source, value: Some(v) }) == (
        PowerSigns { on_battery: v != 0, ..signs }),
        signs.with_news(PowerNews::Setting { which: PowerSetting::Other, value }) == signs,
        signs.with_news(PowerNews::Setting { which: PowerSetting::Lid, value: None }) == signs,
        signs.with_news(PowerNews::Setting { which: PowerSetting::Display, value: None }) == signs,
        signs.with_news(PowerNews::Setting { which: PowerSetting::Source, value: None }) == signs,
        signs.with_news(PowerNews::Suspend) == (PowerSigns { suspending: true, ..signs }),
        signs.with_news(PowerNews::Resume) == (PowerSigns {
            suspending: false,
            in_modern_standby: false,
            ..signs
        }),
        signs.with_news(PowerNews::StandbyBegan) == (PowerSigns {
            in_modern_standby: true,
            ..signs
        }),
        signs.with_news(PowerNews::StandbyEnded) == (PowerSigns {
            in_modern_standby: false,
            ..signs
        }),
        signs.with_news(PowerNews::Other) == signs,
        answer_to(PowerNews::Other) == Reply::Nothing,
        answer_to(PowerNews::Setting { which: PowerSetting::Other, value }) == Reply::Nothing,
        answer_to(PowerNews::Suspend) == Reply::WakeAndWait,
        answer_to(PowerNews::Resume) == Reply::Wake,
        answer_to(PowerNews::Setting { which: PowerSetting::Lid, value: Some(v) }) == Reply::Wake,
{
}

/// One turn of the run loop: the power state it sees is told to the host, a
/// suspend is acknowledged, a pass is run, and then it waits out the interval.
/// It turns early only for a stop, another power state or a command.
pub proof fn a_turn_of_the_run_loop(
    sees: RunSees,
    power: PowerState,
    deadline: u64,
    attempt: u32,
)
    requires
        sees.interval <= 1_000_000,
        sees.now <= 1_000_000_000_000,
    ensures
        !sees.stopping ==> RunPhase::Top.after(sees).asks(sees.now) == RunAsk::Apply(sees.power),
        power == PowerState::Suspended ==> (RunPhase::Applying { power }).after(sees).asks(sees.now)
            == RunAsk::Acknowledge,
        power != PowerState::Suspended ==> (RunPhase::Applying { power }).after(sees).asks(sees.now)
            == RunAsk::Pass,
        (RunPhase::Acknowledging { power }).after(sees).asks(sees.now) == RunAsk::Pass,
        !sees.stopping ==> (RunPhase::Passing { power }).after(sees) == (RunPhase::Clearing {
            power,
            deadline: (sees.now + 1000 * sees.interval) as u64,
        }),
        !sees.stopping && sees.power == power && !sees.command_waiting && sees.now < deadline
            ==> (RunPhase::Clearing { power, deadline }).after(sees).asks(sees.now) == RunAsk::Wait(
            (deadline - sees.now) as u64,
        ),
        !sees.stopping && (sees.power != power || sees.command_waiting || sees.now >= deadline)
            ==> (RunPhase::Clearing { power, deadline }).after(sees).asks(sees.now) == RunAsk::Apply(
            sees.power,
        ),
        (RunPhase::Waiting { power, deadline }).after(sees) == (RunPhase::Clearing {
            power,
            deadline,
        }),
{
}

/// A stop hands the fan back: tried six times, half a second apart, within 45
/// seconds, until it works. One that never worked is written down before the
/// loop is left.
pub proof fn a_stop_hands_the_fan_back(
    sees: RunSees,
    attempt: u32,
    deadline: u64,
    power: PowerState,
)
    requires
        sees.now <= 1_000_000_000_000,
        attempt < 1000,
    ensures
        sees.stopping ==> RunPhase::Top.after(sees) == (RunPhase::HandingBack {
            attempt: 0,
            deadline: (sees.now + 45_000) as u64,
        }),
        sees.stopping ==> (RunPhase::Passing { power }).after(sees) == RunPhase::Top.after(sees),
        (RunPhase::HandingBack { attempt, deadline }).asks(sees.now) is HandBack,
        sees.released ==> (RunPhase::HandingBack { attempt, deadline }).after(sees).asks(sees.now)
            == RunAsk::Leave,
        !sees.released && sees.now < deadline && attempt < 5 ==> {
            let next = (RunPhase::HandingBack { attempt, deadline }).after(sees);
            &&& next.asks(sees.now) == RunAsk::Pause(500)
            &&& next.after(sees) == (RunPhase::HandingBack {
                attempt: (attempt + 1) as u32,
                deadline,
            })
        },
        !sees.released && (sees.now >= deadline || attempt >= 5) ==> {
            let next = (RunPhase::HandingBack { attempt, deadline }).after(sees);
            &&& next.asks(sees.now) == RunAsk::Complain
            &&& next.after(sees).asks(sees.now) == RunAsk::Leave
        },
{
}

/// Stopping a service goes in order, each step only once the one before it
/// worked: connect, open, stop, and then ask every quarter of a second, for 90
/// seconds, whether it has.
pub proof fn stopping_goes_in_order(heard: Seq<Told>)
    requires
        forall|i: int| 0 <= i < heard.len() && i < 3 ==> (#[trigger] heard[i]).ok,
        heard.len() >= 3 ==> heard[2].at <= 1_000_000_000_000,
    ensures
        heard.len() == 0 ==> stopping(heard) == ManagerStep::Ask(ManagerAsk::Connect),
        heard.len() == 1 ==> stopping(heard) == ManagerStep::Ask(ManagerAsk::OpenService),
        heard.len() == 2 ==> stopping(heard) == ManagerStep::Ask(ManagerAsk::Stop),
        heard.len() == 3 ==> stopping(heard) == ManagerStep::Ask(ManagerAsk::Query),
        heard.len() == 4 && heard[3].ok && heard[3].state == 1 ==> stopping(heard)
            == ManagerStep::End(Ok::<(), ServiceError>(())),
        heard.len() == 4 && heard[3].ok && heard[3].state != 1 ==> stopping(heard)
            == ManagerStep::Ask(ManagerAsk::Sleep(250)),
        heard.len() == 4 && !heard[3].ok ==> stopping(heard) == ManagerStep::End(
            Err::<(), ServiceError>(ServiceError::Lost),
        ),
        heard.len() == 5 && heard[3].ok && heard[3].state != 1 && heard[4].at < heard[2].at
            + 90_000 ==> stopping(heard) == ManagerStep::Ask(ManagerAsk::Query),
        heard.len() == 5 && heard[3].ok && heard[3].state != 1 && heard[4].at >= heard[2].at
            + 90_000 ==> stopping(heard) == ManagerStep::End(
            Err::<(), ServiceError>(ServiceError::DidNotStop),
        ),
{
    reveal_with_fuel(watching, 3);
    if heard.len() >= 1 {
        assert(heard[0].ok);
    }
    if heard.len() >= 2 {
        assert(heard[1].ok);
    }
    if heard.len() >= 3 {
        assert(heard[2].ok);
    }
}

/// Each way stopping can fail early is reported as what it is; a service that
/// is not there, or not running, has stopped.
pub proof fn a_stop_that_fails_says_where(heard: Seq<Told>)
    ensures
        heard.len() >= 1 && !heard[0].ok ==> stopping(heard) == ManagerStep::End(
            Err::<(), ServiceError>(ServiceError::Manager),
        ),
        heard.len() >= 2 && heard[0].ok && !heard[1].ok && heard[1].code == 1060 ==> stopping(heard)
            == ManagerStep::End(Ok::<(), ServiceError>(())),
        heard.len() >= 2 && heard[0].ok && !heard[1].ok && heard[1].code != 1060 ==> stopping(heard)
            == ManagerStep::End(Err::<(), ServiceError>(ServiceError::Open(heard[1].code))),
        heard.len() >= 3 && heard[0].ok && heard[1].ok && !heard[2].ok && heard[2].code == 1062
            ==> stopping(heard) == ManagerStep::End(Ok::<(), ServiceError>(())),
        heard.len() >= 3 && heard[0].ok && heard[1].ok && !heard[2].ok && heard[2].code != 1062
            ==> stopping(heard) == ManagerStep::End(
            Err::<(), ServiceError>(ServiceError::Stop(heard[2].code)),
        ),
{
}

/// Installing goes in order: open the manager, register, have the service
/// restarted on failure, let people start and stop it, and start it. One that
/// is registered already is opened and pointed here instead.
pub proof fn installing_goes_in_order(heard: Seq<Told>)
    ensures
        heard.len() == 0 ==> installing(heard) == ManagerStep::Ask(ManagerAsk::OpenManager),
        heard.len() >= 1 && !heard[0].ok ==> installing(heard) == ManagerStep::End(
            Err::<(), ServiceError>(ServiceError::NotAdministrator),
        ),
        heard.len() >= 1 && heard[0].ok ==> {
            &&& heard.len() == 1 ==> installing(heard) == ManagerStep::Ask(ManagerAsk::Create)
            &&& heard.len() >= 2 && heard[1].ok ==> {
                &&& heard.len() == 2 ==> installing(heard) == ManagerStep::Ask(
                    ManagerAsk::RestartOnFailure,
                )
                &&& heard.len() == 3 ==> installing(heard) == ManagerStep::Ask(
                    ManagerAsk::AllowUsers,
                )
                &&& heard.len() == 4 ==> installing(heard) == ManagerStep::Ask(ManagerAsk::Start)
                &&& heard.len() >= 5 ==> installing(heard) == ManagerStep::End(
                    Ok::<(), ServiceError>(()),
                )
            }
            &&& heard.len() >= 2 && !heard[1].ok && heard[1].code != 1073 ==> installing(heard)
                == ManagerStep::End(Err::<(), ServiceError>(ServiceError::Create(heard[1].code)))
            &&& heard.len() == 2 && !heard[1].ok && heard[1].code == 1073 ==> installing(heard)
                == ManagerStep::Ask(ManagerAsk::OpenService)
            &&& heard.len() == 3 && !heard[1].ok && heard[1].code == 1073 && heard[2].ok
                ==> installing(heard) == ManagerStep::Ask(ManagerAsk::Repoint)
            &&& heard.len() == 4 && !heard[1].ok && heard[1].code == 1073 && heard[2].ok
                ==> installing(heard) == ManagerStep::Ask(ManagerAsk::RestartOnFailure)
        },
{
}

/// Starting is reported good exactly when connecting, opening and starting all
/// worked, in that order; and the state of a service that cannot be asked is
/// that it is not installed.
pub proof fn starting_and_asking_go_in_order(heard: Seq<Told>)
    ensures
        heard.len() == 0 ==> beginning(heard) == ManagerStep::Ask(ManagerAsk::Connect)
            && asking_state(heard) == StateStep::Ask(ManagerAsk::Connect),
        heard.len() == 1 && heard[0].ok ==> beginning(heard) == ManagerStep::Ask(
            ManagerAsk::OpenService,
        ) && asking_state(heard) == StateStep::Ask(ManagerAsk::OpenService),
        heard.len() == 2 && heard[0].ok && heard[1].ok ==> beginning(heard) == ManagerStep::Ask(
            ManagerAsk::Start,
        ) && asking_state(heard) == StateStep::Ask(ManagerAsk::Query),
        beginning(heard) == ManagerStep::End(Ok::<(), ServiceError>(())) <==> heard.len() >= 3
            && heard[0].ok && heard[1].ok && heard[2].ok,
        heard.len() >= 3 && heard[0].ok && heard[1].ok && heard[2].ok && heard[2].state
            <= 0x7fff_ffff ==> asking_state(heard) == StateStep::End(heard[2].state as i32),
        !(heard.len() >= 3 && heard[0].ok && heard[1].ok && heard[2].ok) ==> (asking_state(
            heard,
        ) matches StateStep::End(said) ==> said == -1),
{
}

/// An entry of the event log says a standby began by the number 506, and ended
/// by 507, and says nothing where it holds neither.
pub proof fn a_standby_is_told_by_its_number(xml: Seq<char>)
    ensures
        standby_said(xml) == Some(true) <==> exists|i: int|
            0 <= i && i + 22 <= xml.len() && #[trigger] xml.subrange(i, i + 22)
                == "<EventID>506</EventID>"@,
        standby_said(xml) == Some(false) ==> exists|i: int|
            0 <= i && i + 22 <= xml.len() && #[trigger] xml.subrange(i, i + 22)
                == "<EventID>507</EventID>"@,
        standby_said(xml) is None ==> forall|i: int|
            0 <= i && i + 22 <= xml.len() ==> #[trigger] xml.subrange(i, i + 22)
                != "<EventID>507</EventID>"@,
{
    reveal_strlit("<EventID>506</EventID>");
    reveal_strlit("<EventID>507</EventID>");
    let began = "<EventID>506</EventID>"@;
    let ended = "<EventID>507</EventID>"@;
    assert(began.len() == 22 && ended.len() == 22);
    assert forall|i: int| 0 <= i && i + 22 <= xml.len() && #[trigger] xml.subrange(i, i + 22)
        == began implies crate::text::holds(xml, began) by {
        assert(crate::text::stands_at(xml, began, i));
    }
    assert forall|i: int| 0 <= i && i + 22 <= xml.len() && #[trigger] xml.subrange(i, i + 22)
        == ended implies crate::text::holds(xml, ended) by {
        assert(crate::text::stands_at(xml, ended, i));
    }
    if crate::text::holds(xml, began) {
        let i = choose|i: int| #[trigger] crate::text::stands_at(xml, began, i);
        assert(xml.subrange(i, i + 22) == began);
    }
    if crate::text::holds(xml, ended) {
        let i = choose|i: int| #[trigger] crate::text::stands_at(xml, ended, i);
        assert(xml.subrange(i, i + 22) == ended);
    }
}

/// Identifiers are the same only with every byte the same.
pub proof fn an_identifier_is_all_of_its_bytes(a: Guid, b: Guid)
    ensures
        alike(a, b) <==> {
            &&& a.data1 == b.data1 && a.data2 == b.data2 && a.data3 == b.data3
            &&& forall|i: int| 0 <= i < 8 ==> #[trigger] a.data4@[i] == b.data4@[i]
        },
{
    if a.data1 == b.data1 && a.data2 == b.data2 && a.data3 == b.data3 && forall|i: int|
        0 <= i < 8 ==> #[trigger] a.data4@[i] == b.data4@[i] {
        assert(a.data4@ =~= b.data4@);
    }
}

proof fn a_running_service_is_passed_over(heard: Seq<Told>, i: int, t: int, deadline: u64)
    requires
        3 <= i <= t <= heard.len(),
        i % 2 == 1,
        t % 2 == 1,
        forall|k: int|
            i <= k < t && k % 2 == 1 ==> (#[trigger] heard[k]).ok && heard[k].state != 1,
        forall|k: int| i - 1 <= k < t - 1 && k % 2 == 0 ==> (#[trigger] heard[k]).at < deadline,
    ensures
        watching(heard, i, deadline) == watching(heard, t, deadline),
    decreases t - i,
{
    if i < t {
        assert(heard[i].ok && heard[i].state != 1);
        assert(heard[i - 1].at < deadline);
        a_running_service_is_passed_over(heard, i + 2, t, deadline);
    }
}

/// Removing a service goes in order: open the manager, open the service, stop
/// it, ask every quarter of a second, for 75 seconds, whether it has stopped,
/// and remove it once it has. One that is not there is removed already, and one
/// that does not stop is left.
pub proof fn removing_goes_in_order(heard: Seq<Told>, t: int)
    requires
        heard.len() < usize::MAX,
        3 <= t,
        t % 2 == 1,
        heard.len() <= t + 2,
        forall|k: int|
            3 <= k < t && k < heard.len() && k % 2 == 1 ==> (#[trigger] heard[k]).ok
                && heard[k].state != 1,
        heard.len() >= 3 ==> heard[2].at + 75_000 <= u64::MAX,
        forall|k: int|
            2 <= k < t - 1 && k < heard.len() && k % 2 == 0 ==> (#[trigger] heard[k]).at
                < heard[2].at + 75_000,
    ensures
        ({
            let next = removing(heard);
            &&& heard.len() == 0 ==> next == ManagerStep::Ask(ManagerAsk::OpenManager)
            &&& heard.len() >= 1 && !heard[0].ok ==> next == ManagerStep::End(
                Err::<(), ServiceError>(ServiceError::NotAdministrator),
            )
            &&& heard.len() == 1 && heard[0].ok ==> next == ManagerStep::Ask(
                ManagerAsk::OpenService,
            )
            &&& heard.len() >= 2 && heard[0].ok && !heard[1].ok && heard[1].code == 1060 ==> next
                == ManagerStep::End(Ok::<(), ServiceError>(()))
            &&& heard.len() >= 2 && heard[0].ok && !heard[1].ok && heard[1].code != 1060 ==> next
                == ManagerStep::End(Err::<(), ServiceError>(ServiceError::Open(heard[1].code)))
            &&& heard.len() == 2 && heard[0].ok && heard[1].ok ==> next == ManagerStep::Ask(
                ManagerAsk::Stop,
            )
            &&& heard.len() >= t && heard[0].ok && heard[1].ok ==> {
                if heard[t - 1].at >= heard[2].at + 75_000 {
                    next == ManagerStep::End(Err::<(), ServiceError>(ServiceError::NotRemoved))
                } else if heard.len() == t {
                    next == ManagerStep::Ask(ManagerAsk::Query)
                } else if !heard[t].ok {
                    next == ManagerStep::End(Err::<(), ServiceError>(ServiceError::NotRemoved))
                } else if heard[t].state != 1 {
                    heard.len() == t + 1 ==> next == ManagerStep::Ask(ManagerAsk::Sleep(250))
                } else if heard.len() == t + 1 {
                    next == ManagerStep::Ask(ManagerAsk::Delete)
                } else if heard[t + 1].ok {
                    next == ManagerStep::End(Ok::<(), ServiceError>(()))
                } else {
                    next == ManagerStep::End(
                        Err::<(), ServiceError>(ServiceError::Remove(heard[t + 1].code)),
                    )
                }
            }
        }),
{
    if heard.len() >= t {
        a_running_service_is_passed_over(heard, 3, t, (heard[2].at + 75_000) as u64);
    }
}

/// A stop is waited for: while the service is seen running it is asked about
/// every quarter of a second, and after 90 seconds it is given up on.
pub proof fn a_stop_is_waited_for(heard: Seq<Told>, t: int)
    requires
        3 <= t <= heard.len() <= t + 1,
        t % 2 == 1,
        heard[0].ok && heard[1].ok && heard[2].ok,
        heard[2].at + 90_000 <= u64::MAX,
        forall|k: int|
            3 <= k < t && k % 2 == 1 ==> (#[trigger] heard[k]).ok && heard[k].state != 1,
        forall|k: int|
            2 <= k < t - 1 && k % 2 == 0 ==> (#[trigger] heard[k]).at < heard[2].at + 90_000,
    ensures
        ({
            let next = stopping(heard);
            if heard[t - 1].at >= heard[2].at + 90_000 {
                next == ManagerStep::End(Err::<(), ServiceError>(ServiceError::DidNotStop))
            } else if heard.len() == t {
                next == ManagerStep::Ask(ManagerAsk::Query)
            } else if !heard[t].ok {
                next == ManagerStep::End(Err::<(), ServiceError>(ServiceError::Lost))
            } else if heard[t].state == 1 {
                next == ManagerStep::End(Ok::<(), ServiceError>(()))
            } else {
                next == ManagerStep::Ask(ManagerAsk::Sleep(250))
            }
        }),
{
    a_running_service_is_passed_over(heard, 3, t, (heard[2].at + 90_000) as u64);
}

} // verus!
