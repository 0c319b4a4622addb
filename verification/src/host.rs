//! The thing that actually drives the fan.
//!
//! Whoever holds the engine lock is the engine, and only the engine opens the
//! port driver. What is here is everything the engine decides between two
//! looks at the outside: when the fan goes to the firmware, when it comes
//! back, and what the window is told meanwhile.

use vstd::prelude::*;

use crate::config::{find_profile, Config, ConfigError, ConfigView, EcLayout, ProfileView, Stored};
use crate::ec::{Ec, EcState, FAN_LEVEL_MAX};
use crate::engine::{Decision, Engine, EngineView, Guarding, Mode, Tick};
use crate::ipc::{Sample, Shared, SharedView, MODE_BIOS, MODE_KEEP, MODE_MANUAL, MODE_SMART, SENSOR_COUNT, STATUS_HANDBACK_FAILED, STATUS_OK, STATUS_SURRENDERED, STATUS_UNREACHABLE};
use crate::log::Record;
use crate::pawnio::{Fault, Layout};

verus! {

/// Only one of these may exist. Global, because the engine is usually a
/// service in session 0 while a window is in the user's session, and an
/// unprefixed name would give them separate locks that never see each other.
pub const ENGINE_LOCK: &'static str = "Global\\Yamato_Engine";

/// Power state, as far as the fan is concerned.
#[derive(Debug, Clone, Copy, PartialEq, Eq, Structural)]
pub enum PowerState {
    Awake,
    /// The screen is off, and that is all anybody has said.
    ScreenOff,
    /// Suspended, on the system's own word.
    Suspended,
}

/// Failures in a row before we stop trusting ourselves and hand the fan back.
pub const MAX_FAULTS: u32 = 5;

/// Passes lost to contention before it stops being someone else's turn and
/// starts being a fan we cannot manage.
pub const MAX_CONTENDED: u32 = 60;

/// Consecutive good passes before a surrendered curve is taken back.
pub const CLEAN_TICKS_TO_RECOVER: u32 = 3;

/// Passes with no sleep in them before a screen-off machine gets its curve
/// back.
pub const AWAKE_PASSES_TO_RESUME: u32 = 3;

/// The least sleep in one pass, in nanoseconds, that can mean the machine was
/// parked.
pub const PARKED_FLOOR: u64 = 1_000_000_000;

/// How often the controller is tried again within one pass.
pub const PASS_RETRIES: u8 = 2;

/// The pause before each of those, in milliseconds.
pub const RETRY_PAUSE: u64 = 250;

/// One clock less another, and nothing where that would be less than nothing.
pub open spec fn since(now: u64, was: u64) -> int {
    if now >= was {
        now - was
    } else {
        0
    }
}

/// How much of the time between two looks at the clocks was spent asleep, in
/// nanoseconds: what the real clock counted, in hundreds of nanoseconds, and
/// the one that stops during sleep did not.
pub open spec fn slept(was: Option<(u64, u64)>, now: Option<(u64, u64)>) -> int {
    match (was, now) {
        (Some((was_wall, was_unbiased)), Some((wall, unbiased))) => {
            let asleep = since(wall, was_wall) - since(unbiased, was_unbiased);
            if asleep <= 0 {
                0
            } else if asleep * 100 > u64::MAX {
                u64::MAX as int
            } else {
                asleep * 100
            }
        },
        _ => 0,
    }
}

/// Tells time spent working from time spent asleep.
///
/// There are two counts of the same clock. One advances with real time; the
/// other stops while the system is in a low-power sleep state.
#[derive(Debug, Clone, Copy)]
pub struct SleepClock {
    /// Both counts, as they stood when last looked at.
    pub last: Option<(u64, u64)>,
}

impl SleepClock {
    /// The same, having looked at the counts, where they could be read.
    pub open spec fn looked_at(self, clocks: Option<(u64, u64)>) -> SleepClock {
        match clocks {
            Some(now) => SleepClock { last: Some(now) },
            None => self,
        }
    }

    pub fn new() -> (r: Self)
        ensures
            r == (SleepClock { last: None }),
    {
        SleepClock { last: None }
    }

    /// How much of the time since the previous call the machine spent asleep,
    /// given the two counts as they stand now.
    ///
    /// Zero on the first call, and zero if the counts cannot be read: an
    /// unanswerable question defaults to the state we can see rather than
    /// inventing a sleep that would take the curve away.
    pub fn slept_since_last_pass(&mut self, clocks: Option<(u64, u64)>) -> (r: u64)
        ensures
            r == slept(old(self).last, clocks),
            *final(self) == old(self).looked_at(clocks),
    {
        match clocks {
            None => 0,
            Some((wall, unbiased)) => {
                let r: u64 = match self.last {
                    Some((was_wall, was_unbiased)) => {
                        let elapsed: u64 = wall.saturating_sub(was_wall);
                        let worked: u64 = unbiased.saturating_sub(was_unbiased);
                        let asleep: u64 = elapsed.saturating_sub(worked);
                        if asleep > u64::MAX / 100 {
                            u64::MAX
                        } else {
                            asleep * 100
                        }
                    },
                    None => 0,
                };
                self.last = Some((wall, unbiased));
                r
            },
        }
    }

    /// Drops the previous sample, so the next call measures from now.
    pub fn forget(&mut self)
        ensures
            *final(self) == (SleepClock { last: None }),
    {
        self.last = None;
    }
}

/// A forgotten clock has no interval to report, whatever it reads next.
pub proof fn forgetting_stops_a_resume_reading_as_sleep(now: Option<(u64, u64)>)
    ensures
        slept(None, now) == 0,
{
}

/// A machine whose two counts advance together has not slept.
pub proof fn a_working_machine_does_not_look_asleep(
    wall: u64,
    unbiased: u64,
    later: u64,
    later_unbiased: u64,
)
    requires
        wall <= later,
        unbiased <= later_unbiased,
        later_unbiased - unbiased >= later - wall,
    ensures
        slept(Some((wall, unbiased)), Some((later, later_unbiased))) == 0,
{
}

/// Asks the loop to unwind.
#[derive(Debug, Clone, Copy)]
pub struct StopFlag {
    set: bool,
}

impl View for StopFlag {
    type V = bool;

    closed spec fn view(&self) -> bool {
        self.set
    }
}

impl StopFlag {
    pub fn new() -> (r: Self)
        ensures
            !r@,
    {
        StopFlag { set: false }
    }

    pub fn stop(&mut self)
        ensures
            final(self)@,
    {
        self.set = true;
    }

    pub fn stopped(&self) -> (r: bool)
        ensures
            r == self@,
    {
        self.set
    }
}

/// Which of the three kinds of trouble to publish, most serious first.
pub open spec fn trouble(fault: bool, surrendered: bool, handback_failed: bool) -> u8 {
    if handback_failed {
        STATUS_HANDBACK_FAILED
    } else if fault {
        STATUS_UNREACHABLE
    } else if surrendered {
        STATUS_SURRENDERED
    } else {
        STATUS_OK
    }
}

/// Which of the three kinds of trouble to publish.
///
/// Ordered by what most needs saying, not by what happened last. A failed
/// handback outranks everything: it is a level held with the firmware's own
/// management switched off.
pub fn status_for(fault: bool, surrendered: bool, handback_failed: bool) -> (r: u8)
    ensures
        r == trouble(fault, surrendered, handback_failed),
{
    if handback_failed {
        STATUS_HANDBACK_FAILED
    } else if fault {
        STATUS_UNREACHABLE
    } else if surrendered {
        STATUS_SURRENDERED
    } else {
        STATUS_OK
    }
}

/// The mode a posted command asks for. A level the channel may not ask for,
/// stopped among them, is firmware control.
pub open spec fn asked_mode(mode: u8, level: u8) -> Mode {
    if mode == MODE_SMART {
        Mode::Smart
    } else if mode == MODE_MANUAL && 1 <= level <= FAN_LEVEL_MAX {
        Mode::Manual(level)
    } else {
        Mode::Bios
    }
}

/// The mode a posted command asks for.
///
/// Level 0 stops the fan with the firmware disabled. Nothing that arrives
/// over a channel any process can write gets to do that; the floor is 1.
pub fn mode_asked(mode: u8, level: u8) -> (r: Mode)
    ensures
        r == asked_mode(mode, level),
{
    if mode == MODE_SMART {
        Mode::Smart
    } else if mode == MODE_MANUAL && level >= 1 && level <= FAN_LEVEL_MAX {
        Mode::Manual(level)
    } else {
        Mode::Bios
    }
}

/// A mode as the block holds it.
pub open spec fn mode_field(mode: Mode) -> u8 {
    match mode {
        Mode::Bios => MODE_BIOS,
        Mode::Smart => MODE_SMART,
        Mode::Manual(_) => MODE_MANUAL,
    }
}

/// What a pass that got through read and applied.
#[derive(Debug, Clone, Copy)]
pub struct Reading {
    pub fan_ctrl: u8,
    pub hottest: Option<(usize, i8)>,
    pub fan_rpm: [u16; 2],
    pub sensors: [Option<i8>; 12],
}

/// What a pass brought, as the window will be shown it.
pub open spec fn reading_of(t: Tick) -> Reading {
    Reading {
        fan_ctrl: t.applied,
        hottest: t.hottest,
        fan_rpm: t.state.fan_rpm,
        sensors: t.state.sensors,
    }
}

/// How far a pass has got: what it is waiting to hear.
#[derive(Debug, Clone, Copy)]
pub enum Phase {
    /// Between passes.
    Idle,
    /// When the settings file last changed.
    Stamping,
    /// The settings file, because it changed.
    Loading,
    /// The two clocks.
    Timing,
    /// How a handback for standby came out.
    StandingBy,
    /// The shared block, with any command in it.
    Commanding,
    /// The settings file, because a command names a profile we do not know.
    Fetching { shared: Shared, seq: u32 },
    /// That the command has been acknowledged.
    Acknowledging { seq: u32 },
    /// A sample of the controller, and which try this is.
    Sampling { tries: u8 },
    /// How a write came out.
    Writing { state: EcState, hottest: Option<(usize, i8)>, wanted: u8, tries: u8 },
    /// The end of the pause before another try.
    Pausing { tries: u8 },
    /// How a handback after faults came out.
    Surrendering,
    /// How a handback after a stall came out.
    Rescuing,
    /// That the sample has been published.
    Publishing,
    /// That the history has been written.
    Recording,
}

/// What a pass wants done next.
#[derive(Debug, Clone, Copy)]
pub enum HostAsk {
    /// Find out when the settings file last changed.
    Stamp,
    /// Read the settings file.
    Load,
    /// Read the two clocks.
    Clocks,
    /// Hand the fan to the firmware, now.
    HandBack,
    /// Read the shared block.
    Command,
    /// Record that a command has been acted on.
    Acknowledge(u32),
    /// Sample the controller.
    Sample,
    /// Set the fan register.
    SetFan(u8),
    /// Wait this many milliseconds.
    Pause(u64),
    /// Publish the sample.
    Publish,
    /// Write the history, or let go of it.
    Record,
    /// The pass is over.
    Done,
}

/// What a pass has just heard.
#[derive(Debug)]
pub enum HostHeard {
    /// Go on: a pass begins, or something that brings no answer is done.
    Ready,
    /// When the settings file last changed, where that can be told.
    Stamped(Option<u64>),
    /// What the settings file holds.
    Loaded(Stored),
    /// The two clocks, where they can be read.
    Clocks(Option<(u64, u64)>),
    /// How a handback came out.
    HandedBack(Result<(), Fault>),
    /// The shared block.
    Command(Shared),
    /// How sampling the controller came out.
    Sampled(Result<EcState, Fault>),
    /// How setting the fan register came out.
    Wrote(Result<u8, Fault>),
}

/// What asking again sounds like, where a pass heard something it did not ask
/// for.
pub open spec fn asking(phase: Phase) -> HostAsk {
    match phase {
        Phase::Idle => HostAsk::Done,
        Phase::Stamping => HostAsk::Stamp,
        Phase::Loading => HostAsk::Load,
        Phase::Timing => HostAsk::Clocks,
        Phase::StandingBy => HostAsk::HandBack,
        Phase::Commanding => HostAsk::Command,
        Phase::Fetching { .. } => HostAsk::Load,
        Phase::Acknowledging { seq } => HostAsk::Acknowledge(seq),
        Phase::Sampling { .. } => HostAsk::Sample,
        Phase::Writing { wanted, .. } => HostAsk::SetFan(wanted),
        Phase::Pausing { .. } => HostAsk::Pause(RETRY_PAUSE),
        Phase::Surrendering => HostAsk::HandBack,
        Phase::Rescuing => HostAsk::HandBack,
        Phase::Publishing => HostAsk::Publish,
        Phase::Recording => HostAsk::Record,
    }
}

/// A count one further on, as far as it can count.
pub open spec fn more(n: u32) -> u32 {
    if n == u32::MAX {
        n
    } else {
        (n + 1) as u32
    }
}

/// The settings a file gives, where it gives any.
pub open spec fn settings_in(file: Stored) -> Option<ConfigView> {
    match file {
        Stored::Missing => Some(crate::config::validated(crate::config::fresh())),
        Stored::Unreadable(_) => None,
        Stored::Garbled(_) => None,
        Stored::Parsed(stored) => if stored@.version > crate::config::SCHEMA_VERSION
            || crate::config::refusal(crate::config::migrated(stored@)) is Some {
            None
        } else {
            Some(crate::config::validated(crate::config::migrated(stored@)))
        },
    }
}

/// How things have been going with the controller.
#[derive(Debug, Clone, Copy)]
pub struct Health {
    /// Consecutive failed passes.
    pub consecutive_faults: u32,
    /// Passes lost to something else holding the controller.
    pub contended_ticks: u32,
    /// The mode to restore once the controller behaves again, if a fault or a
    /// stall made us hand the fan to the firmware. `Some` means the user's
    /// curve is not running right now, whatever the settings say.
    pub surrendered: Option<Mode>,
    /// Good passes since surrendering, counted toward taking the curve back.
    pub clean_ticks: u32,
    /// Whether the stall handback has already run for the current stall.
    pub stalled: bool,
    /// Set when handing the fan back failed.
    pub handback_failed: bool,
    /// Set when the failures are the controller declining fan writes, not
    /// failing to answer. Cleared only by a successful pass.
    pub fan_write_declined: bool,
}

/// What is known of the machine being asleep.
#[derive(Debug, Clone, Copy)]
pub struct Standby {
    /// The last thing the system actually told us.
    pub reported: PowerState,
    /// What we believe, which is not always the same thing.
    pub power: PowerState,
    pub clock: SleepClock,
    /// Passes since the screen went off that found no sleep in them.
    pub awake_passes: u32,
    /// Whether the fan was handed to the firmware because of the power state
    /// rather than because anything went wrong.
    pub handback: bool,
    /// The mode to go back to afterwards.
    pub mode: Option<Mode>,
    /// Whether the last pass found the machine parked rather than working.
    pub parked: bool,
}

/// What the window is shown.
#[derive(Debug, Clone, Copy)]
pub struct Showing {
    /// The last pass that got through.
    pub last_good: Option<Reading>,
    /// What this pass shows, or nothing when it could read nothing.
    pub shown: Option<Reading>,
    /// Whether that is the previous reading rather than a fresh one.
    pub stale: bool,
}

impl Health {
    /// A pending recovery abandoned, the present mode left in force.
    pub open spec fn recovery_dropped(self) -> Health {
        Health { surrendered: None, clean_ticks: 0, ..self }
    }

    /// Passes lost to contention, counting this failure.
    pub open spec fn contended_with(self, f: Fault) -> u32 {
        if f.declined() || f is Busy {
            more(self.contended_ticks)
        } else {
            self.contended_ticks
        }
    }

    /// Failed passes in a row, counting this one. Contention does not count
    /// until it has gone on too long to be somebody else's turn.
    pub open spec fn faults_with(self, f: Fault) -> u32 {
        if !(f.declined() || f is Busy) || self.contended_with(f) >= MAX_CONTENDED {
            more(self.consecutive_faults)
        } else {
            self.consecutive_faults
        }
    }

    /// Whether this failure makes the host give the fan up: on every so many
    /// in a row, unless a stop is about to do it anyway.
    pub open spec fn surrenders(self, f: Fault, stopping: bool) -> bool {
        self.faults_with(f) > 0 && self.faults_with(f) % MAX_FAULTS == 0 && !stopping
    }

    /// The counts with this failure among them. Progress toward recovery is
    /// lost on any failure.
    pub open spec fn with_failure(self, f: Fault) -> Health {
        Health {
            consecutive_faults: self.faults_with(f),
            contended_ticks: self.contended_with(f),
            fan_write_declined: self.fan_write_declined || f.declined(),
            clean_ticks: 0,
            ..self
        }
    }

    /// What to come back to noted, once.
    pub open spec fn with_surrender(self, mode: Mode) -> Health {
        Health {
            surrendered: match self.surrendered {
                Some(noted) => Some(noted),
                None => Some(mode),
            },
            ..self
        }
    }

    /// Whether a pass that got through completes a recovery.
    pub open spec fn recovers(self) -> bool {
        self.surrendered is Some && more(self.clean_ticks) >= CLEAN_TICKS_TO_RECOVER
    }

    /// The counts once a pass got through. Only a fan seen in the firmware's
    /// hands ends the failed-handback warning.
    pub open spec fn with_success(self, bios_controlled: bool) -> Health {
        let well = Health {
            consecutive_faults: 0,
            contended_ticks: 0,
            fan_write_declined: false,
            handback_failed: self.handback_failed && !bios_controlled,
            ..self
        };
        if self.recovers() {
            well.recovery_dropped()
        } else if self.surrendered is Some {
            Health { clean_ticks: more(self.clean_ticks), ..well }
        } else {
            well
        }
    }
}

impl Standby {
    /// The system's word, taken. The next pass measures sleep from here, and
    /// a suspend is the one state that needs no measuring.
    pub open spec fn told(self, power: PowerState) -> Standby {
        Standby {
            reported: power,
            power,
            awake_passes: 0,
            parked: power == PowerState::Suspended,
            clock: SleepClock { last: None },
            ..self
        }
    }

    /// The fan given up. The first handback of an episode notes what to go
    /// back to.
    pub open spec fn given_up(self, mode: Mode) -> Standby {
        Standby {
            mode: if self.handback {
                self.mode
            } else {
                Some(mode)
            },
            handback: true,
            ..self
        }
    }

    /// Whether to poll at the slower standby rate.
    pub open spec fn backs_off(self) -> bool {
        match self.power {
            PowerState::Awake => false,
            PowerState::Suspended => true,
            PowerState::ScreenOff => self.parked,
        }
    }

    /// What is known once the clocks have been looked at, and say the machine
    /// slept or that it did not.
    pub open spec fn looked(self, clocks: Option<(u64, u64)>, parked: bool) -> Standby {
        let seen = Standby { clock: self.clock.looked_at(clocks), ..self };
        if self.power == PowerState::Suspended {
            seen
        } else if parked {
            Standby { power: PowerState::ScreenOff, awake_passes: 0, parked: true, ..seen }
        } else if self.power == PowerState::ScreenOff {
            Standby { parked: false, awake_passes: more(self.awake_passes), ..seen }
        } else {
            Standby { parked: false, ..seen }
        }
    }
}

/// Nothing has gone wrong yet.
pub open spec fn untroubled() -> Health {
    Health {
        consecutive_faults: 0,
        contended_ticks: 0,
        surrendered: None,
        clean_ticks: 0,
        stalled: false,
        handback_failed: false,
        fan_write_declined: false,
    }
}

/// A machine nobody has said anything about is awake.
pub open spec fn awake() -> Standby {
    Standby {
        reported: PowerState::Awake,
        power: PowerState::Awake,
        clock: SleepClock { last: None },
        awake_passes: 0,
        handback: false,
        mode: None,
        parked: false,
    }
}

/// The engine host, mathematically.
pub ghost struct HostView {
    pub engine: EngineView,
    pub config: ConfigView,
    /// The controller, as much of it as has to be remembered.
    pub ec: Ec,
    pub health: Health,
    pub standby: Standby,
    pub showing: Showing,
    /// When the settings file was last seen changing.
    pub stamp: Option<u64>,
    pub phase: Phase,
}

impl HostView {
    /// The engine told a mode.
    pub open spec fn instructed(self, mode: Mode) -> HostView {
        HostView { engine: self.engine.instructed(mode), ..self }
    }

    /// The fan given up because of the power state. A recovery still pending
    /// knows what to go back to better than the present mode does, and is
    /// taken over rather than left running alongside.
    #[verifier::opaque]
    pub open spec fn stood_down(self) -> HostView {
        HostView {
            engine: self.engine.instructed(Mode::Bios),
            standby: self.standby.given_up(
                match self.health.surrendered {
                    Some(mode) => mode,
                    None => self.engine.mode,
                },
            ),
            health: self.health.recovery_dropped(),
            ..self
        }
    }

    /// A standby handback undone, where there was one: the mode from before
    /// it comes back.
    #[verifier::opaque]
    pub open spec fn stood_up(self) -> HostView {
        if !self.standby.handback {
            self
        } else {
            HostView {
                engine: self.engine.instructed(
                    match self.standby.mode {
                        Some(mode) => mode,
                        None => crate::config::starting_mode(self.config.startup_mode),
                    },
                ),
                standby: Standby { handback: false, mode: None, ..self.standby },
                health: Health { handback_failed: false, ..self.health },
                ..self
            }
        }
    }

    /// The system said something new about the power.
    pub open spec fn powered(self, power: PowerState) -> HostView {
        if self.standby.reported == power {
            self
        } else if power == PowerState::Awake {
            (HostView {
                standby: self.standby.told(power),
                health: self.health.recovery_dropped(),
                ..self
            }).stood_up()
        } else {
            (HostView { standby: self.standby.told(power), ..self }).stood_down()
        }
    }

    /// Seconds between passes.
    pub open spec fn interval(self) -> u32 {
        if self.standby.backs_off() {
            self.config.standby_poll_secs
        } else {
            self.config.poll_secs
        }
    }

    /// How much sleep in one interval, in nanoseconds, means the machine was
    /// parked: a quarter of it, and never less than the floor.
    pub open spec fn parked_threshold(self) -> int {
        let quarter = self.interval() * 250_000_000;
        if quarter < PARKED_FLOOR {
            PARKED_FLOOR as int
        } else {
            quarter
        }
    }

    /// Whether the time since the last pass, by these clocks, was spent
    /// parked.
    pub open spec fn was_parked(self, clocks: Option<(u64, u64)>) -> bool {
        slept(self.standby.clock.last, clocks) >= self.parked_threshold()
    }

    /// Whether these clocks make the host give the fan up.
    pub open spec fn stands_down(self, clocks: Option<(u64, u64)>) -> bool {
        self.standby.power != PowerState::Suspended && self.was_parked(clocks)
            && !self.standby.handback
    }

    /// Whether these clocks make the host take the fan back: enough working
    /// passes in a row, and no trouble holding the fan in firmware mode.
    pub open spec fn stands_up(self, clocks: Option<(u64, u64)>) -> bool {
        self.standby.power == PowerState::ScreenOff && !self.was_parked(clocks) && more(
            self.standby.awake_passes,
        ) >= AWAKE_PASSES_TO_RESUME && self.standby.handback && self.health.surrendered is None
    }

    /// The state once a pass has looked at the clocks: one parked pass gives
    /// the fan up, several working ones in a row earn it back.
    #[verifier::opaque]
    pub open spec fn reconsidered(self, clocks: Option<(u64, u64)>) -> HostView {
        let looked = HostView {
            standby: self.standby.looked(clocks, self.was_parked(clocks)),
            ..self
        };
        if self.stands_down(clocks) {
            looked.stood_down()
        } else if self.stands_up(clocks) {
            looked.stood_up()
        } else {
            looked
        }
    }

    /// The engine following a profile's curve, where the profile stores one.
    #[verifier::opaque]
    pub open spec fn following(self, profile: ProfileView) -> HostView {
        if profile.fault() is None {
            HostView {
                engine: EngineView {
                    curve: crate::config::curve_points(profile.points),
                    step: None,
                    ..self.engine
                },
                ..self
            }
        } else {
            self
        }
    }

    /// The state once changed settings have been taken over. The profile that
    /// is running stays the one running, as long as it still exists.
    #[verifier::opaque]
    pub open spec fn reloaded(self, c: ConfigView) -> HostView {
        let config = if crate::config::has_profile(c.profiles, self.config.active_profile) {
            ConfigView { active_profile: self.config.active_profile, ..c }
        } else {
            c
        };
        (HostView {
            engine: EngineView {
                ignored_sensors: c.ignored_sensors,
                watchdog: (c.watchdog_secs * 1000) as u64,
                manual_escape: c.manual_escape_c,
                ..self.engine
            },
            ec: Ec { single_fan: c.single_fan, ..self.ec },
            config,
            ..self
        }).following(config.active())
    }

    /// Whether a command names a profile that is not among ours.
    pub open spec fn knows_not(self, wanted: Seq<char>) -> bool {
        wanted.len() > 0 && wanted != self.config.active_profile && !crate::config::has_profile(
            self.config.profiles,
            wanted,
        )
    }

    /// A profile we have switched to, and one we do not have ignored.
    #[verifier::opaque]
    pub open spec fn switched(self, wanted: Seq<char>) -> HostView {
        if wanted.len() > 0 && wanted != self.config.active_profile && crate::config::has_profile(
            self.config.profiles,
            wanted,
        ) {
            let config = ConfigView { active_profile: wanted, ..self.config };
            (HostView { config, ..self }).following(config.active())
        } else {
            self
        }
    }

    /// A mode deliberately chosen. It outranks a recovery still pending, a
    /// standby handback, and the failed-handback warning.
    #[verifier::opaque]
    pub open spec fn chosen(self, mode: Mode) -> HostView {
        HostView {
            engine: self.engine.instructed(mode),
            standby: Standby { handback: false, mode: None, ..self.standby },
            health: Health { handback_failed: false, ..self.health.recovery_dropped() },
            ..self
        }
    }

    /// The state once a command has been acted on: first the profile it
    /// names, then the mode, where it says anything about one.
    #[verifier::opaque]
    pub open spec fn commanded(self, cmd: SharedView) -> HostView {
        let switched = self.switched(crate::ipc::name_of(cmd.cmd_profile));
        if cmd.cmd_mode == MODE_KEEP {
            switched
        } else {
            switched.chosen(asked_mode(cmd.cmd_mode, cmd.cmd_level))
        }
    }

    /// The profiles a fresh reading of the file brings, taken over where the
    /// one that is wanted is among them.
    #[verifier::opaque]
    pub open spec fn fetched(self, c: Option<ConfigView>, wanted: Seq<char>) -> HostView {
        match c {
            Some(c) => if crate::config::has_profile(c.profiles, wanted) {
                HostView { config: ConfigView { profiles: c.profiles, ..self.config }, ..self }
            } else {
                self
            },
            None => self,
        }
    }

    /// The engine's memory once what it wanted has been applied.
    pub open spec fn applied(self, wanted: u8, now: u64) -> HostView {
        HostView {
            engine: EngineView { applied: Some(wanted), last_decision: now, ..self.engine },
            ..self
        }
    }

    /// The state once the controller has been read and, where that was
    /// needed, written. Good passes in a row take a surrendered curve back.
    #[verifier::opaque]
    pub open spec fn passed(self, t: Tick) -> HostView {
        HostView {
            engine: match self.health.surrendered {
                Some(mode) if self.health.recovers() => self.engine.instructed(mode),
                _ => self.engine,
            },
            health: self.health.with_success(t.state@.bios_controlled()),
            showing: Showing {
                last_good: Some(reading_of(t)),
                shown: Some(reading_of(t)),
                stale: false,
            },
            ..self
        }
    }

    /// The fan given up because of trouble.
    #[verifier::opaque]
    pub open spec fn surrendering(self) -> HostView {
        HostView {
            engine: self.engine.instructed(Mode::Bios),
            health: self.health.with_surrender(self.engine.mode),
            ..self
        }
    }

    /// The state once a pass has failed. While it is only somebody else's
    /// turn, the last good reading stands.
    #[verifier::opaque]
    pub open spec fn failed(self, f: Fault, stopping: bool) -> HostView {
        let shown = if self.health.faults_with(f) == 0 {
            self.showing.last_good
        } else {
            None
        };
        let counted = HostView {
            health: self.health.with_failure(f),
            showing: Showing { shown, stale: shown is Some, ..self.showing },
            ..self
        };
        if self.health.surrenders(f, stopping) {
            counted.surrendering()
        } else {
            counted
        }
    }

    /// Whether a stall makes the host give the fan up: once per stall, unless
    /// a stop is about to do it anyway.
    pub open spec fn rescues(self, now: u64, stopping: bool) -> bool {
        self.engine.stalled(now) && !self.health.stalled && !stopping
    }

    /// The state once a pass has looked for a stall.
    #[verifier::opaque]
    pub open spec fn watched(self, now: u64, stopping: bool) -> HostView {
        if self.rescues(now, stopping) {
            (HostView { health: Health { stalled: true, ..self.health }, ..self }).surrendering()
        } else if !self.engine.stalled(now) {
            HostView { health: Health { stalled: false, ..self.health }, ..self }
        } else {
            self
        }
    }

    /// How a handback came out, noted.
    pub open spec fn noted(self, released: Result<(), Fault>) -> HostView {
        HostView { health: Health { handback_failed: released is Err, ..self.health }, ..self }
    }

    /// The same, waiting to hear something else.
    pub open spec fn at(self, phase: Phase) -> HostView {
        HostView { phase, ..self }
    }

    /// A pass past its look at the controller: the stall watch comes next.
    pub open spec fn to_the_watch(self, now: u64, stopping: bool) -> HostView {
        self.watched(now, stopping).at(
            if self.rescues(now, stopping) {
                Phase::Rescuing
            } else {
                Phase::Publishing
            },
        )
    }

    /// A try at the controller that failed: another one after a pause, or the
    /// pass has failed.
    #[verifier::opaque]
    pub open spec fn tried(self, f: Fault, tries: u8, stopping: bool, now: u64) -> HostView {
        if tries < PASS_RETRIES && !stopping {
            self.at(Phase::Pausing { tries: (tries + 1) as u8 })
        } else if self.health.surrenders(f, stopping) {
            self.failed(f, stopping).at(Phase::Surrendering)
        } else {
            self.failed(f, stopping).to_the_watch(now, stopping)
        }
    }

    /// The state once the controller has been sampled.
    #[verifier::opaque]
    pub open spec fn sampled(
        self,
        sampled: Result<EcState, Fault>,
        tries: u8,
        stopping: bool,
        now: u64,
    ) -> HostView {
        match sampled {
            Ok(state) => {
                let hottest = state@.hottest(self.engine.ignored_sensors);
                let wanted = self.engine.wanted(hottest);
                let decided = HostView { engine: self.engine.decided(hottest), ..self };
                if self.engine.must_write(state@, wanted) {
                    decided.at(Phase::Writing { state, hottest, wanted, tries })
                } else {
                    decided.applied(wanted, now).passed(
                        Tick { state, hottest, applied: wanted, changed: false },
                    ).to_the_watch(now, stopping)
                }
            },
            Err(f) => self.tried(f, tries, stopping, now),
        }
    }

    /// A pass, one thing heard further on. `stopping` is whether a stop is
    /// pending, and `now` the time, in milliseconds. Anything a pass did not
    /// ask for leaves it where it is.
    pub open spec fn after(self, heard: HostHeard, stopping: bool, now: u64) -> HostView {
        match (self.phase, heard) {
            (Phase::Idle, HostHeard::Ready) => self.at(Phase::Stamping),
            (Phase::Stamping, HostHeard::Stamped(stamp)) => if stamp is None || stamp
                == self.stamp {
                self.at(Phase::Timing)
            } else {
                (HostView { stamp, ..self }).at(Phase::Loading)
            },
            (Phase::Loading, HostHeard::Loaded(file)) => match settings_in(file) {
                Some(c) => self.reloaded(c).at(Phase::Timing),
                None => self.at(Phase::Timing),
            },
            (Phase::Timing, HostHeard::Clocks(clocks)) => self.reconsidered(clocks).at(
                if self.stands_down(clocks) {
                    Phase::StandingBy
                } else {
                    Phase::Commanding
                },
            ),
            (Phase::StandingBy, HostHeard::HandedBack(released)) => self.noted(released).at(
                Phase::Commanding,
            ),
            (Phase::Commanding, HostHeard::Command(shared)) => match shared@.pending() {
                None => self.at(Phase::Sampling { tries: 0 }),
                Some(seq) => if self.knows_not(crate::ipc::name_of(shared@.cmd_profile)) {
                    self.at(Phase::Fetching { shared, seq })
                } else {
                    self.commanded(shared@).at(Phase::Acknowledging { seq })
                },
            },
            (Phase::Fetching { shared, seq }, HostHeard::Loaded(file)) => self.fetched(
                settings_in(file),
                crate::ipc::name_of(shared@.cmd_profile),
            ).commanded(shared@).at(Phase::Acknowledging { seq }),
            (Phase::Acknowledging { .. }, HostHeard::Ready) => self.at(
                Phase::Sampling { tries: 0 },
            ),
            (Phase::Sampling { tries }, HostHeard::Sampled(sampled)) => self.sampled(
                sampled,
                tries,
                stopping,
                now,
            ),
            (Phase::Writing { state, hottest, wanted, tries }, HostHeard::Wrote(wrote)) =>
                match wrote {
                    Ok(_) => self.applied(wanted, now).passed(
                        Tick { state, hottest, applied: wanted, changed: true },
                    ).to_the_watch(now, stopping),
                    Err(f) => self.tried(f, tries, stopping, now),
                },
            (Phase::Pausing { tries }, HostHeard::Ready) => self.at(Phase::Sampling { tries }),
            (Phase::Surrendering, HostHeard::HandedBack(released)) => self.noted(
                released,
            ).to_the_watch(now, stopping),
            (Phase::Rescuing, HostHeard::HandedBack(released)) => self.noted(released).at(
                Phase::Publishing,
            ),
            (Phase::Publishing, HostHeard::Ready) => self.at(Phase::Recording),
            (Phase::Recording, HostHeard::Ready) => self.at(Phase::Idle),
            _ => self,
        }
    }

    /// The trouble flag a window watches.
    pub open spec fn troubled(self) -> bool {
        self.showing.shown is None || self.health.handback_failed
            || self.health.surrendered is Some
    }
}

/// The engine host: the engine, the settings it runs, and everything it
/// remembers about how things have been going.
pub struct Host {
    engine: Engine,
    ec: Ec,
    config: Config,
    health: Health,
    standby: Standby,
    showing: Showing,
    config_stamp: Option<u64>,
    phase: Phase,
}

impl View for Host {
    type V = HostView;

    closed spec fn view(&self) -> HostView {
        HostView {
            engine: self.engine@,
            config: self.config@,
            ec: self.ec,
            health: self.health,
            standby: self.standby,
            showing: self.showing,
            stamp: self.config_stamp,
            phase: self.phase,
        }
    }
}

/// A count one further on, as far as it can count.
fn one_more(n: u32) -> (r: u32)
    ensures
        r == more(n),
{
    if n == u32::MAX {
        n
    } else {
        n + 1
    }
}

/// A copy of a list of sensors.
fn copy_places(places: &Vec<usize>) -> (r: Vec<usize>)
    ensures
        r@ == places@,
{
    let r = places.clone();
    proof {
        assert(r@ =~= places@);
    }
    r
}

/// The settings a file gives, where it gives any.
fn load_settings(file: Stored) -> (r: Option<Config>)
    ensures
        match r {
            Some(c) => settings_in(file) == Some(c@) && c@.profiles.len() > 0,
            None => settings_in(file) is None,
        },
{
    match Config::load(file) {
        Ok(c) => Some(c),
        Err(_) => None,
    }
}

/// What the outside has to be asked before there is an engine.
#[derive(Debug, Clone, Copy)]
pub enum Starting {
    /// Claim the engine lock.
    Claim,
    /// Publish the shared block.
    Share,
    /// Open the controller.
    Open,
    /// Give up, and say why.
    Refused(&'static str),
}

/// What becoming the engine asks next, given how it went so far.
///
/// Order matters. The shared block is published before the port driver is
/// opened, so a window starting alongside has something to attach to at once,
/// and nothing is touched before the lock is ours.
pub open spec fn starting(went: Seq<bool>) -> Starting {
    if went.len() == 0 {
        Starting::Claim
    } else if !went[0] {
        Starting::Refused("another instance already owns the fan")
    } else if went.len() == 1 {
        Starting::Share
    } else if !went[1] {
        Starting::Refused("could not publish the shared state")
    } else {
        Starting::Open
    }
}

/// What becoming the engine asks next, given how it went so far.
pub fn next_to_start(went: &Vec<bool>) -> (r: Starting)
    ensures
        r == starting(went@),
{
    if went.len() == 0 {
        Starting::Claim
    } else if !went[0] {
        Starting::Refused("another instance already owns the fan")
    } else if went.len() == 1 {
        Starting::Share
    } else if !went[1] {
        Starting::Refused("could not publish the shared state")
    } else {
        Starting::Open
    }
}

/// How the controller is opened.
#[derive(Debug, Clone, Copy, PartialEq, Eq, Structural)]
pub enum Finding {
    /// Drive this layout because the settings say so, probing nothing.
    Configured(Layout),
    /// Probe both layouts.
    Probe,
}

/// How the controller is opened, with these settings.
///
/// Both layouts are probed only while the settings have no answer. Probing is
/// a hardware interaction, and it has no business happening on every boot of a
/// machine that answered the question at its first one.
pub open spec fn finding(layout: Option<EcLayout>) -> Finding {
    match layout {
        Some(l) => Finding::Configured(crate::config::driven(l)),
        None => Finding::Probe,
    }
}

/// How the controller is opened, with these settings.
pub fn how_to_open(config: &Config) -> (r: Finding)
    ensures
        r == finding(config@.ec_layout),
{
    match config.ec_layout {
        Some(l) => Finding::Configured(Layout::from(l)),
        None => Finding::Probe,
    }
}

/// Takes a controller's layout into the settings, where nothing is there yet
/// and the evidence is good enough to become every later boot's answer.
/// Returns whether the settings now have something to write down.
pub fn record_layout(config: &mut Config, ec: &Ec) -> (r: bool)
    ensures
        r == (old(config)@.ec_layout is None && ec.recordable()),
        r ==> final(config)@ == (ConfigView {
            ec_layout: Some(crate::config::recorded(ec.layout)),
            ..old(config)@
        }),
        !r ==> *final(config) == *old(config),
{
    if config.ec_layout.is_none() && ec.worth_recording() {
        config.ec_layout = Some(EcLayout::from(ec.layout()));
        true
    } else {
        false
    }
}

/// Once a layout has been recorded, every later start drives that layout, and
/// none of them probes.
pub proof fn a_recorded_layout_is_not_probed_again(before: ConfigView, ec: Ec)
    requires
        before.ec_layout is None,
        ec.recordable(),
    ensures
        finding(before.ec_layout) == Finding::Probe,
        finding(
            (ConfigView { ec_layout: Some(crate::config::recorded(ec.layout)), ..before }).ec_layout,
        ) == Finding::Configured(ec.layout),
{
}

impl Host {
    /// Becomes the engine, on a controller that is open.
    pub fn start(config: Config, ec: Ec, stamp: Option<u64>, now: u64) -> (r: Result<
        Self,
        ConfigError,
    >)
        requires
            config@.profiles.len() > 0,
        ensures
            match config@.active().fault() {
                None => r matches Ok(host) && host@ == (HostView {
                    engine: EngineView {
                        curve: crate::config::curve_points(config@.active().points),
                        mode: crate::config::starting_mode(config@.startup_mode),
                        ignored_sensors: config@.ignored_sensors,
                        step: None,
                        applied: None,
                        last_decision: now,
                        watchdog: (config@.watchdog_secs * 1000) as u64,
                        manual_escape: config@.manual_escape_c,
                        manual_escaped: false,
                    },
                    config: config@,
                    ec: Ec { single_fan: config@.single_fan, ..ec },
                    health: untroubled(),
                    standby: awake(),
                    showing: Showing { last_good: None, shown: None, stale: false },
                    stamp,
                    phase: Phase::Idle,
                }),
                Some(source) => r matches Err(e) && e@
                    == (crate::config::ConfigErrorView::Curve {
                    profile: config@.active().name,
                    source,
                }),
            },
    {
        let curve = match config.active_curve() {
            Ok(curve) => curve,
            Err(e) => {
                return Err(e);
            },
        };
        let mut engine = Engine::new(curve, now);
        engine.set_mode(Mode::from(config.startup_mode));
        engine.set_ignored_sensors(copy_places(&config.ignored_sensors));
        engine.set_watchdog(config.watchdog_secs as u64 * 1000);
        engine.set_manual_escape(config.manual_escape_c);
        let mut ec = ec;
        ec.set_single_fan(config.single_fan);
        Ok(
            Host {
                engine,
                ec,
                config,
                health: Health {
                    consecutive_faults: 0,
                    contended_ticks: 0,
                    surrendered: None,
                    clean_ticks: 0,
                    stalled: false,
                    handback_failed: false,
                    fan_write_declined: false,
                },
                standby: Standby {
                    reported: PowerState::Awake,
                    power: PowerState::Awake,
                    clock: SleepClock::new(),
                    awake_passes: 0,
                    handback: false,
                    mode: None,
                    parked: false,
                },
                showing: Showing { last_good: None, shown: None, stale: false },
                config_stamp: stamp,
                phase: Phase::Idle,
            },
        )
    }

    /// The controller, for sampling it and setting its fan.
    pub fn ec(&self) -> (r: &Ec)
        ensures
            *r == self@.ec,
    {
        &self.ec
    }

    /// Notes that the controller's module has been set up.
    pub fn set_prepared(&mut self)
        ensures
            final(self)@ == (HostView { ec: Ec { prepared: true, ..old(self)@.ec }, ..old(self)@ }),
    {
        self.ec.set_prepared();
    }

    /// The profile being run.
    pub fn active_profile(&self) -> (r: &str)
        ensures
            r@ == self@.config.active_profile,
    {
        self.config.active_profile.as_str()
    }

    /// Tells the host the screen went off, the machine suspended, or it woke.
    /// Returns whether the fan has to be handed to the firmware, now.
    pub fn set_power_state(&mut self, power: PowerState) -> (r: bool)
        ensures
            final(self)@ == old(self)@.powered(power),
            r == (old(self)@.standby.reported != power && power != PowerState::Awake),
    {
        if self.standby.reported == power {
            return false;
        }
        self.standby.reported = power;
        self.standby.power = power;
        self.standby.awake_passes = 0;
        // A fresh state is a fresh question. Suspended is the one answer that
        // arrived with the notification rather than being worked out.
        self.standby.parked = power == PowerState::Suspended;
        // The next pass measures from here rather than across whatever just
        // happened, so a resume does not read as sleep the moment it lands.
        self.standby.clock.forget();
        if power == PowerState::Awake {
            self.clear_surrender();
            self.take_the_fan_back_from_standby();
            false
        } else {
            self.hand_to_firmware_for_standby();
            true
        }
    }

    /// Takes note of how a handback came out.
    pub fn handed_back(&mut self, released: Result<(), Fault>)
        ensures
            final(self)@ == old(self)@.noted(released),
    {
        self.health.handback_failed = match released {
            Ok(_) => false,
            Err(_) => true,
        };
    }

    /// Gives the fan back because of the power state, not because of a fault.
    fn hand_to_firmware_for_standby(&mut self)
        ensures
            final(self)@ == old(self)@.stood_down(),
    {
        proof {
            reveal(HostView::stood_down);
        }
        // Only the first handback of an episode records a mode, and a pending
        // fault recovery knows better than the current mode does.
        if !self.standby.handback {
            self.standby.mode = match self.health.surrendered {
                Some(mode) => Some(mode),
                None => Some(*self.engine.mode()),
            };
        }
        // Taken over, not left running alongside: a recovery left pending
        // would restore a manual level onto a laptop shut in a bag.
        self.clear_surrender();
        self.standby.handback = true;
        self.engine.set_mode(Mode::Bios);
    }

    /// Decides, once a pass, whether the machine is actually working. Returns
    /// whether the fan has to be handed to the firmware, now.
    fn reconsider_standby(&mut self, clocks: Option<(u64, u64)>) -> (r: bool)
        ensures
            final(self)@ == old(self)@.reconsidered(clocks),
            r == old(self)@.stands_down(clocks),
    {
        proof {
            reveal(HostView::reconsidered);
        }
        let threshold = self.parked_threshold();
        // Sampled on every pass whatever the state, so the interval this
        // reads is always the one since the last pass.
        let slept = self.standby.clock.slept_since_last_pass(clocks);
        // Suspended is not in question. The system said so, and only the
        // system gets to say otherwise.
        if self.standby.power == PowerState::Suspended {
            return false;
        }
        if slept >= threshold {
            // The clocks outrank the notification, including when there was
            // no notification.
            self.standby.power = PowerState::ScreenOff;
            self.standby.awake_passes = 0;
            self.standby.parked = true;
            if !self.standby.handback {
                self.hand_to_firmware_for_standby();
                return true;
            }
            return false;
        }
        self.standby.parked = false;
        // Only a machine that gave the fan up has to earn it back.
        if self.standby.power != PowerState::ScreenOff {
            return false;
        }
        self.standby.awake_passes = one_more(self.standby.awake_passes);
        // Not while a fault or a stall is holding the fan in firmware mode.
        // That handback has its own recovery, on its own evidence.
        if self.standby.awake_passes >= AWAKE_PASSES_TO_RESUME && self.standby.handback
            && self.health.surrendered.is_none() {
            self.take_the_fan_back_from_standby();
        }
        false
    }

    /// Undoes a standby handback, restoring whatever mode was in force before.
    fn take_the_fan_back_from_standby(&mut self)
        ensures
            final(self)@ == old(self)@.stood_up(),
    {
        proof {
            reveal(HostView::stood_up);
        }
        if !self.standby.handback {
            return ;
        }
        self.standby.handback = false;
        let mode = match self.standby.mode {
            Some(mode) => mode,
            None => Mode::from(self.config.startup_mode),
        };
        self.standby.mode = None;
        // Whatever the last handback did, this is a deliberate decision to
        // manage the fan again.
        self.health.handback_failed = false;
        self.engine.set_mode(mode);
    }

    /// How much sleep in one interval, in nanoseconds, means the machine was
    /// parked.
    fn parked_threshold(&self) -> (r: u64)
        ensures
            r == self@.parked_threshold(),
    {
        let quarter: u64 = self.poll_interval() * 250_000_000;
        if quarter < PARKED_FLOOR {
            PARKED_FLOOR
        } else {
            quarter
        }
    }

    /// Seconds between passes.
    pub fn poll_interval(&self) -> (r: u64)
        ensures
            r == self@.interval(),
    {
        self.config.poll_interval(self.backed_off())
    }

    /// Whether to poll at the slower standby rate.
    fn backed_off(&self) -> (r: bool)
        ensures
            r == self@.standby.backs_off(),
    {
        match self.standby.power {
            PowerState::Awake => false,
            PowerState::Suspended => true,
            PowerState::ScreenOff => self.standby.parked,
        }
    }

    /// Whether a window has asked for something that has not been acted on.
    pub fn command_waiting(&self, shared: &Shared) -> (r: bool)
        ensures
            r == (shared@.pending() is Some),
    {
        shared.pending_command().is_some()
    }

    /// Abandons a pending recovery, leaving the current mode in force.
    fn clear_surrender(&mut self)
        ensures
            final(self)@ == (HostView { health: old(self)@.health.recovery_dropped(), ..old(self)@ }),
    {
        self.health.surrendered = None;
        self.health.clean_ticks = 0;
    }

    /// Follows the active profile's curve, where it stores one.
    fn follow_active(&mut self)
        requires
            old(self)@.config.profiles.len() > 0,
        ensures
            final(self)@ == old(self)@.following(old(self)@.config.active()),
    {
        proof {
            reveal(HostView::following);
        }
        match self.config.active_curve() {
            Ok(curve) => {
                self.engine.set_curve(curve);
            },
            Err(_) => {},
        }
    }

    /// Takes over settings that changed on disk.
    ///
    /// Keeps the profile the user picked from the tray. It lives only in
    /// memory, so taking the file's copy would silently revert their choice
    /// the next time anything saved.
    fn reload(&mut self, config: Config)
        requires
            config@.profiles.len() > 0,
        ensures
            final(self)@ == old(self)@.reloaded(config@),
    {
        proof {
            reveal(HostView::reloaded);
        }
        let ghost told = config@;
        let running = self.config.active_profile.clone();
        let kept = find_profile(&config.profiles, running.as_str()).is_some();
        proof {
            crate::config::a_taken_name_has_a_place(config@.profiles, running@, 0);
        }
        self.engine.set_watchdog(config.watchdog_secs as u64 * 1000);
        self.engine.set_manual_escape(config.manual_escape_c);
        self.engine.set_ignored_sensors(copy_places(&config.ignored_sensors));
        self.ec.set_single_fan(config.single_fan);
        self.config = config;
        if kept {
            self.config.active_profile = running;
        }
        self.follow_active();
    }

    /// Switches to a profile, where there is one of that name.
    fn switch_profile(&mut self, wanted: String)
        ensures
            final(self)@ == old(self)@.switched(wanted@),
    {
        proof {
            reveal(HostView::switched);
        }
        proof {
            crate::config::a_taken_name_has_a_place(self@.config.profiles, wanted@, 0);
        }
        if !wanted.as_str().is_empty() && wanted != self.config.active_profile && find_profile(
            &self.config.profiles,
            wanted.as_str(),
        ).is_some() {
            self.config.active_profile = wanted;
            self.follow_active();
        }
    }

    /// Takes a mode that was deliberately chosen.
    fn take_mode(&mut self, mode: Mode)
        ensures
            final(self)@ == old(self)@.chosen(mode),
    {
        proof {
            reveal(HostView::chosen);
        }
        self.clear_surrender();
        self.standby.handback = false;
        self.standby.mode = None;
        self.health.handback_failed = false;
        self.engine.set_mode(mode);
    }

    /// Acts on a posted command.
    fn apply_command(&mut self, shared: &Shared)
        ensures
            final(self)@ == old(self)@.commanded(shared@),
    {
        proof {
            reveal(HostView::commanded);
        }
        // A profile switch reloads the curve. An unknown name is ignored
        // rather than guessed at.
        self.switch_profile(shared.read_cmd_profile());
        // A profile-only command stops here: no mode decision was made, so
        // none of the things that follow from one should happen either.
        if shared.cmd_mode != MODE_KEEP {
            self.take_mode(mode_asked(shared.cmd_mode, shared.cmd_level));
        }
    }

    /// Takes over the profiles a fresh reading of the file brings, where the
    /// one that is wanted is among them.
    fn fetch(&mut self, file: Stored, wanted: &str)
        ensures
            final(self)@ == old(self)@.fetched(settings_in(file), wanted@),
    {
        proof {
            reveal(HostView::fetched);
        }
        if let Some(config) = load_settings(file) {
            proof {
                crate::config::a_taken_name_has_a_place(config@.profiles, wanted@, 0);
            }
            if find_profile(&config.profiles, wanted).is_some() {
                self.config.profiles = config.profiles;
            }
        }
    }

    /// Takes a pass that got through into account.
    fn pass_well(&mut self, t: &Tick)
        ensures
            final(self)@ == old(self)@.passed(*t),
    {
        proof {
            reveal(HostView::passed);
        }
        self.health.consecutive_faults = 0;
        self.health.fan_write_declined = false;
        // Healthy again. Take the curve back after a few good passes rather
        // than sulking in firmware mode until someone reboots.
        if let Some(mode) = self.health.surrendered {
            self.health.clean_ticks = one_more(self.health.clean_ticks);
            if self.health.clean_ticks >= CLEAN_TICKS_TO_RECOVER {
                self.engine.set_mode(mode);
                self.health.surrendered = None;
                self.health.clean_ticks = 0;
            }
        }
        // Only on evidence. A successful pass proves we can talk to the
        // controller, not that the fan came back.
        if t.state.is_bios_controlled() {
            self.health.handback_failed = false;
        }
        self.health.contended_ticks = 0;
        let reading = Reading {
            fan_ctrl: t.applied,
            hottest: t.hottest,
            fan_rpm: t.state.fan_rpm,
            sensors: t.state.sensors,
        };
        self.showing.last_good = Some(reading);
        self.showing.shown = Some(reading);
        self.showing.stale = false;
    }

    /// Takes a pass that failed into account. Returns whether the fan has to
    /// be handed to the firmware, now.
    fn pass_badly(&mut self, f: &Fault, stopping: bool) -> (r: bool)
        ensures
            final(self)@ == old(self)@.failed(*f, stopping),
            r == old(self)@.health.surrenders(*f, stopping),
    {
        proof {
            reveal(HostView::failed);
            reveal(HostView::surrendering);
        }
        // A refused write is different trouble from a controller that has
        // gone quiet: our level did not take, so somebody is managing the
        // fan, and outlasting them is the right answer.
        let declined = f.is_fan_write_declined();
        if declined {
            self.health.fan_write_declined = true;
        }
        if declined || f.is_contention() {
            // Bounded. Past this it has stopped being somebody else's turn.
            self.health.contended_ticks = one_more(self.health.contended_ticks);
            if self.health.contended_ticks >= MAX_CONTENDED {
                self.health.consecutive_faults = one_more(self.health.consecutive_faults);
            }
        } else {
            self.health.consecutive_faults = one_more(self.health.consecutive_faults);
        }
        // Progress toward recovery is lost on any failure.
        self.health.clean_ticks = 0;
        // A level we set is still in force with the firmware switched off,
        // and we can no longer see the controller. Give it back, on every so
        // many failures and not once: a fan left pinned has to be tried again.
        let give_up = self.health.consecutive_faults > 0 && self.health.consecutive_faults % MAX_FAULTS == 0
            && !stopping;
        if give_up {
            self.surrender();
        }
        // Somebody else's turn is not a fault to announce.
        self.showing.shown = if self.health.consecutive_faults == 0 {
            self.showing.last_good
        } else {
            None
        };
        self.showing.stale = self.showing.shown.is_some();
        give_up
    }

    /// Gives the fan up because of trouble, noting once what to come back to.
    fn surrender(&mut self)
        ensures
            final(self)@ == old(self)@.surrendering(),
    {
        proof {
            reveal(HostView::surrendering);
        }
        if self.health.surrendered.is_none() {
            self.health.surrendered = Some(*self.engine.mode());
        }
        self.engine.set_mode(Mode::Bios);
    }

    /// Goes on to the stall watch, the other way a level outlives whatever
    /// set it.
    fn watch(&mut self, now: u64, stopping: bool)
        ensures
            final(self)@ == old(self)@.to_the_watch(now, stopping),
    {
        proof {
            reveal(HostView::watched);
        }
        let stalled = self.engine.is_stalled(now);
        if stalled && !self.health.stalled && !stopping {
            self.health.stalled = true;
            self.surrender();
            self.phase = Phase::Rescuing;
        } else {
            if !stalled {
                self.health.stalled = false;
            }
            self.phase = Phase::Publishing;
        }
    }

    /// Takes a failed try into account: another one after a pause, or the
    /// pass has failed.
    fn try_failed(&mut self, f: &Fault, tries: u8, stopping: bool, now: u64)
        ensures
            final(self)@ == old(self)@.tried(*f, tries, stopping, now),
    {
        proof {
            reveal(HostView::tried);
        }
        if tries < PASS_RETRIES && !stopping {
            self.phase = Phase::Pausing { tries: tries + 1 };
        } else if self.pass_badly(f, stopping) {
            self.phase = Phase::Surrendering;
        } else {
            self.watch(now, stopping);
        }
    }

    /// Takes a sample of the controller into account.
    fn hear_sample(
        &mut self,
        sampled: Result<EcState, Fault>,
        tries: u8,
        stopping: bool,
        now: u64,
    )
        ensures
            final(self)@ == old(self)@.sampled(sampled, tries, stopping, now),
    {
        proof {
            reveal(HostView::sampled);
        }
        match self.engine.tick(sampled) {
            Ok(decision) => {
                if decision.write {
                    self.phase = Phase::Writing {
                        state: decision.state,
                        hottest: decision.hottest,
                        wanted: decision.wanted,
                        tries,
                    };
                } else {
                    match self.engine.written(&decision, Ok(decision.wanted), now) {
                        Ok(t) => {
                            self.pass_well(&t);
                            self.watch(now, stopping);
                        },
                        Err(_) => {},
                    }
                }
            },
            Err(f) => {
                self.try_failed(&f, tries, stopping, now);
            },
        }
    }

    /// One pass, one thing heard at a time: take any command, decide, publish.
    /// Returns what has to be done next.
    pub fn tick(&mut self, heard: HostHeard, stopping: bool, now: u64) -> (r: HostAsk)
        ensures
            final(self)@ == old(self)@.after(heard, stopping, now),
            r == asking(final(self)@.phase),
    {
        match (self.phase, heard) {
            (Phase::Idle, HostHeard::Ready) => {
                self.phase = Phase::Stamping;
            },
            (Phase::Stamping, HostHeard::Stamped(stamp)) => match stamp {
                Some(s) => {
                    let same = match self.config_stamp {
                        Some(was) => was == s,
                        None => false,
                    };
                    if same {
                        self.phase = Phase::Timing;
                    } else {
                        self.config_stamp = stamp;
                        self.phase = Phase::Loading;
                    }
                },
                None => {
                    self.phase = Phase::Timing;
                },
            },
            (Phase::Loading, HostHeard::Loaded(file)) => {
                // A broken file keeps the running curve rather than falling
                // back to a default that is not what anyone asked for.
                if let Some(config) = load_settings(file) {
                    self.reload(config);
                }
                self.phase = Phase::Timing;
            },
            (Phase::Timing, HostHeard::Clocks(clocks)) => {
                self.phase = if self.reconsider_standby(clocks) {
                    Phase::StandingBy
                } else {
                    Phase::Commanding
                };
            },
            (Phase::StandingBy, HostHeard::HandedBack(released)) => {
                self.handed_back(released);
                self.phase = Phase::Commanding;
            },
            (Phase::Commanding, HostHeard::Command(shared)) => match shared.pending_command() {
                None => {
                    self.phase = Phase::Sampling { tries: 0 };
                },
                Some(seq) => {
                    let wanted = shared.read_cmd_profile();
                    proof {
                        crate::config::a_taken_name_has_a_place(
                            self@.config.profiles,
                            wanted@,
                            0,
                        );
                    }
                    // Unknown can just mean newer: a profile created from the
                    // tray is saved and announced in the same breath. Reading
                    // the file again is the cheap way to be sure.
                    if !wanted.as_str().is_empty() && wanted != self.config.active_profile
                        && find_profile(&self.config.profiles, wanted.as_str()).is_none() {
                        self.phase = Phase::Fetching { shared, seq };
                    } else {
                        self.apply_command(&shared);
                        self.phase = Phase::Acknowledging { seq };
                    }
                },
            },
            (Phase::Fetching { shared, seq }, HostHeard::Loaded(file)) => {
                self.fetch(file, shared.read_cmd_profile().as_str());
                self.apply_command(&shared);
                self.phase = Phase::Acknowledging { seq };
            },
            (Phase::Acknowledging { seq: _ }, HostHeard::Ready) => {
                self.phase = Phase::Sampling { tries: 0 };
            },
            (Phase::Sampling { tries }, HostHeard::Sampled(sampled)) => {
                self.hear_sample(sampled, tries, stopping, now);
            },
            (Phase::Writing { state, hottest, wanted, tries }, HostHeard::Wrote(wrote)) => {
                let decision = Decision { state, hottest, wanted, write: true };
                match self.engine.written(&decision, wrote, now) {
                    Ok(t) => {
                        self.pass_well(&t);
                        self.watch(now, stopping);
                    },
                    Err(f) => {
                        self.try_failed(&f, tries, stopping, now);
                    },
                }
            },
            (Phase::Pausing { tries }, HostHeard::Ready) => {
                self.phase = Phase::Sampling { tries };
            },
            (Phase::Surrendering, HostHeard::HandedBack(released)) => {
                self.handed_back(released);
                self.watch(now, stopping);
            },
            (Phase::Rescuing, HostHeard::HandedBack(released)) => {
                self.handed_back(released);
                self.phase = Phase::Publishing;
            },
            (Phase::Publishing, HostHeard::Ready) => {
                self.phase = Phase::Recording;
            },
            (Phase::Recording, HostHeard::Ready) => {
                self.phase = Phase::Idle;
            },
            _ => {},
        }
        match self.phase {
            Phase::Idle => HostAsk::Done,
            Phase::Stamping => HostAsk::Stamp,
            Phase::Loading => HostAsk::Load,
            Phase::Timing => HostAsk::Clocks,
            Phase::StandingBy => HostAsk::HandBack,
            Phase::Commanding => HostAsk::Command,
            Phase::Fetching { shared: _, seq: _ } => HostAsk::Load,
            Phase::Acknowledging { seq } => HostAsk::Acknowledge(seq),
            Phase::Sampling { tries: _ } => HostAsk::Sample,
            Phase::Writing { state: _, hottest: _, wanted, tries: _ } => HostAsk::SetFan(wanted),
            Phase::Pausing { tries: _ } => HostAsk::Pause(RETRY_PAUSE),
            Phase::Surrendering => HostAsk::HandBack,
            Phase::Rescuing => HostAsk::HandBack,
            Phase::Publishing => HostAsk::Publish,
            Phase::Recording => HostAsk::Record,
        }
    }

    /// How often this host publishes, in seconds, given the power state it is
    /// in.
    pub fn publish_interval_secs(&self) -> (r: u16)
        ensures
            r == self@.interval() as int % 65536,
    {
        let secs: u32 = if self.backed_off() {
            self.config.standby_poll_secs
        } else {
            self.config.poll_secs
        };
        (secs % 65536) as u16
    }

    /// The sample to publish. A pass that could read nothing publishes blanks
    /// and the trouble flag.
    pub fn sample(&self) -> (r: Sample)
        ensures
            match self@.showing.shown {
                Some(reading) => {
                    &&& r.fan_ctrl == reading.fan_ctrl
                    &&& r.hottest == reading.hottest
                    &&& r.fan_rpm@ == reading.fan_rpm@
                    &&& r.sensors@ == reading.sensors@
                },
                None => {
                    &&& r.fan_ctrl == 0
                    &&& r.hottest is None
                    &&& r.fan_rpm@ == seq![0u16, 0u16]
                    &&& r.sensors@ == Seq::new(SENSOR_COUNT as nat, |i: int| None::<i8>)
                },
            },
            r.mode == mode_field(self@.engine.mode),
            r.fault == self@.troubled(),
            r.status == trouble(
                self@.showing.shown is None,
                self@.health.surrendered is Some,
                self@.health.handback_failed,
            ),
            r.fan_write_declined == self@.health.fan_write_declined,
            r.publish_secs == self@.interval() as int % 65536,
    {
        let reading = match self.showing.shown {
            Some(reading) => reading,
            None => Reading { fan_ctrl: 0, hottest: None, fan_rpm: [0, 0], sensors: [None; 12] },
        };
        proof {
            if self@.showing.shown is None {
                assert(reading.fan_rpm@ =~= seq![0u16, 0u16]);
                assert(reading.sensors@ =~= Seq::new(SENSOR_COUNT as nat, |i: int| None::<i8>));
            }
        }
        let fault = self.showing.shown.is_none();
        let surrendered = self.health.surrendered.is_some();
        Sample {
            fan_ctrl: reading.fan_ctrl,
            mode: match self.engine.mode() {
                Mode::Bios => MODE_BIOS,
                Mode::Smart => MODE_SMART,
                Mode::Manual(_) => MODE_MANUAL,
            },
            hottest: reading.hottest,
            fan_rpm: reading.fan_rpm,
            sensors: reading.sensors,
            fault: fault || self.health.handback_failed || surrendered,
            status: status_for(fault, surrendered, self.health.handback_failed),
            fan_write_declined: self.health.fan_write_declined,
            publish_secs: self.publish_interval_secs(),
        }
    }

    /// The line to append to the history, and the size that makes the file
    /// rotate, where a history was asked for.
    ///
    /// A pass that only showed the last reading again gets empty cells: the
    /// history repeating it as though it were measured is worse than a gap.
    pub fn record(&self) -> (r: Option<(Record<'_>, u64)>)
        ensures
            match r {
                Some((record, max_bytes)) => {
                    &&& self@.config.log_enabled
                    &&& max_bytes == self@.config.log_max_mb * 1048576
                    &&& match self@.measured() {
                        Some(reading) => {
                            &&& record.hottest == reading.hottest
                            &&& record.applied == Some(reading.fan_ctrl)
                            &&& record.fan_rpm == Some(reading.fan_rpm)
                        },
                        None => {
                            &&& record.hottest is None
                            &&& record.applied is None
                            &&& record.fan_rpm is None
                        },
                    }
                    &&& record.mode@ == mode_word(self@.engine.mode)
                    &&& record.profile@ == self@.config.active_profile
                },
                None => !self@.config.log_enabled,
            },
    {
        if !self.config.log_enabled {
            return None;
        }
        let reading = if self.showing.stale {
            None
        } else {
            self.showing.shown
        };
        let mode = match self.engine.mode() {
            Mode::Bios => "bios",
            Mode::Smart => "smart",
            Mode::Manual(_) => "manual",
        };
        let profile = self.config.active_profile.as_str();
        let max_bytes: u64 = self.config.log_max_mb as u64 * 1048576;
        let record = match reading {
            Some(reading) => Record {
                hottest: reading.hottest,
                applied: Some(reading.fan_ctrl),
                fan_rpm: Some(reading.fan_rpm),
                mode,
                profile,
            },
            None => Record { hottest: None, applied: None, fan_rpm: None, mode, profile },
        };
        Some((record, max_bytes))
    }

    /// Hands the fan back, given how the tries so far came out. Safe to ask
    /// for more than once.
    pub fn shutdown(&self, tried: &Vec<Result<(), Fault>>) -> (r: Guarding)
        ensures
            r == crate::engine::guarding(tried@),
    {
        self.engine.shutdown(tried)
    }
}

impl HostView {
    /// What this pass measured, where it measured anything.
    pub open spec fn measured(self) -> Option<Reading> {
        if self.showing.stale {
            None
        } else {
            self.showing.shown
        }
    }
}

/// A mode as the history spells it.
pub open spec fn mode_word(mode: Mode) -> Seq<char> {
    match mode {
        Mode::Bios => "bios"@,
        Mode::Smart => "smart"@,
        Mode::Manual(_) => "manual"@,
    }
}

/// A failed handback is reported over anything else, a controller that cannot
/// be read over the step aside it caused, and every unhealthy state also sets
/// the flag older readers watch.
pub proof fn trouble_is_never_silent(h: HostView)
    ensures
        ({
            let status = trouble(
                h.showing.shown is None,
                h.health.surrendered is Some,
                h.health.handback_failed,
            );
            &&& status != STATUS_OK <==> h.troubled()
            &&& h.health.handback_failed ==> status == STATUS_HANDBACK_FAILED
            &&& !h.health.handback_failed && h.showing.shown is None ==> status
                == STATUS_UNREACHABLE
        }),
{
}

/// Nothing that arrives over the channel can stop the fan, disengage it, or
/// hold it at anything but an ordinary level.
pub proof fn the_channel_cannot_stop_the_fan(mode: u8, level: u8)
    ensures
        asked_mode(mode, level) matches Mode::Manual(held) ==> 1 <= held <= FAN_LEVEL_MAX,
        level == 0 || level > FAN_LEVEL_MAX ==> !(asked_mode(mode, level) is Manual),
{
}

/// A command that says nothing about the mode leaves the mode alone, with the
/// escape latch, a pending recovery and a standby handback as they were.
pub proof fn a_profile_switch_leaves_the_mode_alone(h: HostView, cmd: SharedView)
    requires
        cmd.cmd_mode == MODE_KEEP,
    ensures
        h.commanded(cmd).engine.mode == h.engine.mode,
        h.commanded(cmd).engine.manual_escaped == h.engine.manual_escaped,
        h.commanded(cmd).health == h.health,
        h.commanded(cmd).standby == h.standby,
{
    reveal(HostView::commanded);
    reveal(HostView::switched);
    reveal(HostView::following);
}

/// A mode chosen deliberately is the mode in force, and no recovery or wake
/// still pending can undo it.
pub proof fn a_choice_outranks_what_is_pending(h: HostView, cmd: SharedView)
    requires
        cmd.cmd_mode != MODE_KEEP,
    ensures
        h.commanded(cmd).engine.mode == asked_mode(cmd.cmd_mode, cmd.cmd_level),
        h.commanded(cmd).health.surrendered is None,
        !h.commanded(cmd).standby.handback,
        !h.commanded(cmd).health.handback_failed,
{
    reveal(HostView::commanded);
    reveal(HostView::chosen);
}

/// A profile nobody has heard of is ignored rather than guessed at.
pub proof fn an_unknown_profile_is_ignored(h: HostView, wanted: Seq<char>)
    requires
        !crate::config::has_profile(h.config.profiles, wanted),
    ensures
        h.switched(wanted) == h,
{
    reveal(HostView::switched);
}

/// A screen going off, or a suspend, leaves the fan to the firmware, and notes
/// the mode the user had, also where a recovery was still to restore it.
pub proof fn a_sleeping_machine_is_left_to_its_firmware(h: HostView, power: PowerState)
    requires
        power != PowerState::Awake,
        h.standby.reported != power,
    ensures
        h.powered(power).engine.mode == Mode::Bios,
        h.powered(power).standby.handback,
        h.powered(power).health.surrendered is None,
        !h.standby.handback ==> h.powered(power).standby.mode == Some(
            match h.health.surrendered {
                Some(mode) => mode,
                None => h.engine.mode,
            },
        ),
        h.standby.handback ==> h.powered(power).standby.mode == h.standby.mode,
{
    reveal(HostView::stood_down);
}

/// Waking gives back the mode the machine went to sleep with, whatever the
/// handback came to and however often the screen went off on the way.
pub proof fn waking_restores_the_mode(
    h: HostView,
    first: PowerState,
    second: PowerState,
    released: Result<(), Fault>,
)
    requires
        h.standby.reported == PowerState::Awake,
        !h.standby.handback,
        first != PowerState::Awake,
        second != PowerState::Awake,
    ensures
        ({
            let asleep = h.powered(first).noted(released).powered(second);
            let woken = asleep.powered(PowerState::Awake);
            &&& asleep.engine.mode == Mode::Bios
            &&& woken.engine.mode == match h.health.surrendered {
                Some(mode) => mode,
                None => h.engine.mode,
            }
            &&& !woken.standby.handback
            &&& !woken.health.handback_failed
        }),
{
    reveal(HostView::stood_down);
    reveal(HostView::stood_up);
}

/// A suspend is not in question: whatever the clocks say, only the system gets
/// to say it is over.
pub proof fn a_suspend_is_believed(h: HostView, clocks: Option<(u64, u64)>)
    requires
        h.standby.power == PowerState::Suspended,
    ensures
        h.reconsidered(clocks).engine == h.engine,
        h.reconsidered(clocks).standby.power == PowerState::Suspended,
        h.reconsidered(clocks).standby.handback == h.standby.handback,
        h.reconsidered(clocks).health == h.health,
{
    reveal(HostView::reconsidered);
}

/// One parked pass gives the fan back at once, notification or not.
pub proof fn one_parked_pass_gives_the_fan_back(h: HostView, clocks: Option<(u64, u64)>)
    requires
        h.standby.power != PowerState::Suspended,
        h.was_parked(clocks),
        h.standby.handback ==> h.engine.mode == Mode::Bios,
    ensures
        h.reconsidered(clocks).engine.mode == Mode::Bios,
        h.reconsidered(clocks).standby.handback,
        h.reconsidered(clocks).standby.power == PowerState::ScreenOff,
        h.reconsidered(clocks).standby.awake_passes == 0,
{
    reveal(HostView::reconsidered);
    reveal(HostView::stood_down);
}

/// The curve returns to a screen-off machine only after working passes in a
/// row, and never while trouble is what holds the fan.
pub proof fn several_working_passes_earn_the_fan_back(h: HostView, clocks: Option<(u64, u64)>)
    requires
        h.standby.power == PowerState::ScreenOff,
        h.standby.handback,
        h.engine.mode == Mode::Bios,
        h.standby.awake_passes < u32::MAX,
    ensures
        !h.reconsidered(clocks).standby.handback ==> {
            &&& !h.was_parked(clocks)
            &&& h.standby.awake_passes + 1 >= AWAKE_PASSES_TO_RESUME
            &&& h.health.surrendered is None
        },
        h.reconsidered(clocks).standby.handback ==> h.reconsidered(clocks).engine == h.engine,
{
    reveal(HostView::reconsidered);
    reveal(HostView::stood_up);
}

/// The poll slows down only for a machine believed asleep: never for one that
/// is awake, and for a dark screen only once a pass found it parked.
pub proof fn only_a_parked_machine_is_polled_slowly(h: HostView)
    ensures
        h.standby.power == PowerState::Awake ==> h.interval() == h.config.poll_secs,
        h.standby.power == PowerState::ScreenOff && !h.standby.parked ==> h.interval()
            == h.config.poll_secs,
        h.standby.power == PowerState::Suspended ==> h.interval() == h.config.standby_poll_secs,
{
}

/// Whether a failure is somebody else holding the controller, or a write it
/// declined.
pub open spec fn contended(f: Fault) -> bool {
    f.declined() || f is Busy
}

/// How many of these failures are contention.
pub open spec fn contentions(faults: Seq<Fault>) -> nat
    decreases faults.len(),
{
    if faults.len() == 0 {
        0
    } else {
        contentions(faults.drop_last()) + if contended(faults.last()) {
            1nat
        } else {
            0nat
        }
    }
}

/// Failed passes in a row, whatever each of them failed on.
pub open spec fn failing(h: HostView, faults: Seq<Fault>) -> HostView
    decreases faults.len(),
{
    if faults.len() == 0 {
        h
    } else {
        failing(h, faults.drop_last()).failed(faults.last(), false)
    }
}

/// Failures in a row, too few of them to matter: each is counted for what it
/// is, and nothing else changes hands.
proof fn failures_are_counted(h: HostView, faults: Seq<Fault>)
    requires
        h.health.consecutive_faults == 0,
        h.health.contended_ticks + contentions(faults) < MAX_CONTENDED,
        faults.len() - contentions(faults) < MAX_FAULTS,
    ensures
        contentions(faults) <= faults.len(),
        failing(h, faults).engine == h.engine,
        failing(h, faults).health.surrendered == h.health.surrendered,
        failing(h, faults).health.consecutive_faults == faults.len() - contentions(faults),
        failing(h, faults).health.contended_ticks == h.health.contended_ticks + contentions(
            faults,
        ),
        failing(h, faults).showing.last_good == h.showing.last_good,
    decreases faults.len(),
{
    reveal(HostView::failed);
    if faults.len() > 0 {
        let before = faults.drop_last();
        contentions_are_failures(before);
        failures_are_counted(h, before);
    }
}

proof fn contentions_are_failures(faults: Seq<Fault>)
    ensures
        contentions(faults) <= faults.len(),
    decreases faults.len(),
{
    if faults.len() > 0 {
        contentions_are_failures(faults.drop_last());
    }
}

/// Somebody else holding the controller is not a fault: short of the limit,
/// however often in a row it happens and in whichever form, it neither counts
/// nor gives the fan up, and the last good reading stands without being taken
/// for a measurement.
pub proof fn contention_is_outlasted(h: HostView, faults: Seq<Fault>)
    requires
        faults.len() > 0,
        forall|i: int| 0 <= i < faults.len() ==> contended(#[trigger] faults[i]),
        h.health.contended_ticks + faults.len() < MAX_CONTENDED,
        h.health.consecutive_faults == 0,
    ensures
        failing(h, faults).engine == h.engine,
        failing(h, faults).health.consecutive_faults == 0,
        failing(h, faults).health.surrendered == h.health.surrendered,
        failing(h, faults).showing.shown == h.showing.last_good,
        failing(h, faults).measured() is None,
{
    reveal(HostView::failed);
    all_contended(faults);
    let before = faults.drop_last();
    assert forall|i: int| 0 <= i < before.len() implies contended(#[trigger] before[i]) by {
        assert(contended(faults[i]));
    }
    all_contended(before);
    failures_are_counted(h, faults);
    failures_are_counted(h, before);
}

proof fn all_contended(faults: Seq<Fault>)
    requires
        forall|i: int| 0 <= i < faults.len() ==> contended(#[trigger] faults[i]),
    ensures
        contentions(faults) == faults.len(),
    decreases faults.len(),
{
    if faults.len() > 0 {
        let before = faults.drop_last();
        assert forall|i: int| 0 <= i < before.len() implies contended(#[trigger] before[i]) by {
            assert(contended(faults[i]));
        }
        all_contended(before);
    }
}

/// A controller that cannot be read costs the user their curve for no more
/// than a while: five failures in a row hand the fan to the firmware, not
/// fewer, with the mode they had noted. Each may be a failure of its own, and
/// contention between them neither counts nor starts the count over.
pub proof fn five_failures_hand_the_fan_back(h: HostView, faults: Seq<Fault>)
    requires
        h.health.consecutive_faults == 0,
        h.health.surrendered is None,
        h.health.contended_ticks + contentions(faults) < MAX_CONTENDED,
    ensures
        faults.len() - contentions(faults) < MAX_FAULTS ==> {
            &&& failing(h, faults).engine == h.engine
            &&& failing(h, faults).health.surrendered is None
            &&& failing(h, faults).health.consecutive_faults == faults.len() - contentions(faults)
        },
        faults.len() - contentions(faults) == MAX_FAULTS && !contended(faults.last()) ==> {
            &&& failing(h, faults).engine.mode == Mode::Bios
            &&& failing(h, faults).health.surrendered == Some(h.engine.mode)
        },
{
    reveal(HostView::failed);
    reveal(HostView::surrendering);
    contentions_are_failures(faults);
    if faults.len() - contentions(faults) < MAX_FAULTS {
        failures_are_counted(h, faults);
    } else if faults.len() - contentions(faults) == MAX_FAULTS && !contended(faults.last()) {
        failures_are_counted(h, faults.drop_last());
    }
}

/// What was noted when the fan was first given up is not overwritten by giving
/// it up again: a fan left pinned is tried again, and the mode to come back to
/// stays the user's.
pub proof fn giving_up_twice_keeps_the_mode(h: HostView, noted: Mode)
    requires
        h.health.surrendered == Some(noted),
    ensures
        h.surrendering().health.surrendered == Some(noted),
        h.surrendering().engine.mode == Mode::Bios,
{
    reveal(HostView::surrendering);
}

/// Passes one after another, each with an outcome of its own.
pub open spec fn played(h: HostView, outcomes: Seq<Result<Tick, Fault>>) -> HostView
    decreases outcomes.len(),
{
    if outcomes.len() == 0 {
        h
    } else {
        let before = played(h, outcomes.drop_last());
        match outcomes.last() {
            Ok(t) => before.passed(t),
            Err(f) => before.failed(f, false),
        }
    }
}

/// How many good passes these end on.
pub open spec fn good_in_a_row(outcomes: Seq<Result<Tick, Fault>>) -> nat
    decreases outcomes.len(),
{
    if outcomes.len() == 0 || outcomes.last() is Err {
        0
    } else {
        good_in_a_row(outcomes.drop_last()) + 1
    }
}

/// Whether there were never three good passes in a row among these.
pub open spec fn never_settled(outcomes: Seq<Result<Tick, Fault>>) -> bool
    decreases outcomes.len(),
{
    outcomes.len() == 0 || never_settled(outcomes.drop_last()) && good_in_a_row(outcomes)
        < CLEAN_TICKS_TO_RECOVER
}

/// Short of three good passes in a row, whatever the passes come to, the mode
/// in force changes only to the firmware's, and the mode to come back to stays
/// noted.
proof fn the_firmware_keeps_the_fan(
    h: HostView,
    outcomes: Seq<Result<Tick, Fault>>,
    noted: Mode,
)
    requires
        h.health.surrendered == Some(noted),
        h.health.clean_ticks == 0,
        never_settled(outcomes),
    ensures
        played(h, outcomes).engine.mode == Mode::Bios || played(h, outcomes).engine.mode
            == h.engine.mode,
        played(h, outcomes).health.surrendered == Some(noted),
        played(h, outcomes).health.clean_ticks == good_in_a_row(outcomes),
    decreases outcomes.len(),
{
    reveal(HostView::passed);
    reveal(HostView::failed);
    reveal(HostView::surrendering);
    if outcomes.len() > 0 {
        the_firmware_keeps_the_fan(h, outcomes.drop_last(), noted);
    }
}

/// A surrendered mode comes back with the third good pass in a row, whatever
/// came before it, and not before: a failure in between starts the count over.
pub proof fn three_good_passes_take_the_curve_back(
    h: HostView,
    outcomes: Seq<Result<Tick, Fault>>,
    noted: Mode,
)
    requires
        h.health.surrendered == Some(noted),
        h.health.clean_ticks == 0,
    ensures
        never_settled(outcomes) ==> {
            &&& played(h, outcomes).engine.mode == Mode::Bios || played(h, outcomes).engine.mode
                == h.engine.mode
            &&& played(h, outcomes).health.surrendered == Some(noted)
        },
        outcomes.len() > 0 && never_settled(outcomes.drop_last()) && good_in_a_row(outcomes)
            == CLEAN_TICKS_TO_RECOVER ==> {
            &&& played(h, outcomes).engine.mode == noted
            &&& played(h, outcomes).health.surrendered is None
        },
{
    if never_settled(outcomes) {
        the_firmware_keeps_the_fan(h, outcomes, noted);
    } else if outcomes.len() > 0 && never_settled(outcomes.drop_last()) && good_in_a_row(outcomes)
        == CLEAN_TICKS_TO_RECOVER {
        reveal(HostView::passed);
        the_firmware_keeps_the_fan(h, outcomes.drop_last(), noted);
    }
}

/// Any failure loses the progress toward recovery.
pub proof fn a_failure_starts_the_recovery_over(h: HostView, f: Fault, stopping: bool)
    ensures
        h.failed(f, stopping).health.clean_ticks == 0,
{
    reveal(HostView::failed);
    reveal(HostView::surrendering);
}

/// With a stop pending, no pass starts a handback of its own.
pub proof fn a_pending_stop_is_left_to_itself(h: HostView, f: Fault, now: u64)
    ensures
        h.failed(f, true).engine == h.engine,
        h.watched(now, true).engine == h.engine,
        !h.health.surrenders(f, true),
        !h.rescues(now, true),
{
    reveal(HostView::failed);
    reveal(HostView::watched);
}

/// A stall hands the fan back once, and not again until it is over.
pub proof fn a_stall_is_answered_once(h: HostView, now: u64, later: u64)
    requires
        h.rescues(now, false),
    ensures
        h.watched(now, false).engine.mode == Mode::Bios,
        h.watched(now, false).health.surrendered is Some,
        !h.watched(now, false).rescues(later, false),
{
    reveal(HostView::watched);
    reveal(HostView::surrendering);
}

/// The warning that a handback failed is cleared by a good pass only where
/// every fan was seen in the firmware's hands.
pub proof fn the_warning_goes_only_on_evidence(h: HostView, t: Tick)
    requires
        h.health.handback_failed,
    ensures
        h.passed(t).health.handback_failed <==> !t.state@.bios_controlled(),
{
    reveal(HostView::passed);
}

/// Taking over changed settings keeps the profile that is running, as long as
/// it still exists, and the mode.
pub proof fn a_reload_keeps_the_running_profile(h: HostView, c: ConfigView)
    ensures
        crate::config::has_profile(c.profiles, h.config.active_profile) ==> h.reloaded(
            c,
        ).config.active_profile == h.config.active_profile,
        h.reloaded(c).engine.mode == h.engine.mode,
        h.reloaded(c).ec == (Ec { single_fan: c.single_fan, ..h.ec }),
        h.reloaded(c).health == h.health,
        h.reloaded(c).standby == h.standby,
{
    reveal(HostView::reloaded);
    reveal(HostView::following);
}

/// Within a pass the fan can be given up for standby before anything is read:
/// the clocks are looked at before the command, and the command before the
/// controller.
pub proof fn the_clocks_come_first(h: HostView, clocks: Option<(u64, u64)>, stopping: bool, now: u64)
    requires
        h.phase == Phase::Timing,
    ensures
        h.after(HostHeard::Clocks(clocks), stopping, now).phase == if h.stands_down(clocks) {
            Phase::StandingBy
        } else {
            Phase::Commanding
        },
{
}

/// The time asleep is the real time that passed less the working time, in
/// nanoseconds, and nothing where the clocks were not read twice.
pub proof fn sleep_is_what_the_working_clock_missed(
    wall: u64,
    unbiased: u64,
    later: u64,
    later_unbiased: u64,
)
    requires
        wall <= later,
        unbiased <= later_unbiased,
    ensures
        ({
            let missed = (later - wall) - (later_unbiased - unbiased);
            let asleep = slept(Some((wall, unbiased)), Some((later, later_unbiased)));
            &&& missed <= 0 ==> asleep == 0
            &&& 0 <= missed * 100 <= u64::MAX ==> asleep == missed * 100
        }),
        slept(None, Some((later, later_unbiased))) == 0,
        slept(Some((wall, unbiased)), None) == 0,
{
}

/// A machine was parked where it slept through a quarter of the interval or
/// more, and at least a second.
pub proof fn a_quarter_of_the_interval_asleep_is_parked(h: HostView, clocks: Option<(u64, u64)>)
    ensures
        h.was_parked(clocks) <==> {
            let asleep = slept(h.standby.clock.last, clocks);
            asleep >= 1_000_000_000 && 4 * asleep >= h.interval() * 1_000_000_000
        },
{
}

/// The mode a command asks for, by the numbers it is posted with: 1 follows
/// the curve, 2 with a level of 1 to 7 holds that level, and anything else is
/// firmware control.
pub proof fn a_command_asks_by_number(mode: u8, level: u8)
    ensures
        mode == 1 ==> asked_mode(mode, level) == Mode::Smart,
        mode == 2 && 1 <= level <= 7 ==> asked_mode(mode, level) == Mode::Manual(level),
        mode != 1 && !(mode == 2 && 1 <= level <= 7) ==> asked_mode(mode, level) == Mode::Bios,
        mode_field(Mode::Bios) == 0,
        mode_field(Mode::Smart) == 1,
        mode_field(Mode::Manual(level)) == 2,
{
}

/// A command that names a profile the host has runs that profile's curve,
/// whichever mode is in force, and starts it afresh; one that names the
/// running profile, or none, or one the host does not have, changes neither.
/// Nothing else of the settings changes.
pub proof fn a_command_switches_to_the_profile_it_names(h: HostView, cmd: SharedView, i: int)
    requires
        0 <= i < h.config.profiles.len(),
        h.config.profiles[i].name == crate::ipc::name_of(cmd.cmd_profile),
        forall|j: int|
            0 <= j < i ==> (#[trigger] h.config.profiles[j]).name != h.config.profiles[i].name,
        h.config.profiles[i].name.len() > 0,
        h.config.profiles[i].name != h.config.active_profile,
        h.config.profiles[i].fault() is None,
    ensures
        h.commanded(cmd).config == (ConfigView {
            active_profile: h.config.profiles[i].name,
            ..h.config
        }),
        h.commanded(cmd).engine.curve == crate::config::curve_points(h.config.profiles[i].points),
        h.commanded(cmd).engine.step is None,
        h.commanded(cmd).engine.applied == h.engine.applied,
        h.commanded(cmd).engine.ignored_sensors == h.engine.ignored_sensors,
        h.commanded(cmd).engine.watchdog == h.engine.watchdog,
        h.commanded(cmd).engine.manual_escape == h.engine.manual_escape,
        h.commanded(cmd).showing == h.showing,
        h.commanded(cmd).ec == h.ec,
{
    reveal(HostView::commanded);
    reveal(HostView::switched);
    reveal(HostView::following);
    reveal(HostView::chosen);
    let wanted = h.config.profiles[i].name;
    crate::config::a_name_is_found_at_its_first_place(h.config.profiles, wanted, 0, i);
}

/// A command that names no profile but the running one leaves the curve and
/// the settings alone.
pub proof fn a_command_for_the_running_profile_changes_no_curve(h: HostView, cmd: SharedView)
    requires
        ({
            let wanted = crate::ipc::name_of(cmd.cmd_profile);
            ||| wanted.len() == 0
            ||| wanted == h.config.active_profile
            ||| forall|i: int|
                0 <= i < h.config.profiles.len() ==> (#[trigger] h.config.profiles[i]).name
                    != wanted
        }),
    ensures
        h.commanded(cmd).config == h.config,
        h.commanded(cmd).engine.curve == h.engine.curve,
        cmd.cmd_mode == 0xff ==> h.commanded(cmd) == h,
{
    reveal(HostView::commanded);
    reveal(HostView::switched);
    reveal(HostView::chosen);
}

/// A pass that got through shows what it read and applied, forgets every
/// failure before it, and touches neither the settings nor the power state.
pub proof fn a_good_pass_shows_what_it_read(h: HostView, t: Tick)
    ensures
        ({
            let now = h.passed(t);
            &&& now.showing.shown matches Some(reading) && {
                &&& reading.fan_ctrl == t.applied
                &&& reading.hottest == t.hottest
                &&& reading.fan_rpm == t.state.fan_rpm
                &&& reading.sensors == t.state.sensors
            }
            &&& now.showing.last_good == now.showing.shown
            &&& !now.showing.stale
            &&& now.health.consecutive_faults == 0
            &&& now.health.contended_ticks == 0
            &&& !now.health.fan_write_declined
            &&& now.health.stalled == h.health.stalled
            &&& now.config == h.config
            &&& now.standby == h.standby
            &&& now.ec == h.ec
            &&& h.health.surrendered is None ==> now.engine == h.engine
                && now.health.surrendered is None && now.health.clean_ticks == h.health.clean_ticks
            &&& h.health.surrendered matches Some(mode) ==> {
                if h.health.clean_ticks >= 2 {
                    now.engine == h.engine.instructed(mode) && now.health.surrendered is None
                        && now.health.clean_ticks == 0
                } else {
                    now.engine == h.engine && now.health.surrendered == Some(mode)
                        && now.health.clean_ticks == h.health.clean_ticks + 1
                }
            }
        }),
{
    reveal(HostView::passed);
}

/// A pass that failed counts. One lost to somebody else's turn counts as that,
/// and shows the last good reading again, marked stale; any other, or one lost
/// after sixty such, is a failure and shows nothing. On every fifth failure in
/// a row the fan is given up, unless a stop is pending.
pub proof fn a_failed_pass_counts(h: HostView, f: Fault, stopping: bool)
    requires
        h.health.consecutive_faults < 1000,
        h.health.contended_ticks < 1000,
    ensures
        ({
            let now = h.failed(f, stopping);
            let turned_away = f is Busy || f.declined();
            let contended_ticks = if turned_away {
                h.health.contended_ticks + 1
            } else {
                h.health.contended_ticks as int
            };
            let faults = if !turned_away || contended_ticks >= 60 {
                h.health.consecutive_faults + 1
            } else {
                h.health.consecutive_faults as int
            };
            &&& now.health.contended_ticks == contended_ticks
            &&& now.health.consecutive_faults == faults
            &&& now.health.clean_ticks == 0
            &&& now.health.fan_write_declined == (h.health.fan_write_declined || f.declined())
            &&& now.health.handback_failed == h.health.handback_failed
            &&& faults == 0 ==> now.showing.shown == h.showing.last_good
            &&& faults > 0 ==> now.showing.shown is None
            &&& now.showing.stale == (now.showing.shown is Some)
            &&& now.showing.last_good == h.showing.last_good
            &&& now.config == h.config && now.standby == h.standby && now.ec == h.ec
            &&& if faults > 0 && faults % 5 == 0 && !stopping {
                &&& now.engine == h.engine.instructed(Mode::Bios)
                &&& now.health.surrendered == (if h.health.surrendered is Some {
                    h.health.surrendered
                } else {
                    Some(h.engine.mode)
                })
            } else {
                now.engine == h.engine && now.health.surrendered == h.health.surrendered
            }
        }),
{
    reveal(HostView::failed);
    reveal(HostView::surrendering);
}

/// A pass acts on what it reads: a sample that calls for a write is followed
/// by writing the level the engine wants on it, and one that calls for none is
/// a pass that got through with that level.
pub proof fn a_pass_writes_what_the_engine_wants(
    h: HostView,
    state: EcState,
    tries: u8,
    stopping: bool,
    now: u64,
)
    requires
        h.phase == (Phase::Sampling { tries }),
    ensures
        ({
            let hottest = state@.hottest(h.engine.ignored_sensors);
            let wanted = h.engine.wanted(hottest);
            let next = h.after(HostHeard::Sampled(Ok(state)), stopping, now);
            &&& asking(h.phase) == HostAsk::Sample
            &&& h.engine.must_write(state@, wanted) ==> {
                &&& asking(next.phase) == HostAsk::SetFan(wanted)
                &&& next.engine == h.engine.decided(hottest)
                &&& next.health == h.health && next.showing == h.showing
            }
            &&& !h.engine.must_write(state@, wanted) ==> {
                &&& next.showing.shown matches Some(reading) && reading.fan_ctrl == wanted
                    && reading.hottest == hottest && reading.sensors == state.sensors
                    && reading.fan_rpm == state.fan_rpm
                &&& next.engine.applied == Some(wanted)
                &&& next.engine.last_decision == now
                &&& next.health.consecutive_faults == 0
            }
        }),
{
    reveal(HostView::sampled);
    reveal(HostView::passed);
    reveal(HostView::watched);
    reveal(HostView::surrendering);
}

/// A write that went through is a pass that got through with the level
/// written.
pub proof fn a_pass_remembers_what_it_wrote(
    h: HostView,
    state: EcState,
    hottest: Option<(usize, i8)>,
    wanted: u8,
    tries: u8,
    wrote: u8,
    stopping: bool,
    now: u64,
)
    requires
        h.phase == (Phase::Writing { state, hottest, wanted, tries }),
    ensures
        ({
            let next = h.after(HostHeard::Wrote(Ok(wrote)), stopping, now);
            &&& asking(h.phase) == HostAsk::SetFan(wanted)
            &&& next.showing.shown matches Some(reading) && reading.fan_ctrl == wanted
                && reading.hottest == hottest && reading.sensors == state.sensors
                && reading.fan_rpm == state.fan_rpm
            &&& next.engine.applied == Some(wanted)
            &&& next.engine.last_decision == now
            &&& next.health.consecutive_faults == 0
        }),
{
    reveal(HostView::passed);
    reveal(HostView::watched);
    reveal(HostView::surrendering);
}

/// A controller that fails is tried twice more, 250 ms apart, before the pass
/// has failed; with a stop pending it is not tried again.
pub proof fn a_pass_tries_three_times(
    h: HostView,
    f: Fault,
    tries: u8,
    stopping: bool,
    now: u64,
)
    requires
        h.phase == (Phase::Sampling { tries }),
    ensures
        ({
            let next = h.after(HostHeard::Sampled(Err(f)), stopping, now);
            &&& tries < 2 && !stopping ==> {
                &&& asking(next.phase) == HostAsk::Pause(250)
                &&& next.after(HostHeard::Ready, stopping, now).phase == (Phase::Sampling {
                    tries: (tries + 1) as u8,
                })
                &&& next.health == h.health && next.engine == h.engine
                &&& next.showing == h.showing
            }
            &&& tries >= 2 || stopping ==> !(next.phase is Pausing) && !(next.phase is Sampling)
        }),
{
    reveal(HostView::sampled);
    reveal(HostView::tried);
}

/// A pass goes through its stages in order: the file's stamp, the file where
/// the stamp is new, the clocks, a command, the controller, publishing and the
/// history, and then it is over.
pub proof fn a_pass_runs_in_order(
    h: HostView,
    stamp: Option<u64>,
    file: Stored,
    shared: Shared,
    stopping: bool,
    now: u64,
)
    ensures
        h.phase is Idle ==> asking(h.after(HostHeard::Ready, stopping, now).phase) == HostAsk::Stamp,
        h.phase is Stamping && stamp is Some && stamp != h.stamp ==> asking(
            h.after(HostHeard::Stamped(stamp), stopping, now).phase,
        ) == HostAsk::Load && h.after(HostHeard::Stamped(stamp), stopping, now).stamp == stamp,
        h.phase is Stamping && (stamp is None || stamp == h.stamp) ==> h.after(
            HostHeard::Stamped(stamp),
            stopping,
            now,
        ) == (HostView { phase: Phase::Timing, ..h }),
        h.phase is Loading ==> asking(h.after(HostHeard::Loaded(file), stopping, now).phase)
            == HostAsk::Clocks,
        h.phase is Commanding && shared@.cmd_seq == shared@.ack_seq ==> h.after(
            HostHeard::Command(shared),
            stopping,
            now,
        ) == (HostView { phase: Phase::Sampling { tries: 0 }, ..h }),
        h.phase is Commanding && shared@.cmd_seq != shared@.ack_seq && !h.knows_not(
            crate::ipc::name_of(shared@.cmd_profile),
        ) ==> asking(h.after(HostHeard::Command(shared), stopping, now).phase)
            == HostAsk::Acknowledge(shared@.cmd_seq),
        h.phase is Commanding && shared@.cmd_seq != shared@.ack_seq && h.knows_not(
            crate::ipc::name_of(shared@.cmd_profile),
        ) ==> asking(h.after(HostHeard::Command(shared), stopping, now).phase) == HostAsk::Load,
        h.phase is Acknowledging ==> asking(h.after(HostHeard::Ready, stopping, now).phase)
            == HostAsk::Sample,
        h.phase is Publishing ==> asking(h.after(HostHeard::Ready, stopping, now).phase)
            == HostAsk::Record,
        h.phase is Recording ==> asking(h.after(HostHeard::Ready, stopping, now).phase)
            == HostAsk::Done,
{
}

/// Settings taken over reach the engine: the ignored sensors, the watchdog in
/// milliseconds, the manual escape, and the curve of the profile that is
/// active, started afresh.
pub proof fn a_reload_reaches_the_engine(h: HostView, c: ConfigView)
    requires
        c.watchdog_secs <= 1_000_000,
    ensures
        ({
            let now = h.reloaded(c);
            &&& now.engine.ignored_sensors == c.ignored_sensors
            &&& now.engine.watchdog == 1000 * c.watchdog_secs
            &&& now.engine.manual_escape == c.manual_escape_c
            &&& now.engine.applied == h.engine.applied
            &&& now.engine.manual_escaped == h.engine.manual_escaped
            &&& now.config.active().fault() is None ==> now.engine.curve
                == crate::config::curve_points(now.config.active().points)
                && now.engine.step is None
            &&& now.config.profiles == c.profiles
            &&& now.config.poll_secs == c.poll_secs
            &&& now.config.standby_poll_secs == c.standby_poll_secs
            &&& now.config.log_enabled == c.log_enabled && now.config.log_max_mb == c.log_max_mb
        }),
{
    reveal(HostView::reloaded);
    reveal(HostView::following);
}

/// Becoming the engine goes in order, and nothing is opened before the lock is
/// ours and the block is shared.
pub proof fn starting_goes_in_order(went: Seq<bool>)
    ensures
        went.len() == 0 ==> starting(went) is Claim,
        went.len() > 0 && !went[0] ==> starting(went) is Refused,
        went.len() == 1 && went[0] ==> starting(went) is Share,
        went.len() > 1 && went[0] && !went[1] ==> starting(went) is Refused,
        went.len() > 1 && went[0] && went[1] ==> starting(went) is Open,
{
}

/// What is published of trouble, by number: 3 for a failed handback above all,
/// 1 for a controller that cannot be read, 2 for a fan given up, 0 for none.
pub proof fn trouble_is_published_by_number(fault: bool, surrendered: bool, handback_failed: bool)
    ensures
        handback_failed ==> trouble(fault, surrendered, handback_failed) == 3,
        !handback_failed && fault ==> trouble(fault, surrendered, handback_failed) == 1,
        !handback_failed && !fault && surrendered ==> trouble(fault, surrendered, handback_failed)
            == 2,
        !handback_failed && !fault && !surrendered ==> trouble(
            fault,
            surrendered,
            handback_failed,
        ) == 0,
{
}

/// A machine is polled at the standby rate while it is suspended, or while its
/// screen is off and the last pass found it parked.
pub proof fn a_parked_machine_is_polled_at_the_standby_rate(h: HostView)
    ensures
        h.standby.power == PowerState::Suspended || (h.standby.power == PowerState::ScreenOff
            && h.standby.parked) ==> h.interval() == h.config.standby_poll_secs,
        h.standby.power == PowerState::Awake || (h.standby.power == PowerState::ScreenOff
            && !h.standby.parked) ==> h.interval() == h.config.poll_secs,
{
}

/// A host starts with nothing against the machine, and takes it to be awake.
pub proof fn a_host_starts_afresh()
    ensures
        untroubled().consecutive_faults == 0 && untroubled().contended_ticks == 0,
        untroubled().surrendered is None && untroubled().clean_ticks == 0,
        !untroubled().stalled && !untroubled().handback_failed && !untroubled().fan_write_declined,
        awake().reported == PowerState::Awake && awake().power == PowerState::Awake,
        awake().clock.last is None && awake().awake_passes == 0,
        !awake().handback && awake().mode is None && !awake().parked,
{
}

} // verus!
