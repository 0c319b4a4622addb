//! Passes over the controller, register by register.
//!
//! A pass is a conversation like the handshake below it: given every answer
//! heard so far, it says what to ask next or how it ended. Each pass takes the
//! lock first, and whoever carries it out lets the lock go when it ends.

use vstd::prelude::*;

use crate::ec::{
    decode_reading, decode_speed, plausible_fan_ctrl, plausible_temps, Ec, EcState, EcStateView,
    FailureView, Probe, ProbeFailure, ProbeView, FAN_BIOS, FAN_BITS, FAN_DISENGAGED, PROBE_TEMPS,
    REG_FAN_CTRL, REG_FAN_SELECT, REG_FAN_SPEED_HI, REG_FAN_SPEED_LO, REG_TEMP_BANK0,
    REG_TEMP_BANK1, SENSOR_COUNT,
};
use crate::handshake::{is_spent, Answer};
use crate::pawnio::{Fault, Layout};
use crate::text::push_hex_register;

verus! {

/// Ceiling on one whole read pass, and the whole envelope for probing one
/// layout, retries included. In milliseconds, as are all of these.
pub const SAMPLE_BUDGET: u64 = 3000;

/// Pause between probe attempts on a layout that could not be examined.
pub const PROBE_RETRY_PAUSE: u64 = 250;

/// Ceiling on a fan write, which retries across both fans.
pub const SET_FAN_BUDGET: u64 = 5000;

/// How many times a fan write is tried before it is called declined.
pub const WRITE_ATTEMPTS: u64 = 5;

/// Settling time between those tries.
pub const SETTLING_PAUSE: u64 = 100;

/// How often the handback chases the lock, and how long it waits between.
pub const LOCK_ATTEMPTS: u64 = 6;

pub const LOCK_PAUSE: u64 = 250;

/// Something to be done to the controller.
#[derive(Clone, Copy, Debug, PartialEq, Eq, Structural)]
pub enum Ask {
    /// Take the locks the layout needs.
    Lock,
    /// Run the module's own setup.
    Prepare,
    /// Read a register.
    Read(u8),
    /// Write a register.
    Write(u8, u8),
    /// Wait this many milliseconds.
    Sleep(u64),
}

/// What a pass does next.
#[derive(Debug)]
pub enum Step<T> {
    Ask(Ask),
    End(Result<T, Fault>),
}

/// The byte an answer brought.
pub open spec fn byte(a: Answer) -> u8 {
    match a.got {
        Ok(v) => v,
        Err(_) => 0,
    }
}

fn byte_of(a: &Answer) -> (r: u8)
    ensures
        r == byte(*a),
{
    match a.got {
        Ok(v) => v,
        Err(_) => 0,
    }
}

/// Where one part of a pass stands.
#[derive(Debug)]
pub enum Part<I> {
    Ask(Ask),
    Ready(I),
    Failed(Fault),
}

/// Whether two accounts of where a part stands agree.
pub open spec fn agree(p: Part<usize>, s: Part<int>) -> bool {
    match s {
        Part::Ask(a) => p == Part::<usize>::Ask(a),
        Part::Ready(i) => p matches Part::Ready(k) && k == i,
        Part::Failed(f) => p == Part::<usize>::Failed(f),
    }
}

/// Taking the lock and running the module's setup where it has not run.
pub open spec fn entered(prepared: bool, heard: Seq<Answer>) -> Part<int> {
    if heard.len() == 0 {
        Part::Ask(Ask::Lock)
    } else {
        match heard[0].got {
            Err(f) => Part::Failed(f),
            Ok(_) => if prepared {
                Part::Ready(1)
            } else if heard.len() == 1 {
                Part::Ask(Ask::Prepare)
            } else {
                match heard[1].got {
                    Err(f) => Part::Failed(f),
                    Ok(_) => Part::Ready(2),
                }
            },
        }
    }
}

fn enter(prepared: bool, heard: &Vec<Answer>) -> (r: Part<usize>)
    ensures
        agree(r, entered(prepared, heard@)),
        r matches Part::Ready(k) ==> 0 < k <= heard@.len() && k <= 2,
{
    if heard.len() == 0 {
        return Part::Ask(Ask::Lock);
    }
    match heard[0].got {
        Err(f) => Part::Failed(f),
        Ok(_) => {
            if prepared {
                return Part::Ready(1);
            }
            if heard.len() == 1 {
                return Part::Ask(Ask::Prepare);
            }
            match heard[1].got {
                Err(f) => Part::Failed(f),
                Ok(_) => Part::Ready(2),
            }
        },
    }
}

// ---------------------------------------------------------------------------
// Sampling
// ---------------------------------------------------------------------------

/// The register a sensor is read from.
pub open spec fn sensor_register(i: int) -> u8 {
    if i < 8 {
        (REG_TEMP_BANK0 + i) as u8
    } else {
        (REG_TEMP_BANK1 + (i - 8)) as u8
    }
}

/// How many questions a sample takes: four for each fan, the selector back,
/// and one for each sensor.
pub open spec fn sample_len(fans: int) -> int {
    4 * fans + 1 + SENSOR_COUNT
}

/// The questions of a sample, in order. Each fan is read through its own
/// selector, so a second fan holding a level is visible; then the selector
/// goes back and the sensors are read.
pub open spec fn sample_ask(fans: int, k: int) -> Ask {
    if k < 4 * fans {
        if k % 4 == 0 {
            Ask::Write(REG_FAN_SELECT, (k / 4) as u8)
        } else if k % 4 == 1 {
            Ask::Read(REG_FAN_CTRL)
        } else if k % 4 == 2 {
            Ask::Read(REG_FAN_SPEED_LO)
        } else {
            Ask::Read(REG_FAN_SPEED_HI)
        }
    } else if k == 4 * fans {
        Ask::Write(REG_FAN_SELECT, 0)
    } else {
        Ask::Read(sensor_register(k - 4 * fans - 1))
    }
}

/// The trouble the answer to question `k` brings, if any: the question
/// failed, or the whole pass has run out of time where the time is looked at,
/// which is after each fan and before each sensor.
pub open spec fn sample_trouble(fans: int, k: int, a: Answer, started: u64) -> Option<Fault> {
    match a.got {
        Err(f) => Some(f),
        Ok(_) => if !crate::handshake::spent(started, a.at, SAMPLE_BUDGET) {
            None
        } else if k < 4 * fans {
            if k % 4 == 3 {
                Some(Fault::Call { function: "sample_budget", code: (k / 4) as u32 })
            } else {
                None
            }
        } else if k + 1 < sample_len(fans) {
            Some(Fault::Call { function: "sample_budget", code: (k - 4 * fans) as u32 })
        } else {
            None
        },
    }
}

/// The first question whose answer brings trouble, from question `k` on, and
/// the trouble. The answers to the questions start at place `b`.
pub open spec fn sample_first_trouble(
    fans: int,
    heard: Seq<Answer>,
    b: int,
    k: int,
    started: u64,
) -> Option<(int, Fault)>
    decreases sample_len(fans) - k,
{
    if k >= sample_len(fans) || b + k >= heard.len() {
        None
    } else {
        match sample_trouble(fans, k, heard[b + k], started) {
            Some(f) => Some((k, f)),
            None => sample_first_trouble(fans, heard, b, k + 1, started),
        }
    }
}

/// A machine's state out of the answers to every question of a sample. A
/// single-fan machine's second slot mirrors the first, and its speed is none.
pub open spec fn sample_state(fans: int, heard: Seq<Answer>, b: int) -> EcStateView {
    let first = byte(heard[b + 1]);
    let second = if fans == 1 {
        first
    } else {
        byte(heard[b + 5])
    };
    let first_rpm = crate::ec::speed(byte(heard[b + 2]), byte(heard[b + 3]));
    let second_rpm = if fans == 1 {
        0u16
    } else {
        crate::ec::speed(byte(heard[b + 6]), byte(heard[b + 7]))
    };
    EcStateView {
        fan_ctrl: first,
        fan_ctrl_per_fan: seq![first, second],
        fan_rpm: seq![first_rpm, second_rpm],
        sensors: Seq::new(
            SENSOR_COUNT as nat,
            |i: int| crate::ec::reading(byte(heard[b + 4 * fans + 1 + i])),
        ),
    }
}

/// What a sample does next. However it comes out, once a question has been
/// put the selector is put back at the end.
pub open spec fn sampling(fans: int, prepared: bool, heard: Seq<Answer>) -> Step<EcStateView> {
    match entered(prepared, heard) {
        Part::Ask(a) => Step::Ask(a),
        Part::Failed(f) => Step::End(Err(f)),
        Part::Ready(b) => match sample_first_trouble(fans, heard, b, 0, heard[b - 1].at) {
            Some((k, f)) => if heard.len() == b + k + 1 {
                Step::Ask(Ask::Write(REG_FAN_SELECT, 0))
            } else {
                Step::End(Err(f))
            },
            None => if heard.len() < b + sample_len(fans) {
                Step::Ask(sample_ask(fans, heard.len() - b))
            } else if heard.len() == b + sample_len(fans) {
                Step::Ask(Ask::Write(REG_FAN_SELECT, 0))
            } else {
                Step::End(Ok(sample_state(fans, heard, b)))
            },
        },
    }
}

/// Whether what a pass says is what it should say, the value it ends with
/// taken by its view.
pub open spec fn sample_agrees(r: Step<EcState>, s: Step<EcStateView>) -> bool {
    match s {
        Step::Ask(a) => r == Step::<EcState>::Ask(a),
        Step::End(Ok(v)) => r matches Step::End(Ok(state)) && state@ == v,
        Step::End(Err(f)) => r == Step::<EcState>::End(Err(f)),
    }
}

fn sample_question(fans: usize, k: usize) -> (r: Ask)
    requires
        1 <= fans <= 2,
        k < sample_len(fans as int),
    ensures
        r == sample_ask(fans as int, k as int),
{
    if k < 4 * fans {
        if k % 4 == 0 {
            Ask::Write(REG_FAN_SELECT, (k / 4) as u8)
        } else if k % 4 == 1 {
            Ask::Read(REG_FAN_CTRL)
        } else if k % 4 == 2 {
            Ask::Read(REG_FAN_SPEED_LO)
        } else {
            Ask::Read(REG_FAN_SPEED_HI)
        }
    } else if k == 4 * fans {
        Ask::Write(REG_FAN_SELECT, 0)
    } else {
        let i: usize = k - 4 * fans - 1;
        if i < 8 {
            Ask::Read(REG_TEMP_BANK0 + (i as u8))
        } else {
            Ask::Read(REG_TEMP_BANK1 + ((i - 8) as u8))
        }
    }
}

fn sample_fault(fans: usize, k: usize, a: &Answer, started: u64) -> (r: Option<Fault>)
    requires
        1 <= fans <= 2,
        k < sample_len(fans as int),
    ensures
        r == sample_trouble(fans as int, k as int, *a, started),
{
    match a.got {
        Err(f) => Some(f),
        Ok(_) => {
            if !is_spent(started, a.at, SAMPLE_BUDGET) {
                None
            } else if k < 4 * fans {
                if k % 4 == 3 {
                    Some(Fault::Call { function: "sample_budget", code: (k / 4) as u32 })
                } else {
                    None
                }
            } else if k + 1 < 4 * fans + 1 + SENSOR_COUNT {
                Some(Fault::Call { function: "sample_budget", code: (k - 4 * fans) as u32 })
            } else {
                None
            }
        },
    }
}

fn sample_decode(fans: usize, heard: &Vec<Answer>, b: usize) -> (r: EcState)
    requires
        1 <= fans <= 2,
        b <= 2,
        heard@.len() >= b + sample_len(fans as int),
    ensures
        r@ == sample_state(fans as int, heard@, b as int),
{
    let first = byte_of(&heard[b + 1]);
    let mut state = EcState::default();
    state.fan_ctrl = first;
    state.fan_ctrl_per_fan[0] = first;
    state.fan_rpm[0] = decode_speed(byte_of(&heard[b + 2]), byte_of(&heard[b + 3]));
    if fans == 1 {
        crate::ec::mirror_lone_fan(&mut state);
    } else {
        state.fan_ctrl_per_fan[1] = byte_of(&heard[b + 5]);
        state.fan_rpm[1] = decode_speed(byte_of(&heard[b + 6]), byte_of(&heard[b + 7]));
    }
    let ghost before = state@;
    let mut i: usize = 0;
    while i < SENSOR_COUNT
        invariant
            i <= SENSOR_COUNT,
            1 <= fans <= 2,
            b <= 2,
            heard@.len() >= b + sample_len(fans as int),
            state@.fan_ctrl == before.fan_ctrl,
            state@.fan_ctrl_per_fan == before.fan_ctrl_per_fan,
            state@.fan_rpm == before.fan_rpm,
            state@.sensors.len() == SENSOR_COUNT,
            forall|k: int|
                0 <= k < i ==> (#[trigger] state@.sensors[k]) == crate::ec::reading(
                    byte(heard@[b + 4 * fans + 1 + k]),
                ),
        decreases SENSOR_COUNT - i,
    {
        state.sensors[i] = decode_reading(byte_of(&heard[b + 4 * fans + 1 + i]));
        i += 1;
    }
    proof {
        let s = sample_state(fans as int, heard@, b as int);
        assert(state@.sensors =~= s.sensors);
        assert(state@.fan_ctrl_per_fan =~= s.fan_ctrl_per_fan);
        assert(state@.fan_rpm =~= s.fan_rpm);
    }
    state
}

impl Ec {
    fn fan_count(&self) -> (r: usize)
        ensures
            r == self.fans(),
            1 <= r <= 2,
    {
        if self.single_fan {
            1
        } else {
            2
        }
    }

    /// Reads everything in one locked pass, so a sample is consistent with
    /// itself.
    pub fn sample(&self, heard: &Vec<Answer>) -> (r: Step<EcState>)
        ensures
            sample_agrees(r, sampling(self.fans(), self.prepared, heard@)),
    {
        let fans = self.fan_count();
        match enter(self.prepared, heard) {
            Part::Ask(a) => Step::Ask(a),
            Part::Failed(f) => Step::End(Err(f)),
            Part::Ready(b) => {
                let started = heard[b - 1].at;
                let mut k: usize = 0;
                while k < 4 * fans + 1 + SENSOR_COUNT && k < heard.len() - b
                    invariant
                        1 <= fans <= 2,
                        0 < b <= heard@.len(),
                        b <= 2,
                        k <= sample_len(fans as int),
                        k <= heard@.len() - b,
                        sample_first_trouble(fans as int, heard@, b as int, 0, started)
                            == sample_first_trouble(
                            fans as int,
                            heard@,
                            b as int,
                            k as int,
                            started,
                        ),
                        fans == self.fans(),
                        entered(self.prepared, heard@) == Part::Ready(b as int),
                        started == heard@[b - 1].at,
                    decreases sample_len(fans as int) - k,
                {
                    match sample_fault(fans, k, &heard[b + k], started) {
                        Some(f) => {
                            if heard.len() == b + k + 1 {
                                return Step::Ask(Ask::Write(REG_FAN_SELECT, 0));
                            }
                            return Step::End(Err(f));
                        },
                        None => {},
                    }
                    k += 1;
                }
                let n: usize = heard.len() - b;
                if n < 4 * fans + 1 + SENSOR_COUNT {
                    Step::Ask(sample_question(fans, n))
                } else if n == 4 * fans + 1 + SENSOR_COUNT {
                    Step::Ask(Ask::Write(REG_FAN_SELECT, 0))
                } else {
                    Step::End(Ok(sample_decode(fans, heard, b)))
                }
            },
        }
    }
}

// ---------------------------------------------------------------------------
// Setting the fan
// ---------------------------------------------------------------------------

/// Where a part that has a result of its own stands: a question to put, or
/// over, with the answers up to a place used.
#[derive(Debug)]
pub enum Over<I, T> {
    Ask(Ask),
    Done(I, Result<T, Fault>),
}

/// How many questions one try at a fan write takes: select, write and read
/// back for each fan, and the selector back.
pub open spec fn try_len(fans: int) -> int {
    3 * fans + 1
}

/// The questions of one try, in order.
pub open spec fn try_ask(value: u8, fans: int, k: int) -> Ask {
    if k >= 3 * fans {
        Ask::Write(REG_FAN_SELECT, 0)
    } else if k % 3 == 0 {
        Ask::Write(REG_FAN_SELECT, (k / 3) as u8)
    } else if k % 3 == 1 {
        Ask::Write(REG_FAN_CTRL, value)
    } else {
        Ask::Read(REG_FAN_CTRL)
    }
}

/// The first of the answers from place `i` to place `end` that failed.
pub open spec fn first_failure(heard: Seq<Answer>, i: int, end: int) -> Option<(int, Fault)>
    decreases end - i,
{
    if i >= end || i >= heard.len() {
        None
    } else {
        match heard[i].got {
            Err(f) => Some((i, f)),
            Ok(_) => first_failure(heard, i + 1, end),
        }
    }
}

/// Whether a value read back is the value written, in the bits that mean
/// something.
pub open spec fn held(seen: u8, value: u8) -> bool {
    seen & FAN_BITS == value & FAN_BITS
}

/// Whether every fan read back what was written, in a try whose answers start
/// at place `i`.
pub open spec fn all_took(value: u8, fans: int, heard: Seq<Answer>, i: int) -> bool {
    forall|fan: int| 0 <= fan < fans ==> #[trigger] fan_took(value, heard, i, fan)
}

/// Whether one fan read back what was written, in a try whose answers start
/// at place `i`.
pub open spec fn fan_took(value: u8, heard: Seq<Answer>, i: int, fan: int) -> bool {
    held(byte(heard[i + 3 * fan + 2]), value)
}

/// The refusal of a value: taken and not held.
pub open spec fn declined(value: u8) -> Fault {
    Fault::Call { function: "set_fan_declined", code: value as u32 }
}

/// Tries at a fan write from try number `attempt` on, whose answers start at
/// place `i`. A failed question ends it, a try that every fan took ends it
/// well, and running out of tries or of time is the value declined.
pub open spec fn setting(
    value: u8,
    fans: int,
    heard: Seq<Answer>,
    i: int,
    attempt: int,
    started: u64,
) -> Over<int, u8>
    decreases WRITE_ATTEMPTS - attempt,
{
    let end = i + try_len(fans);
    match first_failure(heard, i, end) {
        Some((k, f)) => Over::Done(k + 1, Err(f)),
        None => if heard.len() < end {
            Over::Ask(try_ask(value, fans, heard.len() - i))
        } else if all_took(value, fans, heard, i) {
            Over::Done(end, Ok(value))
        } else if crate::handshake::spent(started, heard[end - 1].at, SET_FAN_BUDGET) || attempt + 1
            >= WRITE_ATTEMPTS {
            Over::Done(end, Err(declined(value)))
        } else if heard.len() == end {
            Over::Ask(Ask::Sleep(SETTLING_PAUSE))
        } else {
            setting(value, fans, heard, end + 1, attempt + 1, started)
        },
    }
}

/// What a fan write does next. However it comes out, once a question has been
/// put the selector is put back at the end.
pub open spec fn setting_fan(value: u8, fans: int, prepared: bool, heard: Seq<Answer>) -> Step<u8> {
    match entered(prepared, heard) {
        Part::Ask(a) => Step::Ask(a),
        Part::Failed(f) => Step::End(Err(f)),
        Part::Ready(b) => match setting(value, fans, heard, b, 0, heard[b - 1].at) {
            Over::Ask(a) => Step::Ask(a),
            Over::Done(end, result) => if heard.len() == end {
                Step::Ask(Ask::Write(REG_FAN_SELECT, 0))
            } else {
                Step::End(result)
            },
        },
    }
}

fn find_failure(heard: &Vec<Answer>, from: usize, end: usize) -> (r: Option<(usize, Fault)>)
    ensures
        match first_failure(heard@, from as int, end as int) {
            Some((k, f)) => r matches Some((place, fault)) && place == k && fault == f && from <= k
                < heard@.len() && k < end,
            None => r is None,
        },
{
    let mut i: usize = from;
    while i < end && i < heard.len()
        invariant
            from <= i,
            first_failure(heard@, from as int, end as int) == first_failure(
                heard@,
                i as int,
                end as int,
            ),
        decreases end - i,
    {
        match heard[i].got {
            Err(f) => {
                return Some((i, f));
            },
            Ok(_) => {},
        }
        i += 1;
    }
    None
}

fn try_question(value: u8, fans: usize, k: usize) -> (r: Ask)
    requires
        1 <= fans <= 2,
        k < try_len(fans as int),
    ensures
        r == try_ask(value, fans as int, k as int),
{
    if k >= 3 * fans {
        Ask::Write(REG_FAN_SELECT, 0)
    } else if k % 3 == 0 {
        Ask::Write(REG_FAN_SELECT, (k / 3) as u8)
    } else if k % 3 == 1 {
        Ask::Write(REG_FAN_CTRL, value)
    } else {
        Ask::Read(REG_FAN_CTRL)
    }
}

fn every_fan_took(value: u8, fans: usize, heard: &Vec<Answer>, i: usize) -> (r: bool)
    requires
        1 <= fans <= 2,
        i + try_len(fans as int) <= heard@.len(),
    ensures
        r == all_took(value, fans as int, heard@, i as int),
{
    proof {
        assert(heard@.len() == heard.len());
    }
    let first = byte_of(&heard[i + 2]) & FAN_BITS == value & FAN_BITS;
    proof {
        assert(first == fan_took(value, heard@, i as int, 0));
    }
    if fans == 1 {
        return first;
    }
    let second = byte_of(&heard[i + 5]) & FAN_BITS == value & FAN_BITS;
    proof {
        assert(second == fan_took(value, heard@, i as int, 1));
    }
    first && second
}

fn set_tries(
    value: u8,
    fans: usize,
    heard: &Vec<Answer>,
    i: usize,
    attempt: u64,
    started: u64,
) -> (r: Over<usize, u8>)
    requires
        1 <= fans <= 2,
        i <= heard@.len(),
        attempt < WRITE_ATTEMPTS,
    ensures
        match setting(value, fans as int, heard@, i as int, attempt as int, started) {
            Over::Ask(a) => r == Over::<usize, u8>::Ask(a),
            Over::Done(end, result) => r matches Over::Done(place, outcome) && place == end
                && outcome == result && place <= heard@.len(),
        },
    decreases WRITE_ATTEMPTS - attempt,
{
    if heard.len() - i < 3 * fans + 1 {
        proof {
            same_first_failure(heard@, i as int, heard@.len() as int, i + try_len(fans as int));
        }
        return match find_failure(heard, i, heard.len()) {
            Some((k, f)) => Over::Done(k + 1, Err(f)),
            None => Over::Ask(try_question(value, fans, heard.len() - i)),
        };
    }
    let end: usize = i + (3 * fans + 1);
    match find_failure(heard, i, end) {
        Some((k, f)) => {
            return Over::Done(k + 1, Err(f));
        },
        None => {},
    }
    if every_fan_took(value, fans, heard, i) {
        return Over::Done(end, Ok(value));
    }
    if is_spent(started, heard[end - 1].at, SET_FAN_BUDGET) || attempt + 1 >= WRITE_ATTEMPTS {
        return Over::Done(
            end,
            Err(Fault::Call { function: "set_fan_declined", code: value as u32 }),
        );
    }
    if heard.len() == end {
        return Over::Ask(Ask::Sleep(SETTLING_PAUSE));
    }
    set_tries(value, fans, heard, end + 1, attempt + 1, started)
}

proof fn same_first_failure(heard: Seq<Answer>, i: int, short: int, long: int)
    requires
        heard.len() <= short <= long,
    ensures
        first_failure(heard, i, short) == first_failure(heard, i, long),
    decreases heard.len() - i,
{
    if i < heard.len() {
        same_first_failure(heard, i + 1, short, long);
    }
}

impl Ec {
    /// Sets the fan, on every fan the machine has, and proves it took.
    ///
    /// Each fan is verified through its own selector: reading back through
    /// the first alone would let the second decline silently.
    pub fn set_fan(&self, value: u8, heard: &Vec<Answer>) -> (r: Step<u8>)
        ensures
            r == setting_fan(value, self.fans(), self.prepared, heard@),
    {
        let fans = self.fan_count();
        match enter(self.prepared, heard) {
            Part::Ask(a) => Step::Ask(a),
            Part::Failed(f) => Step::End(Err(f)),
            Part::Ready(b) => {
                let started = heard[b - 1].at;
                match set_tries(value, fans, heard, b, 0, started) {
                    Over::Ask(a) => Step::Ask(a),
                    Over::Done(end, result) => if heard.len() == end {
                        Step::Ask(Ask::Write(REG_FAN_SELECT, 0))
                    } else {
                        Step::End(result)
                    },
                }
            },
        }
    }
}

// ---------------------------------------------------------------------------
// Handing the fan back
// ---------------------------------------------------------------------------

/// Handing one fan back and proving it, from place `i` on. What the fan
/// refused, if it did, comes with the place.
pub open spec fn fan_returned(heard: Seq<Answer>, i: int, fan: u8) -> Over<int, ()> {
    if i >= heard.len() {
        Over::Ask(Ask::Write(REG_FAN_SELECT, fan))
    } else {
        match heard[i].got {
            Err(f) => Over::Done(i + 1, Err(f)),
            Ok(_) => if i + 1 >= heard.len() {
                Over::Ask(Ask::Write(REG_FAN_CTRL, FAN_BIOS))
            } else {
                match heard[i + 1].got {
                    Err(f) => Over::Done(i + 2, Err(f)),
                    Ok(_) => if i + 2 >= heard.len() {
                        Over::Ask(Ask::Read(REG_FAN_CTRL))
                    } else {
                        match heard[i + 2].got {
                            Err(f) => Over::Done(i + 3, Err(f)),
                            Ok(seen) => if held(seen, FAN_BIOS) {
                                Over::Done(i + 3, Ok(()))
                            } else {
                                Over::Done(
                                    i + 3,
                                    Err(
                                        Fault::Call {
                                            function: "fan_write_declined",
                                            code: fan as u32,
                                        },
                                    ),
                                )
                            },
                        }
                    },
                }
            },
        }
    }
}

/// Writing the firmware flag to both selectors, whatever the fan count, and
/// the selector back, from place `i` on. Only the fans the machine has may
/// report failure, and one refusing is no reason to abandon the other.
pub open spec fn returning(fans: int, heard: Seq<Answer>, i: int) -> Step<()> {
    match fan_returned(heard, i, 0) {
        Over::Ask(a) => Step::Ask(a),
        Over::Done(j, first) => match fan_returned(heard, j, 1) {
            Over::Ask(a) => Step::Ask(a),
            Over::Done(k, second) => if k >= heard.len() {
                Step::Ask(Ask::Write(REG_FAN_SELECT, 0))
            } else {
                Step::End(
                    if fans == 2 && second is Err {
                        second
                    } else {
                        first
                    },
                )
            },
        },
    }
}

/// Running the module's setup, best effort, and then handing every fan back,
/// from place `i` on.
pub open spec fn handing_back(fans: int, prepared: bool, heard: Seq<Answer>, i: int) -> Step<()> {
    if prepared {
        returning(fans, heard, i)
    } else if i >= heard.len() {
        Step::Ask(Ask::Prepare)
    } else {
        returning(fans, heard, i + 1)
    }
}

/// What a handback does next, from try number `attempt` at the lock, at place
/// `i`. The lock is chased, and if it cannot be had the writes happen anyway.
pub open spec fn releasing(
    fans: int,
    prepared: bool,
    heard: Seq<Answer>,
    i: int,
    attempt: int,
) -> Step<()>
    decreases LOCK_ATTEMPTS - attempt,
{
    if attempt >= LOCK_ATTEMPTS {
        handing_back(fans, prepared, heard, i)
    } else if i >= heard.len() {
        Step::Ask(Ask::Lock)
    } else if heard[i].got is Ok {
        handing_back(fans, prepared, heard, i + 1)
    } else if attempt + 1 >= LOCK_ATTEMPTS {
        handing_back(fans, prepared, heard, i + 1)
    } else if i + 1 >= heard.len() {
        Step::Ask(Ask::Sleep(LOCK_PAUSE))
    } else {
        releasing(fans, prepared, heard, i + 2, attempt + 1)
    }
}

fn return_fan(heard: &Vec<Answer>, i: usize, fan: u8) -> (r: Over<usize, ()>)
    requires
        i <= heard@.len(),
    ensures
        match fan_returned(heard@, i as int, fan) {
            Over::Ask(a) => r == Over::<usize, ()>::Ask(a),
            Over::Done(end, result) => r matches Over::Done(place, outcome) && place == end
                && outcome == result && place <= heard@.len(),
        },
{
    if i >= heard.len() {
        return Over::Ask(Ask::Write(REG_FAN_SELECT, fan));
    }
    match heard[i].got {
        Err(f) => {
            return Over::Done(i + 1, Err(f));
        },
        Ok(_) => {},
    }
    if heard.len() - i <= 1 {
        return Over::Ask(Ask::Write(REG_FAN_CTRL, FAN_BIOS));
    }
    match heard[i + 1].got {
        Err(f) => {
            return Over::Done(i + 2, Err(f));
        },
        Ok(_) => {},
    }
    if heard.len() - i <= 2 {
        return Over::Ask(Ask::Read(REG_FAN_CTRL));
    }
    match heard[i + 2].got {
        Err(f) => Over::Done(i + 3, Err(f)),
        Ok(seen) => if seen & FAN_BITS == FAN_BIOS & FAN_BITS {
            Over::Done(i + 3, Ok(()))
        } else {
            Over::Done(
                i + 3,
                Err(Fault::Call { function: "fan_write_declined", code: fan as u32 }),
            )
        },
    }
}

impl Ec {
    fn write_bios_verified(&self, heard: &Vec<Answer>, from: usize) -> (r: Step<()>)
        requires
            from <= heard@.len(),
        ensures
            r == handing_back(self.fans(), self.prepared, heard@, from as int),
    {
        let mut i: usize = from;
        if !self.prepared {
            if i >= heard.len() {
                return Step::Ask(Ask::Prepare);
            }
            i += 1;
        }
        match return_fan(heard, i, 0) {
            Over::Ask(a) => Step::Ask(a),
            Over::Done(j, first) => match return_fan(heard, j, 1) {
                Over::Ask(a) => Step::Ask(a),
                Over::Done(k, second) => {
                    if k >= heard.len() {
                        return Step::Ask(Ask::Write(REG_FAN_SELECT, 0));
                    }
                    if !self.single_fan && second.is_err() {
                        Step::End(second)
                    } else {
                        Step::End(first)
                    }
                },
            },
        }
    }

    /// Hands the fan back to the firmware. The one operation that must work,
    /// and it never ends without having tried to write the register.
    pub fn release_to_bios(&self, heard: &Vec<Answer>) -> (r: Step<()>)
        ensures
            r == releasing(self.fans(), self.prepared, heard@, 0, 0),
    {
        let mut i: usize = 0;
        let mut attempt: u64 = 0;
        while attempt < LOCK_ATTEMPTS
            invariant
                i <= heard@.len(),
                attempt <= LOCK_ATTEMPTS,
                releasing(self.fans(), self.prepared, heard@, 0, 0) == releasing(
                    self.fans(),
                    self.prepared,
                    heard@,
                    i as int,
                    attempt as int,
                ),
            decreases LOCK_ATTEMPTS - attempt,
        {
            if i >= heard.len() {
                return Step::Ask(Ask::Lock);
            }
            if heard[i].got.is_ok() || attempt + 1 >= LOCK_ATTEMPTS {
                return self.write_bios_verified(heard, i + 1);
            }
            if heard.len() - i <= 1 {
                return Step::Ask(Ask::Sleep(LOCK_PAUSE));
            }
            i += 2;
            attempt += 1;
        }
        self.write_bios_verified(heard, i)
    }
}

// ---------------------------------------------------------------------------
// Probing
// ---------------------------------------------------------------------------

/// Whether a fan register took the firmware handoff: the firmware flag on and
/// the disengage bit off.
pub open spec fn handed_off(v: u8) -> bool {
    v & FAN_BIOS != 0 && v & FAN_DISENGAGED == 0
}

/// Where proving control of the fan stands: a question, or the verdict, where
/// none is the proof made.
pub enum Proof {
    Ask(Ask),
    Verdict(Option<FailureView>),
}

/// Writing the firmware handoff and requiring it to hold, from try number
/// `attempt` on, at place `i`.
///
/// A write that lands but does not hold is tried again after a pause, and
/// only then is it a rejection. A write or a read that fails outright says
/// nothing about the machine.
pub open spec fn proving(heard: Seq<Answer>, i: int, attempt: int, started: u64) -> Proof
    decreases WRITE_ATTEMPTS - attempt,
{
    let w = if attempt > 0 {
        i + 1
    } else {
        i
    };
    if attempt > 0 && i >= heard.len() {
        Proof::Ask(Ask::Sleep(SETTLING_PAUSE))
    } else if w >= heard.len() {
        Proof::Ask(Ask::Write(REG_FAN_CTRL, FAN_BIOS))
    } else {
        match heard[w].got {
            Err(f) => Proof::Verdict(
                Some(FailureView::Unexamined("fan register not writable: "@ + f.words())),
            ),
            Ok(_) => if w + 1 >= heard.len() {
                Proof::Ask(Ask::Read(REG_FAN_CTRL))
            } else {
                match heard[w + 1].got {
                    Err(f) => Proof::Verdict(
                        Some(
                            FailureView::Unexamined(
                                "fan register unreadable after the handoff: "@ + f.words(),
                            ),
                        ),
                    ),
                    Ok(v) => if handed_off(v) {
                        Proof::Verdict(None)
                    } else if crate::handshake::spent(started, heard[w + 1].at, SAMPLE_BUDGET)
                        || attempt + 1 >= WRITE_ATTEMPTS {
                        Proof::Verdict(
                            Some(
                                FailureView::Rejected(
                                    "fan register did not hold a write: wrote "@
                                        + crate::text::hex_register(FAN_BIOS) + ", read back "@
                                        + crate::text::hex_register(v),
                                ),
                            ),
                        )
                    } else {
                        proving(heard, w + 2, attempt + 1, started)
                    },
                }
            },
        }
    }
}

/// A probe of a layout that got as far as the fan register and no further.
pub open spec fn cut_short(l: Layout, fan_ctrl: u8, why: Seq<char>) -> ProbeView {
    ProbeView {
        layout: l,
        fan_ctrl: Some(fan_ctrl),
        temps: None,
        failure: Some(FailureView::Unexamined(why)),
    }
}

/// The sensor bytes of a probe whose bank is answered from place `t` on.
pub open spec fn bank(heard: Seq<Answer>, t: int) -> Seq<u8> {
    Seq::new(PROBE_TEMPS as nat, |k: int| byte(heard[t + k]))
}

/// Judging a probe whose readings are all in, the bank from place `t` on, and
/// proving control of the fan when they read like a ThinkPad.
pub open spec fn judging(l: Layout, fan_ctrl: u8, heard: Seq<Answer>, t: int, started: u64) -> Step<
    ProbeView,
> {
    let temps = bank(heard, t);
    let found = |failure: Option<FailureView>|
        Step::End(
            Ok(ProbeView { layout: l, fan_ctrl: Some(fan_ctrl), temps: Some(temps), failure }),
        );
    if !crate::ec::fan_state(fan_ctrl) {
        found(
            Some(
                FailureView::Rejected(
                    "fan register "@ + crate::text::hex_register(fan_ctrl)
                        + " is not a fan state"@,
                ),
            ),
        )
    } else if !crate::ec::sensor_bank(temps) {
        found(
            Some(FailureView::Rejected("bank 0 does not read like temperature sensors"@)),
        )
    } else if crate::handshake::spent(started, heard[t + PROBE_TEMPS - 1].at, SAMPLE_BUDGET) {
        found(Some(FailureView::Unexamined("probe ran out of budget"@)))
    } else {
        match proving(heard, t + PROBE_TEMPS, 0, started) {
            Proof::Ask(a) => Step::Ask(a),
            Proof::Verdict(failure) => found(failure),
        }
    }
}

/// Reading the sensor bank from sensor `k` on, the bank answered from place
/// `t` on.
pub open spec fn surveying(
    l: Layout,
    fan_ctrl: u8,
    heard: Seq<Answer>,
    t: int,
    k: int,
    started: u64,
) -> Step<ProbeView>
    decreases PROBE_TEMPS - k,
{
    if k >= PROBE_TEMPS {
        judging(l, fan_ctrl, heard, t, started)
    } else if crate::handshake::spent(started, heard[t + k - 1].at, SAMPLE_BUDGET) {
        Step::End(Ok(cut_short(l, fan_ctrl, "probe ran out of budget"@)))
    } else if t + k >= heard.len() {
        Step::Ask(Ask::Read((REG_TEMP_BANK0 + k) as u8))
    } else {
        match heard[t + k].got {
            Err(f) => Step::End(Ok(cut_short(l, fan_ctrl, "sensors unreadable: "@ + f.words()))),
            Ok(_) => surveying(l, fan_ctrl, heard, t, k + 1, started),
        }
    }
}

/// Looking at a layout's registers, from place `i` on.
pub open spec fn looking(l: Layout, heard: Seq<Answer>, i: int, started: u64) -> Step<ProbeView> {
    if i >= heard.len() {
        Step::Ask(Ask::Read(REG_FAN_CTRL))
    } else {
        match heard[i].got {
            Err(f) => Step::End(
                Ok(crate::ec::unexamined_outright(l, "no handshake: "@ + f.words())),
            ),
            Ok(fan_ctrl) => surveying(l, fan_ctrl, heard, i + 1, 0, started),
        }
    }
}

/// What one look at a layout does next. A lock that cannot be had is the only
/// way it fails to run; a module whose own setup fails is rejected.
pub open spec fn probing(l: Layout, prepared: bool, started: u64, heard: Seq<Answer>) -> Step<
    ProbeView,
> {
    if heard.len() == 0 {
        Step::Ask(Ask::Lock)
    } else {
        match heard[0].got {
            Err(f) => Step::End(Err(f)),
            Ok(_) => if prepared {
                looking(l, heard, 1, started)
            } else if heard.len() == 1 {
                Step::Ask(Ask::Prepare)
            } else {
                match heard[1].got {
                    Err(f) => Step::End(
                        Ok(crate::ec::rejected_outright(l, "could not be set up: "@ + f.words())),
                    ),
                    Ok(_) => looking(l, heard, 2, started),
                }
            },
        }
    }
}

/// Whether what a probe says is what it should say, the value it ends with
/// taken by its view.
pub open spec fn probe_agrees(r: Step<Probe>, s: Step<ProbeView>) -> bool {
    match s {
        Step::Ask(a) => r == Step::<Probe>::Ask(a),
        Step::End(Ok(v)) => r matches Step::End(Ok(probe)) && probe@ == v,
        Step::End(Err(f)) => r == Step::<Probe>::End(Err(f)),
    }
}

/// A reason with the fault behind it.
fn because(reason: &str, f: &Fault) -> (r: String)
    ensures
        r@ == reason@ + f.words(),
{
    let mut s = reason.to_owned();
    s.append(f.to_string().as_str());
    s
}

/// Where proving control of the fan stands.
#[derive(Debug)]
enum Proven {
    Ask(Ask),
    Verdict(Option<ProbeFailure>),
}

spec fn proof_agrees(r: Proven, s: Proof) -> bool {
    match s {
        Proof::Ask(a) => r == Proven::Ask(a),
        Proof::Verdict(None) => r matches Proven::Verdict(None),
        Proof::Verdict(Some(f)) => r matches Proven::Verdict(Some(failure)) && failure@ == f,
    }
}

fn prove_fan_control(heard: &Vec<Answer>, i: usize, attempt: u64, started: u64) -> (r: Proven)
    requires
        i <= heard@.len(),
        attempt < WRITE_ATTEMPTS,
    ensures
        proof_agrees(r, proving(heard@, i as int, attempt as int, started)),
    decreases WRITE_ATTEMPTS - attempt,
{
    if attempt > 0 && i >= heard.len() {
        return Proven::Ask(Ask::Sleep(SETTLING_PAUSE));
    }
    let w: usize = if attempt > 0 {
        i + 1
    } else {
        i
    };
    if w >= heard.len() {
        return Proven::Ask(Ask::Write(REG_FAN_CTRL, FAN_BIOS));
    }
    match heard[w].got {
        Err(f) => {
            return Proven::Verdict(
                Some(ProbeFailure::Unexamined(because("fan register not writable: ", &f))),
            );
        },
        Ok(_) => {},
    }
    if heard.len() - w <= 1 {
        return Proven::Ask(Ask::Read(REG_FAN_CTRL));
    }
    match heard[w + 1].got {
        Err(f) => Proven::Verdict(
            Some(
                ProbeFailure::Unexamined(
                    because("fan register unreadable after the handoff: ", &f),
                ),
            ),
        ),
        Ok(v) => {
            if v & FAN_BIOS != 0 && v & FAN_DISENGAGED == 0 {
                return Proven::Verdict(None);
            }
            if is_spent(started, heard[w + 1].at, SAMPLE_BUDGET) || attempt + 1 >= WRITE_ATTEMPTS {
                let mut why = "fan register did not hold a write: wrote ".to_owned();
                push_hex_register(&mut why, FAN_BIOS);
                why.append(", read back ");
                push_hex_register(&mut why, v);
                return Proven::Verdict(Some(ProbeFailure::Rejected(why)));
            }
            prove_fan_control(heard, w + 2, attempt + 1, started)
        },
    }
}

fn judge(l: Layout, fan_ctrl: u8, heard: &Vec<Answer>, t: usize, started: u64) -> (r: Step<Probe>)
    requires
        t + PROBE_TEMPS <= heard@.len(),
    ensures
        probe_agrees(r, judging(l, fan_ctrl, heard@, t as int, started)),
{
    proof {
        assert(heard@.len() == heard.len());
    }
    let mut temps: [u8; 8] = [0u8, 0u8, 0u8, 0u8, 0u8, 0u8, 0u8, 0u8];
    let mut k: usize = 0;
    while k < PROBE_TEMPS
        invariant
            k <= PROBE_TEMPS,
            t + PROBE_TEMPS <= heard@.len(),
            heard@.len() == heard.len(),
            temps@.len() == PROBE_TEMPS,
            forall|j: int| 0 <= j < k ==> (#[trigger] temps@[j]) == byte(heard@[t + j]),
        decreases PROBE_TEMPS - k,
    {
        temps[k] = byte_of(&heard[t + k]);
        k += 1;
    }
    proof {
        assert(temps@ == bank(heard@, t as int));
    }
    let failure: Option<ProbeFailure> = if !plausible_fan_ctrl(fan_ctrl) {
        let mut why = "fan register ".to_owned();
        push_hex_register(&mut why, fan_ctrl);
        why.append(" is not a fan state");
        Some(ProbeFailure::Rejected(why))
    } else if !plausible_temps(&temps) {
        Some(ProbeFailure::Rejected("bank 0 does not read like temperature sensors".to_owned()))
    } else if is_spent(started, heard[t + PROBE_TEMPS - 1].at, SAMPLE_BUDGET) {
        Some(ProbeFailure::Unexamined("probe ran out of budget".to_owned()))
    } else {
        match prove_fan_control(heard, t + PROBE_TEMPS, 0, started) {
            Proven::Ask(a) => {
                return Step::Ask(a);
            },
            Proven::Verdict(failure) => failure,
        }
    };
    Step::End(Ok(Probe { layout: l, fan_ctrl: Some(fan_ctrl), temps: Some(temps), failure }))
}

fn survey(l: Layout, heard: &Vec<Answer>, i: usize, started: u64) -> (r: Step<Probe>)
    requires
        i <= heard@.len(),
    ensures
        probe_agrees(r, looking(l, heard@, i as int, started)),
{
    if i >= heard.len() {
        return Step::Ask(Ask::Read(REG_FAN_CTRL));
    }
    match heard[i].got {
        Err(f) => Step::End(Ok(Probe::unexamined(l, because("no handshake: ", &f)))),
        Ok(fan_ctrl) => {
            let t: usize = i + 1;
            let mut k: usize = 0;
            while k < PROBE_TEMPS
                invariant
                    k <= PROBE_TEMPS,
                    t == i + 1,
                    t + k <= heard@.len(),
                    heard@.len() == heard.len(),
                    looking(l, heard@, i as int, started) == surveying(
                        l,
                        fan_ctrl,
                        heard@,
                        t as int,
                        k as int,
                        started,
                    ),
                decreases PROBE_TEMPS - k,
            {
                let place: usize = t + k;
                if is_spent(started, heard[place - 1].at, SAMPLE_BUDGET) {
                    return Step::End(
                        Ok(
                            Probe {
                                layout: l,
                                fan_ctrl: Some(fan_ctrl),
                                temps: None,
                                failure: Some(
                                    ProbeFailure::Unexamined("probe ran out of budget".to_owned()),
                                ),
                            },
                        ),
                    );
                }
                if place >= heard.len() {
                    return Step::Ask(Ask::Read(REG_TEMP_BANK0 + (k as u8)));
                }
                match heard[place].got {
                    Err(f) => {
                        return Step::End(
                            Ok(
                                Probe {
                                    layout: l,
                                    fan_ctrl: Some(fan_ctrl),
                                    temps: None,
                                    failure: Some(
                                        ProbeFailure::Unexamined(
                                            because("sensors unreadable: ", &f),
                                        ),
                                    ),
                                },
                            ),
                        );
                    },
                    Ok(_) => {},
                }
                k += 1;
            }
            judge(l, fan_ctrl, heard, t, started)
        },
    }
}

/// What becomes of a layout's examination after one look.
#[derive(Debug)]
pub enum Looked {
    /// The last word.
    Verdict(Probe),
    /// Look again after this many milliseconds.
    Again(u64),
}

/// The evidence one look leaves: a lock that was busy says something is alive
/// and holding the controller, and nothing about the machine.
pub open spec fn seen(l: Layout, look: Result<Probe, Fault>) -> ProbeView {
    match look {
        Ok(probe) => probe@,
        Err(f) => crate::ec::unexamined_outright(l, f.words()),
    }
}

impl Ec {
    /// One locked look at whether a ThinkPad controller answers at this
    /// layout's ports, and the evidence either way. `started` is when the
    /// examination of the layout began.
    pub fn probe(&self, started: u64, heard: &Vec<Answer>) -> (r: Step<Probe>)
        ensures
            probe_agrees(r, probing(self.layout, self.prepared, started, heard@)),
    {
        if heard.len() == 0 {
            return Step::Ask(Ask::Lock);
        }
        match heard[0].got {
            Err(f) => Step::End(Err(f)),
            Ok(_) => {
                if self.prepared {
                    return survey(self.layout, heard, 1, started);
                }
                if heard.len() == 1 {
                    return Step::Ask(Ask::Prepare);
                }
                match heard[1].got {
                    Err(f) => Step::End(
                        Ok(Probe::rejected(self.layout, because("could not be set up: ", &f))),
                    ),
                    Ok(_) => survey(self.layout, heard, 2, started),
                }
            },
        }
    }

    /// Probes this layout with the persistence the running engine has: what
    /// to do with one look, finished at `now`, of an examination that began at
    /// `started`. The first definitive answer stands, and a transient failure
    /// stands once the budget has no room for another pause.
    pub fn probe_persistently(&self, look: Result<Probe, Fault>, started: u64, now: u64) -> (r:
        Looked)
        ensures
            if seen(self.layout, look).definitive() || now + PROBE_RETRY_PAUSE >= started
                + SAMPLE_BUDGET {
                r matches Looked::Verdict(probe) && probe@ == seen(self.layout, look)
            } else {
                r == Looked::Again(PROBE_RETRY_PAUSE)
            },
    {
        let probe = match look {
            Ok(probe) => probe,
            Err(f) => Probe::unexamined(self.layout, f.to_string()),
        };
        if probe.definitive() || is_spent(started, now, SAMPLE_BUDGET - PROBE_RETRY_PAUSE) {
            Looked::Verdict(probe)
        } else {
            Looked::Again(PROBE_RETRY_PAUSE)
        }
    }
}

// ---------------------------------------------------------------------------
// What the passes promise
// ---------------------------------------------------------------------------

/// Whether every answer in a stretch succeeded.
pub open spec fn all_well(heard: Seq<Answer>, from: int, to: int) -> bool {
    forall|k: int| from <= k < to ==> (#[trigger] heard[k]).got is Ok
}

/// The register writes and reads of a handback on a prepared controller that
/// grants the lock and answers everything: each fan selected, handed the
/// firmware flag and read back, and the selector parked.
pub open spec fn handback_script() -> Seq<Ask> {
    seq![
        Ask::Lock,
        Ask::Write(REG_FAN_SELECT, 0),
        Ask::Write(REG_FAN_CTRL, FAN_BIOS),
        Ask::Read(REG_FAN_CTRL),
        Ask::Write(REG_FAN_SELECT, 1),
        Ask::Write(REG_FAN_CTRL, FAN_BIOS),
        Ask::Read(REG_FAN_CTRL),
        Ask::Write(REG_FAN_SELECT, 0),
    ]
}

/// The handback reaches every fan: a controller that answers is asked exactly
/// the script, on either layout and whatever the fan count, and the handback
/// is reported good exactly when every fan the machine has read back as the
/// firmware's.
pub proof fn the_handback_reaches_every_fan(fans: int, heard: Seq<Answer>)
    requires
        1 <= fans <= 2,
        heard.len() <= 8,
        all_well(heard, 0, heard.len() as int),
    ensures
        heard.len() < 8 ==> releasing(fans, true, heard, 0, 0) == Step::<()>::Ask(
            handback_script()[heard.len() as int],
        ),
        heard.len() == 8 ==> {
            let first = held(byte(heard[3]), FAN_BIOS);
            let second = held(byte(heard[6]), FAN_BIOS);
            &&& releasing(fans, true, heard, 0, 0) is End
            &&& releasing(fans, true, heard, 0, 0) == Step::End(Ok::<(), Fault>(())) <==> first && (
            fans == 2 ==> second)
        },
{
    if heard.len() > 0 {
        assert(heard[0].got is Ok);
    }
    if heard.len() > 1 {
        assert(heard[1].got is Ok);
    }
    if heard.len() > 2 {
        assert(heard[2].got is Ok);
    }
    if heard.len() > 3 {
        assert(heard[3].got is Ok);
    }
    if heard.len() > 4 {
        assert(heard[4].got is Ok);
    }
    if heard.len() > 5 {
        assert(heard[5].got is Ok);
    }
    if heard.len() > 6 {
        assert(heard[6].got is Ok);
    }
}

/// Whether one fan, from some place on, was selected, written and read back
/// as the firmware's.
pub open spec fn proved_returned(heard: Seq<Answer>, fan: u8) -> bool {
    exists|i: int| 0 <= i < heard.len() && #[trigger] fan_returned(heard, i, fan) == Over::Done(i + 3, Ok::<(), Fault>(()))
}

proof fn returning_is_honest(fans: int, heard: Seq<Answer>, i: int)
    requires
        1 <= fans <= 2,
        0 <= i,
        returning(fans, heard, i) == Step::End(Ok::<(), Fault>(())),
    ensures
        proved_returned(heard, 0),
        fans == 2 ==> proved_returned(heard, 1),
{
    match fan_returned(heard, i, 0) {
        Over::Done(j, first) => {
            match fan_returned(heard, j, 1) {
                Over::Done(k, second) => {
                    assert(fan_returned(heard, i, 0) == Over::Done(i + 3, Ok::<(), Fault>(())));
                    if fans == 2 {
                        assert(fan_returned(heard, j, 1) == Over::Done(j + 3, Ok::<(), Fault>(())));
                    }
                },
                _ => {},
            }
        },
        _ => {},
    }
}

proof fn releasing_is_honest(fans: int, prepared: bool, heard: Seq<Answer>, i: int, attempt: int)
    requires
        1 <= fans <= 2,
        0 <= i,
        releasing(fans, prepared, heard, i, attempt) == Step::End(Ok::<(), Fault>(())),
    ensures
        proved_returned(heard, 0),
        fans == 2 ==> proved_returned(heard, 1),
    decreases LOCK_ATTEMPTS - attempt,
{
    if attempt < LOCK_ATTEMPTS && i < heard.len() && heard[i].got is Err && attempt + 1
        < LOCK_ATTEMPTS && i + 1 < heard.len() {
        releasing_is_honest(fans, prepared, heard, i + 2, attempt + 1);
    } else {
        let from = if attempt >= LOCK_ATTEMPTS {
            i
        } else {
            i + 1
        };
        assert(handing_back(fans, prepared, heard, from) == Step::End(Ok::<(), Fault>(())));
        returning_is_honest(
            fans,
            heard,
            if prepared {
                from
            } else {
                from + 1
            },
        );
    }
}

/// A handback reported good was proved on every fan the machine has, each
/// through its own selector, whatever else was heard on the way.
pub proof fn a_reported_handback_was_proved(fans: int, prepared: bool, heard: Seq<Answer>)
    requires
        1 <= fans <= 2,
        releasing(fans, prepared, heard, 0, 0) == Step::End(Ok::<(), Fault>(())),
    ensures
        proved_returned(heard, 0),
        fans == 2 ==> proved_returned(heard, 1),
{
    releasing_is_honest(fans, prepared, heard, 0, 0);
}

proof fn setting_is_honest(
    value: u8,
    fans: int,
    heard: Seq<Answer>,
    i: int,
    attempt: int,
    started: u64,
)
    requires
        setting(value, fans, heard, i, attempt, started) matches Over::Done(_, Ok(_)),
    ensures
        setting(value, fans, heard, i, attempt, started) matches Over::Done(_, Ok(v)) && v == value,
        exists|k: int| i <= k && #[trigger] all_took(value, fans, heard, k),
    decreases WRITE_ATTEMPTS - attempt,
{
    let end = i + try_len(fans);
    if first_failure(heard, i, end) is None && heard.len() > end && !all_took(value, fans, heard, i)
        && attempt + 1 < WRITE_ATTEMPTS && fans >= 0 {
        setting_is_honest(value, fans, heard, end + 1, attempt + 1, started);
    }
}

/// A fan write reported good reports the value asked for, and in one of its
/// tries every fan the machine has read it back.
pub proof fn a_reported_write_was_proved(value: u8, fans: int, prepared: bool, heard: Seq<Answer>)
    requires
        1 <= fans <= 2,
        setting_fan(value, fans, prepared, heard) matches Step::End(Ok(_)),
    ensures
        setting_fan(value, fans, prepared, heard) == Step::End(Ok::<u8, Fault>(value)),
        exists|k: int| 0 <= k && #[trigger] all_took(value, fans, heard, k),
{
    match entered(prepared, heard) {
        Part::Ready(b) => {
            setting_is_honest(value, fans, heard, b, 0, heard[b - 1].at);
        },
        _ => {},
    }
}

/// Whether a write is one a fan write may make: the selector on a real fan,
/// or the fan register with the value asked for.
pub open spec fn proper_write(value: u8, fans: int, ask: Ask) -> bool {
    ask matches Ask::Write(register, v) ==> {
        ||| register == REG_FAN_SELECT && v < fans
        ||| register == REG_FAN_CTRL && v == value
    }
}

proof fn setting_writes_properly(
    value: u8,
    fans: int,
    heard: Seq<Answer>,
    i: int,
    attempt: int,
    started: u64,
)
    requires
        1 <= fans <= 2,
        i <= heard.len(),
    ensures
        setting(value, fans, heard, i, attempt, started) matches Over::Ask(ask) ==> proper_write(
            value,
            fans,
            ask,
        ),
    decreases WRITE_ATTEMPTS - attempt,
{
    let end = i + try_len(fans);
    if first_failure(heard, i, end) is None && heard.len() > end && attempt + 1 < WRITE_ATTEMPTS {
        setting_writes_properly(value, fans, heard, end + 1, attempt + 1, started);
    }
}

/// A fan write writes nothing but the selector and the value asked for: no
/// other register, no other value, and never a selector the machine has no
/// fan behind.
pub proof fn a_fan_write_writes_nothing_else(
    value: u8,
    fans: int,
    prepared: bool,
    heard: Seq<Answer>,
)
    requires
        1 <= fans <= 2,
    ensures
        setting_fan(value, fans, prepared, heard) matches Step::Ask(ask) ==> proper_write(
            value,
            fans,
            ask,
        ),
{
    match entered(prepared, heard) {
        Part::Ready(b) => {
            setting_writes_properly(value, fans, heard, b, 0, heard[b - 1].at);
        },
        _ => {},
    }
}

/// A sample writes nothing but the selector.
pub proof fn a_sample_only_moves_the_selector(fans: int, prepared: bool, heard: Seq<Answer>)
    requires
        1 <= fans <= 2,
    ensures
        sampling(fans, prepared, heard) matches Step::Ask(Ask::Write(register, v)) ==> register
            == REG_FAN_SELECT && v < fans,
{
}

proof fn no_sample_trouble(fans: int, heard: Seq<Answer>, b: int, k: int, started: u64)
    requires
        0 <= k,
        0 <= b,
        forall|j: int|
            b <= j < heard.len() ==> (#[trigger] heard[j]).got is Ok && !crate::handshake::spent(
                started,
                heard[j].at,
                SAMPLE_BUDGET,
            ),
    ensures
        sample_first_trouble(fans, heard, b, k, started) is None,
    decreases sample_len(fans) - k,
{
    if k < sample_len(fans) && b + k < heard.len() {
        assert(heard[b + k].got is Ok);
        no_sample_trouble(fans, heard, b, k + 1, started);
    }
}

/// A controller that answers in time is sampled: a prepared one is asked each
/// question of the sample in turn and the selector once more, and what it
/// answered is the reading, on either layout.
pub proof fn a_controller_that_answers_is_sampled(fans: int, heard: Seq<Answer>)
    requires
        1 <= fans <= 2,
        1 <= heard.len() <= 2 + sample_len(fans),
        forall|j: int|
            0 <= j < heard.len() ==> (#[trigger] heard[j]).got is Ok && heard[j].at < heard[0].at
                + SAMPLE_BUDGET,
    ensures
        sampling(fans, true, heard) == (if heard.len() < 1 + sample_len(fans) {
            Step::Ask(sample_ask(fans, heard.len() - 1))
        } else if heard.len() == 1 + sample_len(fans) {
            Step::Ask(Ask::Write(REG_FAN_SELECT, 0))
        } else {
            Step::End(Ok(sample_state(fans, heard, 1)))
        }),
{
    assert(heard[0].got is Ok);
    no_sample_trouble(fans, heard, 1, 0, heard[0].at);
}

proof fn proving_writes_only_the_handoff(heard: Seq<Answer>, i: int, attempt: int, started: u64)
    ensures
        proving(heard, i, attempt, started) matches Proof::Ask(Ask::Write(register, v)) ==> register
            == REG_FAN_CTRL && v == FAN_BIOS,
    decreases WRITE_ATTEMPTS - attempt,
{
    if attempt + 1 < WRITE_ATTEMPTS {
        let w = if attempt > 0 {
            i + 1
        } else {
            i
        };
        proving_writes_only_the_handoff(heard, w + 2, attempt + 1, started);
    }
}

proof fn surveying_writes_late(
    l: Layout,
    fan_ctrl: u8,
    heard: Seq<Answer>,
    t: int,
    k: int,
    started: u64,
)
    ensures
        surveying(l, fan_ctrl, heard, t, k, started) matches Step::Ask(Ask::Write(register, v)) ==> {
            &&& register == REG_FAN_CTRL
            &&& v == FAN_BIOS
            &&& crate::ec::fan_state(fan_ctrl)
            &&& crate::ec::sensor_bank(bank(heard, t))
        },
        surveying(l, fan_ctrl, heard, t, k, started) matches Step::End(Ok(p)) ==> (p.passed() ==> {
            &&& crate::ec::fan_state(fan_ctrl)
            &&& crate::ec::sensor_bank(bank(heard, t))
            &&& p.fan_ctrl == Some(fan_ctrl)
            &&& proving(heard, t + PROBE_TEMPS, 0, started) == Proof::Verdict(None)
        }),
    decreases PROBE_TEMPS - k,
{
    if k < PROBE_TEMPS {
        surveying_writes_late(l, fan_ctrl, heard, t, k + 1, started);
    } else {
        proving_writes_only_the_handoff(heard, t + PROBE_TEMPS, 0, started);
    }
}

/// A probe writes nothing but the firmware handoff, and writes it only once
/// the fan register and the sensor bank have both read like a ThinkPad: a
/// window that failed the read checks takes no byte.
pub proof fn a_probe_writes_only_through_a_window_that_reads_right(
    l: Layout,
    prepared: bool,
    started: u64,
    heard: Seq<Answer>,
)
    ensures
        probing(l, prepared, started, heard) matches Step::Ask(Ask::Write(register, v)) ==> {
            let i = if prepared {
                1int
            } else {
                2int
            };
            &&& register == REG_FAN_CTRL
            &&& v == FAN_BIOS
            &&& heard[i].got matches Ok(fan_ctrl) && crate::ec::fan_state(fan_ctrl)
            &&& crate::ec::sensor_bank(bank(heard, i + 1))
        },
{
    let i = if prepared {
        1int
    } else {
        2int
    };
    if i < heard.len() && heard[i].got is Ok {
        surveying_writes_late(l, heard[i].got->Ok_0, heard, i + 1, 0, started);
    }
}

/// Whether an answer is a fan register that took the firmware handoff.
pub open spec fn handed_off_at(a: Answer) -> bool {
    a.got matches Ok(v) && handed_off(v)
}

proof fn proving_ends_handed_off(heard: Seq<Answer>, i: int, attempt: int, started: u64)
    requires
        proving(heard, i, attempt, started) == Proof::Verdict(None),
    ensures
        exists|k: int|
            i < k < heard.len() && handed_off_at(#[trigger] heard[k]),
    decreases WRITE_ATTEMPTS - attempt,
{
    let w = if attempt > 0 {
        i + 1
    } else {
        i
    };
    let v = heard[w + 1].got->Ok_0;
    if handed_off(v) {
        assert(heard[w + 1].got is Ok);
    } else {
        proving_ends_handed_off(heard, w + 2, attempt + 1, started);
    }
}

/// A probe that passes leaves the firmware in charge: the last thing read of
/// the fan register carried the firmware flag, and the evidence keeps the
/// value the register held before.
pub proof fn a_passing_probe_leaves_the_firmware_in_charge(
    l: Layout,
    prepared: bool,
    started: u64,
    heard: Seq<Answer>,
)
    requires
        probing(l, prepared, started, heard) matches Step::End(Ok(p)) && p.passed(),
    ensures
        ({
            let i = if prepared {
                1int
            } else {
                2int
            };
            &&& probing(l, prepared, started, heard) matches Step::End(Ok(p)) && p.fan_ctrl == Some(
                byte(heard[i]),
            )
            &&& exists|k: int|
                i < k < heard.len() && handed_off_at(#[trigger] heard[k])
        }),
{
    let i = if prepared {
        1int
    } else {
        2int
    };
    surveying_writes_late(l, heard[i].got->Ok_0, heard, i + 1, 0, started);
    proving_ends_handed_off(heard, i + 1 + PROBE_TEMPS, 0, started);
}

/// A probe fails to run only for want of the lock. Whatever else goes wrong is
/// evidence, one way or the other.
pub proof fn only_the_lock_stops_a_probe(
    l: Layout,
    prepared: bool,
    started: u64,
    heard: Seq<Answer>,
)
    ensures
        probing(l, prepared, started, heard) matches Step::End(Err(f)) ==> heard[0].got == Err::<
            u8,
            Fault,
        >(f),
{
    let i = if prepared {
        1int
    } else {
        2int
    };
    if i < heard.len() && heard[i].got is Ok {
        surveying_never_errs(l, heard[i].got->Ok_0, heard, i + 1, 0, started);
    }
}

proof fn surveying_never_errs(
    l: Layout,
    fan_ctrl: u8,
    heard: Seq<Answer>,
    t: int,
    k: int,
    started: u64,
)
    ensures
        !(surveying(l, fan_ctrl, heard, t, k, started) matches Step::End(Err(_))),
    decreases PROBE_TEMPS - k,
{
    if k < PROBE_TEMPS {
        surveying_never_errs(l, fan_ctrl, heard, t, k + 1, started);
    }
}

/// The fan a sample has selected before question `k`: the value of its last
/// write to the selector, 0x31, and 0 where it has made none.
pub open spec fn sample_selected(fans: int, prepared: bool, heard: Seq<Answer>, k: int) -> int
    decreases k,
{
    if k <= 0 {
        0
    } else {
        match sampling(fans, prepared, heard.take(k - 1)) {
            Step::Ask(Ask::Write(register, v)) => if register == 0x31 {
                v as int
            } else {
                sample_selected(fans, prepared, heard, k - 1)
            },
            _ => sample_selected(fans, prepared, heard, k - 1),
        }
    }
}

/// Whether every register a sample reads is answered out of these registers,
/// of which each fan has its own.
pub open spec fn answered_from(
    fans: int,
    prepared: bool,
    heard: Seq<Answer>,
    registers: spec_fn(int, int) -> u8,
) -> bool {
    forall|k: int|
        0 <= k < heard.len() ==> match sampling(fans, prepared, #[trigger] heard.take(k)) {
            Step::Ask(Ask::Read(register)) => heard[k].got is Ok ==> heard[k].got == Ok::<
                u8,
                Fault,
            >(registers(sample_selected(fans, prepared, heard, k), register as int)),
            _ => true,
        }
}

/// Whether a sensor byte means a reading: 0x00 and 0x80 mean none, and any
/// other is degrees, those above 127 below zero.
pub open spec fn means(b: u8, reading: Option<i8>) -> bool {
    match reading {
        None => b == 0x00 || b == 0x80,
        Some(t) => b != 0x00 && b != 0x80 && (t == b || t == b - 256),
    }
}

proof fn trouble_comes_no_earlier(
    fans: int,
    heard: Seq<Answer>,
    b: int,
    k: int,
    n: int,
    started: u64,
)
    requires
        0 <= k,
        0 <= b,
        0 <= n <= heard.len(),
        sample_first_trouble(fans, heard, b, k, started) is None,
    ensures
        sample_first_trouble(fans, heard.take(n), b, k, started) is None,
    decreases sample_len(fans) - k,
{
    if k < sample_len(fans) && b + k < n {
        assert(heard.take(n)[b + k] == heard[b + k]);
        trouble_comes_no_earlier(fans, heard, b, k + 1, n, started);
    }
}

proof fn no_trouble_means_answers(
    fans: int,
    heard: Seq<Answer>,
    b: int,
    k: int,
    j: int,
    started: u64,
)
    requires
        0 <= b,
        0 <= k <= j < sample_len(fans),
        b + j < heard.len(),
        sample_first_trouble(fans, heard, b, k, started) is None,
    ensures
        heard[b + j].got is Ok,
        sample_trouble(fans, j, heard[b + j], started) is None,
    decreases j - k,
{
    if k < j {
        no_trouble_means_answers(fans, heard, b, k + 1, j, started);
    }
}

/// How far into a conversation the first question of a sample comes.
spec fn sample_base(prepared: bool) -> int {
    if prepared {
        1
    } else {
        2
    }
}

proof fn a_good_sample_asked_everything(fans: int, prepared: bool, heard: Seq<Answer>, j: int)
    requires
        1 <= fans <= 2,
        sampling(fans, prepared, heard) matches Step::End(Ok(_)),
        0 <= j < sample_len(fans),
    ensures
        heard.len() >= sample_base(prepared) + sample_len(fans),
        sampling(fans, prepared, heard.take(sample_base(prepared) + j)) == Step::<EcStateView>::Ask(
            sample_ask(fans, j),
        ),
        heard[sample_base(prepared) + j].got is Ok,
        sampling(fans, prepared, heard) == Step::End(
            Ok::<EcStateView, Fault>(sample_state(fans, heard, sample_base(prepared))),
        ),
{
    let b = sample_base(prepared);
    let n = b + j;
    let before = heard.take(n);
    let started = heard[b - 1].at;
    assert(entered(prepared, heard) == Part::<int>::Ready(b));
    assert(before[0] == heard[0]);
    if !prepared {
        assert(before[1] == heard[1]);
    }
    assert(entered(prepared, before) == Part::<int>::Ready(b));
    assert(before[b - 1] == heard[b - 1]);
    trouble_comes_no_earlier(fans, heard, b, 0, n, started);
    no_trouble_means_answers(fans, heard, b, 0, j, started);
}

proof fn what_is_selected(fans: int, prepared: bool, heard: Seq<Answer>, j: int)
    requires
        1 <= fans <= 2,
        sampling(fans, prepared, heard) matches Step::End(Ok(_)),
        1 <= j <= sample_len(fans),
    ensures
        sample_selected(fans, prepared, heard, sample_base(prepared) + j) == (if j > 4 * fans {
            0
        } else {
            (j - 1) / 4
        }),
    decreases j,
{
    a_good_sample_asked_everything(fans, prepared, heard, j - 1);
    if j > 1 {
        what_is_selected(fans, prepared, heard, j - 1);
    }
}

proof fn a_good_sample_reads(
    fans: int,
    prepared: bool,
    heard: Seq<Answer>,
    registers: spec_fn(int, int) -> u8,
    j: int,
)
    requires
        1 <= fans <= 2,
        sampling(fans, prepared, heard) matches Step::End(Ok(_)),
        answered_from(fans, prepared, heard, registers),
        1 <= j < sample_len(fans),
        sample_ask(fans, j) is Read,
    ensures
        byte(heard[sample_base(prepared) + j]) == registers(
            if j > 4 * fans {
                0
            } else {
                (j - 1) / 4
            },
            sample_ask(fans, j)->Read_0 as int,
        ),
{
    a_good_sample_asked_everything(fans, prepared, heard, j);
    what_is_selected(fans, prepared, heard, j);
    let k = sample_base(prepared) + j;
    assert(sampling(fans, prepared, heard.take(k)) == Step::<EcStateView>::Ask(
        sample_ask(fans, j),
    ));
}

/// A sample that ends well has read the machine. Where every register is
/// answered out of a controller's registers, sensor 0 to 7 is the byte at 0x78
/// to 0x7f, sensor 8 to 11 the byte at 0xc0 to 0xc3; each fan's control
/// register, 0x2f, is read with that fan selected, and so is its speed, low
/// byte at 0x84 and high byte at 0x85. The second fan of a machine with one
/// mirrors the first and stands still.
pub proof fn a_sample_reads_the_machine(
    fans: int,
    prepared: bool,
    heard: Seq<Answer>,
    registers: spec_fn(int, int) -> u8,
    i: int,
    fan: int,
)
    requires
        1 <= fans <= 2,
        sampling(fans, prepared, heard) matches Step::End(Ok(_)),
        answered_from(fans, prepared, heard, registers),
        0 <= i < 12,
        0 <= fan < fans,
    ensures
        sampling(fans, prepared, heard) matches Step::End(Ok(state)) && {
            &&& state.sensors.len() == 12
            &&& means(
                if i < 8 {
                    registers(0, 0x78 + i)
                } else {
                    registers(0, 0xc0 + (i - 8))
                },
                state.sensors[i],
            )
            &&& state.fan_ctrl == registers(0, 0x2f)
            &&& state.fan_ctrl_per_fan.len() == 2
            &&& state.fan_ctrl_per_fan[fan] == registers(fan, 0x2f)
            &&& fans == 1 ==> state.fan_ctrl_per_fan[1] == registers(0, 0x2f)
            &&& state.fan_rpm.len() == 2
            &&& fans == 1 ==> state.fan_rpm[1] == 0
            &&& ({
                let rpm = registers(fan, 0x84) + 256 * registers(fan, 0x85);
                state.fan_rpm[fan] == (if rpm <= 8191 {
                    rpm
                } else {
                    0
                })
            })
        },
{
    a_good_sample_asked_everything(fans, prepared, heard, 0);
    let b = sample_base(prepared);
    let j = 4 * fans + 1 + i;
    a_good_sample_reads(fans, prepared, heard, registers, j);
    assert(sample_ask(fans, j) == Ask::Read(
        (if i < 8 {
            0x78 + i
        } else {
            0xc0 + (i - 8)
        }) as u8,
    ));
    a_good_sample_reads(fans, prepared, heard, registers, 1);
    a_good_sample_reads(fans, prepared, heard, registers, 4 * fan + 1);
    a_good_sample_reads(fans, prepared, heard, registers, 4 * fan + 2);
    a_good_sample_reads(fans, prepared, heard, registers, 4 * fan + 3);
}

/// A sample that ends well heard no failure, and no sensor was asked for once
/// 3 seconds had passed since it began.
pub proof fn a_good_sample_was_answered_in_time(
    fans: int,
    prepared: bool,
    heard: Seq<Answer>,
    j: int,
)
    requires
        1 <= fans <= 2,
        sampling(fans, prepared, heard) matches Step::End(Ok(_)),
        0 <= j < 4 * fans + 13,
    ensures
        ({
            let b = if prepared {
                1int
            } else {
                2int
            };
            &&& heard.len() > b + j
            &&& heard[b + j].got is Ok
            &&& 4 * fans <= j < 4 * fans + 12 ==> heard[b + j].at < heard[b - 1].at + 3000
        }),
{
    a_good_sample_asked_everything(fans, prepared, heard, j);
    no_trouble_means_answers(
        fans,
        heard,
        sample_base(prepared),
        0,
        j,
        heard[sample_base(prepared) - 1].at,
    );
}

proof fn failures_of_a_prefix(heard: Seq<Answer>, i: int, end: int, n: int)
    requires
        0 <= i,
        end <= n <= heard.len(),
    ensures
        first_failure(heard.take(n), i, end) == first_failure(heard, i, end),
    decreases end - i,
{
    if i < end {
        assert(heard.take(n)[i] == heard[i]);
        failures_of_a_prefix(heard, i + 1, end, n);
    }
}

proof fn no_failure_before(heard: Seq<Answer>, i: int, end: int, n: int)
    requires
        0 <= i,
        0 <= n <= heard.len(),
        first_failure(heard, i, end) is None,
    ensures
        first_failure(heard.take(n), i, end) is None,
    decreases end - i,
{
    if i < end && i < n {
        assert(heard.take(n)[i] == heard[i]);
        no_failure_before(heard, i + 1, end, n);
    }
}

proof fn no_failure_means_answers(heard: Seq<Answer>, i: int, end: int, k: int)
    requires
        0 <= i <= k < end,
        k < heard.len(),
        first_failure(heard, i, end) is None,
    ensures
        heard[k].got is Ok,
    decreases k - i,
{
    if i < k {
        no_failure_means_answers(heard, i + 1, end, k);
    }
}

proof fn answers_mean_no_failure(heard: Seq<Answer>, i: int, end: int)
    requires
        0 <= i,
        forall|k: int| i <= k < heard.len() ==> (#[trigger] heard[k]).got is Ok,
    ensures
        first_failure(heard, i, end) is None,
    decreases end - i,
{
    if i < end && i < heard.len() {
        answers_mean_no_failure(heard, i + 1, end);
    }
}

proof fn a_failure_was_heard(heard: Seq<Answer>, i: int, end: int)
    requires
        0 <= i,
    ensures
        first_failure(heard, i, end) matches Some((k, f)) ==> i <= k < heard.len() && k < end
            && heard[k].got == Err::<u8, Fault>(f),
    decreases end - i,
{
    if i < end && i < heard.len() {
        a_failure_was_heard(heard, i + 1, end);
    }
}

/// The last try at a fan write that ended well.
proof fn the_try_that_took(
    value: u8,
    fans: int,
    heard: Seq<Answer>,
    i: int,
    attempt: int,
    started: u64,
) -> (at: int)
    requires
        1 <= fans <= 2,
        0 <= i,
        setting(value, fans, heard, i, attempt, started) matches Over::Done(_, Ok(_)),
    ensures
        i <= at,
        at + try_len(fans) <= heard.len(),
        setting(value, fans, heard, i, attempt, started) == Over::Done(
            at + try_len(fans),
            Ok::<u8, Fault>(value),
        ),
        all_took(value, fans, heard, at),
        first_failure(heard, at, at + try_len(fans)) is None,
        forall|m: int|
            0 <= m < try_len(fans) ==> setting(
                value,
                fans,
                #[trigger] heard.take(at + m),
                i,
                attempt,
                started,
            ) == Over::<int, u8>::Ask(try_ask(value, fans, m)),
    decreases WRITE_ATTEMPTS - attempt,
{
    let end = i + try_len(fans);
    if all_took(value, fans, heard, i) {
        assert forall|m: int| 0 <= m < try_len(fans) implies setting(
            value,
            fans,
            #[trigger] heard.take(i + m),
            i,
            attempt,
            started,
        ) == Over::<int, u8>::Ask(try_ask(value, fans, m)) by {
            no_failure_before(heard, i, end, i + m);
        }
        i
    } else {
        let at = the_try_that_took(value, fans, heard, end + 1, attempt + 1, started);
        assert forall|m: int| 0 <= m < try_len(fans) implies setting(
            value,
            fans,
            #[trigger] heard.take(at + m),
            i,
            attempt,
            started,
        ) == Over::<int, u8>::Ask(try_ask(value, fans, m)) by {
            let before = heard.take(at + m);
            failures_of_a_prefix(heard, i, end, at + m);
            assert(before[end - 1] == heard[end - 1]);
            if fan_took(value, before, i, 0) && (fans == 2 ==> fan_took(value, before, i, 1)) {
                assert(fan_took(value, heard, i, 0));
                assert(fans == 2 ==> fan_took(value, heard, i, 1));
                assert(forall|fan: int|
                    0 <= fan < fans ==> #[trigger] fan_took(value, heard, i, fan));
            }
            assert(!all_took(value, fans, before, i));
        }
        at
    }
}

/// A fan write reported good was seen to hold. Somewhere in the conversation
/// each fan of the machine was selected through 0x31, given the value through
/// 0x2f and read back, and what came back was the value in the firmware flag,
/// the disengage bit and the level.
pub proof fn a_reported_write_was_read_back(
    value: u8,
    fans: int,
    prepared: bool,
    heard: Seq<Answer>,
    fan: int,
)
    requires
        1 <= fans <= 2,
        setting_fan(value, fans, prepared, heard) matches Step::End(Ok(_)),
        0 <= fan < fans,
    ensures
        setting_fan(value, fans, prepared, heard) == Step::End(Ok::<u8, Fault>(value)),
        exists|k: int|
            {
                &&& 0 <= k
                &&& k + 2 < heard.len()
                &&& setting_fan(value, fans, prepared, #[trigger] heard.take(k)) == Step::<u8>::Ask(
                    Ask::Write(0x31, fan as u8),
                )
                &&& setting_fan(value, fans, prepared, heard.take(k + 1)) == Step::<u8>::Ask(
                    Ask::Write(0x2f, value),
                )
                &&& setting_fan(value, fans, prepared, heard.take(k + 2)) == Step::<u8>::Ask(
                    Ask::Read(0x2f),
                )
                &&& heard[k + 2].got matches Ok(seen) && seen & 0xc7 == value & 0xc7
            },
{
    let b = sample_base(prepared);
    assert(entered(prepared, heard) == Part::<int>::Ready(b));
    let started = heard[b - 1].at;
    let at = the_try_that_took(value, fans, heard, b, 0, started);
    let k = at + 3 * fan;
    assert(fan_took(value, heard, at, fan));
    no_failure_means_answers(heard, at, at + try_len(fans), k + 2);
    assert forall|n: int| b <= n <= heard.len() implies entered(
        prepared,
        #[trigger] heard.take(n),
    ) == Part::<int>::Ready(b) && heard.take(n)[b - 1] == heard[b - 1] by {
        assert(heard.take(n)[0] == heard[0]);
        if !prepared {
            assert(heard.take(n)[1] == heard[1]);
        }
    }
    assert(entered(prepared, heard.take(at + 3 * fan)) == Part::<int>::Ready(b));
    assert(entered(prepared, heard.take(at + (3 * fan + 1))) == Part::<int>::Ready(b));
    assert(entered(prepared, heard.take(at + (3 * fan + 2))) == Part::<int>::Ready(b));
    assert(setting(value, fans, heard.take(at + 3 * fan), b, 0, started) == Over::<int, u8>::Ask(
        try_ask(value, fans, 3 * fan),
    ));
    assert(setting(value, fans, heard.take(at + (3 * fan + 1)), b, 0, started) == Over::<
        int,
        u8,
    >::Ask(try_ask(value, fans, 3 * fan + 1)));
    assert(setting(value, fans, heard.take(at + (3 * fan + 2)), b, 0, started) == Over::<
        int,
        u8,
    >::Ask(try_ask(value, fans, 3 * fan + 2)));
    assert(at + (3 * fan + 1) == k + 1 && at + (3 * fan + 2) == k + 2);
    assert(setting_fan(value, fans, prepared, heard.take(k)) == Step::<u8>::Ask(
        Ask::Write(0x31, fan as u8),
    ));
}

/// A fan write whose every question is answered, and whose every fan reads
/// back the value, is reported good at the first try.
pub proof fn a_write_that_holds_is_reported_good(
    value: u8,
    fans: int,
    prepared: bool,
    heard: Seq<Answer>,
)
    requires
        1 <= fans <= 2,
        forall|k: int| 0 <= k < heard.len() ==> (#[trigger] heard[k]).got is Ok,
        ({
            let b = if prepared {
                1int
            } else {
                2int
            };
            &&& heard.len() == b + 3 * fans + 2
            &&& heard[b + 2].got->Ok_0 & 0xc7 == value & 0xc7
            &&& fans == 2 ==> heard[b + 5].got->Ok_0 & 0xc7 == value & 0xc7
        }),
    ensures
        setting_fan(value, fans, prepared, heard) == Step::End(Ok::<u8, Fault>(value)),
{
    let b = sample_base(prepared);
    assert(heard[0].got is Ok && heard[1].got is Ok);
    answers_mean_no_failure(heard, b, b + try_len(fans));
    assert(heard[b + 2].got is Ok && heard[b + 5 - 3 * (2 - fans)].got is Ok);
    assert(fan_took(value, heard, b, 0));
    assert(fans == 2 ==> fan_took(value, heard, b, 1));
    assert forall|fan: int| 0 <= fan < fans implies #[trigger] fan_took(value, heard, b, fan) by {
        assert(fan == 0 || fan == 1);
    }
    assert(all_took(value, fans, heard, b));
}

proof fn trying_ends_honestly(
    value: u8,
    fans: int,
    heard: Seq<Answer>,
    i: int,
    attempt: int,
    started: u64,
)
    requires
        1 <= fans <= 2,
        0 <= i,
    ensures
        setting(value, fans, heard, i, attempt, started) matches Over::Done(end, result) ==> {
            &&& i < end <= heard.len()
            &&& result matches Err(f) ==> {
                ||| exists|k: int| 0 <= k < heard.len() && (#[trigger] heard[k]).got == Err::<u8, Fault>(f)
                ||| f == declined(value) && (heard[end - 1].at >= started + 5000 || end >= i + (5
                    - attempt) * (3 * fans + 2) - 1)
            }
        },
    decreases WRITE_ATTEMPTS - attempt,
{
    let end = i + try_len(fans);
    a_failure_was_heard(heard, i, end);
    if first_failure(heard, i, end) is None && heard.len() > end && attempt + 1 < WRITE_ATTEMPTS {
        trying_ends_honestly(value, fans, heard, end + 1, attempt + 1, started);
        assert((5 - attempt) * (3 * fans + 2) == (5 - (attempt + 1)) * (3 * fans + 2) + (3 * fans
            + 2)) by (nonlinear_arith);
    }
    if attempt + 1 >= WRITE_ATTEMPTS {
        assert((5 - attempt) * (3 * fans + 2) <= 3 * fans + 2) by (nonlinear_arith)
            requires
                attempt >= 4,
                1 <= fans,
        ;
    }
}

/// A fan write ends badly only for a reason: a question that failed, whose
/// fault it reports, or a value declined, and it is declined only after five
/// tries or five seconds.
pub proof fn a_write_fails_for_a_reason(value: u8, fans: int, prepared: bool, heard: Seq<Answer>)
    requires
        1 <= fans <= 2,
    ensures
        setting_fan(value, fans, prepared, heard) matches Step::End(Err(f)) ==> {
            ||| exists|k: int| 0 <= k < heard.len() && (#[trigger] heard[k]).got == Err::<u8, Fault>(f)
            ||| {
                &&& f == (Fault::Call { function: "set_fan_declined", code: value as u32 })
                &&& heard.len() >= 5 * (3 * fans + 2) || exists|k: int|
                    0 <= k < heard.len() && (#[trigger] heard[k]).at >= heard[if prepared {
                        0int
                    } else {
                        1int
                    }].at + 5000
            }
        },
{
    match entered(prepared, heard) {
        Part::Ready(b) => {
            trying_ends_honestly(value, fans, heard, b, 0, heard[b - 1].at);
        },
        Part::Failed(f) => {
            assert(heard[0].got == Err::<u8, Fault>(f) || heard[1].got == Err::<u8, Fault>(f));
        },
        _ => {},
    }
}

/// The last thing a sample asks before it ends, once it has got past the lock
/// and the setup, is to put 0 back into the selector, 0x31.
pub proof fn a_sample_parks_the_selector(fans: int, prepared: bool, heard: Seq<Answer>)
    requires
        1 <= fans <= 2,
        heard.len() > (if prepared {
            1int
        } else {
            2int
        }),
        sampling(fans, prepared, heard) is End,
        sampling(fans, prepared, heard.drop_last()) is Ask,
    ensures
        sampling(fans, prepared, heard.drop_last()) == Step::<EcStateView>::Ask(
            Ask::Write(0x31, 0),
        ),
{
    let b = sample_base(prepared);
    let before = heard.drop_last();
    assert(before[0] == heard[0]);
    if !prepared {
        assert(before[1] == heard[1]);
    }
    assert(before[b - 1] == heard[b - 1]);
    if entered(prepared, heard) is Ready {
        trouble_in_a_prefix(fans, heard, b, 0, heard.len() - 1, heard[b - 1].at);
        assert(before == heard.take(heard.len() - 1));
    }
}

proof fn trouble_in_a_prefix(
    fans: int,
    heard: Seq<Answer>,
    b: int,
    k: int,
    n: int,
    started: u64,
)
    requires
        0 <= k,
        0 <= b,
        0 <= n <= heard.len(),
    ensures
        match sample_first_trouble(fans, heard, b, k, started) {
            None => sample_first_trouble(fans, heard.take(n), b, k, started) is None,
            Some((j, f)) => b + j < n ==> sample_first_trouble(fans, heard.take(n), b, k, started)
                == Some((j, f)),
        },
        sample_first_trouble(fans, heard, b, k, started) matches Some((j, f)) ==> k <= j && b + j
            < heard.len(),
    decreases sample_len(fans) - k,
{
    if k < sample_len(fans) && b + k < heard.len() {
        if b + k < n {
            assert(heard.take(n)[b + k] == heard[b + k]);
        }
        trouble_in_a_prefix(fans, heard, b, k + 1, n, started);
    }
}

proof fn trying_in_a_prefix(
    value: u8,
    fans: int,
    heard: Seq<Answer>,
    i: int,
    attempt: int,
    n: int,
    started: u64,
)
    requires
        1 <= fans <= 2,
        0 <= i,
        0 <= n <= heard.len(),
        setting(value, fans, heard, i, attempt, started) matches Over::Done(end, _) && end <= n,
    ensures
        setting(value, fans, heard.take(n), i, attempt, started) == setting(
            value,
            fans,
            heard,
            i,
            attempt,
            started,
        ),
    decreases WRITE_ATTEMPTS - attempt,
{
    let end = i + try_len(fans);
    trying_ends_honestly(value, fans, heard, i, attempt, started);
    a_failure_was_heard(heard, i, end);
    if first_failure(heard, i, end) is Some {
        failure_in_a_prefix(heard, i, end, n);
    } else if heard.len() >= end {
        if !all_took(value, fans, heard, i) && attempt + 1 < WRITE_ATTEMPTS
            && !crate::handshake::spent(started, heard[end - 1].at, SET_FAN_BUDGET) && heard.len()
            > end {
            trying_ends_honestly(value, fans, heard, end + 1, attempt + 1, started);
            trying_in_a_prefix(value, fans, heard, end + 1, attempt + 1, n, started);
        }
        assert(end <= n);
        failures_of_a_prefix(heard, i, end, n);
        assert(heard.take(n)[end - 1] == heard[end - 1]);
        let before = heard.take(n);
        assert forall|fan: int| 0 <= fan < fans implies #[trigger] fan_took(value, before, i, fan)
            == fan_took(value, heard, i, fan) by {
            assert(before[i + 3 * fan + 2] == heard[i + 3 * fan + 2]);
        }
        if all_took(value, fans, before, i) {
            assert forall|fan: int| 0 <= fan < fans implies #[trigger] fan_took(
                value,
                heard,
                i,
                fan,
            ) by {
                assert(fan_took(value, before, i, fan));
            }
        }
    }
}

proof fn failure_in_a_prefix(heard: Seq<Answer>, i: int, end: int, n: int)
    requires
        0 <= i,
        0 <= n <= heard.len(),
        first_failure(heard, i, end) matches Some((k, _)) && k < n,
    ensures
        first_failure(heard.take(n), i, end) == first_failure(heard, i, end),
    decreases end - i,
{
    a_failure_was_heard(heard, i, end);
    if i < end && i < heard.len() {
        assert(heard.take(n)[i] == heard[i]);
        if heard[i].got is Ok {
            a_failure_was_heard(heard, i + 1, end);
            failure_in_a_prefix(heard, i + 1, end, n);
        }
    }
}

/// The last thing a fan write asks before it ends, once it has got past the
/// lock and the setup, is to put 0 back into the selector, 0x31.
pub proof fn a_write_parks_the_selector(value: u8, fans: int, prepared: bool, heard: Seq<Answer>)
    requires
        1 <= fans <= 2,
        heard.len() > (if prepared {
            1int
        } else {
            2int
        }),
        setting_fan(value, fans, prepared, heard) is End,
        setting_fan(value, fans, prepared, heard.drop_last()) is Ask,
    ensures
        setting_fan(value, fans, prepared, heard.drop_last()) == Step::<u8>::Ask(
            Ask::Write(0x31, 0),
        ),
{
    let b = sample_base(prepared);
    let before = heard.drop_last();
    let n = heard.len() - 1;
    assert(before[0] == heard[0]);
    if !prepared {
        assert(before[1] == heard[1]);
    }
    assert(before[b - 1] == heard[b - 1]);
    if entered(prepared, heard) is Ready {
        let started = heard[b - 1].at;
        trying_ends_honestly(value, fans, heard, b, 0, started);
        assert(before == heard.take(n));
        trying_in_a_prefix(value, fans, heard, b, 0, n, started);
    }
}

/// Where the writes of a handback start.
proof fn where_the_writes_start(
    fans: int,
    prepared: bool,
    heard: Seq<Answer>,
    i: int,
    attempt: int,
) -> (at: int)
    requires
        0 <= i,
        0 <= attempt,
        releasing(fans, prepared, heard, i, attempt) is End,
    ensures
        i <= at <= heard.len(),
        forall|n: int|
            at <= n <= heard.len() ==> releasing(
                fans,
                prepared,
                #[trigger] heard.take(n),
                i,
                attempt,
            ) == returning(fans, heard.take(n), at),
        releasing(fans, prepared, heard, i, attempt) == returning(fans, heard, at),
    decreases LOCK_ATTEMPTS - attempt,
{
    let skip = if prepared {
        0int
    } else {
        1int
    };
    if attempt >= LOCK_ATTEMPTS {
        i + skip
    } else if heard[i].got is Ok || attempt + 1 >= LOCK_ATTEMPTS {
        assert forall|n: int| i + 1 + skip <= n <= heard.len() implies releasing(
            fans,
            prepared,
            #[trigger] heard.take(n),
            i,
            attempt,
        ) == returning(fans, heard.take(n), i + 1 + skip) by {
            assert(heard.take(n)[i] == heard[i]);
        }
        i + 1 + skip
    } else {
        let at = where_the_writes_start(fans, prepared, heard, i + 2, attempt + 1);
        assert forall|n: int| at <= n <= heard.len() implies releasing(
            fans,
            prepared,
            #[trigger] heard.take(n),
            i,
            attempt,
        ) == returning(fans, heard.take(n), at) by {
            assert(heard.take(n)[i] == heard[i]);
        }
        at
    }
}

proof fn a_fan_returned_in_a_prefix(heard: Seq<Answer>, i: int, fan: u8, n: int)
    requires
        0 <= i,
        0 <= n <= heard.len(),
        fan_returned(heard, i, fan) matches Over::Done(end, _) && end <= n,
    ensures
        fan_returned(heard.take(n), i, fan) == fan_returned(heard, i, fan),
        fan_returned(heard, i, fan) matches Over::Done(end, _) && i < end <= i + 3,
{
    let before = heard.take(n);
    if i < n {
        assert(before[i] == heard[i]);
    }
    if i + 1 < n {
        assert(before[i + 1] == heard[i + 1]);
    }
    if i + 2 < n {
        assert(before[i + 2] == heard[i + 2]);
    }
}

proof fn a_returned_fan_was_asked(heard: Seq<Answer>, i: int, fan: u8)
    requires
        0 <= i,
        fan_returned(heard, i, fan) matches Over::Done(_, Ok(_)),
    ensures
        i + 3 <= heard.len(),
        fan_returned(heard, i, fan) == Over::Done(i + 3, Ok::<(), Fault>(())),
        fan_returned(heard.take(i), i, fan) == Over::<int, ()>::Ask(Ask::Write(0x31, fan)),
        fan_returned(heard.take(i + 1), i, fan) == Over::<int, ()>::Ask(Ask::Write(0x2f, 0x80)),
        fan_returned(heard.take(i + 2), i, fan) == Over::<int, ()>::Ask(Ask::Read(0x2f)),
        heard[i + 2].got matches Ok(seen) && seen & 0xc7 == 0x80,
{
    assert(heard.take(i + 1)[i] == heard[i]);
    assert(heard.take(i + 2)[i] == heard[i]);
    assert(heard.take(i + 2)[i + 1] == heard[i + 1]);
    assert(0x80u8 & 0xc7u8 == 0x80u8) by (bit_vector);
}

/// A handback reported good was seen to hold: every fan of the machine was
/// selected through 0x31, given 0x80 through 0x2f and read back with the
/// firmware flag alone in the bits that carry meaning.
pub proof fn a_reported_handback_was_read_back(
    fans: int,
    prepared: bool,
    heard: Seq<Answer>,
    fan: int,
)
    requires
        1 <= fans <= 2,
        releasing(fans, prepared, heard, 0, 0) matches Step::End(Ok(_)),
        0 <= fan < fans,
    ensures
        exists|k: int|
            {
                &&& 0 <= k
                &&& k + 2 < heard.len()
                &&& releasing(fans, prepared, #[trigger] heard.take(k), 0, 0) == Step::<()>::Ask(
                    Ask::Write(0x31, fan as u8),
                )
                &&& releasing(fans, prepared, heard.take(k + 1), 0, 0) == Step::<()>::Ask(
                    Ask::Write(0x2f, 0x80),
                )
                &&& releasing(fans, prepared, heard.take(k + 2), 0, 0) == Step::<()>::Ask(
                    Ask::Read(0x2f),
                )
                &&& heard[k + 2].got matches Ok(seen) && seen & 0xc7 == 0x80
            },
{
    let at = where_the_writes_start(fans, prepared, heard, 0, 0);
    a_returned_fan_was_asked(heard, at, 0);
    assert(releasing(fans, prepared, heard.take(at), 0, 0) == returning(fans, heard.take(at), at));
    assert(releasing(fans, prepared, heard.take(at + 1), 0, 0) == returning(
        fans,
        heard.take(at + 1),
        at,
    ));
    assert(releasing(fans, prepared, heard.take(at + 2), 0, 0) == returning(
        fans,
        heard.take(at + 2),
        at,
    ));
    if fan == 1 {
        let next = at + 3;
        a_returned_fan_was_asked(heard, next, 1);
        a_fan_returned_in_a_prefix(heard, at, 0, next);
        a_fan_returned_in_a_prefix(heard, at, 0, next + 1);
        a_fan_returned_in_a_prefix(heard, at, 0, next + 2);
        assert(releasing(fans, prepared, heard.take(next), 0, 0) == returning(
            fans,
            heard.take(next),
            at,
        ));
        assert(releasing(fans, prepared, heard.take(next + 1), 0, 0) == returning(
            fans,
            heard.take(next + 1),
            at,
        ));
        assert(releasing(fans, prepared, heard.take(next + 2), 0, 0) == returning(
            fans,
            heard.take(next + 2),
            at,
        ));
        assert(releasing(fans, prepared, heard.take(next), 0, 0) == Step::<()>::Ask(
            Ask::Write(0x31, 1),
        ));
    } else {
        assert(releasing(fans, prepared, heard.take(at), 0, 0) == Step::<()>::Ask(
            Ask::Write(0x31, 0),
        ));
    }
}

/// However a handback ends, it has been through both selectors, and the last
/// thing it asked was to put 0 back into 0x31.
pub proof fn a_handback_goes_through_both_selectors(
    fans: int,
    prepared: bool,
    heard: Seq<Answer>,
)
    requires
        1 <= fans <= 2,
        releasing(fans, prepared, heard, 0, 0) is End,
    ensures
        exists|j: int, k: int, m: int|
            {
                &&& 0 <= j < k < m < heard.len()
                &&& releasing(fans, prepared, #[trigger] heard.take(j), 0, 0) == Step::<()>::Ask(
                    Ask::Write(0x31, 0),
                )
                &&& releasing(fans, prepared, #[trigger] heard.take(k), 0, 0) == Step::<()>::Ask(
                    Ask::Write(0x31, 1),
                )
                &&& releasing(fans, prepared, #[trigger] heard.take(m), 0, 0) == Step::<()>::Ask(
                    Ask::Write(0x31, 0),
                )
                &&& heard[j].got is Ok ==> releasing(fans, prepared, heard.take(j + 1), 0, 0)
                    == Step::<()>::Ask(Ask::Write(0x2f, 0x80))
                &&& heard[k].got is Ok ==> releasing(fans, prepared, heard.take(k + 1), 0, 0)
                    == Step::<()>::Ask(Ask::Write(0x2f, 0x80))
            },
{
    let at = where_the_writes_start(fans, prepared, heard, 0, 0);
    let next = fan_returned(heard, at, 0)->Done_0;
    let end = fan_returned(heard, next, 1)->Done_0;
    a_fan_returned_in_a_prefix(heard, at, 0, next);
    a_fan_returned_in_a_prefix(heard, at, 0, next + 1);
    a_fan_returned_in_a_prefix(heard, at, 0, end);
    a_fan_returned_in_a_prefix(heard, next, 1, end);
    assert(heard.take(at + 1)[at] == heard[at]);
    assert(heard.take(next + 1)[next] == heard[next]);
    assert(releasing(fans, prepared, heard.take(at), 0, 0) == returning(fans, heard.take(at), at));
    assert(releasing(fans, prepared, heard.take(at + 1), 0, 0) == returning(
        fans,
        heard.take(at + 1),
        at,
    ));
    assert(releasing(fans, prepared, heard.take(next), 0, 0) == returning(
        fans,
        heard.take(next),
        at,
    ));
    assert(releasing(fans, prepared, heard.take(next + 1), 0, 0) == returning(
        fans,
        heard.take(next + 1),
        at,
    ));
    assert(releasing(fans, prepared, heard.take(end), 0, 0) == returning(
        fans,
        heard.take(end),
        at,
    ));
    assert(releasing(fans, prepared, heard.take(at), 0, 0) == Step::<()>::Ask(Ask::Write(0x31, 0)));
    assert(releasing(fans, prepared, heard.take(next), 0, 0) == Step::<()>::Ask(
        Ask::Write(0x31, 1),
    ));
    assert(releasing(fans, prepared, heard.take(end), 0, 0) == Step::<()>::Ask(
        Ask::Write(0x31, 0),
    ));
}

proof fn releasing_writes_only_the_handback(
    fans: int,
    prepared: bool,
    heard: Seq<Answer>,
    i: int,
    attempt: int,
)
    ensures
        releasing(fans, prepared, heard, i, attempt) matches Step::Ask(Ask::Write(register, v))
            ==> {
            ||| register == 0x31 && v <= 1
            ||| register == 0x2f && v == 0x80
        },
    decreases LOCK_ATTEMPTS - attempt,
{
    if attempt < LOCK_ATTEMPTS && i < heard.len() && heard[i].got is Err && attempt + 1
        < LOCK_ATTEMPTS && i + 1 < heard.len() {
        releasing_writes_only_the_handback(fans, prepared, heard, i + 2, attempt + 1);
    }
}

/// A handback writes nothing but the selector, to 0 or 1, and 0x80 into the
/// fan register.
pub proof fn a_handback_writes_nothing_else(fans: int, prepared: bool, heard: Seq<Answer>)
    ensures
        releasing(fans, prepared, heard, 0, 0) matches Step::Ask(Ask::Write(register, v)) ==> {
            ||| register == 0x31 && v <= 1
            ||| register == 0x2f && v == 0x80
        },
{
    releasing_writes_only_the_handback(fans, prepared, heard, 0, 0);
}

/// A lock that is refused is asked for six times, 250 ms apart, and then the
/// handback goes on without it. A setup that fails does not stop it either.
pub proof fn a_refused_lock_does_not_stop_a_handback(
    fans: int,
    prepared: bool,
    heard: Seq<Answer>,
)
    requires
        forall|k: int|
            0 <= k < heard.len() && k < 11 && k % 2 == 0 ==> (#[trigger] heard[k]).got is Err,
    ensures
        heard.len() < 11 && heard.len() % 2 == 0 ==> releasing(fans, prepared, heard, 0, 0)
            == Step::<()>::Ask(Ask::Lock),
        heard.len() < 11 && heard.len() % 2 == 1 ==> releasing(fans, prepared, heard, 0, 0)
            == Step::<()>::Ask(Ask::Sleep(250)),
        heard.len() == 11 ==> releasing(fans, prepared, heard, 0, 0) == Step::<()>::Ask(
            if prepared {
                Ask::Write(0x31, 0)
            } else {
                Ask::Prepare
            },
        ),
        heard.len() == 12 && !prepared ==> releasing(fans, prepared, heard, 0, 0) == Step::<
            (),
        >::Ask(Ask::Write(0x31, 0)),
{
    reveal_with_fuel(releasing, 7);
    if heard.len() > 0 {
        assert(heard[0].got is Err);
    }
    if heard.len() > 2 {
        assert(heard[2].got is Err);
    }
    if heard.len() > 4 {
        assert(heard[4].got is Err);
    }
    if heard.len() > 6 {
        assert(heard[6].got is Err);
    }
    if heard.len() > 8 {
        assert(heard[8].got is Err);
    }
    if heard.len() > 10 {
        assert(heard[10].got is Err);
    }
}

/// A handback that is granted the lock, is answered throughout and reads the
/// firmware flag back from every fan is reported good; a fan the machine does
/// not have has no say.
pub proof fn a_handback_that_holds_is_reported_good(fans: int, heard: Seq<Answer>)
    requires
        1 <= fans <= 2,
        heard.len() == 8,
        forall|k: int| 0 <= k < 8 ==> (#[trigger] heard[k]).got is Ok,
        heard[3].got->Ok_0 & 0xc7 == 0x80,
        fans == 2 ==> heard[6].got->Ok_0 & 0xc7 == 0x80,
    ensures
        releasing(fans, true, heard, 0, 0) == Step::End(Ok::<(), Fault>(())),
{
    assert(heard[0].got is Ok && heard[1].got is Ok && heard[2].got is Ok && heard[3].got is Ok);
    assert(heard[4].got is Ok && heard[5].got is Ok && heard[6].got is Ok && heard[7].got is Ok);
    assert(0x80u8 & 0xc7u8 == 0x80u8) by (bit_vector);
}

proof fn surveying_in_a_prefix(
    l: Layout,
    fan_ctrl: u8,
    heard: Seq<Answer>,
    t: int,
    k: int,
    started: u64,
    j: int,
)
    requires
        0 < t,
        0 <= k,
        surveying(l, fan_ctrl, heard, t, k, started) matches Step::End(Ok(p)) && p.failure is None,
        k <= j < 8,
    ensures
        t + 8 <= heard.len(),
        heard[t + j].got is Ok,
        surveying(l, fan_ctrl, heard.take(t + j), t, k, started) == Step::<ProbeView>::Ask(
            Ask::Read((0x78 + j) as u8),
        ),
        surveying(l, fan_ctrl, heard, t, k, started) == judging(l, fan_ctrl, heard, t, started),
        forall|n: int|
            t + 8 <= n <= heard.len() ==> surveying(
                l,
                fan_ctrl,
                #[trigger] heard.take(n),
                t,
                k,
                started,
            ) == judging(l, fan_ctrl, heard.take(n), t, started),
    decreases 8 - k,
{
    if k < j {
        surveying_in_a_prefix(l, fan_ctrl, heard, t, k + 1, started, j);
    } else if k < 7 {
        surveying_in_a_prefix(l, fan_ctrl, heard, t, k + 1, started, k + 1);
    } else {
        assert(t + 7 < heard.len());
    }
    assert(heard.take(t + j)[t + k - 1] == heard[t + k - 1]);
    if k < j {
        assert(heard.take(t + j)[t + k] == heard[t + k]);
    }
    assert forall|n: int| t + 8 <= n <= heard.len() implies surveying(
        l,
        fan_ctrl,
        #[trigger] heard.take(n),
        t,
        k,
        started,
    ) == judging(l, fan_ctrl, heard.take(n), t, started) by {
        assert(heard.take(n)[t + k - 1] == heard[t + k - 1]);
        assert(heard.take(n)[t + k] == heard[t + k]);
        if k == 7 {
            assert(surveying(l, fan_ctrl, heard.take(n), t, 8, started) == judging(
                l,
                fan_ctrl,
                heard.take(n),
                t,
                started,
            ));
        }
    }
    if k == 7 {
        assert(surveying(l, fan_ctrl, heard, t, 8, started) == judging(
            l,
            fan_ctrl,
            heard,
            t,
            started,
        ));
    }
}

/// The write that proved control of the fan.
proof fn the_write_that_held(heard: Seq<Answer>, i: int, attempt: int, started: u64) -> (w: int)
    requires
        0 <= i,
        0 <= attempt,
        proving(heard, i, attempt, started) matches Proof::Verdict(None),
    ensures
        i <= w,
        w + 2 <= heard.len(),
        proving(heard.take(w), i, attempt, started) == Proof::Ask(Ask::Write(0x2f, 0x80)),
        proving(heard.take(w + 1), i, attempt, started) == Proof::Ask(Ask::Read(0x2f)),
        heard[w + 1].got matches Ok(v) && v & 0x80 != 0 && v & 0x40 == 0,
    decreases WRITE_ATTEMPTS - attempt,
{
    let w = if attempt > 0 {
        i + 1
    } else {
        i
    };
    assert(heard.take(w + 1)[w] == heard[w]);
    if handed_off(byte(heard[w + 1])) {
        w
    } else {
        let at = the_write_that_held(heard, w + 2, attempt + 1, started);
        assert(heard.take(at)[w] == heard[w] && heard.take(at)[w + 1] == heard[w + 1]);
        assert(heard.take(at + 1)[w] == heard[w] && heard.take(at + 1)[w + 1] == heard[w + 1]);
        at
    }
}

/// A layout passes its probe only on what it answered: the fan register, 0x2f,
/// holds something a fan register can hold; the eight bytes from 0x78 on are
/// not all alike and at least one is between 5 and 110; and 0x80 written to
/// the fan register was read back with the firmware flag on and the disengage
/// bit off. What it reports is what it read.
pub proof fn a_probe_passes_on_what_it_read(
    l: Layout,
    prepared: bool,
    started: u64,
    heard: Seq<Answer>,
    k: int,
)
    requires
        probing(l, prepared, started, heard) matches Step::End(Ok(p)) && p.failure is None,
        0 <= k < 8,
    ensures
        ({
            let i = if prepared {
                1int
            } else {
                2int
            };
            &&& heard.len() > i + 8
            &&& probing(l, prepared, started, heard.take(i)) == Step::<ProbeView>::Ask(
                Ask::Read(0x2f),
            )
            &&& heard[i].got matches Ok(v) && (v & 0xc7 <= 7 || v & 0xc7 == 0x40 || 0x80 <= v & 0xc7
                <= 0x87)
            &&& probing(l, prepared, started, heard.take(i + 1 + k)) == Step::<ProbeView>::Ask(
                Ask::Read((0x78 + k) as u8),
            )
            &&& heard[i + 1 + k].got is Ok
            &&& probing(l, prepared, started, heard) matches Step::End(Ok(p)) && {
                &&& p.layout == l
                &&& p.fan_ctrl == Some(heard[i].got->Ok_0)
                &&& p.temps matches Some(temps) && {
                    &&& temps.len() == 8
                    &&& temps[k] == heard[i + 1 + k].got->Ok_0
                    &&& exists|a: int| 0 <= a < 8 && #[trigger] temps[a] != temps[0]
                    &&& exists|a: int| 0 <= a < 8 && 5 <= #[trigger] temps[a] <= 110
                }
            }
            &&& exists|w: int|
                {
                    &&& i + 9 <= w
                    &&& w + 1 < heard.len()
                    &&& probing(l, prepared, started, #[trigger] heard.take(w)) == Step::<
                        ProbeView,
                    >::Ask(Ask::Write(0x2f, 0x80))
                    &&& probing(l, prepared, started, heard.take(w + 1)) == Step::<ProbeView>::Ask(
                        Ask::Read(0x2f),
                    )
                    &&& heard[w + 1].got matches Ok(v) && v & 0x80 != 0 && v & 0x40 == 0
                }
        }),
{
    let i = sample_base(prepared);
    let fan_ctrl = byte(heard[i]);
    let t = i + 1;
    assert(probing(l, prepared, started, heard) == looking(l, heard, i, started));
    assert(heard[i].got == Ok::<u8, Fault>(fan_ctrl));
    surveying_in_a_prefix(l, fan_ctrl, heard, t, 0, started, k);
    assert forall|n: int| i <= n <= heard.len() implies probing(
        l,
        prepared,
        started,
        #[trigger] heard.take(n),
    ) == looking(l, heard.take(n), i, started) by {
        assert(heard.take(n)[0] == heard[0]);
        if !prepared {
            assert(heard.take(n)[1] == heard[1]);
        }
    }
    assert(probing(l, prepared, started, heard.take(i)) == looking(
        l,
        heard.take(i),
        i,
        started,
    ));
    let asked = heard.take(t + k);
    assert(probing(l, prepared, started, asked) == looking(l, asked, i, started));
    assert(asked[i] == heard[i]);
    crate::ec::what_a_fan_register_can_hold(fan_ctrl);
    let temps = bank(heard, t);
    assert(judging(l, fan_ctrl, heard, t, started) matches Step::End(Ok(p)) && p.failure is None);
    let w = the_write_that_held(heard, t + 8, 0, started);
    let before = heard.take(w);
    let after = heard.take(w + 1);
    assert(before[i] == heard[i] && after[i] == heard[i]);
    assert(probing(l, prepared, started, before) == looking(l, before, i, started));
    assert(probing(l, prepared, started, after) == looking(l, after, i, started));
    assert(surveying(l, fan_ctrl, before, t, 0, started) == judging(
        l,
        fan_ctrl,
        before,
        t,
        started,
    ));
    assert(surveying(l, fan_ctrl, after, t, 0, started) == judging(l, fan_ctrl, after, t, started));
    assert(bank(before, t) =~= temps);
    assert(bank(after, t) =~= temps);
    assert(before[t + 7] == heard[t + 7] && after[t + 7] == heard[t + 7]);
    assert(probing(l, prepared, started, before) == Step::<ProbeView>::Ask(
        Ask::Write(0x2f, 0x80),
    ));
}

proof fn surveying_goes_through(
    l: Layout,
    fan_ctrl: u8,
    heard: Seq<Answer>,
    t: int,
    k: int,
    started: u64,
)
    requires
        0 < t,
        0 <= k <= 8,
        t + 8 <= heard.len(),
        forall|j: int|
            t - 1 <= j < t + 8 ==> (#[trigger] heard[j]).got is Ok && heard[j].at < started + 3000,
    ensures
        surveying(l, fan_ctrl, heard, t, k, started) == judging(l, fan_ctrl, heard, t, started),
    decreases 8 - k,
{
    if k < 8 {
        assert(heard[t + k - 1].got is Ok && heard[t + k].got is Ok);
        surveying_goes_through(l, fan_ctrl, heard, t, k + 1, started);
    }
}

/// A layout that answers everything within 3 seconds, whose fan register holds
/// what one can hold, whose bank disagrees with itself and is believable
/// somewhere, and whose fan register takes the handoff at once, passes.
pub proof fn a_layout_that_reads_right_passes(
    l: Layout,
    prepared: bool,
    started: u64,
    heard: Seq<Answer>,
    a: int,
    b: int,
)
    requires
        0 <= a < 8,
        0 <= b < 8,
        forall|j: int|
            0 <= j < heard.len() ==> (#[trigger] heard[j]).got is Ok && heard[j].at < started
                + 3000,
        ({
            let i = if prepared {
                1int
            } else {
                2int
            };
            let v = heard[i].got->Ok_0;
            let back = heard[i + 10].got->Ok_0;
            &&& heard.len() == i + 11
            &&& v & 0xc7 <= 7 || v & 0xc7 == 0x40 || 0x80 <= v & 0xc7 <= 0x87
            &&& heard[i + 1 + a].got->Ok_0 != heard[i + 1].got->Ok_0
            &&& 5 <= heard[i + 1 + b].got->Ok_0 <= 110
            &&& back & 0x80 != 0 && back & 0x40 == 0
        }),
    ensures
        probing(l, prepared, started, heard) matches Step::End(Ok(p)) && p.failure is None,
{
    let i = sample_base(prepared);
    let t = i + 1;
    assert(heard[0].got is Ok && heard[1].got is Ok && heard[i].got is Ok);
    let fan_ctrl = byte(heard[i]);
    surveying_goes_through(l, fan_ctrl, heard, t, 0, started);
    crate::ec::what_a_fan_register_can_hold(fan_ctrl);
    let temps = bank(heard, t);
    assert(heard[t + a].got is Ok && heard[t].got is Ok && heard[t + b].got is Ok);
    assert(temps[a] != temps[0]);
    assert(5 <= temps[b] <= 110);
    assert(heard[t + 7].got is Ok && heard[t + 8].got is Ok && heard[t + 9].got is Ok);
    assert(handed_off(byte(heard[t + 9])));
}

/// Whether something stood in the way of looking at a layout: a question that
/// failed, or 3 seconds gone.
pub open spec fn kept_from_looking(heard: Seq<Answer>, started: u64) -> bool {
    exists|k: int|
        0 <= k < heard.len() && ((#[trigger] heard[k]).got is Err || heard[k].at >= started + 3000)
}

proof fn proving_fails_for_a_reason(heard: Seq<Answer>, i: int, attempt: int, started: u64)
    requires
        0 <= i,
        0 <= attempt,
    ensures
        proving(heard, i, attempt, started) matches Proof::Verdict(Some(FailureView::Unexamined(_)))
            ==> kept_from_looking(heard, started),
        proving(heard, i, attempt, started) matches Proof::Verdict(Some(FailureView::Rejected(_)))
            ==> exists|k: int|
            0 <= k < heard.len() && ((#[trigger] heard[k]).got matches Ok(v) && (v & 0x80 == 0 || v
                & 0x40 != 0)),
    decreases WRITE_ATTEMPTS - attempt,
{
    let w = if attempt > 0 {
        i + 1
    } else {
        i
    };
    if w + 1 < heard.len() && heard[w].got is Ok && heard[w + 1].got is Ok && !handed_off(
        byte(heard[w + 1]),
    ) && attempt + 1 < WRITE_ATTEMPTS {
        proving_fails_for_a_reason(heard, w + 2, attempt + 1, started);
    }
    if w < heard.len() && heard[w].got is Err {
        assert(kept_from_looking(heard, started));
    }
    if w + 1 < heard.len() && heard[w + 1].got is Err {
        assert(kept_from_looking(heard, started));
    }
}

proof fn surveying_fails_for_a_reason(
    l: Layout,
    fan_ctrl: u8,
    heard: Seq<Answer>,
    t: int,
    k: int,
    started: u64,
)
    requires
        0 < t <= heard.len(),
        0 <= k <= 8,
        t + k <= heard.len(),
        byte(heard[t - 1]) == fan_ctrl,
    ensures
        surveying(l, fan_ctrl, heard, t, k, started) matches Step::End(Ok(p)) ==> {
            &&& p.layout == l
            &&& p.fan_ctrl == Some(fan_ctrl)
            &&& p.failure matches Some(FailureView::Unexamined(_)) ==> kept_from_looking(
                heard,
                started,
            )
            &&& p.failure matches Some(FailureView::Rejected(_)) ==> {
                ||| !crate::ec::fan_state(fan_ctrl)
                ||| t + 8 <= heard.len() && !crate::ec::sensor_bank(
                    Seq::new(8, |j: int| byte(heard[t + j])),
                )
                ||| exists|j: int|
                    0 <= j < heard.len() && ((#[trigger] heard[j]).got matches Ok(v) && (v & 0x80
                        == 0 || v & 0x40 != 0))
            }
        },
    decreases 8 - k,
{
    if k >= 8 {
        assert(bank(heard, t) =~= Seq::new(8, |j: int| byte(heard[t + j])));
        if crate::handshake::spent(started, heard[t + 7].at, SAMPLE_BUDGET) {
            assert(kept_from_looking(heard, started));
        }
        proving_fails_for_a_reason(heard, t + 8, 0, started);
    } else if crate::handshake::spent(started, heard[t + k - 1].at, SAMPLE_BUDGET) {
        assert(kept_from_looking(heard, started));
    } else if t + k < heard.len() {
        if heard[t + k].got is Err {
            assert(kept_from_looking(heard, started));
        } else {
            surveying_fails_for_a_reason(l, fan_ctrl, heard, t, k + 1, started);
        }
    }
}

/// A probe that could not look is no verdict on the machine: a layout goes
/// unexamined only where a question failed or 3 seconds were gone, and is
/// rejected only where its setup failed or where what it answered is not what
/// a controller answers.
pub proof fn a_verdict_rests_on_answers(
    l: Layout,
    prepared: bool,
    started: u64,
    heard: Seq<Answer>,
)
    ensures
        probing(l, prepared, started, heard) matches Step::End(Ok(p)) ==> {
            let i = if prepared {
                1int
            } else {
                2int
            };
            &&& p.layout == l
            &&& p.failure matches Some(FailureView::Unexamined(_)) ==> kept_from_looking(
                heard,
                started,
            )
            &&& p.failure matches Some(FailureView::Rejected(_)) ==> {
                ||| !prepared && heard[1].got is Err
                ||| heard[i].got matches Ok(v) && !crate::ec::fan_state(v)
                ||| !crate::ec::sensor_bank(Seq::new(8, |j: int| byte(heard[i + 1 + j])))
                ||| exists|j: int|
                    0 <= j < heard.len() && ((#[trigger] heard[j]).got matches Ok(v) && (v & 0x80
                        == 0 || v & 0x40 != 0))
            }
        },
{
    let i = sample_base(prepared);
    if heard.len() > i && heard[0].got is Ok && (prepared || heard[1].got is Ok) {
        if heard[i].got is Err {
            assert(kept_from_looking(heard, started));
        } else {
            let fan_ctrl = byte(heard[i]);
            assert(fan_ctrl == heard[i].got->Ok_0);
            surveying_fails_for_a_reason(l, fan_ctrl, heard, i + 1, 0, started);
        }
    }
}

/// A look that could not be had is no evidence about the machine: it neither
/// passes nor is a verdict, and says why it could not be had.
pub proof fn a_look_not_had_proves_nothing(l: Layout, f: Fault, probe: Probe)
    ensures
        seen(l, Ok(probe)) == probe@,
        seen(l, Err(f)).layout == l,
        !seen(l, Err(f)).passed(),
        !seen(l, Err(f)).definitive(),
        seen(l, Err(f)).fan_ctrl is None && seen(l, Err(f)).temps is None,
{
}

} // verus!
