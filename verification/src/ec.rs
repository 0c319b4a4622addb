//! The embedded controller: its registers, what a reading of it means, and
//! which of the two port layouts a machine turns out to have.

use vstd::prelude::*;

use crate::pawnio::{Error, Fault, Layout};
use crate::text::{push_hex_byte, push_hex_register};

verus! {

/// Fan control. 0x00 to 0x07 are manual levels, 0x80 hands control to the
/// firmware, 0x40 disengages the governor entirely.
pub const REG_FAN_CTRL: u8 = 0x2f;

/// Which fan the speed registers report on. 0 is the first, 1 the second.
pub const REG_FAN_SELECT: u8 = 0x31;

/// 16 bit fan speed, low byte first.
pub const REG_FAN_SPEED_LO: u8 = 0x84;

pub const REG_FAN_SPEED_HI: u8 = 0x85;

/// Temperature sensors. Two banks, both one degree Celsius per count.
pub const REG_TEMP_BANK0: u8 = 0x78;

pub const REG_TEMP_BANK1: u8 = 0xc0;

pub const SENSOR_COUNT: usize = 12;

/// The bits of the fan register that carry meaning: the firmware flag, the
/// disengage bit, and the level.
pub const FAN_BITS: u8 = 0xc7;

/// Written to the fan register to give the fan back to the firmware.
pub const FAN_BIOS: u8 = 0x80;

/// Highest ordinary level. The fan can go faster; nothing should ask it to.
pub const FAN_LEVEL_MAX: u8 = 7;

/// Disengages the controller's fan governor and runs the blower unregulated.
pub const FAN_DISENGAGED: u8 = 0x40;

/// How many bank 0 sensor bytes a probe reads: the whole bank.
pub const PROBE_TEMPS: usize = 8;

/// The band a present sensor on a running machine can believably be in.
pub const PROBE_TEMP_MIN: u8 = 5;

pub const PROBE_TEMP_MAX: u8 = 110;

/// A sensor byte as degrees.
pub open spec fn signed(b: u8) -> i8 {
    if b < 128 {
        b as i8
    } else {
        (b - 256) as i8
    }
}

/// A sensor byte as a reading: 0x00 is no sensor fitted, 0x80 is fitted but
/// not reporting.
pub open spec fn reading(b: u8) -> Option<i8> {
    if b == 0 || b == 0x80 {
        None
    } else {
        Some(signed(b))
    }
}

/// A sensor byte as a reading.
pub fn decode_reading(b: u8) -> (r: Option<i8>)
    ensures
        r == reading(b),
{
    if b == 0 || b == 0x80 {
        None
    } else if b < 128 {
        Some(b as i8)
    } else {
        Some(((b as i16) - 256) as i8)
    }
}

/// A fan speed out of its two bytes. The controller briefly reports nonsense
/// while it switches fans, and nonsense is no speed.
pub open spec fn speed(lo: u8, hi: u8) -> u16 {
    let rpm = hi as int * 256 + lo as int;
    if rpm > 0x1fff {
        0
    } else {
        rpm as u16
    }
}

/// A fan speed out of its two bytes.
pub fn decode_speed(lo: u8, hi: u8) -> (r: u16)
    ensures
        r == speed(lo, hi),
{
    let rpm: u16 = (hi as u16) * 256 + (lo as u16);
    if rpm > 0x1fff {
        0
    } else {
        rpm
    }
}

/// One sample of everything worth knowing.
#[derive(Debug, Clone, Copy)]
pub struct EcState {
    /// Raw contents of the fan control register.
    pub fan_ctrl: u8,
    /// The fan register as seen through each fan's own selector.
    pub fan_ctrl_per_fan: [u8; 2],
    /// RPM per fan. A machine with one fan reports one.
    pub fan_rpm: [u16; 2],
    /// Degrees Celsius. `None` where the sensor is absent or disconnected.
    pub sensors: [Option<i8>; 12],
}

/// A sample, mathematically.
pub struct EcStateView {
    pub fan_ctrl: u8,
    pub fan_ctrl_per_fan: Seq<u8>,
    pub fan_rpm: Seq<u16>,
    pub sensors: Seq<Option<i8>>,
}

impl View for EcState {
    type V = EcStateView;

    open spec fn view(&self) -> EcStateView {
        EcStateView {
            fan_ctrl: self.fan_ctrl,
            fan_ctrl_per_fan: self.fan_ctrl_per_fan@,
            fan_rpm: self.fan_rpm@,
            sensors: self.sensors@,
        }
    }
}

/// Whether a sensor has a say: it reports, and nobody asked to ignore it.
pub open spec fn counts(sensors: Seq<Option<i8>>, ignored: Seq<usize>, i: int) -> bool {
    0 <= i < sensors.len() && sensors[i] is Some && !ignored.contains(i as usize)
}

/// The hottest of the first `n` sensors that have a say, and of equally hot
/// ones the last.
pub open spec fn hottest_among(
    sensors: Seq<Option<i8>>,
    ignored: Seq<usize>,
    n: int,
) -> Option<(usize, i8)>
    decreases n,
{
    if n <= 0 {
        None
    } else {
        let before = hottest_among(sensors, ignored, n - 1);
        if counts(sensors, ignored, n - 1) {
            let t = sensors[n - 1]->0;
            match before {
                Some((_, held)) if held > t => before,
                _ => Some(((n - 1) as usize, t)),
            }
        } else {
            before
        }
    }
}

impl EcStateView {
    /// The reading a curve acts on.
    pub open spec fn hottest(self, ignored: Seq<usize>) -> Option<(usize, i8)> {
        hottest_among(self.sensors, ignored, self.sensors.len() as int)
    }

    /// Whether the firmware owns every fan.
    pub open spec fn bios_controlled(self) -> bool {
        forall|f: int|
            0 <= f < self.fan_ctrl_per_fan.len() ==> (#[trigger] self.fan_ctrl_per_fan[f])
                & FAN_BIOS != 0
    }
}

proof fn hottest_among_is_hottest(sensors: Seq<Option<i8>>, ignored: Seq<usize>, n: int)
    requires
        0 <= n <= sensors.len() <= usize::MAX,
    ensures
        match hottest_among(sensors, ignored, n) {
            Some((i, t)) => {
                &&& i < n
                &&& counts(sensors, ignored, i as int)
                &&& sensors[i as int] == Some(t)
                &&& forall|j: int|
                    0 <= j < n && #[trigger] counts(sensors, ignored, j) ==> sensors[j]->0 <= t
                &&& forall|j: int|
                    i < j < n && #[trigger] counts(sensors, ignored, j) ==> sensors[j]->0 < t
            },
            None => forall|j: int| 0 <= j < n ==> !#[trigger] counts(sensors, ignored, j),
        },
    decreases n,
{
    if n > 0 {
        hottest_among_is_hottest(sensors, ignored, n - 1);
    }
}

/// The reading acted on is of a sensor that has a say, no such sensor is
/// hotter, and there is none only when no sensor has a say.
pub proof fn the_hottest_is_the_hottest(state: EcStateView, ignored: Seq<usize>)
    requires
        state.sensors.len() == SENSOR_COUNT,
    ensures
        match state.hottest(ignored) {
            Some((i, t)) => {
                &&& counts(state.sensors, ignored, i as int)
                &&& state.sensors[i as int] == Some(t)
                &&& forall|j: int| #[trigger]
                    counts(state.sensors, ignored, j) ==> state.sensors[j]->0 <= t
                &&& forall|j: int|
                    i < j && #[trigger] counts(state.sensors, ignored, j) ==> state.sensors[j]->0
                        < t
            },
            None => forall|j: int| !#[trigger] counts(state.sensors, ignored, j),
        },
{
    hottest_among_is_hottest(state.sensors, ignored, state.sensors.len() as int);
}

/// Whether a list of sensor numbers holds one.
fn holds(list: &[usize], i: usize) -> (r: bool)
    ensures
        r == list@.contains(i),
{
    let mut k: usize = 0;
    while k < list.len()
        invariant
            k <= list@.len(),
            forall|m: int| 0 <= m < k ==> list@[m] != i,
        decreases list@.len() - k,
    {
        if list[k] == i {
            proof {
                assert(list@[k as int] == i);
            }
            return true;
        }
        k += 1;
    }
    false
}

impl EcState {
    /// The reading a curve should act on: the hottest sensor that is present
    /// and not being ignored.
    pub fn hottest(&self, ignored: &[usize]) -> (r: Option<(usize, i8)>)
        ensures
            r == self@.hottest(ignored@),
    {
        let mut best: Option<(usize, i8)> = None;
        let mut i: usize = 0;
        while i < SENSOR_COUNT
            invariant
                i <= SENSOR_COUNT,
                best == hottest_among(self.sensors@, ignored@, i as int),
            decreases SENSOR_COUNT - i,
        {
            let skip = holds(ignored, i);
            match self.sensors[i] {
                Some(t) => {
                    if !skip {
                        match best {
                            Some((_, held)) => {
                                if held <= t {
                                    best = Some((i, t));
                                }
                            },
                            None => {
                                best = Some((i, t));
                            },
                        }
                    }
                },
                None => {},
            }
            i += 1;
        }
        best
    }

    /// True only when the firmware owns every fan.
    pub fn is_bios_controlled(&self) -> (r: bool)
        ensures
            r == self@.bios_controlled(),
    {
        let first = self.fan_ctrl_per_fan[0];
        let second = self.fan_ctrl_per_fan[1];
        proof {
            assert(self@.fan_ctrl_per_fan[0] == first);
            assert(self@.fan_ctrl_per_fan[1] == second);
        }
        first & FAN_BIOS != 0 && second & FAN_BIOS != 0
    }

    /// The manual level currently set, if we are not in firmware mode.
    pub fn manual_level(&self) -> (r: Option<u8>)
        ensures
            r == (if self@.bios_controlled() {
                None
            } else {
                Some(self.fan_ctrl & 0x3f)
            }),
    {
        if self.is_bios_controlled() {
            None
        } else {
            Some(self.fan_ctrl & 0x3f)
        }
    }
}

impl Default for EcState {
    fn default() -> (r: Self)
        ensures
            r@.fan_ctrl == 0,
            r@.fan_ctrl_per_fan =~= seq![0u8, 0u8],
            r@.fan_rpm =~= seq![0u16, 0u16],
            r@.sensors =~= Seq::new(12, |i: int| None::<i8>),
    {
        EcState {
            fan_ctrl: 0,
            fan_ctrl_per_fan: [0u8, 0u8],
            fan_rpm: [0u16, 0u16],
            sensors: [None, None, None, None, None, None, None, None, None, None, None, None],
        }
    }
}

/// Fills the second fan's slot from the first, for a machine that has no
/// second fan to read.
pub fn mirror_lone_fan(state: &mut EcState)
    ensures
        final(state)@ == (EcStateView {
            fan_ctrl_per_fan: old(state)@.fan_ctrl_per_fan.update(
                1,
                old(state)@.fan_ctrl_per_fan[0],
            ),
            ..old(state)@
        }),
{
    let first = state.fan_ctrl_per_fan[0];
    state.fan_ctrl_per_fan[1] = first;
    proof {
        assert(state@.fan_ctrl_per_fan == old(state)@.fan_ctrl_per_fan.update(
            1,
            old(state)@.fan_ctrl_per_fan[0],
        ));
    }
}

/// With the lone fan mirrored, every fan is the firmware's exactly when the
/// one real fan is.
pub proof fn a_mirrored_fan_is_judged_on_the_fan_it_has(state: EcStateView)
    requires
        state.fan_ctrl_per_fan.len() == 2,
    ensures
        (EcStateView {
            fan_ctrl_per_fan: state.fan_ctrl_per_fan.update(1, state.fan_ctrl_per_fan[0]),
            ..state
        }).bios_controlled() == (state.fan_ctrl_per_fan[0] & FAN_BIOS != 0),
{
    let mirrored = EcStateView {
        fan_ctrl_per_fan: state.fan_ctrl_per_fan.update(1, state.fan_ctrl_per_fan[0]),
        ..state
    };
    assert(mirrored.fan_ctrl_per_fan[0] == state.fan_ctrl_per_fan[0]);
    assert(mirrored.fan_ctrl_per_fan[1] == state.fan_ctrl_per_fan[0]);
}

/// The failure where the controller took every byte and then did not hold the
/// value.
pub open spec fn declined_name() -> &'static str {
    "set_fan_declined"
}

impl Error {
    /// Whether this failure was the controller declining a fan value, as
    /// against not answering at all.
    pub fn is_fan_write_declined(&self) -> (r: bool)
        ensures
            r == (self matches Error::Call { function, .. } && function@ == declined_name()@),
    {
        match self {
            Error::Call { function, code: _ } => crate::text::same(function, "set_fan_declined"),
            _ => false,
        }
    }

    /// Whether somebody else was holding the controller, as against the
    /// controller failing.
    pub fn is_contention(&self) -> (r: bool)
        ensures
            r == (self is Busy),
    {
        match self {
            Error::Busy => true,
            _ => false,
        }
    }
}

impl Fault {
    /// Whether the controller declined a fan value.
    pub open spec fn declined(self) -> bool {
        self matches Fault::Call { function, .. } && function@ == declined_name()@
    }

    /// Whether the controller declined a fan value.
    pub fn is_fan_write_declined(&self) -> (r: bool)
        ensures
            r == self.declined(),
    {
        match self {
            Fault::Call { function, code: _ } => crate::text::same(function, "set_fan_declined"),
            _ => false,
        }
    }

    /// Whether somebody else was holding the controller.
    pub fn is_contention(&self) -> (r: bool)
        ensures
            r == (self is Busy),
    {
        match self {
            Fault::Busy => true,
            _ => false,
        }
    }
}

/// Why a layout failed its probe, split by what the failure is evidence of.
///
/// A rejection describes the machine and will still be true at the next boot.
/// An unexamined layout describes one moment of one boot.
#[derive(Debug)]
pub enum ProbeFailure {
    /// The layout answered, and what came back is not a ThinkPad controller.
    Rejected(String),
    /// The layout could not be examined.
    Unexamined(String),
}

/// A probe's failure, mathematically.
pub enum FailureView {
    Rejected(Seq<char>),
    Unexamined(Seq<char>),
}

impl View for ProbeFailure {
    type V = FailureView;

    open spec fn view(&self) -> FailureView {
        match self {
            ProbeFailure::Rejected(why) => FailureView::Rejected(why@),
            ProbeFailure::Unexamined(why) => FailureView::Unexamined(why@),
        }
    }
}

/// What probing one layout found.
#[derive(Debug)]
pub struct Probe {
    pub layout: Layout,
    /// The raw fan control register, when the handshake completed.
    pub fan_ctrl: Option<u8>,
    /// The raw bank 0 sensor bytes, when they could be read.
    pub temps: Option<[u8; 8]>,
    /// Why this layout was not accepted. `None` means it passed.
    pub failure: Option<ProbeFailure>,
}

/// What probing one layout found, mathematically.
pub struct ProbeView {
    pub layout: Layout,
    pub fan_ctrl: Option<u8>,
    pub temps: Option<Seq<u8>>,
    pub failure: Option<FailureView>,
}

impl View for Probe {
    type V = ProbeView;

    open spec fn view(&self) -> ProbeView {
        ProbeView {
            layout: self.layout,
            fan_ctrl: self.fan_ctrl,
            temps: match self.temps {
                Some(temps) => Some(temps@),
                None => None,
            },
            failure: match self.failure {
                Some(failure) => Some(failure@),
                None => None,
            },
        }
    }
}

/// Bytes in hexadecimal, each after a space.
pub open spec fn bytes_said(bytes: Seq<u8>) -> Seq<char>
    decreases bytes.len(),
{
    if bytes.len() == 0 {
        Seq::empty()
    } else {
        bytes_said(bytes.drop_last()) + " "@ + crate::text::hex_byte(bytes.last())
    }
}

impl ProbeView {
    pub open spec fn passed(self) -> bool {
        self.failure is None
    }

    /// Whether this probe reached a verdict about the machine rather than
    /// about the moment.
    pub open spec fn definitive(self) -> bool {
        !(self.failure matches Some(failure) && failure is Unexamined)
    }

    pub open spec fn words(self) -> Seq<char> {
        let verdict = match self.failure {
            None => "passed"@,
            Some(FailureView::Rejected(why)) => "rejected ("@ + why + ")"@,
            Some(FailureView::Unexamined(why)) => "could not be examined ("@ + why + ")"@,
        };
        let register = match self.fan_ctrl {
            Some(v) => "; fan register "@ + crate::text::hex_register(v),
            None => Seq::empty(),
        };
        let bank = match self.temps {
            Some(temps) => "; bank 0"@ + bytes_said(temps),
            None => Seq::empty(),
        };
        self.layout.words() + ": "@ + verdict + register + bank
    }
}

/// A layout rejected before anything was read.
pub open spec fn rejected_outright(layout: Layout, why: Seq<char>) -> ProbeView {
    ProbeView { layout, fan_ctrl: None, temps: None, failure: Some(FailureView::Rejected(why)) }
}

/// A layout about which nothing was learned.
pub open spec fn unexamined_outright(layout: Layout, why: Seq<char>) -> ProbeView {
    ProbeView { layout, fan_ctrl: None, temps: None, failure: Some(FailureView::Unexamined(why)) }
}

impl Probe {
    pub open spec fn words(self) -> Seq<char> {
        self@.words()
    }

    pub fn passed(&self) -> (r: bool)
        ensures
            r == self@.passed(),
    {
        self.failure.is_none()
    }

    /// Whether this probe reached a verdict about the machine rather than
    /// about the moment.
    pub fn definitive(&self) -> (r: bool)
        ensures
            r == self@.definitive(),
    {
        match &self.failure {
            Some(ProbeFailure::Unexamined(_)) => false,
            _ => true,
        }
    }

    /// A layout that answered and is not a controller.
    pub fn rejected(layout: Layout, why: String) -> (r: Probe)
        ensures
            r@ == rejected_outright(layout, why@),
    {
        Probe { layout, fan_ctrl: None, temps: None, failure: Some(ProbeFailure::Rejected(why)) }
    }

    /// A layout that could not be examined.
    pub fn unexamined(layout: Layout, why: String) -> (r: Probe)
        ensures
            r@ == unexamined_outright(layout, why@),
    {
        Probe { layout, fan_ctrl: None, temps: None, failure: Some(ProbeFailure::Unexamined(why)) }
    }

    /// What probing this layout found, on one line.
    pub fn to_string(&self) -> (r: String)
        ensures
            r@ == self.words(),
    {
        let mut s = self.layout.describe().to_owned();
        s.append(": ");
        match &self.failure {
            None => {
                s.append("passed");
            },
            Some(ProbeFailure::Rejected(why)) => {
                s.append("rejected (");
                s.append(why.as_str());
                s.append(")");
                proof {
                    assert(s@ == self.layout.words() + ": "@ + ("rejected ("@ + why@ + ")"@));
                }
            },
            Some(ProbeFailure::Unexamined(why)) => {
                s.append("could not be examined (");
                s.append(why.as_str());
                s.append(")");
                proof {
                    assert(s@ == self.layout.words() + ": "@ + ("could not be examined ("@ + why@
                        + ")"@));
                }
            },
        }
        let ghost verdict = s@;
        match self.fan_ctrl {
            Some(v) => {
                s.append("; fan register ");
                push_hex_register(&mut s, v);
                proof {
                    assert(s@ == verdict + ("; fan register "@ + crate::text::hex_register(v)));
                }
            },
            None => {
                proof {
                    assert(s@ == verdict + Seq::<char>::empty());
                }
            },
        }
        let ghost register = s@;
        match &self.temps {
            Some(temps) => {
                s.append("; bank 0");
                proof {
                    assert(temps@.take(0) == Seq::<u8>::empty());
                    assert(s@ == register + ("; bank 0"@ + bytes_said(temps@.take(0))));
                }
                let mut i: usize = 0;
                while i < PROBE_TEMPS
                    invariant
                        i <= PROBE_TEMPS,
                        temps@.len() == PROBE_TEMPS,
                        s@ == register + ("; bank 0"@ + bytes_said(temps@.take(i as int))),
                    decreases PROBE_TEMPS - i,
                {
                    s.append(" ");
                    push_hex_byte(&mut s, temps[i]);
                    i += 1;
                    proof {
                        assert(temps@.take(i as int).drop_last() == temps@.take(i - 1));
                        assert(temps@.take(i as int).last() == temps@[i - 1]);
                        assert(s@ == register + ("; bank 0"@ + (bytes_said(temps@.take(i - 1))
                            + " "@ + crate::text::hex_byte(temps@[i - 1]))));
                    }
                }
                proof {
                    assert(temps@.take(PROBE_TEMPS as int) == temps@);
                }
            },
            None => {
                proof {
                    assert(s@ == register + Seq::<char>::empty());
                }
            },
        }
        s
    }
}

/// Whether a byte could have come from a ThinkPad's fan register: the
/// firmware flag without the disengage bit, a manual level, or the bare
/// disengage bit, whatever the reserved bits say.
pub open spec fn fan_state(v: u8) -> bool {
    ||| v & FAN_BIOS != 0 && v & FAN_DISENGAGED == 0
    ||| v & FAN_BITS == FAN_DISENGAGED
    ||| v & FAN_BITS <= FAN_LEVEL_MAX
}

/// Whether a byte read from the fan register could have come from a ThinkPad
/// controller. 0xff, the floating bus answer, cannot.
pub fn plausible_fan_ctrl(value: u8) -> (r: bool)
    ensures
        r == fan_state(value),
{
    let meaningful: u8 = value & FAN_BITS;
    proof {
        assert((value & 0xc7u8) & 0x80u8 == value & 0x80u8) by (bit_vector);
        assert((value & 0xc7u8) & 0x40u8 == value & 0x40u8) by (bit_vector);
        assert(value & 0x80u8 != 0 ==> value & 0xc7u8 >= 0x80u8) by (bit_vector);
    }
    if meaningful & FAN_BIOS != 0 {
        return meaningful & FAN_DISENGAGED == 0;
    }
    meaningful == FAN_DISENGAGED || meaningful <= FAN_LEVEL_MAX
}

/// Whether bank 0 reads like temperature sensors rather than like a decoded
/// but empty window: it disagrees with itself, and at least one byte is a
/// temperature a running machine could be at.
pub open spec fn sensor_bank(temps: Seq<u8>) -> bool {
    &&& exists|i: int| 0 <= i < temps.len() && #[trigger] temps[i] != temps[0]
    &&& exists|i: int|
        0 <= i < temps.len() && PROBE_TEMP_MIN <= #[trigger] temps[i] <= PROBE_TEMP_MAX
}

/// Whether bank 0 reads like temperature sensors.
pub fn plausible_temps(temps: &[u8; 8]) -> (r: bool)
    ensures
        r == sensor_bank(temps@),
{
    let mut differs = false;
    let mut believable = false;
    let mut i: usize = 0;
    while i < PROBE_TEMPS
        invariant
            i <= PROBE_TEMPS,
            temps@.len() == PROBE_TEMPS,
            differs == exists|k: int| 0 <= k < i && #[trigger] temps@[k] != temps@[0],
            believable == exists|k: int|
                0 <= k < i && PROBE_TEMP_MIN <= #[trigger] temps@[k] <= PROBE_TEMP_MAX,
        decreases PROBE_TEMPS - i,
    {
        let t = temps[i];
        if t != temps[0] {
            differs = true;
            proof {
                assert(temps@[i as int] != temps@[0]);
            }
        }
        if PROBE_TEMP_MIN <= t && t <= PROBE_TEMP_MAX {
            believable = true;
            proof {
                assert(PROBE_TEMP_MIN <= temps@[i as int] <= PROBE_TEMP_MAX);
            }
        }
        i += 1;
    }
    differs && believable
}

/// Whether some probe of a layout passed.
pub open spec fn vouched(probes: Seq<Probe>, layout: Layout) -> bool {
    exists|i: int| 0 <= i < probes.len() && (#[trigger] probes[i]).layout == layout && probes[i]@.passed()
}

/// The layout the evidence picks: one that passed, and the standard one when
/// both did.
pub open spec fn chosen(probes: Seq<Probe>) -> Option<Layout> {
    if vouched(probes, Layout::Standard) {
        Some(Layout::Standard)
    } else if vouched(probes, Layout::Alternate) {
        Some(Layout::Alternate)
    } else {
        None
    }
}

/// Whether some probe of a layout passed.
fn has_passed(probes: &[Probe], layout: Layout) -> (r: bool)
    ensures
        r == vouched(probes@, layout),
{
    let mut i: usize = 0;
    while i < probes.len()
        invariant
            i <= probes@.len(),
            forall|k: int|
                0 <= k < i ==> !((#[trigger] probes@[k]).layout == layout && probes@[k]@.passed()),
        decreases probes@.len() - i,
    {
        if probes[i].layout == layout && probes[i].passed() {
            proof {
                assert(probes@[i as int].layout == layout);
            }
            return true;
        }
        i += 1;
    }
    false
}

/// The layout to drive, given what both probes found.
pub fn chosen_layout(probes: &[Probe]) -> (r: Option<Layout>)
    ensures
        r == chosen(probes@),
{
    if has_passed(probes, Layout::Standard) {
        Some(Layout::Standard)
    } else if has_passed(probes, Layout::Alternate) {
        Some(Layout::Alternate)
    } else {
        None
    }
}

/// The order the evidence arrived in does not matter, only its content.
pub proof fn selection_ignores_order(a: Seq<Probe>, b: Seq<Probe>)
    requires
        forall|p: Probe| a.contains(p) <==> #[trigger] b.contains(p),
    ensures
        chosen(a) == chosen(b),
{
    assert forall|l: Layout| vouched(a, l) == vouched(b, l) by {
        if vouched(a, l) {
            let i = choose|i: int|
                0 <= i < a.len() && (#[trigger] a[i]).layout == l && a[i]@.passed();
            assert(a.contains(a[i]));
            assert(b.contains(a[i]));
            let j = choose|j: int| 0 <= j < b.len() && b[j] == a[i];
            assert(b[j].layout == l);
        }
        if vouched(b, l) {
            let i = choose|i: int|
                0 <= i < b.len() && (#[trigger] b[i]).layout == l && b[i]@.passed();
            assert(b.contains(b[i]));
            assert(a.contains(b[i]));
            let j = choose|j: int| 0 <= j < a.len() && a[j] == b[i];
            assert(a[j].layout == l);
        }
    }
    assert(vouched(a, Layout::Standard) == vouched(b, Layout::Standard));
    assert(vouched(a, Layout::Alternate) == vouched(b, Layout::Alternate));
}

/// The controller, as much of it as has to be remembered.
#[derive(Debug)]
pub struct Ec {
    pub layout: Layout,
    /// Whether this machine has one fan, so the second selector is never
    /// read or proved.
    pub single_fan: bool,
    /// What both layouts answered when probed. Empty on a configured handle.
    pub probes: Vec<Probe>,
    /// Whether the layout was dictated by the settings rather than probed.
    pub configured: bool,
    /// Whether the module's own setup has run.
    pub prepared: bool,
}

/// What probing said, sentence by sentence.
pub open spec fn findings(probes: Seq<Probe>) -> Seq<char>
    decreases probes.len(),
{
    if probes.len() == 0 {
        Seq::empty()
    } else {
        findings(probes.drop_last()) + ". "@ + probes.last().words()
    }
}

impl Ec {
    /// One past the last fan selector to drive: 1 on a single-fan machine,
    /// 2 everywhere else.
    pub open spec fn fans(self) -> int {
        if self.single_fan {
            1
        } else {
            2
        }
    }

    /// Whether the layout being driven passed its own probe.
    pub open spec fn vouched_for(self) -> bool {
        vouched(self.probes@, self.layout)
    }

    /// Whether every layout got a verdict.
    pub open spec fn all_definitive(self) -> bool {
        forall|i: int| 0 <= i < self.probes@.len() ==> (#[trigger] self.probes@[i])@.definitive()
    }

    /// Whether the selection may be written into the settings: the layout
    /// passed, and no layout that went unexamined could have beaten it.
    pub open spec fn recordable(self) -> bool {
        self.vouched_for() && (self.layout == Layout::Standard || self.all_definitive())
    }

    /// The whole selection on one line.
    pub open spec fn summary(self) -> Seq<char> {
        if self.configured {
            "driving the "@ + self.layout.words()
                + " because the settings say so, without probing"@
        } else {
            let choice = if !self.vouched_for() {
                "no layout validated at startup; falling back to the "@ + self.layout.words()
                    + " and leaving the engine to retry"@
            } else if self.recordable() {
                "driving the "@ + self.layout.words()
            } else {
                "driving the "@ + self.layout.words()
                    + " for this session without recording it, because the "@
                    + Layout::Standard.words()
                    + " could not be examined and would have taken precedence had it passed; the next start probes again"@
            };
            choice + findings(self.probes@)
        }
    }

    /// A handle on a layout, nothing probed and nothing prepared, on the
    /// presumption of two fans.
    pub fn with_layout(layout: Layout) -> (r: Ec)
        ensures
            r.layout == layout,
            !r.single_fan,
            r.probes@.len() == 0,
            !r.configured,
            !r.prepared,
    {
        Ec { layout, single_fan: false, probes: Vec::new(), configured: false, prepared: false }
    }

    /// A handle on a layout because the settings say so, probing nothing and
    /// validating nothing away.
    pub fn open_configured(layout: Layout) -> (r: Ec)
        ensures
            r.layout == layout,
            !r.single_fan,
            r.probes@.len() == 0,
            r.configured,
            !r.prepared,
    {
        Ec { layout, single_fan: false, probes: Vec::new(), configured: true, prepared: false }
    }

    /// Which port layout this handle is driving.
    pub fn layout(&self) -> (r: Layout)
        ensures
            r == self.layout,
    {
        self.layout
    }

    /// The evidence the choice was made on, one entry per layout.
    pub fn selection(&self) -> (r: &[Probe])
        ensures
            r@ == self.probes@,
    {
        self.probes.as_slice()
    }

    /// Tells the handle how many fans to talk to.
    pub fn set_single_fan(&mut self, single: bool)
        ensures
            *final(self) == (Ec { single_fan: single, ..*old(self) }),
    {
        self.single_fan = single;
    }

    /// Notes that the module's own setup has run.
    pub fn set_prepared(&mut self)
        ensures
            *final(self) == (Ec { prepared: true, ..*old(self) }),
    {
        self.prepared = true;
    }

    /// Whether the layout being driven passed its own probe. Always false on
    /// a configured handle, which probes nothing.
    pub fn validated(&self) -> (r: bool)
        ensures
            r == self.vouched_for(),
    {
        has_passed(self.probes.as_slice(), self.layout)
    }

    /// Whether the selection is one the caller may write into the settings,
    /// where it becomes every later boot's answer.
    pub fn worth_recording(&self) -> (r: bool)
        ensures
            r == self.recordable(),
    {
        if !self.validated() {
            return false;
        }
        if self.layout == Layout::Standard {
            return true;
        }
        let mut i: usize = 0;
        while i < self.probes.len()
            invariant
                i <= self.probes@.len(),
                self.vouched_for(),
                self.layout != Layout::Standard,
                forall|k: int| 0 <= k < i ==> (#[trigger] self.probes@[k])@.definitive(),
            decreases self.probes@.len() - i,
        {
            if !self.probes[i].definitive() {
                return false;
            }
            i += 1;
        }
        true
    }

    /// The whole selection on one line, for a log entry.
    pub fn selection_summary(&self) -> (r: String)
        ensures
            r@ == self.summary(),
    {
        if self.configured {
            let mut s = "driving the ".to_owned();
            s.append(self.layout.describe());
            s.append(" because the settings say so, without probing");
            return s;
        }
        let mut s = String::new();
        if !self.validated() {
            s.append("no layout validated at startup; falling back to the ");
            s.append(self.layout.describe());
            s.append(" and leaving the engine to retry");
            proof {
                assert(s@ == "no layout validated at startup; falling back to the "@
                    + self.layout.words() + " and leaving the engine to retry"@);
            }
        } else if self.worth_recording() {
            s.append("driving the ");
            s.append(self.layout.describe());
            proof {
                assert(s@ == "driving the "@ + self.layout.words());
            }
        } else {
            s.append("driving the ");
            s.append(self.layout.describe());
            s.append(" for this session without recording it, because the ");
            s.append(Layout::Standard.describe());
            s.append(
                " could not be examined and would have taken precedence had it passed; the next start probes again",
            );
            proof {
                assert(s@ == "driving the "@ + self.layout.words()
                    + " for this session without recording it, because the "@
                    + Layout::Standard.words()
                    + " could not be examined and would have taken precedence had it passed; the next start probes again"@);
            }
        }
        let ghost choice = s@;
        proof {
            assert(self.probes@.take(0) == Seq::<Probe>::empty());
            assert(choice + Seq::<char>::empty() == choice);
        }
        let mut i: usize = 0;
        while i < self.probes.len()
            invariant
                i <= self.probes@.len(),
                s@ == choice + findings(self.probes@.take(i as int)),
            decreases self.probes@.len() - i,
        {
            s.append(". ");
            s.append(self.probes[i].to_string().as_str());
            i += 1;
            proof {
                let upto = self.probes@.take(i as int);
                assert(upto.drop_last() == self.probes@.take(i - 1));
                assert(upto.last() == self.probes@[i - 1]);
                assert(s@ == choice + (findings(self.probes@.take(i - 1)) + ". "@
                    + self.probes@[i - 1].words()));
            }
        }
        proof {
            assert(self.probes@.take(self.probes@.len() as int) == self.probes@);
        }
        s
    }
}

/// The one win that stays unrecorded: the alternate layout passed while the
/// standard one could not be examined, and would have come first had it
/// passed.
pub proof fn only_an_unexamined_standard_layout_withholds_the_record(ec: Ec)
    requires
        ec.vouched_for(),
        !ec.recordable(),
        forall|i: int, j: int|
            0 <= i < ec.probes@.len() && 0 <= j < ec.probes@.len() && (
            #[trigger] ec.probes@[i]).layout == (#[trigger] ec.probes@[j]).layout ==> i == j,
    ensures
        ec.layout == Layout::Alternate,
        exists|i: int|
            0 <= i < ec.probes@.len() && (#[trigger] ec.probes@[i]).layout == Layout::Standard
                && !ec.probes@[i]@.definitive(),
{
    let i = choose|i: int| 0 <= i < ec.probes@.len() && !(#[trigger] ec.probes@[i])@.definitive();
    let w = choose|w: int|
        0 <= w < ec.probes@.len() && (#[trigger] ec.probes@[w]).layout == ec.layout
            && ec.probes@[w]@.passed();
    assert(ec.probes@[i].layout != ec.layout) by {
        if ec.probes@[i].layout == ec.layout {
            assert(ec.probes@[i].layout == ec.probes@[w].layout);
        }
    }
}

/// A handle being opened, once the standard layout has been tried.
#[derive(Debug)]
pub struct Opening {
    /// What trying the standard layout found, or why it could not be tried.
    standard: Result<Probe, Error>,
}

/// Whether an error stops both layouts equally, so there is nothing to learn
/// from trying the other.
pub open spec fn stops_everything(e: Error) -> bool {
    e is DriverUnavailable || e is AccessDenied || e is DriverTooOld
}

/// What a layout that could not be tried is remembered as.
pub open spec fn not_probed(layout: Layout, e: Error) -> ProbeView {
    unexamined_outright(layout, "not probed: "@ + e.words())
}

/// The evidence one try leaves.
pub open spec fn evidence(layout: Layout, tried: Result<Probe, Error>) -> ProbeView {
    match tried {
        Ok(probe) => probe@,
        Err(e) => not_probed(layout, e),
    }
}

fn is_fatal(e: &Error) -> (r: bool)
    ensures
        r == stops_everything(*e),
{
    match e {
        Error::DriverUnavailable => true,
        Error::AccessDenied => true,
        Error::DriverTooOld { found: _ } => true,
        _ => false,
    }
}

fn remember(layout: Layout, e: &Error) -> (r: Probe)
    ensures
        r@ == not_probed(layout, *e),
{
    let mut why = "not probed: ".to_owned();
    why.append(e.to_string().as_str());
    Probe::unexamined(layout, why)
}

impl Opening {
    pub closed spec fn tried(self) -> Result<Probe, Error> {
        self.standard
    }

    /// Settles on a layout once both have been tried.
    ///
    /// A layout that passed wins, the standard one first. When nothing
    /// validates this still gives a handle on the standard layout, with the
    /// evidence attached: the engine retries its way out of the transient
    /// failures that land there. Only a module that would not load, or a
    /// driver that stops everything, stops startup.
    pub fn finish(self, alternate: Result<Probe, Error>) -> (r: Result<Ec, Error>)
        requires
            self.tried() matches Ok(p) ==> p.layout == Layout::Standard,
            alternate matches Ok(p) ==> p.layout == Layout::Alternate,
        ensures
            match (self.tried(), alternate) {
                (_, Err(e)) if stops_everything(e) => r == Err::<Ec, Error>(e),
                (standard, _) => {
                    let first = evidence(Layout::Standard, standard);
                    let second = evidence(Layout::Alternate, alternate);
                    let target = if !first.passed() && second.passed() {
                        Layout::Alternate
                    } else {
                        Layout::Standard
                    };
                    if target == Layout::Standard && standard is Err {
                        r == Err::<Ec, Error>(standard->Err_0)
                    } else {
                        &&& r matches Ok(ec)
                        &&& ec.layout == target
                        &&& !ec.configured && !ec.single_fan && !ec.prepared
                        &&& ec.probes@.len() == 2
                        &&& ec.probes@[0]@ == first
                        &&& ec.probes@[1]@ == second
                    }
                },
            },
    {
        match alternate {
            Err(e) => {
                if is_fatal(&e) {
                    return Err(e);
                }
                let second = remember(Layout::Alternate, &e);
                match self.standard {
                    Ok(first) => {
                        let mut ec = Ec::with_layout(Layout::Standard);
                        ec.probes.push(first);
                        ec.probes.push(second);
                        Ok(ec)
                    },
                    Err(why) => Err(why),
                }
            },
            Ok(second) => {
                match self.standard {
                    Ok(first) => {
                        let target = if !first.passed() && second.passed() {
                            Layout::Alternate
                        } else {
                            Layout::Standard
                        };
                        let mut ec = Ec::with_layout(target);
                        ec.probes.push(first);
                        ec.probes.push(second);
                        Ok(ec)
                    },
                    Err(why) => {
                        if second.passed() {
                            let mut ec = Ec::with_layout(Layout::Alternate);
                            ec.probes.push(remember(Layout::Standard, &why));
                            ec.probes.push(second);
                            Ok(ec)
                        } else {
                            Err(why)
                        }
                    },
                }
            },
        }
    }
}

impl Ec {
    /// Begins opening the controller at whichever layout this machine has,
    /// with what trying the standard one found. A driver that is absent,
    /// refuses us or is too old stops here: there is nothing to learn from
    /// the other layout.
    pub fn open(standard: Result<Probe, Error>) -> (r: Result<Opening, Error>)
        ensures
            match standard {
                Err(e) if stops_everything(e) => r == Err::<Opening, Error>(e),
                _ => r matches Ok(opening) && opening.tried() == standard,
            },
    {
        match standard {
            Err(e) => {
                if is_fatal(&e) {
                    Err(e)
                } else {
                    Ok(Opening { standard: Err(e) })
                }
            },
            Ok(probe) => Ok(Opening { standard: Ok(probe) }),
        }
    }
}

/// An opened handle drives what the evidence picks, and the standard layout
/// when it picks nothing.
pub proof fn opening_follows_the_evidence(
    first: Probe,
    second: Probe,
    standard: Result<Probe, Error>,
    alternate: Result<Probe, Error>,
)
    requires
        standard matches Ok(p) ==> p.layout == Layout::Standard,
        alternate matches Ok(p) ==> p.layout == Layout::Alternate,
        first@ == evidence(Layout::Standard, standard),
        second@ == evidence(Layout::Alternate, alternate),
    ensures
        (match chosen(seq![first, second]) {
            Some(l) => l,
            None => Layout::Standard,
        }) == (if !first@.passed() && second@.passed() {
            Layout::Alternate
        } else {
            Layout::Standard
        }),
{
    let probes = seq![first, second];
    assert(probes[0] == first && probes[1] == second);
    assert(first@.layout == Layout::Standard);
    assert(second@.layout == Layout::Alternate);
    if first@.passed() {
        assert(probes[0].layout == Layout::Standard && probes[0]@.passed());
        assert(vouched(probes, Layout::Standard));
    }
    if second@.passed() {
        assert(probes[1].layout == Layout::Alternate && probes[1]@.passed());
        assert(vouched(probes, Layout::Alternate));
    }
}

/// What a sensor byte means: 0x00 and 0x80 are no reading, 0x01 to 0x7f are
/// that many degrees, and 0x81 to 0xff are as many degrees below zero as they
/// are short of 0x100. No two bytes mean the same reading.
pub proof fn a_sensor_byte_is_signed_degrees(b: u8, c: u8)
    ensures
        b == 0x00 || b == 0x80 ==> reading(b) is None,
        0x01 <= b <= 0x7f ==> reading(b) is Some && reading(b)->0 == b,
        0x81 <= b ==> reading(b) is Some && reading(b)->0 == b - 0x100,
        reading(b) is Some && reading(b) == reading(c) ==> b == c,
{
}

/// What two speed bytes mean: the high byte counts 256 each, and more than
/// 8191 is no speed at all.
pub proof fn a_speed_is_its_two_bytes(lo: u8, hi: u8)
    ensures
        hi < 0x20 ==> speed(lo, hi) == lo + 256 * hi,
        hi >= 0x20 ==> speed(lo, hi) == 0,
{
}

/// The reading acted on belongs to a sensor that reports and is not ignored,
/// no such sensor reads hotter, and there is no reading only where there is no
/// such sensor.
pub proof fn no_sensor_with_a_say_reads_hotter(state: EcStateView, ignored: Seq<usize>, j: usize)
    requires
        state.sensors.len() == 12,
        j < 12,
    ensures
        match state.hottest(ignored) {
            Some((i, t)) => {
                &&& i < 12
                &&& state.sensors[i as int] == Some(t)
                &&& forall|k: int| 0 <= k < ignored.len() ==> #[trigger] ignored[k] != i
                &&& state.sensors[j as int] is Some && (forall|k: int|
                    0 <= k < ignored.len() ==> #[trigger] ignored[k] != j)
                    ==> state.sensors[j as int]->0 <= t && (j > i ==> state.sensors[j as int]->0
                    < t)
            },
            None => state.sensors[j as int] is None || exists|k: int|
                0 <= k < ignored.len() && #[trigger] ignored[k] == j,
        },
{
    the_hottest_is_the_hottest(state, ignored);
    let says = counts(state.sensors, ignored, j as int);
    if state.sensors[j as int] is Some && !says {
        assert(ignored.contains(j));
        let k = choose|k: int| 0 <= k < ignored.len() && ignored[k] == j;
        assert(ignored[k] == j);
    }
    match state.hottest(ignored) {
        Some((i, t)) => {
            assert(counts(state.sensors, ignored, i as int));
            assert forall|k: int| 0 <= k < ignored.len() implies #[trigger] ignored[k] != i by {
                if ignored[k] == i {
                    assert(ignored.contains(i));
                }
            }
        },
        None => {},
    }
}

/// The firmware owns a machine's fans exactly when the top bit is set in both
/// fan registers.
pub proof fn the_firmware_owns_both_or_neither(state: EcStateView)
    requires
        state.fan_ctrl_per_fan.len() == 2,
    ensures
        state.bios_controlled() <==> state.fan_ctrl_per_fan[0] & 0x80 != 0
            && state.fan_ctrl_per_fan[1] & 0x80 != 0,
{
    let first = state.fan_ctrl_per_fan[0];
    let second = state.fan_ctrl_per_fan[1];
    assert(state.bios_controlled() ==> first & FAN_BIOS != 0 && second & FAN_BIOS != 0);
}

/// A byte can have come from a fan register exactly when, its three reserved
/// bits aside, it is a level of 0 to 7, the firmware flag with any of those,
/// or the bare disengage bit.
pub proof fn what_a_fan_register_can_hold(v: u8)
    ensures
        fan_state(v) <==> {
            ||| v & 0xc7 <= 0x07
            ||| v & 0xc7 == 0x40
            ||| 0x80 <= v & 0xc7 <= 0x87
        },
        !fan_state(0xff),
{
    assert((v & 0x80u8 != 0 && v & 0x40u8 == 0) <==> 0x80u8 <= v & 0xc7u8 && v & 0xc7u8 <= 0x87u8)
        by (bit_vector);
    assert(0xffu8 & 0xc7u8 == 0xc7u8) by (bit_vector);
    assert(0xffu8 & 0x40u8 == 0x40u8) by (bit_vector);
}

/// A bank of eight equal bytes is no bank of sensors, and neither is one with
/// nothing between 5 and 110; any other is.
pub proof fn a_bank_of_sensors_disagrees_and_is_believable(temps: Seq<u8>)
    requires
        temps.len() == 8,
    ensures
        (forall|i: int, j: int|
            0 <= i < 8 && 0 <= j < 8 ==> #[trigger] temps[i] == #[trigger] temps[j])
            ==> !sensor_bank(temps),
        (forall|i: int| 0 <= i < 8 ==> #[trigger] temps[i] < 5 || temps[i] > 110)
            ==> !sensor_bank(temps),
        forall|i: int, j: int, k: int|
            0 <= i < 8 && 0 <= j < 8 && 0 <= k < 8 && #[trigger] temps[i] != #[trigger] temps[j]
                && 5 <= #[trigger] temps[k] <= 110 ==> sensor_bank(temps),
{
    assert forall|i: int, j: int, k: int|
        0 <= i < 8 && 0 <= j < 8 && 0 <= k < 8 && #[trigger] temps[i] != #[trigger] temps[j] && 5
            <= #[trigger] temps[k] <= 110 implies sensor_bank(temps) by {
        if temps[i] == temps[0] {
            assert(temps[j] != temps[0]);
        }
    }
}

/// The standard layout is chosen wherever it passed, the alternate one only
/// where it passed and the standard one did not, and none where none passed.
pub proof fn a_layout_is_chosen_on_its_own_probe(probes: Seq<Probe>)
    ensures
        match chosen(probes) {
            Some(l) => exists|i: int|
                0 <= i < probes.len() && (#[trigger] probes[i]).layout == l && probes[i].failure is None,
            None => forall|i: int|
                0 <= i < probes.len() ==> (#[trigger] probes[i]).failure is Some,
        },
        chosen(probes) == Some(Layout::Alternate) ==> forall|i: int|
            0 <= i < probes.len() && (#[trigger] probes[i]).layout == Layout::Standard
                ==> probes[i].failure is Some,
{
    assert forall|i: int| 0 <= i < probes.len() && (#[trigger] probes[i]).failure is None implies (
    vouched(probes, Layout::Standard) || vouched(probes, Layout::Alternate)) && (probes[i].layout
        == Layout::Standard ==> vouched(probes, Layout::Standard)) by {
        assert(probes[i]@.passed());
        assert(vouched(probes, probes[i].layout));
    }
}

/// A selection is recorded exactly when the layout driven passed, and is the
/// standard one or no layout went unexamined.
pub proof fn a_selection_is_recorded_on_evidence(ec: Ec)
    ensures
        ec.recordable() <==> {
            &&& exists|i: int|
                0 <= i < ec.probes@.len() && (#[trigger] ec.probes@[i]).layout == ec.layout
                    && ec.probes@[i].failure is None
            &&& ec.layout == Layout::Standard || forall|i: int|
                0 <= i < ec.probes@.len() ==> !((#[trigger] ec.probes@[i]).failure matches Some(
                    ProbeFailure::Unexamined(_),
                ))
        },
{
    if ec.vouched_for() {
        let i = choose|i: int|
            0 <= i < ec.probes@.len() && (#[trigger] ec.probes@[i]).layout == ec.layout
                && ec.probes@[i]@.passed();
        assert(ec.probes@[i].failure is None);
    }
    if exists|i: int|
        0 <= i < ec.probes@.len() && (#[trigger] ec.probes@[i]).layout == ec.layout
            && ec.probes@[i].failure is None {
        let i = choose|i: int|
            0 <= i < ec.probes@.len() && (#[trigger] ec.probes@[i]).layout == ec.layout
                && ec.probes@[i].failure is None;
        assert(ec.probes@[i]@.passed());
    }
    assert forall|i: int| 0 <= i < ec.probes@.len() implies (#[trigger] ec.probes@[i])@.definitive()
        == !(ec.probes@[i].failure matches Some(ProbeFailure::Unexamined(_))) by {}
    if ec.all_definitive() {
        assert forall|i: int| 0 <= i < ec.probes@.len() implies !((
        #[trigger] ec.probes@[i]).failure matches Some(ProbeFailure::Unexamined(_))) by {
            assert(ec.probes@[i]@.definitive());
        }
    }
}

/// Trouble with the driver stops both layouts; trouble with one layout's
/// module or ports stops only that one.
pub proof fn only_the_driver_stops_everything(e: Error)
    ensures
        stops_everything(e) <==> !(e is ModuleMissing || e is ModuleRejected || e is Call
            || e is PortNotPermitted || e is Busy || e is NoController),
{
}

proof fn every_finding_stands(probes: Seq<Probe>, i: int)
    requires
        0 <= i < probes.len(),
    ensures
        crate::text::holds(findings(probes), probes[i].words()),
    decreases probes.len(),
{
    let rest = probes.drop_last();
    if i == probes.len() - 1 {
        crate::text::it_stands_at_the_end(findings(rest) + ". "@, probes[i].words());
    } else {
        every_finding_stands(rest, i);
        assert(rest[i] == probes[i]);
        crate::text::it_still_stands(findings(rest), ". "@, probes[i].words());
        crate::text::it_still_stands(
            findings(rest) + ". "@,
            probes.last().words(),
            probes[i].words(),
        );
    }
}

/// A selection that was probed for says what every layout answered. One that
/// was settled says it was not probed for, and one that will not be kept says
/// so.
pub proof fn a_selection_says_what_it_rests_on(ec: Ec, i: int)
    requires
        0 <= i < ec.probes@.len(),
    ensures
        !ec.configured ==> crate::text::holds(ec.summary(), ec.probes@[i].words()),
        ec.configured ==> ec.summary() == "driving the "@ + ec.layout.words()
            + " because the settings say so, without probing"@,
        !ec.configured && ec.vouched_for() ==> crate::text::begins(
            ec.summary(),
            "driving the "@ + ec.layout.words(),
        ),
        !ec.configured && !ec.vouched_for() ==> crate::text::begins(
            ec.summary(),
            "no layout validated at startup; falling back to the "@ + ec.layout.words(),
        ),
        !ec.configured && ec.vouched_for() && !ec.recordable() ==> crate::text::begins(
            ec.summary(),
            "driving the "@ + ec.layout.words()
                + " for this session without recording it, because the "@,
        ),
        ec.fans() == if ec.single_fan {
            1int
        } else {
            2
        },
{
    let said = findings(ec.probes@);
    every_finding_stands(ec.probes@, i);
    let at = choose|at: int| #[trigger]
        crate::text::stands_at(said, ec.probes@[i].words(), at);
    if !ec.configured {
        let whole = ec.summary();
        let choice = whole.take(whole.len() - said.len());
        let piece = ec.probes@[i].words();
        assert(whole =~= choice + said);
        let from = choice.len() + at;
        assert(whole.subrange(from, from + piece.len()) =~= said.subrange(at, at + piece.len()));
        assert(crate::text::stands_at(whole, piece, from));
        let short = "driving the "@ + ec.layout.words();
        assert(ec.vouched_for() ==> whole.take(short.len() as int) =~= short);
        let fallback = "no layout validated at startup; falling back to the "@ + ec.layout.words();
        assert(!ec.vouched_for() ==> whole.take(fallback.len() as int) =~= fallback);
        let unkept = "driving the "@ + ec.layout.words()
            + " for this session without recording it, because the "@;
        assert(ec.vouched_for() && !ec.recordable() ==> whole.take(unkept.len() as int) =~= unkept);
    }
}

} // verus!
