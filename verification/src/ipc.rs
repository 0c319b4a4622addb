//! What the engine and the window say to each other.
//!
//! One shared block. The engine publishes what it read, a window posts what
//! the user asked for, and a sequence and an acknowledgment tell the window
//! when its request landed.

use vstd::prelude::*;
use vstd::utf8::{decode_utf8, encode_utf8, valid_utf8};

use crate::text::{from_utf8_lossy, lossy};

verus! {

/// Bytes kept for a profile's name, the closing zero among them.
pub const NAME_LEN: usize = 64;

/// Sensors in a sample.
pub const SENSOR_COUNT: usize = 12;

/// Bytes in the shared block, as both sides lay it out.
pub const SHARED_LEN: usize = 180;

/// Encodes "this sensor is not reporting" without a separate mask.
pub const SENSOR_ABSENT: i16 = i16::MIN;

/// Mode as it crosses the boundary.
pub const MODE_BIOS: u8 = 0;

pub const MODE_SMART: u8 = 1;

pub const MODE_MANUAL: u8 = 2;

/// "Change the profile, leave the mode alone."
pub const MODE_KEEP: u8 = 0xff;

/// What kind of trouble the engine is in. Zero is healthy on purpose: a
/// freshly zeroed block reads as "nothing to report".
pub const STATUS_OK: u8 = 0;

/// Running, but the controller cannot be reached.
pub const STATUS_UNREACHABLE: u8 = 1;

/// Faults made the engine step aside. The firmware has the fan, and the curve
/// comes back once the controller behaves.
pub const STATUS_SURRENDERED: u8 = 2;

/// Handing the fan back failed.
pub const STATUS_HANDBACK_FAILED: u8 = 3;

/// Offered when a run of declined fan writes meets a second fan that has
/// never once reported a speed. It takes the place of the detail line, so it
/// has to fit beside every headline.
pub const SINGLE_FAN_HINT: &'static str =
    "This may be a single-fan machine. Set Fans to Single in Settings.";

/// A headline and a line of detail for each state, or nothing when healthy.
/// The flag is still heeded where the status says nothing.
pub open spec fn words_for(status: u8, fault: bool) -> Option<(Seq<char>, Seq<char>)> {
    if status == STATUS_HANDBACK_FAILED {
        Some(
            (
                "The fan may be held at a fixed level"@,
                "Firmware fan control is off. Restart Yamato, or reboot."@,
            ),
        )
    } else if status == STATUS_SURRENDERED {
        Some(
            (
                "The firmware has the fan"@,
                "Yamato stepped aside after a fault; the curve returns shortly."@,
            ),
        )
    } else if status == STATUS_UNREACHABLE || fault {
        Some(
            ("Cannot reach the embedded controller"@, "Readings return when it answers again."@),
        )
    } else {
        None
    }
}

/// A headline and a line of detail for each state, or nothing when healthy.
pub fn status_words(status: u8, fault: bool) -> (r: Option<(&'static str, &'static str)>)
    ensures
        match r {
            Some((headline, detail)) => words_for(status, fault) == Some((headline@, detail@)),
            None => words_for(status, fault) is None,
        },
{
    if status == STATUS_HANDBACK_FAILED {
        Some(
            (
                "The fan may be held at a fixed level",
                "Firmware fan control is off. Restart Yamato, or reboot.",
            ),
        )
    } else if status == STATUS_SURRENDERED {
        Some(
            (
                "The firmware has the fan",
                "Yamato stepped aside after a fault; the curve returns shortly.",
            ),
        )
    } else if status == STATUS_UNREACHABLE || fault {
        Some(("Cannot reach the embedded controller", "Readings return when it answers again."))
    } else {
        None
    }
}

/// Where a name's bytes end: at the first zero from place `i` on, or with the
/// field.
pub open spec fn name_end(raw: Seq<u8>, i: int) -> int
    decreases raw.len() - i,
{
    if i >= raw.len() {
        raw.len() as int
    } else if raw[i] == 0 {
        i
    } else {
        name_end(raw, i + 1)
    }
}

/// The name a field holds.
pub open spec fn name_of(raw: Seq<u8>) -> Seq<char> {
    lossy(raw.take(name_end(raw, 0)))
}

/// The bytes of a name that a field has room for.
pub open spec fn kept_bytes(name: Seq<char>) -> Seq<u8> {
    let bytes = encode_utf8(name);
    if bytes.len() < NAME_LEN {
        bytes
    } else {
        bytes.take(NAME_LEN - 1)
    }
}

/// A name as a field holds it: its bytes, as many as leave room for a closing
/// zero, and zeros behind them.
pub open spec fn name_field(name: Seq<char>) -> Seq<u8> {
    let kept = kept_bytes(name);
    Seq::new(
        NAME_LEN as nat,
        |i: int|
            if i < kept.len() {
                kept[i]
            } else {
                0u8
            },
    )
}

/// The name a field holds.
pub fn decode_name(raw: &[u8; NAME_LEN]) -> (r: String)
    ensures
        r@ == name_of(raw@),
        valid_utf8(raw@.take(name_end(raw@, 0))) ==> r@ == decode_utf8(
            raw@.take(name_end(raw@, 0)),
        ),
{
    let mut bytes: Vec<u8> = Vec::new();
    let mut i: usize = 0;
    while i < NAME_LEN && raw[i] != 0
        invariant
            i <= NAME_LEN,
            raw@.len() == NAME_LEN,
            bytes@ == raw@.take(i as int),
            name_end(raw@, 0) == name_end(raw@, i as int),
        decreases NAME_LEN - i,
    {
        bytes.push(raw[i]);
        i += 1;
        proof {
            assert(raw@.take(i - 1).push(raw@[i - 1]) == raw@.take(i as int));
        }
    }
    from_utf8_lossy(&bytes)
}

/// Writes a name into a field.
pub fn encode_name(into: &mut [u8; NAME_LEN], name: &str)
    ensures
        final(into)@ == name_field(name@),
{
    let bytes = name.as_bytes();
    let mut i: usize = 0;
    while i < NAME_LEN
        invariant
            i <= NAME_LEN,
            into@.len() == NAME_LEN,
            bytes@ == encode_utf8(name@),
            forall|k: int| 0 <= k < i ==> into@[k] == name_field(name@)[k],
        decreases NAME_LEN - i,
    {
        into[i] = if i < bytes.len() && i < NAME_LEN - 1 {
            bytes[i]
        } else {
            0
        };
        i += 1;
    }
    proof {
        assert(into@ =~= name_field(name@));
    }
}

/// The block both sides map.
#[derive(Debug, Clone, Copy)]
pub struct Shared {
    /// Bumped by the engine after each publish.
    pub state_seq: u32,
    /// Bumped by a window after posting a command.
    pub cmd_seq: u32,
    /// The `cmd_seq` the engine has acted on.
    pub ack_seq: u32,
    // Published by the engine.
    pub fan_ctrl: u8,
    pub mode: u8,
    pub hottest_index: u8,
    pub hottest_temp: i8,
    pub fan_rpm: [u16; 2],
    pub sensors: [i16; SENSOR_COUNT],
    pub profile: [u8; NAME_LEN],
    /// Set when the engine is running but in trouble.
    pub fault: u8,
    /// Which kind of trouble, as one of the `STATUS_` values.
    pub status: u8,
    /// How often the engine intends to publish, in seconds.
    pub publish_secs: u16,
    // Posted by a window.
    pub cmd_mode: u8,
    pub cmd_level: u8,
    pub cmd_profile: [u8; NAME_LEN],
    /// Set while the engine's fan writes are being declined. Published by the
    /// engine, despite sitting below the window's fields.
    pub fan_write_declined: u8,
}

/// The block, mathematically.
#[verifier::ext_equal]
pub ghost struct SharedView {
    pub state_seq: u32,
    pub cmd_seq: u32,
    pub ack_seq: u32,
    pub fan_ctrl: u8,
    pub mode: u8,
    pub hottest_index: u8,
    pub hottest_temp: i8,
    pub fan_rpm: Seq<u16>,
    pub sensors: Seq<i16>,
    pub profile: Seq<u8>,
    pub fault: u8,
    pub status: u8,
    pub publish_secs: u16,
    pub cmd_mode: u8,
    pub cmd_level: u8,
    pub cmd_profile: Seq<u8>,
    pub fan_write_declined: u8,
}

impl View for Shared {
    type V = SharedView;

    open spec fn view(&self) -> SharedView {
        SharedView {
            state_seq: self.state_seq,
            cmd_seq: self.cmd_seq,
            ack_seq: self.ack_seq,
            fan_ctrl: self.fan_ctrl,
            mode: self.mode,
            hottest_index: self.hottest_index,
            hottest_temp: self.hottest_temp,
            fan_rpm: self.fan_rpm@,
            sensors: self.sensors@,
            profile: self.profile@,
            fault: self.fault,
            status: self.status,
            publish_secs: self.publish_secs,
            cmd_mode: self.cmd_mode,
            cmd_level: self.cmd_level,
            cmd_profile: self.cmd_profile@,
            fan_write_declined: self.fan_write_declined,
        }
    }
}

/// A flag as a byte.
pub open spec fn flag(set: bool) -> u8 {
    if set {
        1
    } else {
        0
    }
}

/// A reading as the block holds it.
pub open spec fn reading_field(reading: Option<i8>) -> i16 {
    match reading {
        Some(t) => t as i16,
        None => SENSOR_ABSENT,
    }
}

/// A counter one further on, starting over past the end.
pub open spec fn bumped(n: u32) -> u32 {
    if n == u32::MAX {
        0
    } else {
        (n + 1) as u32
    }
}

/// One sample, as the engine hands it over for publishing.
#[derive(Debug, Clone, Copy)]
pub struct Sample {
    pub fan_ctrl: u8,
    pub mode: u8,
    pub hottest: Option<(usize, i8)>,
    pub fan_rpm: [u16; 2],
    pub sensors: [Option<i8>; SENSOR_COUNT],
    pub fault: bool,
    pub status: u8,
    pub fan_write_declined: bool,
    pub publish_secs: u16,
}

impl SharedView {
    /// The block after a sample has been published.
    pub open spec fn published(self, sample: Sample, profile: Seq<char>) -> SharedView {
        SharedView {
            state_seq: bumped(self.state_seq),
            fan_ctrl: sample.fan_ctrl,
            mode: sample.mode,
            hottest_index: match sample.hottest {
                Some((index, _)) => (index as int % 256) as u8,
                None => 0,
            },
            hottest_temp: match sample.hottest {
                Some((_, temp)) => temp,
                None => 0,
            },
            fan_rpm: sample.fan_rpm@,
            sensors: sample.sensors@.map_values(|r: Option<i8>| reading_field(r)),
            profile: name_field(profile),
            fault: flag(sample.fault),
            status: sample.status,
            publish_secs: if sample.publish_secs < 1 {
                1
            } else {
                sample.publish_secs
            },
            fan_write_declined: flag(sample.fan_write_declined),
            ..self
        }
    }

    /// The block after a command has been posted.
    pub open spec fn posted(self, mode: u8, level: u8, profile: Seq<char>) -> SharedView {
        SharedView {
            cmd_seq: bumped(self.cmd_seq),
            cmd_mode: mode,
            cmd_level: level,
            cmd_profile: name_field(profile),
            ..self
        }
    }

    /// The command waiting to be acted on, if any.
    pub open spec fn pending(self) -> Option<u32> {
        if self.cmd_seq != self.ack_seq {
            Some(self.cmd_seq)
        } else {
            None
        }
    }
}

impl Shared {
    /// A block nobody has written to yet: firmware mode, no fault, no
    /// command.
    pub fn zeroed() -> (r: Self)
        ensures
            r@ == (SharedView {
                state_seq: 0,
                cmd_seq: 0,
                ack_seq: 0,
                fan_ctrl: 0,
                mode: MODE_BIOS,
                hottest_index: 0,
                hottest_temp: 0,
                fan_rpm: Seq::new(2, |i: int| 0u16),
                sensors: Seq::new(SENSOR_COUNT as nat, |i: int| 0i16),
                profile: Seq::new(NAME_LEN as nat, |i: int| 0u8),
                fault: 0,
                status: STATUS_OK,
                publish_secs: 0,
                cmd_mode: 0,
                cmd_level: 0,
                cmd_profile: Seq::new(NAME_LEN as nat, |i: int| 0u8),
                fan_write_declined: 0,
            }),
            r@.pending() is None,
            words_for(r@.status, r@.fault != 0) is None,
    {
        let r = Shared {
            state_seq: 0,
            cmd_seq: 0,
            ack_seq: 0,
            fan_ctrl: 0,
            mode: MODE_BIOS,
            hottest_index: 0,
            hottest_temp: 0,
            fan_rpm: [0, 0],
            sensors: [0; SENSOR_COUNT],
            profile: [0; NAME_LEN],
            fault: 0,
            status: STATUS_OK,
            publish_secs: 0,
            cmd_mode: 0,
            cmd_level: 0,
            cmd_profile: [0; NAME_LEN],
            fan_write_declined: 0,
        };
        proof {
            assert(r.fan_rpm@ =~= Seq::new(2, |i: int| 0u16));
            assert(r.sensors@ =~= Seq::new(SENSOR_COUNT as nat, |i: int| 0i16));
            assert(r.profile@ =~= Seq::new(NAME_LEN as nat, |i: int| 0u8));
            assert(r.cmd_profile@ =~= Seq::new(NAME_LEN as nat, |i: int| 0u8));
        }
        r
    }

    /// The name of the profile the engine is running.
    pub fn read_profile(&self) -> (r: String)
        ensures
            r@ == name_of(self@.profile),
            valid_utf8(self@.profile.take(name_end(self@.profile, 0))) ==> r@ == decode_utf8(
                self@.profile.take(name_end(self@.profile, 0)),
            ),
    {
        decode_name(&self.profile)
    }

    /// The name of the profile a window asked for.
    pub fn read_cmd_profile(&self) -> (r: String)
        ensures
            r@ == name_of(self@.cmd_profile),
            valid_utf8(self@.cmd_profile.take(name_end(self@.cmd_profile, 0))) ==> r@ == decode_utf8(
                self@.cmd_profile.take(name_end(self@.cmd_profile, 0)),
            ),
    {
        decode_name(&self.cmd_profile)
    }

    /// Engine side: publish a sample.
    pub fn publish(&mut self, sample: &Sample, profile: &str)
        ensures
            final(self)@ == old(self)@.published(*sample, profile@),
    {
        self.fan_ctrl = sample.fan_ctrl;
        self.mode = sample.mode;
        self.fan_rpm = sample.fan_rpm;
        self.fault = if sample.fault {
            1
        } else {
            0
        };
        self.status = sample.status;
        self.fan_write_declined = if sample.fan_write_declined {
            1
        } else {
            0
        };
        self.publish_secs = if sample.publish_secs < 1 {
            1
        } else {
            sample.publish_secs
        };
        match sample.hottest {
            Some((index, temp)) => {
                self.hottest_index = (index % 256) as u8;
                self.hottest_temp = temp;
            },
            None => {
                self.hottest_index = 0;
                self.hottest_temp = 0;
            },
        }
        let mut sensors: [i16; SENSOR_COUNT] = [0; SENSOR_COUNT];
        let mut i: usize = 0;
        while i < SENSOR_COUNT
            invariant
                i <= SENSOR_COUNT,
                sensors@.len() == SENSOR_COUNT,
                forall|k: int|
                    0 <= k < i ==> (#[trigger] sensors@[k]) == reading_field(sample.sensors@[k]),
            decreases SENSOR_COUNT - i,
        {
            sensors[i] = match sample.sensors[i] {
                Some(t) => t as i16,
                None => SENSOR_ABSENT,
            };
            i += 1;
        }
        self.sensors = sensors;
        encode_name(&mut self.profile, profile);
        // Last, so a reader that sees the new number sees the fields behind
        // it.
        self.state_seq = self.state_seq.wrapping_add(1);
        proof {
            assert(self@.sensors =~= sample.sensors@.map_values(
                |r: Option<i8>| reading_field(r),
            ));
        }
    }

    /// Engine side: record that a command has been acted on.
    pub fn acknowledge(&mut self, seq: u32)
        ensures
            final(self)@ == (SharedView { ack_seq: seq, ..old(self)@ }),
    {
        self.ack_seq = seq;
    }

    /// Window side: ask for a mode. Returns the sequence to watch for.
    pub fn post_command(&mut self, mode: u8, level: u8, profile: &str) -> (r: u32)
        ensures
            final(self)@ == old(self)@.posted(mode, level, profile@),
            r == final(self)@.cmd_seq,
    {
        self.cmd_mode = mode;
        self.cmd_level = level;
        encode_name(&mut self.cmd_profile, profile);
        // Fields first, then the sequence, for the same reason as publish.
        self.cmd_seq = self.cmd_seq.wrapping_add(1);
        self.cmd_seq
    }

    /// Engine side: the command sequence waiting to be acted on, if any.
    pub fn pending_command(&self) -> (r: Option<u32>)
        ensures
            r == self@.pending(),
    {
        if self.cmd_seq != self.ack_seq {
            Some(self.cmd_seq)
        } else {
            None
        }
    }
}

/// One byte of a number written low byte first.
pub open spec fn low_first(n: int, k: int) -> u8 {
    if k == 0 {
        (n % 256) as u8
    } else if k == 1 {
        (n / 256 % 256) as u8
    } else if k == 2 {
        (n / 65536 % 256) as u8
    } else {
        (n / 16777216 % 256) as u8
    }
}

/// A signed byte as the byte that writes it.
pub open spec fn unsigned_8(n: i8) -> int {
    if n < 0 {
        n + 256
    } else {
        n as int
    }
}

/// A signed 16 bit number as the unsigned one that writes it.
pub open spec fn unsigned_16(n: i16) -> int {
    if n < 0 {
        n + 65536
    } else {
        n as int
    }
}

impl SharedView {
    /// The byte at a place of the block. Both sides map the same bytes, so
    /// where each field lies is settled here and nowhere else.
    pub open spec fn byte(self, i: int) -> u8 {
        if i < 4 {
            low_first(self.state_seq as int, i)
        } else if i < 8 {
            low_first(self.cmd_seq as int, i - 4)
        } else if i < 12 {
            low_first(self.ack_seq as int, i - 8)
        } else if i == 12 {
            self.fan_ctrl
        } else if i == 13 {
            self.mode
        } else if i == 14 {
            self.hottest_index
        } else if i == 15 {
            unsigned_8(self.hottest_temp) as u8
        } else if i < 20 {
            low_first(self.fan_rpm[(i - 16) / 2] as int, (i - 16) % 2)
        } else if i < 44 {
            low_first(unsigned_16(self.sensors[(i - 20) / 2]), (i - 20) % 2)
        } else if i < 108 {
            self.profile[i - 44]
        } else if i == 108 {
            self.fault
        } else if i == 109 {
            self.status
        } else if i < 112 {
            low_first(self.publish_secs as int, i - 110)
        } else if i == 112 {
            self.cmd_mode
        } else if i == 113 {
            self.cmd_level
        } else if i < 178 {
            self.cmd_profile[i - 114]
        } else if i == 178 {
            self.fan_write_declined
        } else {
            0
        }
    }

    /// The block's bytes.
    pub open spec fn bytes(self) -> Seq<u8> {
        Seq::new(SHARED_LEN as nat, |i: int| self.byte(i))
    }
}

/// The number two bytes write, low byte first.
pub open spec fn number_16(bytes: Seq<u8>, at: int) -> int {
    bytes[at] + 256 * bytes[at + 1]
}

/// The number four bytes write, low byte first.
pub open spec fn number_32(bytes: Seq<u8>, at: int) -> int {
    bytes[at] + 256 * bytes[at + 1] + 65536 * bytes[at + 2] + 16777216 * bytes[at + 3]
}

/// The signed 16 bit number an unsigned one writes.
pub open spec fn signed_16(n: int) -> i16 {
    if n >= 32768 {
        (n - 65536) as i16
    } else {
        n as i16
    }
}

/// The signed byte a byte writes.
pub open spec fn signed_8(n: u8) -> i8 {
    if n >= 128 {
        (n - 256) as i8
    } else {
        n as i8
    }
}

/// The block a run of bytes holds.
pub open spec fn block_of(bytes: Seq<u8>) -> SharedView {
    SharedView {
        state_seq: number_32(bytes, 0) as u32,
        cmd_seq: number_32(bytes, 4) as u32,
        ack_seq: number_32(bytes, 8) as u32,
        fan_ctrl: bytes[12],
        mode: bytes[13],
        hottest_index: bytes[14],
        hottest_temp: signed_8(bytes[15]),
        fan_rpm: Seq::new(2, |i: int| number_16(bytes, 16 + 2 * i) as u16),
        sensors: Seq::new(
            SENSOR_COUNT as nat,
            |i: int| signed_16(number_16(bytes, 20 + 2 * i)),
        ),
        profile: bytes.subrange(44, 108),
        fault: bytes[108],
        status: bytes[109],
        publish_secs: number_16(bytes, 110) as u16,
        cmd_mode: bytes[112],
        cmd_level: bytes[113],
        cmd_profile: bytes.subrange(114, 178),
        fan_write_declined: bytes[178],
    }
}

/// One byte of a number written low byte first.
fn byte_low_first(n: u32, k: usize) -> (r: u8)
    requires
        k < 4,
    ensures
        r == low_first(n as int, k as int),
{
    if k == 0 {
        (n % 256) as u8
    } else if k == 1 {
        (n / 256 % 256) as u8
    } else if k == 2 {
        (n / 65536 % 256) as u8
    } else {
        (n / 16777216 % 256) as u8
    }
}

/// The number two bytes write, low byte first.
fn read_16(bytes: &Vec<u8>, at: usize) -> (r: u16)
    requires
        at + 2 <= bytes.len(),
    ensures
        r == number_16(bytes@, at as int),
{
    bytes[at] as u16 + 256 * (bytes[at + 1] as u16)
}

/// The number four bytes write, low byte first.
fn read_32(bytes: &Vec<u8>, at: usize) -> (r: u32)
    requires
        at + 4 <= bytes.len(),
    ensures
        r == number_32(bytes@, at as int),
{
    bytes[at] as u32 + 256 * (bytes[at + 1] as u32) + 65536 * (bytes[at + 2] as u32) + 16777216 * (
    bytes[at + 3] as u32)
}

/// A name field out of a run of bytes.
fn read_name(bytes: &Vec<u8>, at: usize) -> (r: [u8; NAME_LEN])
    requires
        at + NAME_LEN <= bytes.len(),
    ensures
        r@ == bytes@.subrange(at as int, at + NAME_LEN),
{
    let mut r: [u8; NAME_LEN] = [0; NAME_LEN];
    let mut i: usize = 0;
    while i < NAME_LEN
        invariant
            i <= NAME_LEN,
            r@.len() == NAME_LEN,
            at + NAME_LEN <= bytes.len(),
            forall|k: int| 0 <= k < i ==> (#[trigger] r@[k]) == bytes@[at + k],
        decreases NAME_LEN - i,
    {
        r[i] = bytes[at + i];
        i += 1;
    }
    proof {
        assert(r@ =~= bytes@.subrange(at as int, at + NAME_LEN));
    }
    r
}

impl Shared {
    /// The byte at a place of the block.
    fn byte_at(&self, i: usize) -> (r: u8)
        requires
            i < SHARED_LEN,
        ensures
            r == self@.byte(i as int),
    {
        if i < 4 {
            byte_low_first(self.state_seq, i)
        } else if i < 8 {
            byte_low_first(self.cmd_seq, i - 4)
        } else if i < 12 {
            byte_low_first(self.ack_seq, i - 8)
        } else if i == 12 {
            self.fan_ctrl
        } else if i == 13 {
            self.mode
        } else if i == 14 {
            self.hottest_index
        } else if i == 15 {
            if self.hottest_temp < 0 {
                (self.hottest_temp as i16 + 256) as u8
            } else {
                self.hottest_temp as u8
            }
        } else if i < 20 {
            byte_low_first(self.fan_rpm[(i - 16) / 2] as u32, (i - 16) % 2)
        } else if i < 44 {
            let reading: i16 = self.sensors[(i - 20) / 2];
            let written: u32 = if reading < 0 {
                (reading as i32 + 65536) as u32
            } else {
                reading as u32
            };
            byte_low_first(written, (i - 20) % 2)
        } else if i < 108 {
            self.profile[i - 44]
        } else if i == 108 {
            self.fault
        } else if i == 109 {
            self.status
        } else if i < 112 {
            byte_low_first(self.publish_secs as u32, i - 110)
        } else if i == 112 {
            self.cmd_mode
        } else if i == 113 {
            self.cmd_level
        } else if i < 178 {
            self.cmd_profile[i - 114]
        } else if i == 178 {
            self.fan_write_declined
        } else {
            0
        }
    }

    /// The block as the bytes both sides map.
    pub fn to_bytes(&self) -> (r: Vec<u8>)
        ensures
            r@ == self@.bytes(),
    {
        let mut r: Vec<u8> = Vec::new();
        let mut i: usize = 0;
        while i < SHARED_LEN
            invariant
                i <= SHARED_LEN,
                r@.len() == i,
                forall|k: int| 0 <= k < i ==> (#[trigger] r@[k]) == self@.byte(k),
            decreases SHARED_LEN - i,
        {
            r.push(self.byte_at(i));
            i += 1;
        }
        r
    }

    /// The block a run of bytes holds, where there are enough of them.
    pub fn from_bytes(bytes: &Vec<u8>) -> (r: Option<Self>)
        ensures
            match r {
                Some(block) => bytes@.len() >= SHARED_LEN && block@ == block_of(bytes@),
                None => bytes@.len() < SHARED_LEN,
            },
    {
        if bytes.len() < SHARED_LEN {
            return None;
        }
        let mut sensors: [i16; SENSOR_COUNT] = [0; SENSOR_COUNT];
        let mut i: usize = 0;
        while i < SENSOR_COUNT
            invariant
                i <= SENSOR_COUNT,
                bytes@.len() >= SHARED_LEN,
                sensors@.len() == SENSOR_COUNT,
                forall|k: int|
                    0 <= k < i ==> (#[trigger] sensors@[k]) == signed_16(
                        number_16(bytes@, 20 + 2 * k),
                    ),
            decreases SENSOR_COUNT - i,
        {
            let n: u16 = read_16(bytes, 20 + 2 * i);
            sensors[i] = if n >= 32768 {
                (n as i32 - 65536) as i16
            } else {
                n as i16
            };
            i += 1;
        }
        let warmth: u8 = bytes[15];
        let block = Shared {
            state_seq: read_32(bytes, 0),
            cmd_seq: read_32(bytes, 4),
            ack_seq: read_32(bytes, 8),
            fan_ctrl: bytes[12],
            mode: bytes[13],
            hottest_index: bytes[14],
            hottest_temp: if warmth >= 128 {
                (warmth as i16 - 256) as i8
            } else {
                warmth as i8
            },
            fan_rpm: [read_16(bytes, 16), read_16(bytes, 18)],
            sensors,
            profile: read_name(bytes, 44),
            fault: bytes[108],
            status: bytes[109],
            publish_secs: read_16(bytes, 110),
            cmd_mode: bytes[112],
            cmd_level: bytes[113],
            cmd_profile: read_name(bytes, 114),
            fan_write_declined: bytes[178],
        };
        proof {
            assert(block.fan_rpm@ =~= block_of(bytes@).fan_rpm);
            assert(block.sensors@ =~= block_of(bytes@).sensors);
        }
        Some(block)
    }
}

proof fn low_first_16(n: int)
    requires
        0 <= n < 65536,
    ensures
        low_first(n, 0) + 256 * low_first(n, 1) == n,
{
}

proof fn low_first_32(n: int)
    requires
        0 <= n <= u32::MAX,
    ensures
        low_first(n, 0) + 256 * low_first(n, 1) + 65536 * low_first(n, 2) + 16777216 * low_first(
            n,
            3,
        ) == n,
{
    assert(n / 256 / 256 == n / 65536);
    assert(n / 65536 / 256 == n / 16777216);
}

/// Both sides agree: the block one side lays out is the block the other reads.
pub proof fn the_layout_loses_nothing(s: Shared)
    ensures
        block_of(s@.bytes()) == s@,
        s@.bytes().len() == SHARED_LEN,
{
    let v = s@;
    let b = v.bytes();
    low_first_32(v.state_seq as int);
    low_first_32(v.cmd_seq as int);
    low_first_32(v.ack_seq as int);
    low_first_16(v.publish_secs as int);
    assert(number_32(b, 0) == v.state_seq);
    assert(number_32(b, 4) == v.cmd_seq);
    assert(number_32(b, 8) == v.ack_seq);
    assert(number_16(b, 110) == v.publish_secs);
    assert forall|i: int| 0 <= i < 2 implies number_16(b, 16 + 2 * i) == #[trigger] v.fan_rpm[i] by {
        low_first_16(v.fan_rpm[i] as int);
        assert((2 * i) / 2 == i && (2 * i + 1) / 2 == i && (2 * i) % 2 == 0 && (2 * i + 1) % 2 == 1);
    }
    assert(block_of(b).fan_rpm =~= v.fan_rpm);
    assert forall|i: int| 0 <= i < SENSOR_COUNT implies signed_16(number_16(b, 20 + 2 * i))
        == #[trigger] v.sensors[i] by {
        low_first_16(unsigned_16(v.sensors[i]));
        assert((2 * i) / 2 == i && (2 * i + 1) / 2 == i && (2 * i) % 2 == 0 && (2 * i + 1) % 2 == 1);
        assert(number_16(b, 20 + 2 * i) == unsigned_16(v.sensors[i]));
    }
    assert(block_of(b).sensors =~= v.sensors);
    assert(block_of(b).profile =~= v.profile);
    assert(block_of(b).cmd_profile =~= v.cmd_profile);
    assert(block_of(b) =~= v);
}

/// A healthy engine has nothing to say, and says so in a block nobody has
/// written to.
pub proof fn healthy_is_the_zero_state()
    ensures
        words_for(0, false) is None,
        STATUS_OK == 0,
        MODE_BIOS == 0,
{
}

/// Each kind of trouble has a headline of its own, and the flag alone is
/// enough to be told something.
pub proof fn each_kind_of_trouble_says_its_own_thing(one: u8, other: u8)
    requires
        STATUS_UNREACHABLE <= one <= STATUS_HANDBACK_FAILED,
        STATUS_UNREACHABLE <= other <= STATUS_HANDBACK_FAILED,
        one != other,
    ensures
        words_for(one, true) is Some,
        words_for(other, true) is Some,
        (words_for(one, true)->Some_0).0 != (words_for(other, true)->Some_0).0,
        forall|status: u8| (#[trigger] words_for(status, true)) is Some,
{
    reveal_strlit("The fan may be held at a fixed level");
    reveal_strlit("The firmware has the fan");
    reveal_strlit("Cannot reach the embedded controller");
    assert("The fan may be held at a fixed level"@[0] == 'T');
    assert("Cannot reach the embedded controller"@[0] == 'C');
    assert("The firmware has the fan"@.len() != "The fan may be held at a fixed level"@.len());
}

/// What a tooltip holds when there is trouble: the program's name, a headline
/// and a line of detail.
pub open spec fn trouble_tip(headline: Seq<char>, detail: Seq<char>) -> Seq<char> {
    "Yamato\n"@ + headline + "\n"@ + detail
}

/// Every state fits in a tooltip, which is 128 wide characters with the
/// terminator, and so does the single-fan hint beside every headline.
pub proof fn every_state_fits_in_a_tooltip(status: u8, fault: bool)
    ensures
        words_for(status, fault) matches Some((headline, detail)) ==> {
            &&& trouble_tip(headline, detail).len() < 128
            &&& trouble_tip(headline, SINGLE_FAN_HINT@).len() < 128
        },
{
    reveal_strlit("Yamato\n");
    reveal_strlit("\n");
    reveal_strlit("The fan may be held at a fixed level");
    reveal_strlit("Firmware fan control is off. Restart Yamato, or reboot.");
    reveal_strlit("The firmware has the fan");
    reveal_strlit("Yamato stepped aside after a fault; the curve returns shortly.");
    reveal_strlit("Cannot reach the embedded controller");
    reveal_strlit("Readings return when it answers again.");
    reveal_strlit("This may be a single-fan machine. Set Fans to Single in Settings.");
}

proof fn name_end_is(raw: Seq<u8>, i: int, end: int)
    requires
        0 <= i <= end < raw.len(),
        raw[end] == 0,
        forall|k: int| 0 <= k < end ==> raw[k] != 0,
    ensures
        name_end(raw, i) == end,
    decreases end - i,
{
    if i < end {
        name_end_is(raw, i + 1, end);
    }
}

/// A name that fits its field, and holds no zero byte, comes back as it was.
pub proof fn a_name_that_fits_round_trips(name: Seq<char>)
    requires
        encode_utf8(name).len() < NAME_LEN,
        forall|k: int| 0 <= k < encode_utf8(name).len() ==> encode_utf8(name)[k] != 0,
    ensures
        name_field(name).take(name_end(name_field(name), 0)) == encode_utf8(name),
        valid_utf8(name_field(name).take(name_end(name_field(name), 0))),
        decode_utf8(name_field(name).take(name_end(name_field(name), 0))) == name,
{
    let raw = name_field(name);
    name_end_is(raw, 0, encode_utf8(name).len() as int);
    assert(raw.take(encode_utf8(name).len() as int) =~= encode_utf8(name));
    vstd::utf8::encode_utf8_valid_utf8(name);
    vstd::utf8::encode_utf8_decode_utf8(name);
}

/// Whatever the name, its field ends in a zero, so a reader always stops.
pub proof fn a_name_field_is_always_closed(name: Seq<char>)
    ensures
        name_field(name).len() == NAME_LEN,
        name_field(name)[NAME_LEN - 1] == 0,
{
}

/// A command is pending from when it is posted, with everything before it
/// acknowledged, until it is acknowledged in turn.
pub proof fn a_command_waits_to_be_acknowledged(
    s: SharedView,
    mode: u8,
    level: u8,
    profile: Seq<char>,
)
    requires
        s.pending() is None,
    ensures
        s.posted(mode, level, profile).pending() == Some(bumped(s.cmd_seq)),
        (SharedView {
            ack_seq: bumped(s.cmd_seq),
            ..s.posted(mode, level, profile)
        }).pending() is None,
{
}

/// The engine's half and the window's half do not touch: publishing neither
/// posts nor acknowledges, and posting leaves every reading as it was.
pub proof fn the_two_halves_do_not_touch(
    s: SharedView,
    sample: Sample,
    running: Seq<char>,
    mode: u8,
    level: u8,
    wanted: Seq<char>,
)
    ensures
        s.published(sample, running).pending() == s.pending(),
        s.published(sample, running).cmd_mode == s.cmd_mode,
        s.published(sample, running).cmd_level == s.cmd_level,
        s.published(sample, running).cmd_profile == s.cmd_profile,
        s.posted(mode, level, wanted).published(sample, running) == s.published(
            sample,
            running,
        ).posted(mode, level, wanted),
        forall|i: int|
            12 <= i < 112 || i == 178 ==> (#[trigger] s.posted(mode, level, wanted).byte(i))
                == s.byte(i),
        forall|i: int|
            112 <= i < 178 ==> (#[trigger] s.published(sample, running).byte(i)) == s.byte(i),
{
}

/// What is published is what was sampled: each field as it was handed over, a
/// sensor that does not report as the least 16 bit number, the profile's name
/// as its first 63 bytes with zeros behind them, the publishing interval at
/// least a second, and a sequence one further on. What a window posted, and
/// what was acknowledged, stays.
pub proof fn a_sample_is_published_as_it_was_taken(
    s: SharedView,
    sample: Sample,
    profile: Seq<char>,
    i: int,
    k: int,
)
    requires
        0 <= i < 12,
        0 <= k < 64,
    ensures
        ({
            let now = s.published(sample, profile);
            let name = encode_utf8(profile);
            &&& now.state_seq as int == (s.state_seq + 1) % 0x1_0000_0000
            &&& now.cmd_seq == s.cmd_seq && now.ack_seq == s.ack_seq
            &&& now.fan_ctrl == sample.fan_ctrl
            &&& now.mode == sample.mode
            &&& sample.hottest matches Some((index, temp)) ==> now.hottest_temp == temp && (index
                < 256 ==> now.hottest_index == index)
            &&& sample.hottest is None ==> now.hottest_temp == 0 && now.hottest_index == 0
            &&& now.fan_rpm == sample.fan_rpm@
            &&& now.sensors.len() == 12
            &&& sample.sensors@[i] matches Some(t) ==> now.sensors[i] == t
            &&& sample.sensors@[i] is None ==> now.sensors[i] == -32768
            &&& now.profile.len() == 64
            &&& now.profile[k] == (if k < 63 && k < name.len() {
                name[k]
            } else {
                0
            })
            &&& now.fault == (if sample.fault {
                1u8
            } else {
                0
            })
            &&& now.status == sample.status
            &&& now.publish_secs == (if sample.publish_secs == 0 {
                1
            } else {
                sample.publish_secs
            })
            &&& now.fan_write_declined == (if sample.fan_write_declined {
                1u8
            } else {
                0
            })
            &&& now.cmd_mode == s.cmd_mode && now.cmd_level == s.cmd_level
            &&& now.cmd_profile == s.cmd_profile
        }),
{
}

/// What is posted is what was asked: the mode, the level and the profile's
/// name as its first 63 bytes with zeros behind them, under a sequence one
/// further on. What the engine published, and what it acknowledged, stays.
pub proof fn a_command_is_posted_as_it_was_asked(
    s: SharedView,
    mode: u8,
    level: u8,
    profile: Seq<char>,
    k: int,
)
    requires
        0 <= k < 64,
    ensures
        ({
            let now = s.posted(mode, level, profile);
            let name = encode_utf8(profile);
            &&& now.cmd_seq as int == (s.cmd_seq + 1) % 0x1_0000_0000
            &&& now.cmd_mode == mode
            &&& now.cmd_level == level
            &&& now.cmd_profile.len() == 64
            &&& now.cmd_profile[k] == (if k < 63 && k < name.len() {
                name[k]
            } else {
                0
            })
            &&& now.state_seq == s.state_seq && now.ack_seq == s.ack_seq
            &&& now.fan_ctrl == s.fan_ctrl && now.mode == s.mode
            &&& now.hottest_index == s.hottest_index && now.hottest_temp == s.hottest_temp
            &&& now.fan_rpm == s.fan_rpm && now.sensors == s.sensors
            &&& now.profile == s.profile && now.fault == s.fault && now.status == s.status
            &&& now.publish_secs == s.publish_secs
            &&& now.fan_write_declined == s.fan_write_declined
        }),
{
}

/// Where each field lies in the block's 180 bytes, numbers low byte first and
/// negative ones in two's complement.
pub proof fn each_field_lies_in_its_place(s: Shared, fan: int, i: int, k: int)
    requires
        0 <= fan < 2,
        0 <= i < 12,
        0 <= k < 64,
    ensures
        ({
            let b = s@.bytes();
            let wide = |at: int|
                b[at] + 0x100 * b[at + 1] + 0x1_0000 * b[at + 2] + 0x100_0000 * b[at + 3];
            let half = |at: int| b[at] + 0x100 * b[at + 1];
            &&& b.len() == 180
            &&& wide(0) == s.state_seq
            &&& wide(4) == s.cmd_seq
            &&& wide(8) == s.ack_seq
            &&& b[12] == s.fan_ctrl
            &&& b[13] == s.mode
            &&& b[14] == s.hottest_index
            &&& b[15] == s.hottest_temp || b[15] == s.hottest_temp + 0x100
            &&& half(16 + 2 * fan) == s.fan_rpm@[fan]
            &&& half(20 + 2 * i) == s.sensors@[i] || half(20 + 2 * i) == s.sensors@[i] + 0x1_0000
            &&& b[44 + k] == s.profile@[k]
            &&& b[108] == s.fault
            &&& b[109] == s.status
            &&& half(110) == s.publish_secs
            &&& b[112] == s.cmd_mode
            &&& b[113] == s.cmd_level
            &&& b[114 + k] == s.cmd_profile@[k]
            &&& b[178] == s.fan_write_declined
            &&& b[179] == 0
        }),
{
    low_first_32(s.state_seq as int);
    low_first_32(s.cmd_seq as int);
    low_first_32(s.ack_seq as int);
    low_first_16(s.publish_secs as int);
    low_first_16(s.fan_rpm@[fan] as int);
    low_first_16(unsigned_16(s.sensors@[i]));
    assert((2 * i) / 2 == i && (2 * i + 1) / 2 == i && (2 * i) % 2 == 0 && (2 * i + 1) % 2 == 1);
    assert((2 * fan) / 2 == fan && (2 * fan + 1) / 2 == fan && (2 * fan) % 2 == 0 && (2 * fan + 1)
        % 2 == 1);
}

/// A command waits exactly while its sequence is not the one acknowledged.
pub proof fn a_command_waits_while_unacknowledged(s: SharedView)
    ensures
        s.cmd_seq == s.ack_seq ==> s.pending() is None,
        s.cmd_seq != s.ack_seq ==> s.pending() == Some(s.cmd_seq),
{
}

proof fn a_name_ends_at_a_zero(raw: Seq<u8>, i: int)
    requires
        0 <= i <= raw.len(),
    ensures
        i <= name_end(raw, i) <= raw.len(),
        name_end(raw, i) < raw.len() ==> raw[name_end(raw, i)] == 0,
        forall|k: int| i <= k < name_end(raw, i) ==> #[trigger] raw[k] != 0,
    decreases raw.len() - i,
{
    if i < raw.len() && raw[i] != 0 {
        a_name_ends_at_a_zero(raw, i + 1);
    }
}

/// The name a field holds is what stands before its first zero, or all of it
/// where it has none.
pub proof fn a_name_is_what_stands_before_the_zero(raw: Seq<u8>, end: int)
    requires
        0 <= end <= raw.len(),
        end < raw.len() ==> raw[end] == 0,
        forall|k: int| 0 <= k < end ==> #[trigger] raw[k] != 0,
    ensures
        name_of(raw) == lossy(raw.subrange(0, end)),
{
    a_name_ends_at_a_zero(raw, 0);
    let found = name_end(raw, 0);
    if found < end {
        assert(raw[found] != 0);
    }
    if end < found {
        assert(raw[end] != 0);
    }
    assert(raw.take(found) =~= raw.subrange(0, end));
}

} // verus!
