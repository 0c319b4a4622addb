//! What is said to the PawnIO driver, and what it says back.
//!
//! Two port layouts exist and one driver module serves each. The command set
//! is the same on both; only the addresses and the module differ.

use vstd::prelude::*;

use crate::ec::Probe;
use crate::text::{push_hex_port, push_u64};
use crate::version::{min_driver_version, DriverVersion};

verus! {

/// PawnIO's device type. Function codes are its own.
pub const DEVICE_TYPE: u32 = 41394;

pub const METHOD_BUFFERED: u32 = 0;

pub const FILE_ANY_ACCESS: u32 = 0;

pub const LOAD_BINARY_FN: u32 = 0x821;

pub const EXECUTE_FN: u32 = 0x841;

/// The width of the name field at the start of an execute payload.
pub const FN_NAME_LEN: usize = 32;

/// The code a device control request carries: device type, access, function
/// and method, each in its own bits.
pub fn ctl_code(device_type: u32, function: u32, method: u32, access: u32) -> (r: u32)
    requires
        device_type < 0x1_0000,
        function < 0x1000,
        method < 4,
        access < 4,
    ensures
        r == device_type * 0x1_0000 + access * 0x4000 + function * 4 + method,
{
    let r: u32 = (device_type << 16) | (access << 14) | (function << 2) | method;
    proof {
        assert(((device_type << 16) | (access << 14) | (function << 2) | method) == device_type
            * 0x1_0000 + access * 0x4000 + function * 4 + method) by (bit_vector)
            requires
                device_type < 0x1_0000,
                function < 0x1000,
                method < 4,
                access < 4,
        ;
    }
    r
}

/// The request that loads a module.
pub fn ioctl_load_binary() -> (r: u32)
    ensures
        r == 0xA1B2_2084,
{
    ctl_code(DEVICE_TYPE, LOAD_BINARY_FN, METHOD_BUFFERED, FILE_ANY_ACCESS)
}

/// The request that calls into a loaded module.
pub fn ioctl_execute_fn() -> (r: u32)
    ensures
        r == 0xA1B2_2104,
{
    ctl_code(DEVICE_TYPE, EXECUTE_FN, METHOD_BUFFERED, FILE_ANY_ACCESS)
}

/// The two port layouts ThinkPads keep their embedded controller at, and
/// everything that differs between them.
#[derive(Clone, Copy, Debug, PartialEq, Eq, Structural)]
pub enum Layout {
    /// The ACPI-specified ports, 0x62 data and 0x66 status, through the stock
    /// `LpcACPIEC` module.
    Standard,
    /// The P53-class window, 0x1600 data and 0x1604 status, through `LpcIO`.
    Alternate,
}

impl Layout {
    pub open spec fn status(self) -> u16 {
        match self {
            Layout::Standard => 0x66,
            Layout::Alternate => 0x1604,
        }
    }

    pub open spec fn data(self) -> u16 {
        match self {
            Layout::Standard => 0x62,
            Layout::Alternate => 0x1600,
        }
    }

    pub open spec fn words(self) -> Seq<char> {
        match self {
            Layout::Standard => "standard mode (EC at 0x62/0x66 via LpcACPIEC)"@,
            Layout::Alternate => "compatibility mode (EC at 0x1600/0x1604 via LpcIO)"@,
        }
    }

    pub open spec fn read_name(self) -> &'static str {
        match self {
            Layout::Standard => "ioctl_pio_read",
            Layout::Alternate => "ioctl_pio_inb",
        }
    }

    pub open spec fn write_name(self) -> &'static str {
        match self {
            Layout::Standard => "ioctl_pio_write",
            Layout::Alternate => "ioctl_pio_outb",
        }
    }

    pub open spec fn module(self) -> &'static str {
        match self {
            Layout::Standard => "LpcACPIEC.bin",
            Layout::Alternate => "LpcIO.bin",
        }
    }

    /// The module file that permits this layout's ports.
    pub fn module_file(self) -> (r: &'static str)
        ensures
            r == self.module(),
    {
        match self {
            Layout::Standard => "LpcACPIEC.bin",
            Layout::Alternate => "LpcIO.bin",
        }
    }

    pub fn status_port(self) -> (r: u16)
        ensures
            r == self.status(),
    {
        match self {
            Layout::Standard => 0x66,
            Layout::Alternate => 0x1604,
        }
    }

    pub fn data_port(self) -> (r: u16)
        ensures
            r == self.data(),
    {
        match self {
            Layout::Standard => 0x62,
            Layout::Alternate => 0x1600,
        }
    }

    /// The module entry point for a byte in.
    pub fn read_fn(self) -> (r: &'static str)
        ensures
            r == self.read_name(),
    {
        match self {
            Layout::Standard => "ioctl_pio_read",
            Layout::Alternate => "ioctl_pio_inb",
        }
    }

    /// The module entry point for a byte out.
    pub fn write_fn(self) -> (r: &'static str)
        ensures
            r == self.write_name(),
    {
        match self {
            Layout::Standard => "ioctl_pio_write",
            Layout::Alternate => "ioctl_pio_outb",
        }
    }

    /// Whether driving the controller over this layout also has to hold
    /// LpcIO's own cross-process mutex.
    pub fn uses_isa_lock(self) -> (r: bool)
        ensures
            r == (self == Layout::Alternate),
    {
        match self {
            Layout::Standard => false,
            Layout::Alternate => true,
        }
    }

    /// The ports this layout is allowed to touch: its own two and nothing
    /// else.
    pub fn permits(self, port: u16) -> (r: bool)
        ensures
            r == (port == self.status() || port == self.data()),
    {
        port == self.status_port() || port == self.data_port()
    }

    /// One line for logs and error messages.
    pub fn describe(self) -> (r: &'static str)
        ensures
            r@ == self.words(),
    {
        match self {
            Layout::Standard => "standard mode (EC at 0x62/0x66 via LpcACPIEC)",
            Layout::Alternate => "compatibility mode (EC at 0x1600/0x1604 via LpcIO)",
        }
    }
}

/// No port belongs to both layouts.
pub proof fn layouts_share_no_port(port: u16)
    ensures
        !((port == Layout::Standard.status() || port == Layout::Standard.data()) && (port
            == Layout::Alternate.status() || port == Layout::Alternate.data())),
{
}

/// Trouble in the middle of driving the controller.
#[derive(Clone, Copy, Debug)]
pub enum Fault {
    /// A call into a loaded module failed, or a step of the handshake did.
    Call { function: &'static str, code: u32 },
    /// A port outside what the layout permits.
    PortNotPermitted(u16),
    /// Another tool is mid-transaction and did not finish in time.
    Busy,
}

impl Fault {
    pub open spec fn words(self) -> Seq<char> {
        match self {
            Fault::Call { function, code } => "PawnIO call "@ + function@ + " failed with error "@
                + crate::text::decimal_nat(code as nat),
            Fault::PortNotPermitted(port) => "port "@ + crate::text::hex_port(port)
                + " is not permitted by the loaded PawnIO module"@,
            Fault::Busy =>
                "another program is using the embedded controller and did not finish in time"@,
        }
    }

    pub fn to_string(&self) -> (r: String)
        ensures
            r@ == self.words(),
    {
        match self {
            Fault::Call { function, code } => {
                let mut s = "PawnIO call ".to_owned();
                s.append(function);
                s.append(" failed with error ");
                push_u64(&mut s, *code as u64);
                s
            },
            Fault::PortNotPermitted(port) => {
                let mut s = "port ".to_owned();
                push_hex_port(&mut s, *port);
                s.append(" is not permitted by the loaded PawnIO module");
                s
            },
            Fault::Busy =>
                "another program is using the embedded controller and did not finish in time".to_owned(),
        }
    }
}

/// Why the controller could not be opened or driven.
#[derive(Debug)]
pub enum Error {
    /// The driver is not installed or not running.
    DriverUnavailable,
    /// The driver's file version was readable, and it is too old.
    DriverTooOld { found: DriverVersion },
    /// Found the driver but could not open it.
    AccessDenied,
    /// The module file is not next to the executable.
    ModuleMissing(String),
    /// The driver rejected the module.
    ModuleRejected { file: &'static str, code: u32 },
    /// A call into a loaded module failed.
    Call { function: &'static str, code: u32 },
    /// Port outside what the loaded module permits.
    PortNotPermitted(u16),
    /// Another tool is mid-transaction and did not finish in time.
    Busy,
    /// No controller handle could be produced at all. Carries what each
    /// layout answered.
    NoController(Vec<Probe>),
}

/// A running list of probes, each said after a space and followed by a stop.
pub open spec fn probes_said(probes: Seq<Probe>) -> Seq<char>
    decreases probes.len(),
{
    if probes.len() == 0 {
        Seq::empty()
    } else {
        probes_said(probes.drop_last()) + " "@ + probes.last().words() + "."@
    }
}

impl Error {
    /// Whether this is trouble while driving, as against trouble opening.
    pub open spec fn of_fault(f: Fault) -> Error {
        match f {
            Fault::Call { function, code } => Error::Call { function, code },
            Fault::PortNotPermitted(port) => Error::PortNotPermitted(port),
            Fault::Busy => Error::Busy,
        }
    }

    /// The sentence that explains the trouble.
    pub open spec fn words(self) -> Seq<char> {
        match self {
            Error::DriverUnavailable =>
                "PawnIO is not installed or not running. Yamato needs it to reach the embedded controller."@,
            Error::DriverTooOld { found } => "PawnIO "@ + found.words()
                + " is installed, and Yamato needs "@ + crate::version::minimum().words()
                + " or later: older versions can crash some Windows 10 machines while reaching the embedded controller. Update PawnIO from https://pawnio.eu."@,
            Error::AccessDenied =>
                "PawnIO refused the connection. Reaching the embedded controller needs administrator rights."@,
            Error::ModuleMissing(path) => path@ + " is missing. It is installed alongside Yamato."@,
            Error::ModuleRejected { file, code } => "PawnIO rejected "@ + file@ + " (error "@
                + crate::text::decimal_nat(code as nat) + "). The file may be damaged."@,
            Error::Call { function, code } => (Fault::Call { function, code }).words(),
            Error::PortNotPermitted(port) => Fault::PortNotPermitted(port).words(),
            Error::Busy => Fault::Busy.words(),
            Error::NoController(probes) =>
                "cannot reach the embedded controller at either port layout."@ + probes_said(
                probes@,
            ),
        }
    }

    /// The sentence that explains the trouble.
    pub fn to_string(&self) -> (r: String)
        ensures
            r@ == self.words(),
    {
        match self {
            Error::DriverUnavailable =>
                "PawnIO is not installed or not running. Yamato needs it to reach the embedded controller.".to_owned(),
            Error::DriverTooOld { found } => {
                let mut s = "PawnIO ".to_owned();
                s.append(found.to_string().as_str());
                s.append(" is installed, and Yamato needs ");
                s.append(min_driver_version().to_string().as_str());
                s.append(
                    " or later: older versions can crash some Windows 10 machines while reaching the embedded controller. Update PawnIO from https://pawnio.eu.",
                );
                s
            },
            Error::AccessDenied =>
                "PawnIO refused the connection. Reaching the embedded controller needs administrator rights.".to_owned(),
            Error::ModuleMissing(path) => {
                let mut s = path.clone();
                s.append(" is missing. It is installed alongside Yamato.");
                s
            },
            Error::ModuleRejected { file, code } => {
                let mut s = "PawnIO rejected ".to_owned();
                s.append(file);
                s.append(" (error ");
                push_u64(&mut s, *code as u64);
                s.append("). The file may be damaged.");
                s
            },
            Error::Call { function, code } => (Fault::Call {
                function: *function,
                code: *code,
            }).to_string(),
            Error::PortNotPermitted(port) => Fault::PortNotPermitted(*port).to_string(),
            Error::Busy => Fault::Busy.to_string(),
            Error::NoController(probes) => {
                let mut s = "cannot reach the embedded controller at either port layout.".to_owned();
                let mut i: usize = 0;
                proof {
                    assert(probes@.take(0) == Seq::<Probe>::empty());
                    assert(s@ + Seq::<char>::empty() == s@);
                }
                while i < probes.len()
                    invariant
                        i <= probes@.len(),
                        s@ == "cannot reach the embedded controller at either port layout."@
                            + probes_said(probes@.take(i as int)),
                    decreases probes@.len() - i,
                {
                    let ghost before = s@;
                    s.append(" ");
                    s.append(probes[i].to_string().as_str());
                    s.append(".");
                    i += 1;
                    proof {
                        assert(probes@.take(i as int).drop_last() == probes@.take(i - 1));
                        assert(probes@.take(i as int).last() == probes@[i - 1]);
                        assert(s@ == "cannot reach the embedded controller at either port layout."@
                            + (probes_said(probes@.take(i - 1)) + " "@ + probes@[i - 1].words()
                            + "."@));
                    }
                }
                proof {
                    assert(probes@.take(probes@.len() as int) == probes@);
                }
                s
            },
        }
    }
}

impl From<Fault> for Error {
    fn from(f: Fault) -> (r: Self) {
        match f {
            Fault::Call { function, code } => Error::Call { function, code },
            Fault::PortNotPermitted(port) => Error::PortNotPermitted(port),
            Fault::Busy => Error::Busy,
        }
    }
}

impl vstd::std_specs::convert::FromSpecImpl<Fault> for Error {
    open spec fn obeys_from_spec() -> bool {
        true
    }

    open spec fn from_spec(f: Fault) -> Self {
        Error::of_fault(f)
    }
}

/// Windows' code for being refused access.
pub const ERROR_ACCESS_DENIED: u32 = 5;

/// What a refused opening of the driver means.
pub fn open_refused(code: u32) -> (r: Error)
    ensures
        r == (if code == ERROR_ACCESS_DENIED {
            Error::AccessDenied
        } else {
            Error::DriverUnavailable
        }),
{
    if code == ERROR_ACCESS_DENIED {
        Error::AccessDenied
    } else {
        Error::DriverUnavailable
    }
}

/// A call into a loaded module: the entry point and the cells handed to it.
#[derive(Debug)]
pub struct Call {
    pub function: &'static str,
    pub cells: Vec<u64>,
}

/// The call that reads a port, where the layout permits the port.
pub fn read_port(layout: Layout, port: u16) -> (r: Result<Call, Fault>)
    ensures
        if port == layout.status() || port == layout.data() {
            r matches Ok(call) && call.function == layout.read_name() && call.cells@ == seq![
                port as u64,
            ]
        } else {
            r == Err::<Call, Fault>(Fault::PortNotPermitted(port))
        },
{
    if !layout.permits(port) {
        return Err(Fault::PortNotPermitted(port));
    }
    let cells: Vec<u64> = vec![port as u64];
    proof {
        assert(cells@ == seq![port as u64]);
    }
    Ok(Call { function: layout.read_fn(), cells })
}

/// The call that writes a port, where the layout permits the port.
pub fn write_port(layout: Layout, port: u16, value: u8) -> (r: Result<Call, Fault>)
    ensures
        if port == layout.status() || port == layout.data() {
            r matches Ok(call) && call.function == layout.write_name() && call.cells@ == seq![
                port as u64,
                value as u64,
            ]
        } else {
            r == Err::<Call, Fault>(Fault::PortNotPermitted(port))
        },
{
    if !layout.permits(port) {
        return Err(Fault::PortNotPermitted(port));
    }
    let cells: Vec<u64> = vec![port as u64, value as u64];
    proof {
        assert(cells@ == seq![port as u64, value as u64]);
    }
    Ok(Call { function: layout.write_fn(), cells })
}

/// The calls a layout's module needs before it will touch a port, in order.
///
/// LpcIO wants the SuperIO register pair picked, slot 1, and then the base
/// address windows found. The standard module wants nothing.
pub fn preparation(layout: Layout) -> (r: Vec<Call>)
    ensures
        match layout {
            Layout::Standard => r@.len() == 0,
            Layout::Alternate => {
                &&& r@.len() == 2
                &&& r@[0].function == "ioctl_select_slot"
                &&& r@[0].cells@ == seq![1u64]
                &&& r@[1].function == "ioctl_find_bars"
                &&& r@[1].cells@.len() == 0
            },
        },
{
    let mut r: Vec<Call> = Vec::new();
    match layout {
        Layout::Standard => {},
        Layout::Alternate => {
            let slot: Vec<u64> = vec![1u64];
            proof {
                assert(slot@ == seq![1u64]);
            }
            r.push(Call { function: "ioctl_select_slot", cells: slot });
            r.push(Call { function: "ioctl_find_bars", cells: Vec::new() });
        },
    }
    r
}

/// Cells as the driver reads them: eight bytes each, least significant first.
pub open spec fn cells_in_bytes(cells: Seq<u64>) -> Seq<u8>
    decreases cells.len(),
{
    if cells.len() == 0 {
        Seq::empty()
    } else {
        cells_in_bytes(cells.drop_last()) + vstd::bytes::spec_u64_to_le_bytes(cells.last())
    }
}

/// What an execute request carries: the entry point's name, padded with
/// zeros to its field's width, and then the cells.
pub open spec fn payload_of(function: Seq<char>, cells: Seq<u64>) -> Seq<u8> {
    let name = vstd::utf8::encode_utf8(function);
    name + Seq::new((FN_NAME_LEN - name.len()) as nat, |i: int| 0u8) + cells_in_bytes(cells)
}

/// What an execute request carries.
pub fn payload(function: &str, cells: &Vec<u64>) -> (r: Vec<u8>)
    requires
        vstd::utf8::encode_utf8(function@).len() < FN_NAME_LEN,
    ensures
        r@ == payload_of(function@, cells@),
{
    let mut r: Vec<u8> = Vec::new();
    let name = function.as_bytes();
    let ghost bytes = vstd::utf8::encode_utf8(function@);
    let mut i: usize = 0;
    while i < name.len()
        invariant
            i <= name@.len(),
            name@ == bytes,
            r@ == bytes.take(i as int),
        decreases name@.len() - i,
    {
        r.push(name[i]);
        i += 1;
        proof {
            assert(bytes.take(i - 1).push(bytes[i - 1]) == bytes.take(i as int));
        }
    }
    proof {
        assert(bytes.take(bytes.len() as int) == bytes);
        assert(bytes + Seq::new(0nat, |k: int| 0u8) == bytes);
    }
    while r.len() < FN_NAME_LEN
        invariant
            bytes.len() <= r@.len() <= FN_NAME_LEN,
            r@ == bytes + Seq::new((r@.len() - bytes.len()) as nat, |k: int| 0u8),
        decreases FN_NAME_LEN - r@.len(),
    {
        r.push(0u8);
    }
    let ghost head = r@;
    proof {
        assert(cells@.take(0) == Seq::<u64>::empty());
        assert(head + Seq::<u8>::empty() == head);
    }
    let mut c: usize = 0;
    while c < cells.len()
        invariant
            c <= cells@.len(),
            r@ == head + cells_in_bytes(cells@.take(c as int)),
        decreases cells@.len() - c,
    {
        let mut le: Vec<u8> = vstd::bytes::u64_to_le_bytes(cells[c]);
        r.append(&mut le);
        c += 1;
        proof {
            assert(cells@.take(c as int).drop_last() == cells@.take(c - 1));
            assert(cells@.take(c as int).last() == cells@[c - 1]);
            assert(head + cells_in_bytes(cells@.take(c - 1)) + vstd::bytes::spec_u64_to_le_bytes(
                cells@[c - 1],
            ) == head + (cells_in_bytes(cells@.take(c - 1)) + vstd::bytes::spec_u64_to_le_bytes(
                cells@[c - 1],
            )));
        }
    }
    proof {
        assert(cells@.take(cells@.len() as int) == cells@);
    }
    r
}

/// Each layout has its own ports, its own module and that module's entry
/// points.
pub proof fn a_layout_is_reached_in_its_own_way()
    ensures
        Layout::Standard.status() == 0x66 && Layout::Standard.data() == 0x62,
        Layout::Alternate.status() == 0x1604 && Layout::Alternate.data() == 0x1600,
        Layout::Standard.module()@ == "LpcACPIEC.bin"@,
        Layout::Alternate.module()@ == "LpcIO.bin"@,
        Layout::Standard.read_name()@ == "ioctl_pio_read"@,
        Layout::Standard.write_name()@ == "ioctl_pio_write"@,
        Layout::Alternate.read_name()@ == "ioctl_pio_inb"@,
        Layout::Alternate.write_name()@ == "ioctl_pio_outb"@,
{
}

proof fn each_cell_takes_eight_bytes(cells: Seq<u64>, c: int)
    requires
        0 <= c < cells.len(),
    ensures
        cells_in_bytes(cells).len() == 8 * cells.len(),
        vstd::bytes::spec_u64_from_le_bytes(
            cells_in_bytes(cells).subrange(8 * c, 8 * c + 8),
        ) == cells[c],
    decreases cells.len(),
{
    vstd::bytes::lemma_auto_spec_u64_to_from_le_bytes();
    let rest = cells.drop_last();
    let last = vstd::bytes::spec_u64_to_le_bytes(cells.last());
    assert(last.len() == 8);
    if rest.len() > 0 {
        each_cell_takes_eight_bytes(
            rest,
            if c < rest.len() {
                c
            } else {
                0
            },
        );
    }
    assert(cells_in_bytes(rest).len() == 8 * rest.len());
    if c < rest.len() {
        assert(cells_in_bytes(cells).subrange(8 * c, 8 * c + 8) =~= cells_in_bytes(rest).subrange(
            8 * c,
            8 * c + 8,
        ));
    } else {
        assert(cells_in_bytes(cells).subrange(8 * c, 8 * c + 8) =~= last);
    }
}

/// A request reads back: its first 32 bytes are the name and zeros behind it,
/// and every eight bytes from there are one cell, least significant first.
pub proof fn a_request_reads_back(function: Seq<char>, cells: Seq<u64>, i: int, c: int)
    requires
        vstd::utf8::encode_utf8(function).len() < 32,
        0 <= i < 32,
        0 <= c < cells.len(),
    ensures
        payload_of(function, cells).len() == 32 + 8 * cells.len(),
        i < vstd::utf8::encode_utf8(function).len() ==> payload_of(function, cells)[i]
            == vstd::utf8::encode_utf8(function)[i],
        i >= vstd::utf8::encode_utf8(function).len() ==> payload_of(function, cells)[i] == 0,
        vstd::bytes::spec_u64_from_le_bytes(
            payload_of(function, cells).subrange(32 + 8 * c, 32 + 8 * c + 8),
        ) == cells[c],
{
    each_cell_takes_eight_bytes(cells, c);
    assert(payload_of(function, cells).subrange(32 + 8 * c, 32 + 8 * c + 8) =~= cells_in_bytes(
        cells,
    ).subrange(8 * c, 8 * c + 8));
}

/// What is said of a failed call names the call and its code, and what is said
/// of a port names the port.
pub proof fn a_fault_says_what_failed(function: &'static str, code: u32, port: u16)
    ensures
        crate::text::holds((Fault::Call { function, code }).words(), function@),
        crate::text::holds(
            (Fault::Call { function, code }).words(),
            crate::text::decimal_nat(code as nat),
        ),
        crate::text::holds(Fault::PortNotPermitted(port).words(), crate::text::hex_port(port)),
        Error::of_fault(Fault::Call { function, code }).words() == (Fault::Call {
            function,
            code,
        }).words(),
        Error::of_fault(Fault::PortNotPermitted(port)).words() == Fault::PortNotPermitted(
            port,
        ).words(),
        Error::of_fault(Fault::Busy).words() == Fault::Busy.words(),
{
    let number = crate::text::decimal_nat(code as nat);
    crate::text::it_stands_at_the_end("PawnIO call "@, function@);
    crate::text::it_still_stands("PawnIO call "@ + function@, " failed with error "@, function@);
    crate::text::it_still_stands(
        "PawnIO call "@ + function@ + " failed with error "@,
        number,
        function@,
    );
    crate::text::it_stands_at_the_end(
        "PawnIO call "@ + function@ + " failed with error "@,
        number,
    );
    crate::text::it_stands_at_the_end("port "@, crate::text::hex_port(port));
    crate::text::it_still_stands(
        "port "@ + crate::text::hex_port(port),
        " is not permitted by the loaded PawnIO module"@,
        crate::text::hex_port(port),
    );
}

} // verus!
