//! One register access, port by port.
//!
//! The command set is the same on every ThinkPad; which ports carry it is
//! not. So the handshake is written once, over the layout it runs on.
//!
//! Nothing here touches a port. An access is a conversation: given every
//! answer heard so far, it says what to ask next, or how it ended. Whoever
//! carries it out puts the questions to the hardware, notes what came back and
//! when, and asks again.

use vstd::prelude::*;

use crate::pawnio::{Fault, Layout};

verus! {

/// Output buffer full: a byte is waiting for us.
pub const OBF: u8 = 0x01;

/// Input buffer full: the controller has not taken ours yet.
pub const IBF: u8 = 0x02;

/// Commands written to the status port.
pub const CMD_READ: u8 = 0x80;

pub const CMD_WRITE: u8 = 0x81;

/// How long to wait for a status bit before deciding the controller is not
/// answering, in milliseconds.
pub const HANDSHAKE_TIMEOUT: u64 = 750;

/// Gap between status reads while waiting, in milliseconds.
pub const POLL_INTERVAL: u64 = 5;

/// How many stale bytes to clear before deciding the controller is wedged and
/// not just behind.
pub const DRAIN_READS: u64 = 8;

/// Something to be done to the ports.
#[derive(Clone, Copy, Debug, PartialEq, Eq, Structural)]
pub enum PortAsk {
    Read(u16),
    Write(u16, u8),
    /// Wait this many milliseconds.
    Sleep(u64),
}

/// What came back, and when on a clock that counts milliseconds and never
/// runs backwards. What a write or a wait brings besides success means
/// nothing.
#[derive(Clone, Copy, Debug)]
pub struct Answer {
    pub got: Result<u8, Fault>,
    pub at: u64,
}

/// What to do to a register.
#[derive(Clone, Copy, Debug, PartialEq, Eq, Structural)]
pub enum Access {
    Read(u8),
    Write(u8, u8),
}

/// What a conversation about one register does next.
#[derive(Clone, Copy, Debug)]
pub enum Exchange {
    Ask(PortAsk),
    /// Over: the byte read, or for a write any byte at all, or the trouble.
    End(Result<u8, Fault>),
}

/// Where one part of a conversation stands: a question to put, done with the
/// answers up to a place, or failed.
#[derive(Debug)]
pub enum Wait<I> {
    Ask(PortAsk),
    Ready(I),
    Failed(Fault),
}

/// Whether two accounts of where a part stands agree.
pub open spec fn agree(w: Wait<usize>, s: Wait<int>) -> bool {
    match s {
        Wait::Ask(a) => w == Wait::<usize>::Ask(a),
        Wait::Ready(i) => w matches Wait::Ready(k) && k == i,
        Wait::Failed(f) => w == Wait::<usize>::Failed(f),
    }
}

/// Whether a budget that opened at `started` is spent at `at`.
pub open spec fn spent(started: u64, at: u64, budget: u64) -> bool {
    at >= started + budget
}

/// Whether a budget that opened at `started` is spent at `at`.
pub fn is_spent(started: u64, at: u64, budget: u64) -> (r: bool)
    ensures
        r == spent(started, at, budget),
{
    at >= started && at - started >= budget
}

/// Asking for one thing and minding nothing of the answer but whether it
/// failed.
pub open spec fn sent(heard: Seq<Answer>, i: int, ask: PortAsk) -> Wait<int> {
    if i >= heard.len() {
        Wait::Ask(ask)
    } else {
        match heard[i].got {
            Ok(_) => Wait::Ready(i + 1),
            Err(f) => Wait::Failed(f),
        }
    }
}

/// Waiting, from answer `i` on, until the controller is idle with nothing
/// left over. A byte nobody asked for is taken and thrown away: left there,
/// the next read would return it in place of the register.
pub open spec fn idle(l: Layout, heard: Seq<Answer>, i: int, started: u64) -> Wait<int>
    decreases heard.len() - i,
{
    if i >= heard.len() {
        Wait::Ask(PortAsk::Read(l.status()))
    } else {
        match heard[i].got {
            Err(f) => Wait::Failed(f),
            Ok(status) => if status & OBF != 0 {
                match sent(heard, i + 1, PortAsk::Read(l.data())) {
                    Wait::Ready(_) => if spent(started, heard[i + 1].at, HANDSHAKE_TIMEOUT) {
                        Wait::Failed(Fault::Call { function: "ec_not_idle", code: status as u32 })
                    } else if i + 2 >= heard.len() {
                        Wait::Ask(PortAsk::Sleep(POLL_INTERVAL))
                    } else {
                        idle(l, heard, i + 3, started)
                    },
                    other => other,
                }
            } else if status & IBF == 0 {
                Wait::Ready(i + 1)
            } else if spent(started, heard[i].at, HANDSHAKE_TIMEOUT) {
                Wait::Failed(Fault::Call { function: "ec_not_idle", code: status as u32 })
            } else if i + 1 >= heard.len() {
                Wait::Ask(PortAsk::Sleep(POLL_INTERVAL))
            } else {
                idle(l, heard, i + 2, started)
            },
        }
    }
}

/// Tidying up, from answer `i` on, after a transaction that could not be
/// finished: what is still to be asked, or nothing.
pub open spec fn abandoning(l: Layout, heard: Seq<Answer>, i: int, left: nat) -> Option<PortAsk>
    decreases left,
{
    if left == 0 {
        None
    } else if i >= heard.len() {
        Some(PortAsk::Read(l.status()))
    } else {
        match heard[i].got {
            Ok(status) if status & OBF != 0 => if i + 1 >= heard.len() {
                Some(PortAsk::Read(l.data()))
            } else if i + 2 >= heard.len() {
                Some(PortAsk::Sleep(POLL_INTERVAL))
            } else {
                abandoning(l, heard, i + 3, (left - 1) as nat)
            },
            _ => None,
        }
    }
}

/// Waiting, from answer `i` on, for one status bit to reach a state. On a
/// timeout the controller is left mid-sequence, so it is cleared out before
/// giving up.
pub open spec fn settling(
    l: Layout,
    heard: Seq<Answer>,
    i: int,
    bit: u8,
    set: bool,
    step: &'static str,
    started: u64,
) -> Wait<int>
    decreases heard.len() - i,
{
    if i >= heard.len() {
        Wait::Ask(PortAsk::Read(l.status()))
    } else {
        match heard[i].got {
            Err(f) => Wait::Failed(f),
            Ok(status) => if (status & bit != 0) == set {
                Wait::Ready(i + 1)
            } else if spent(started, heard[i].at, HANDSHAKE_TIMEOUT) {
                match abandoning(l, heard, i + 1, DRAIN_READS as nat) {
                    Some(ask) => Wait::Ask(ask),
                    None => Wait::Failed(Fault::Call { function: step, code: status as u32 }),
                }
            } else if i + 1 >= heard.len() {
                Wait::Ask(PortAsk::Sleep(POLL_INTERVAL))
            } else {
                settling(l, heard, i + 2, bit, set, step, started)
            },
        }
    }
}

/// Writing one byte to a port, at answer `i`, and then waiting for a status
/// bit.
pub open spec fn pushed(
    l: Layout,
    heard: Seq<Answer>,
    i: int,
    port: u16,
    value: u8,
    bit: u8,
    set: bool,
    step: &'static str,
) -> Wait<int> {
    match sent(heard, i, PortAsk::Write(port, value)) {
        Wait::Ready(k) => settling(l, heard, k, bit, set, step, heard[i].at),
        other => other,
    }
}

/// Where an access stands once every byte it sends has been sent and taken.
pub open spec fn carried(l: Layout, access: Access, started: u64, heard: Seq<Answer>) -> Wait<int> {
    match idle(l, heard, 0, started) {
        Wait::Ready(i) => match access {
            Access::Read(address) => match pushed(
                l,
                heard,
                i,
                l.status(),
                CMD_READ,
                IBF,
                false,
                "read_command",
            ) {
                Wait::Ready(j) => pushed(
                    l,
                    heard,
                    j,
                    l.data(),
                    address,
                    OBF,
                    true,
                    "read_result",
                ),
                other => other,
            },
            Access::Write(address, value) => match pushed(
                l,
                heard,
                i,
                l.status(),
                CMD_WRITE,
                IBF,
                false,
                "write_command",
            ) {
                Wait::Ready(j) => match pushed(
                    l,
                    heard,
                    j,
                    l.data(),
                    address,
                    IBF,
                    false,
                    "write_address",
                ) {
                    Wait::Ready(k) => pushed(
                        l,
                        heard,
                        k,
                        l.data(),
                        value,
                        IBF,
                        false,
                        "write_value",
                    ),
                    other => other,
                },
                other => other,
            },
        },
        other => other,
    }
}

/// What an access does next, given everything heard so far.
pub open spec fn exchange(
    l: Layout,
    access: Access,
    started: u64,
    heard: Seq<Answer>,
) -> Exchange {
    match carried(l, access, started, heard) {
        Wait::Ask(ask) => Exchange::Ask(ask),
        Wait::Failed(f) => Exchange::End(Err(f)),
        Wait::Ready(i) => match access {
            Access::Read(_) => if i >= heard.len() {
                Exchange::Ask(PortAsk::Read(l.data()))
            } else {
                Exchange::End(heard[i].got)
            },
            Access::Write(_, _) => Exchange::End(Ok(0)),
        },
    }
}

fn send(heard: &Vec<Answer>, i: usize, ask: PortAsk) -> (r: Wait<usize>)
    requires
        i <= heard@.len(),
    ensures
        agree(r, sent(heard@, i as int, ask)),
{
    if i >= heard.len() {
        Wait::Ask(ask)
    } else {
        match heard[i].got {
            Ok(_) => Wait::Ready(i + 1),
            Err(f) => Wait::Failed(f),
        }
    }
}

fn wait_idle(l: Layout, heard: &Vec<Answer>, started: u64) -> (r: Wait<usize>)
    ensures
        agree(r, idle(l, heard@, 0, started)),
        r matches Wait::Ready(k) ==> 0 < k <= heard@.len(),
{
    let mut i: usize = 0;
    while i < heard.len()
        invariant
            i <= heard@.len(),
            idle(l, heard@, 0, started) == idle(l, heard@, i as int, started),
        decreases heard@.len() - i,
    {
        match heard[i].got {
            Err(f) => {
                return Wait::Failed(f);
            },
            Ok(status) => {
                if status & OBF != 0 {
                    match send(heard, i + 1, PortAsk::Read(l.data_port())) {
                        Wait::Ready(_) => {
                            if is_spent(started, heard[i + 1].at, HANDSHAKE_TIMEOUT) {
                                return Wait::Failed(
                                    Fault::Call { function: "ec_not_idle", code: status as u32 },
                                );
                            }
                            if heard.len() - i <= 2 {
                                return Wait::Ask(PortAsk::Sleep(POLL_INTERVAL));
                            }
                            i += 3;
                        },
                        other => {
                            return other;
                        },
                    }
                } else if status & IBF == 0 {
                    return Wait::Ready(i + 1);
                } else {
                    if is_spent(started, heard[i].at, HANDSHAKE_TIMEOUT) {
                        return Wait::Failed(
                            Fault::Call { function: "ec_not_idle", code: status as u32 },
                        );
                    }
                    if heard.len() - i <= 1 {
                        return Wait::Ask(PortAsk::Sleep(POLL_INTERVAL));
                    }
                    i += 2;
                }
            },
        }
    }
    Wait::Ask(PortAsk::Read(l.status_port()))
}

fn abandon(l: Layout, heard: &Vec<Answer>, from: usize) -> (r: Option<PortAsk>)
    requires
        from <= heard@.len(),
    ensures
        r == abandoning(l, heard@, from as int, DRAIN_READS as nat),
{
    let mut i: usize = from;
    let mut left: u64 = DRAIN_READS;
    while left > 0
        invariant
            i <= heard@.len(),
            abandoning(l, heard@, from as int, DRAIN_READS as nat) == abandoning(
                l,
                heard@,
                i as int,
                left as nat,
            ),
        decreases left,
    {
        if i >= heard.len() {
            return Some(PortAsk::Read(l.status_port()));
        }
        match heard[i].got {
            Ok(status) => {
                if status & OBF == 0 {
                    return None;
                }
                if heard.len() - i <= 1 {
                    return Some(PortAsk::Read(l.data_port()));
                }
                if heard.len() - i <= 2 {
                    return Some(PortAsk::Sleep(POLL_INTERVAL));
                }
                i += 3;
                left -= 1;
            },
            Err(_) => {
                return None;
            },
        }
    }
    None
}

fn settle(
    l: Layout,
    heard: &Vec<Answer>,
    from: usize,
    bit: u8,
    set: bool,
    step: &'static str,
    started: u64,
) -> (r: Wait<usize>)
    requires
        from <= heard@.len(),
    ensures
        agree(r, settling(l, heard@, from as int, bit, set, step, started)),
        r matches Wait::Ready(k) ==> from < k <= heard@.len(),
{
    let mut i: usize = from;
    while i < heard.len()
        invariant
            from <= i <= heard@.len(),
            settling(l, heard@, from as int, bit, set, step, started) == settling(
                l,
                heard@,
                i as int,
                bit,
                set,
                step,
                started,
            ),
        decreases heard@.len() - i,
    {
        match heard[i].got {
            Err(f) => {
                return Wait::Failed(f);
            },
            Ok(status) => {
                if (status & bit != 0) == set {
                    return Wait::Ready(i + 1);
                }
                if is_spent(started, heard[i].at, HANDSHAKE_TIMEOUT) {
                    return match abandon(l, heard, i + 1) {
                        Some(ask) => Wait::Ask(ask),
                        None => Wait::Failed(Fault::Call { function: step, code: status as u32 }),
                    };
                }
                if heard.len() - i <= 1 {
                    return Wait::Ask(PortAsk::Sleep(POLL_INTERVAL));
                }
                i += 2;
            },
        }
    }
    Wait::Ask(PortAsk::Read(l.status_port()))
}

fn push_byte(
    l: Layout,
    heard: &Vec<Answer>,
    i: usize,
    port: u16,
    value: u8,
    bit: u8,
    set: bool,
    step: &'static str,
) -> (r: Wait<usize>)
    requires
        i <= heard@.len(),
    ensures
        agree(r, pushed(l, heard@, i as int, port, value, bit, set, step)),
        r matches Wait::Ready(k) ==> i < k <= heard@.len(),
{
    match send(heard, i, PortAsk::Write(port, value)) {
        Wait::Ready(k) => settle(l, heard, k, bit, set, step, heard[i].at),
        other => other,
    }
}

fn carry(l: Layout, access: Access, started: u64, heard: &Vec<Answer>) -> (r: Wait<usize>)
    ensures
        agree(r, carried(l, access, started, heard@)),
        r matches Wait::Ready(k) ==> k <= heard@.len(),
{
    let status = l.status_port();
    let data = l.data_port();
    match wait_idle(l, heard, started) {
        Wait::Ready(i) => match access {
            Access::Read(address) => match push_byte(
                l,
                heard,
                i,
                status,
                CMD_READ,
                IBF,
                false,
                "read_command",
            ) {
                Wait::Ready(j) => push_byte(l, heard, j, data, address, OBF, true, "read_result"),
                other => other,
            },
            Access::Write(address, value) => match push_byte(
                l,
                heard,
                i,
                status,
                CMD_WRITE,
                IBF,
                false,
                "write_command",
            ) {
                Wait::Ready(j) => match push_byte(
                    l,
                    heard,
                    j,
                    data,
                    address,
                    IBF,
                    false,
                    "write_address",
                ) {
                    Wait::Ready(k) => push_byte(
                        l,
                        heard,
                        k,
                        data,
                        value,
                        IBF,
                        false,
                        "write_value",
                    ),
                    other => other,
                },
                other => other,
            },
        },
        other => other,
    }
}

/// What an access does next, given everything heard so far. `started` is when
/// it began.
pub fn next(l: Layout, access: Access, started: u64, heard: &Vec<Answer>) -> (r: Exchange)
    ensures
        r == exchange(l, access, started, heard@),
{
    match carry(l, access, started, heard) {
        Wait::Ask(ask) => Exchange::Ask(ask),
        Wait::Failed(f) => Exchange::End(Err(f)),
        Wait::Ready(i) => match access {
            Access::Read(_) => if i >= heard.len() {
                Exchange::Ask(PortAsk::Read(l.data_port()))
            } else {
                Exchange::End(heard[i].got)
            },
            Access::Write(_, _) => Exchange::End(Ok(0)),
        },
    }
}

/// A port of the standard layout, moved to where the alternate one keeps it.
pub open spec fn moved_port(port: u16) -> u16 {
    if port == Layout::Standard.status() {
        Layout::Alternate.status()
    } else if port == Layout::Standard.data() {
        Layout::Alternate.data()
    } else {
        port
    }
}

/// A question about the standard layout's ports, moved to the alternate's.
pub open spec fn moved_ask(ask: PortAsk) -> PortAsk {
    match ask {
        PortAsk::Read(port) => PortAsk::Read(moved_port(port)),
        PortAsk::Write(port, value) => PortAsk::Write(moved_port(port), value),
        PortAsk::Sleep(ms) => PortAsk::Sleep(ms),
    }
}

spec fn moved_wait(w: Wait<int>) -> Wait<int> {
    match w {
        Wait::Ask(ask) => Wait::Ask(moved_ask(ask)),
        other => other,
    }
}

/// What a conversation does next, moved to the alternate layout's ports.
pub open spec fn moved(x: Exchange) -> Exchange {
    match x {
        Exchange::Ask(ask) => Exchange::Ask(moved_ask(ask)),
        Exchange::End(r) => Exchange::End(r),
    }
}

proof fn idle_moves(heard: Seq<Answer>, i: int, started: u64)
    ensures
        moved_wait(idle(Layout::Standard, heard, i, started)) == idle(
            Layout::Alternate,
            heard,
            i,
            started,
        ),
    decreases heard.len() - i,
{
    if i < heard.len() {
        if i + 1 < heard.len() {
            idle_moves(heard, i + 2, started);
        }
        if i + 2 < heard.len() {
            idle_moves(heard, i + 3, started);
        }
    }
}

proof fn abandoning_moves(heard: Seq<Answer>, i: int, left: nat)
    ensures
        match abandoning(Layout::Standard, heard, i, left) {
            Some(ask) => abandoning(Layout::Alternate, heard, i, left) == Some(moved_ask(ask)),
            None => abandoning(Layout::Alternate, heard, i, left) is None,
        },
    decreases left,
{
    if left > 0 {
        abandoning_moves(heard, i + 3, (left - 1) as nat);
    }
}

proof fn settling_moves(
    heard: Seq<Answer>,
    i: int,
    bit: u8,
    set: bool,
    step: &'static str,
    started: u64,
)
    ensures
        moved_wait(settling(Layout::Standard, heard, i, bit, set, step, started)) == settling(
            Layout::Alternate,
            heard,
            i,
            bit,
            set,
            step,
            started,
        ),
    decreases heard.len() - i,
{
    if i < heard.len() {
        abandoning_moves(heard, i + 1, DRAIN_READS as nat);
        if i + 1 < heard.len() {
            settling_moves(heard, i + 2, bit, set, step, started);
        }
    }
}

proof fn pushed_moves(
    heard: Seq<Answer>,
    i: int,
    port: u16,
    value: u8,
    bit: u8,
    set: bool,
    step: &'static str,
)
    ensures
        moved_wait(pushed(Layout::Standard, heard, i, port, value, bit, set, step)) == pushed(
            Layout::Alternate,
            heard,
            i,
            moved_port(port),
            value,
            bit,
            set,
            step,
        ),
{
    if i < heard.len() {
        settling_moves(heard, i + 1, bit, set, step, heard[i].at);
    }
}

/// The layouts run the same handshake: hearing the same answers, the two make
/// the same moves on their own ports and end the same way.
pub proof fn the_layouts_run_the_same_handshake(access: Access, started: u64, heard: Seq<Answer>)
    ensures
        moved(exchange(Layout::Standard, access, started, heard)) == exchange(
            Layout::Alternate,
            access,
            started,
            heard,
        ),
{
    idle_moves(heard, 0, started);
    let status = Layout::Standard.status();
    let data = Layout::Standard.data();
    match idle(Layout::Standard, heard, 0, started) {
        Wait::Ready(i) => match access {
            Access::Read(address) => {
                pushed_moves(heard, i, status, CMD_READ, IBF, false, "read_command");
                match pushed(
                    Layout::Standard,
                    heard,
                    i,
                    status,
                    CMD_READ,
                    IBF,
                    false,
                    "read_command",
                ) {
                    Wait::Ready(j) => {
                        pushed_moves(heard, j, data, address, OBF, true, "read_result");
                    },
                    _ => {},
                }
            },
            Access::Write(address, value) => {
                pushed_moves(heard, i, status, CMD_WRITE, IBF, false, "write_command");
                match pushed(
                    Layout::Standard,
                    heard,
                    i,
                    status,
                    CMD_WRITE,
                    IBF,
                    false,
                    "write_command",
                ) {
                    Wait::Ready(j) => {
                        pushed_moves(heard, j, data, address, IBF, false, "write_address");
                        match pushed(
                            Layout::Standard,
                            heard,
                            j,
                            data,
                            address,
                            IBF,
                            false,
                            "write_address",
                        ) {
                            Wait::Ready(k) => {
                                pushed_moves(heard, k, data, value, IBF, false, "write_value");
                            },
                            _ => {},
                        }
                    },
                    _ => {},
                }
            },
        },
        _ => {},
    }
}

/// Whether a question stays on a layout's own two ports.
pub open spec fn on_own_ports(l: Layout, ask: PortAsk) -> bool {
    match ask {
        PortAsk::Read(port) => port == l.status() || port == l.data(),
        PortAsk::Write(port, _) => port == l.status() || port == l.data(),
        PortAsk::Sleep(_) => true,
    }
}

spec fn kept_to_ports(l: Layout, w: Wait<int>) -> bool {
    w matches Wait::Ask(ask) ==> on_own_ports(l, ask)
}

proof fn idle_keeps_to_ports(l: Layout, heard: Seq<Answer>, i: int, started: u64)
    ensures
        kept_to_ports(l, idle(l, heard, i, started)),
    decreases heard.len() - i,
{
    if i < heard.len() {
        if i + 1 < heard.len() {
            idle_keeps_to_ports(l, heard, i + 2, started);
        }
        if i + 2 < heard.len() {
            idle_keeps_to_ports(l, heard, i + 3, started);
        }
    }
}

proof fn abandoning_keeps_to_ports(l: Layout, heard: Seq<Answer>, i: int, left: nat)
    ensures
        abandoning(l, heard, i, left) matches Some(ask) ==> on_own_ports(l, ask),
    decreases left,
{
    if left > 0 {
        abandoning_keeps_to_ports(l, heard, i + 3, (left - 1) as nat);
    }
}

proof fn settling_keeps_to_ports(
    l: Layout,
    heard: Seq<Answer>,
    i: int,
    bit: u8,
    set: bool,
    step: &'static str,
    started: u64,
)
    ensures
        kept_to_ports(l, settling(l, heard, i, bit, set, step, started)),
    decreases heard.len() - i,
{
    if i < heard.len() {
        abandoning_keeps_to_ports(l, heard, i + 1, DRAIN_READS as nat);
        if i + 1 < heard.len() {
            settling_keeps_to_ports(l, heard, i + 2, bit, set, step, started);
        }
    }
}

proof fn pushed_keeps_to_ports(
    l: Layout,
    heard: Seq<Answer>,
    i: int,
    port: u16,
    value: u8,
    bit: u8,
    set: bool,
    step: &'static str,
)
    requires
        port == l.status() || port == l.data(),
    ensures
        kept_to_ports(l, pushed(l, heard, i, port, value, bit, set, step)),
{
    if i < heard.len() {
        settling_keeps_to_ports(l, heard, i + 1, bit, set, step, heard[i].at);
    }
}

/// No access ever asks for a port outside its layout's own pair.
pub proof fn an_access_keeps_to_its_own_ports(
    l: Layout,
    access: Access,
    started: u64,
    heard: Seq<Answer>,
)
    ensures
        exchange(l, access, started, heard) matches Exchange::Ask(ask) ==> on_own_ports(l, ask),
{
    idle_keeps_to_ports(l, heard, 0, started);
    match idle(l, heard, 0, started) {
        Wait::Ready(i) => match access {
            Access::Read(address) => {
                pushed_keeps_to_ports(l, heard, i, l.status(), CMD_READ, IBF, false, "read_command");
                match pushed(l, heard, i, l.status(), CMD_READ, IBF, false, "read_command") {
                    Wait::Ready(j) => {
                        pushed_keeps_to_ports(
                            l,
                            heard,
                            j,
                            l.data(),
                            address,
                            OBF,
                            true,
                            "read_result",
                        );
                    },
                    _ => {},
                }
            },
            Access::Write(address, value) => {
                pushed_keeps_to_ports(
                    l,
                    heard,
                    i,
                    l.status(),
                    CMD_WRITE,
                    IBF,
                    false,
                    "write_command",
                );
                match pushed(l, heard, i, l.status(), CMD_WRITE, IBF, false, "write_command") {
                    Wait::Ready(j) => {
                        pushed_keeps_to_ports(
                            l,
                            heard,
                            j,
                            l.data(),
                            address,
                            IBF,
                            false,
                            "write_address",
                        );
                        match pushed(l, heard, j, l.data(), address, IBF, false, "write_address") {
                            Wait::Ready(k) => {
                                pushed_keeps_to_ports(
                                    l,
                                    heard,
                                    k,
                                    l.data(),
                                    value,
                                    IBF,
                                    false,
                                    "write_value",
                                );
                            },
                            _ => {},
                        }
                    },
                    _ => {},
                }
            },
        },
        _ => {},
    }
}

/// Whether an answer is a status with both buffers empty.
pub open spec fn says_idle(a: Answer) -> bool {
    a.got matches Ok(status) && status & OBF == 0 && status & IBF == 0
}

/// Whether an answer is a status that says our byte was taken.
pub open spec fn says_taken(a: Answer) -> bool {
    a.got matches Ok(status) && status & IBF == 0
}

/// Whether an answer is a status that says a byte is waiting.
pub open spec fn says_waiting(a: Answer) -> bool {
    a.got matches Ok(status) && status & OBF != 0
}

/// What is asked of a controller that answers every step at once, reading a
/// register.
pub open spec fn prompt_read(l: Layout, address: u8) -> Seq<PortAsk> {
    seq![
        PortAsk::Read(l.status()),
        PortAsk::Write(l.status(), CMD_READ),
        PortAsk::Read(l.status()),
        PortAsk::Write(l.data(), address),
        PortAsk::Read(l.status()),
        PortAsk::Read(l.data()),
    ]
}

/// What is asked of a controller that answers every step at once, writing a
/// register.
pub open spec fn prompt_write(l: Layout, address: u8, value: u8) -> Seq<PortAsk> {
    seq![
        PortAsk::Read(l.status()),
        PortAsk::Write(l.status(), CMD_WRITE),
        PortAsk::Read(l.status()),
        PortAsk::Write(l.data(), address),
        PortAsk::Read(l.status()),
        PortAsk::Write(l.data(), value),
        PortAsk::Read(l.status()),
    ]
}

/// A controller that answers every step at once is read in six moves, and the
/// byte it then hands over is the register.
pub proof fn a_prompt_controller_is_read(l: Layout, address: u8, started: u64, heard: Seq<Answer>)
    requires
        heard.len() <= 6,
        heard.len() > 0 ==> says_idle(heard[0]),
        heard.len() > 1 ==> heard[1].got is Ok,
        heard.len() > 2 ==> says_taken(heard[2]),
        heard.len() > 3 ==> heard[3].got is Ok,
        heard.len() > 4 ==> says_waiting(heard[4]),
    ensures
        exchange(l, Access::Read(address), started, heard) == (if heard.len() < 6 {
            Exchange::Ask(prompt_read(l, address)[heard.len() as int])
        } else {
            Exchange::End(heard[5].got)
        }),
{
}

/// A controller that answers every step at once is written in seven moves.
pub proof fn a_prompt_controller_is_written(
    l: Layout,
    address: u8,
    value: u8,
    started: u64,
    heard: Seq<Answer>,
)
    requires
        heard.len() <= 7,
        heard.len() > 0 ==> says_idle(heard[0]),
        heard.len() > 1 ==> heard[1].got is Ok,
        heard.len() > 2 ==> says_taken(heard[2]),
        heard.len() > 3 ==> heard[3].got is Ok,
        heard.len() > 4 ==> says_taken(heard[4]),
        heard.len() > 5 ==> heard[5].got is Ok,
        heard.len() > 6 ==> says_taken(heard[6]),
    ensures
        exchange(l, Access::Write(address, value), started, heard) == (if heard.len() < 7 {
            Exchange::Ask(prompt_write(l, address, value)[heard.len() as int])
        } else {
            Exchange::End(Ok(0))
        }),
{
}

proof fn waiting_for_idle(l: Layout, heard: Seq<Answer>, i: int, started: u64, n: int)
    requires
        0 <= i,
        0 <= n <= heard.len(),
        idle(l, heard, i, started) is Ready,
    ensures
        idle(l, heard, i, started) matches Wait::Ready(j) && {
            &&& i < j <= heard.len()
            &&& heard[j - 1].got matches Ok(status) && status & 0x01 == 0 && status & 0x02 == 0
            &&& n >= j ==> idle(l, heard.take(n), i, started) == Wait::<int>::Ready(j)
            &&& i <= n < j ==> (idle(l, heard.take(n), i, started) matches Wait::Ask(ask)
                && !(ask is Write))
        },
    decreases heard.len() - i,
{
    let before = heard.take(n);
    if i < n {
        assert(before[i] == heard[i]);
    }
    if i + 1 < n {
        assert(before[i + 1] == heard[i + 1]);
    }
    match heard[i].got {
        Ok(status) => if status & OBF != 0 {
            waiting_for_idle(l, heard, i + 3, started, n);
        } else if status & IBF != 0 {
            waiting_for_idle(l, heard, i + 2, started, n);
        },
        Err(_) => {},
    }
}

proof fn waiting_for_a_bit(
    l: Layout,
    heard: Seq<Answer>,
    i: int,
    bit: u8,
    set: bool,
    step: &'static str,
    started: u64,
    n: int,
)
    requires
        0 <= i,
        0 <= n <= heard.len(),
        settling(l, heard, i, bit, set, step, started) is Ready,
    ensures
        settling(l, heard, i, bit, set, step, started) matches Wait::Ready(j) && {
            &&& i < j <= heard.len()
            &&& heard[j - 1].got matches Ok(status) && ((status & bit != 0) == set)
            &&& n >= j ==> settling(l, heard.take(n), i, bit, set, step, started) == Wait::<
                int,
            >::Ready(j)
            &&& i <= n < j ==> (settling(
                l,
                heard.take(n),
                i,
                bit,
                set,
                step,
                started,
            ) matches Wait::Ask(ask) && !(ask is Write))
        },
    decreases heard.len() - i,
{
    let before = heard.take(n);
    if i < n {
        assert(before[i] == heard[i]);
    }
    match heard[i].got {
        Ok(status) => if (status & bit != 0) != set {
            waiting_for_a_bit(l, heard, i + 2, bit, set, step, started, n);
        },
        Err(_) => {},
    }
}

proof fn pushing(
    l: Layout,
    heard: Seq<Answer>,
    i: int,
    port: u16,
    value: u8,
    bit: u8,
    set: bool,
    step: &'static str,
    n: int,
)
    requires
        0 <= i,
        0 <= n <= heard.len(),
        pushed(l, heard, i, port, value, bit, set, step) is Ready,
    ensures
        pushed(l, heard, i, port, value, bit, set, step) matches Wait::Ready(j) && {
            &&& i + 1 < j <= heard.len()
            &&& heard[j - 1].got matches Ok(status) && ((status & bit != 0) == set)
            &&& n >= j ==> pushed(l, heard.take(n), i, port, value, bit, set, step) == Wait::<
                int,
            >::Ready(j)
            &&& n == i ==> pushed(l, heard.take(n), i, port, value, bit, set, step) == Wait::<
                int,
            >::Ask(PortAsk::Write(port, value))
            &&& i < n < j ==> (pushed(
                l,
                heard.take(n),
                i,
                port,
                value,
                bit,
                set,
                step,
            ) matches Wait::Ask(ask) && !(ask is Write))
        },
{
    if i < n {
        assert(heard.take(n)[i] == heard[i]);
    }
    waiting_for_a_bit(l, heard, i + 1, bit, set, step, heard[i].at, n);
}

/// Whether a conversation asked for a write at exactly these places.
pub open spec fn writes_only_at(
    l: Layout,
    access: Access,
    started: u64,
    heard: Seq<Answer>,
    places: Seq<int>,
) -> bool {
    forall|n: int|
        0 <= n < heard.len() && !places.contains(n) ==> !(exchange(
            l,
            access,
            started,
            #[trigger] heard.take(n),
        ) matches Exchange::Ask(PortAsk::Write(_, _)))
}

/// The port a layout reports its status and takes its commands on: 0x66 on
/// the standard one, 0x1604 on the alternate one.
pub open spec fn command_port(l: Layout) -> u16 {
    match l {
        Layout::Standard => 0x66,
        Layout::Alternate => 0x1604,
    }
}

/// The port a layout carries bytes on: 0x62 on the standard one, 0x1600 on the
/// alternate one.
pub open spec fn byte_port(l: Layout) -> u16 {
    match l {
        Layout::Standard => 0x62,
        Layout::Alternate => 0x1600,
    }
}

/// A register is read by its own command. A read that ends well wrote two
/// bytes and no others: 0x80 to the command port, the controller being idle,
/// and then the register's number to the data port, the command having been
/// taken. Its result is what the data port gave once a byte was waiting there.
pub proof fn a_register_is_read_by_command(
    l: Layout,
    register: u8,
    started: u64,
    heard: Seq<Answer>,
)
    requires
        exchange(l, Access::Read(register), started, heard) matches Exchange::End(Ok(_)),
    ensures
        exists|a: int, b: int, c: int|
            {
                &&& 0 < a < b < c < heard.len()
                &&& exchange(l, Access::Read(register), started, #[trigger] heard.take(a))
                    == Exchange::Ask(PortAsk::Write(command_port(l), 0x80))
                &&& exchange(l, Access::Read(register), started, #[trigger] heard.take(b))
                    == Exchange::Ask(PortAsk::Write(byte_port(l), register))
                &&& exchange(l, Access::Read(register), started, #[trigger] heard.take(c))
                    == Exchange::Ask(PortAsk::Read(byte_port(l)))
                &&& writes_only_at(l, Access::Read(register), started, heard, seq![a, b])
                &&& heard[a - 1].got matches Ok(status) && status & 0x01 == 0 && status & 0x02 == 0
                &&& heard[b - 1].got matches Ok(status) && status & 0x02 == 0
                &&& heard[c - 1].got matches Ok(status) && status & 0x01 != 0
                &&& exchange(l, Access::Read(register), started, heard) == Exchange::End(
                    heard[c].got,
                )
            },
{
    let access = Access::Read(register);
    let len = heard.len() as int;
    waiting_for_idle(l, heard, 0, started, len);
    let a = idle(l, heard, 0, started)->Ready_0;
    pushing(l, heard, a, l.status(), CMD_READ, IBF, false, "read_command", len);
    let b = pushed(l, heard, a, l.status(), CMD_READ, IBF, false, "read_command")->Ready_0;
    pushing(l, heard, b, l.data(), register, OBF, true, "read_result", len);
    let c = pushed(l, heard, b, l.data(), register, OBF, true, "read_result")->Ready_0;
    assert forall|n: int| 0 <= n < len implies {
        let e = exchange(l, access, started, #[trigger] heard.take(n));
        &&& n == a ==> e == Exchange::Ask(PortAsk::Write(command_port(l), 0x80))
        &&& n == b ==> e == Exchange::Ask(PortAsk::Write(byte_port(l), register))
        &&& n == c ==> e == Exchange::Ask(PortAsk::Read(byte_port(l)))
        &&& n != a && n != b ==> !(e matches Exchange::Ask(PortAsk::Write(_, _)))
    } by {
        waiting_for_idle(l, heard, 0, started, n);
        pushing(l, heard, a, l.status(), CMD_READ, IBF, false, "read_command", n);
        pushing(l, heard, b, l.data(), register, OBF, true, "read_result", n);
    }
    let places = seq![a, b];
    assert(places[0] == a && places[1] == b);
    assert(places.contains(a) && places.contains(b));
    assert(writes_only_at(l, access, started, heard, places));
    assert(exchange(l, access, started, heard.take(a)) == Exchange::Ask(
        PortAsk::Write(command_port(l), 0x80),
    ));
    assert(exchange(l, access, started, heard.take(b)) == Exchange::Ask(
        PortAsk::Write(byte_port(l), register),
    ));
    assert(exchange(l, access, started, heard.take(c)) == Exchange::Ask(
        PortAsk::Read(byte_port(l)),
    ));
}

/// What a write asks at place `n`, its three bytes going out at `a`, `b` and
/// `c`.
spec fn write_asks(
    l: Layout,
    register: u8,
    value: u8,
    n: int,
    a: int,
    b: int,
    c: int,
    e: Exchange,
) -> bool {
    &&& n == a ==> e == Exchange::Ask(PortAsk::Write(command_port(l), 0x81))
    &&& n == b ==> e == Exchange::Ask(PortAsk::Write(byte_port(l), register))
    &&& n == c ==> e == Exchange::Ask(PortAsk::Write(byte_port(l), value))
    &&& n != a && n != b && n != c ==> !(e matches Exchange::Ask(PortAsk::Write(_, _)))
}

proof fn what_a_write_asks(
    l: Layout,
    register: u8,
    value: u8,
    started: u64,
    heard: Seq<Answer>,
    n: int,
)
    requires
        exchange(l, Access::Write(register, value), started, heard) matches Exchange::End(Ok(_)),
        0 <= n < heard.len(),
    ensures
        ({
            let a = idle(l, heard, 0, started)->Ready_0;
            let b = pushed(
                l,
                heard,
                a,
                l.status(),
                CMD_WRITE,
                IBF,
                false,
                "write_command",
            )->Ready_0;
            let c = pushed(l, heard, b, l.data(), register, IBF, false, "write_address")->Ready_0;
            write_asks(
                l,
                register,
                value,
                n,
                a,
                b,
                c,
                exchange(l, Access::Write(register, value), started, heard.take(n)),
            )
        }),
{
    let a = idle(l, heard, 0, started)->Ready_0;
    waiting_for_idle(l, heard, 0, started, n);
    pushing(l, heard, a, l.status(), CMD_WRITE, IBF, false, "write_command", n);
    let b = pushed(l, heard, a, l.status(), CMD_WRITE, IBF, false, "write_command")->Ready_0;
    pushing(l, heard, b, l.data(), register, IBF, false, "write_address", n);
    let c = pushed(l, heard, b, l.data(), register, IBF, false, "write_address")->Ready_0;
    pushing(l, heard, c, l.data(), value, IBF, false, "write_value", n);
}

/// A register is written by its own command. A write that ends well wrote
/// three bytes and no others: 0x81 to the command port, the controller being
/// idle, then the register's number and then its value to the data port, each
/// once the byte before it had been taken, and the last was taken too.
pub proof fn a_register_is_written_by_command(
    l: Layout,
    register: u8,
    value: u8,
    started: u64,
    heard: Seq<Answer>,
)
    requires
        exchange(l, Access::Write(register, value), started, heard) matches Exchange::End(Ok(_)),
    ensures
        exists|a: int, b: int, c: int|
            {
                &&& 0 < a < b < c < heard.len()
                &&& exchange(l, Access::Write(register, value), started, #[trigger] heard.take(a))
                    == Exchange::Ask(PortAsk::Write(command_port(l), 0x81))
                &&& exchange(l, Access::Write(register, value), started, #[trigger] heard.take(b))
                    == Exchange::Ask(PortAsk::Write(byte_port(l), register))
                &&& exchange(l, Access::Write(register, value), started, #[trigger] heard.take(c))
                    == Exchange::Ask(PortAsk::Write(byte_port(l), value))
                &&& writes_only_at(
                    l,
                    Access::Write(register, value),
                    started,
                    heard,
                    seq![a, b, c],
                )
                &&& heard[a - 1].got matches Ok(status) && status & 0x01 == 0 && status & 0x02 == 0
                &&& heard[b - 1].got matches Ok(status) && status & 0x02 == 0
                &&& heard[c - 1].got matches Ok(status) && status & 0x02 == 0
                &&& exists|d: int|
                    c < d < heard.len() && ((#[trigger] heard[d]).got matches Ok(status) && status
                        & 0x02 == 0)
            },
{
    let access = Access::Write(register, value);
    let len = heard.len() as int;
    waiting_for_idle(l, heard, 0, started, len);
    let a = idle(l, heard, 0, started)->Ready_0;
    pushing(l, heard, a, l.status(), CMD_WRITE, IBF, false, "write_command", len);
    let b = pushed(l, heard, a, l.status(), CMD_WRITE, IBF, false, "write_command")->Ready_0;
    pushing(l, heard, b, l.data(), register, IBF, false, "write_address", len);
    let c = pushed(l, heard, b, l.data(), register, IBF, false, "write_address")->Ready_0;
    pushing(l, heard, c, l.data(), value, IBF, false, "write_value", len);
    let d = pushed(l, heard, c, l.data(), value, IBF, false, "write_value")->Ready_0 - 1;
    assert forall|n: int| 0 <= n < len implies write_asks(
        l,
        register,
        value,
        n,
        a,
        b,
        c,
        exchange(l, access, started, #[trigger] heard.take(n)),
    ) by {
        what_a_write_asks(l, register, value, started, heard, n);
    }
    let places = seq![a, b, c];
    assert(places[0] == a && places[1] == b && places[2] == c);
    assert(places.contains(a) && places.contains(b) && places.contains(c));
    assert(writes_only_at(l, access, started, heard, places));
    assert(write_asks(
        l,
        register,
        value,
        a,
        a,
        b,
        c,
        exchange(l, access, started, heard.take(a)),
    ));
    assert(write_asks(
        l,
        register,
        value,
        b,
        a,
        b,
        c,
        exchange(l, access, started, heard.take(b)),
    ));
    assert(write_asks(
        l,
        register,
        value,
        c,
        a,
        b,
        c,
        exchange(l, access, started, heard.take(c)),
    ));
    assert(heard[d].got matches Ok(status) && status & 0x02 == 0);
}

/// Whether an answer is a status that says the controller has not taken our
/// byte, and has none for us.
pub open spec fn says_busy(a: Answer) -> bool {
    a.got matches Ok(status) && status & 0x01 == 0 && status & 0x02 != 0
}

proof fn busy_polls_are_passed_over(l: Layout, heard: Seq<Answer>, i: int, started: u64)
    requires
        0 <= i <= heard.len(),
        i % 2 == 0,
        forall|k: int| 0 <= k < heard.len() ==> (#[trigger] heard[k]).got is Ok,
        forall|k: int| i <= k < heard.len() && k % 2 == 0 ==> says_busy(#[trigger] heard[k]),
        forall|k: int|
            i <= k < heard.len() - 1 && k % 2 == 0 ==> (#[trigger] heard[k]).at < started + 750,
    ensures
        heard.len() % 2 == 0 ==> idle(l, heard, i, started) == Wait::<int>::Ask(
            PortAsk::Read(l.status()),
        ),
        heard.len() % 2 == 1 ==> idle(l, heard, i, started) == idle(
            l,
            heard,
            heard.len() - 1,
            started,
        ),
    decreases heard.len() - i,
{
    if i < heard.len() {
        assert(says_busy(heard[i]));
        if i + 1 < heard.len() {
            assert(heard[i].at < started + 750);
            busy_polls_are_passed_over(l, heard, i + 2, started);
        }
    }
}

/// A busy controller is waited for. Its status is asked for again every 5
/// milliseconds, and 750 milliseconds after the start it is given up on, with
/// nothing written to it.
pub proof fn a_busy_controller_is_waited_for(
    l: Layout,
    access: Access,
    started: u64,
    heard: Seq<Answer>,
)
    requires
        forall|k: int| 0 <= k < heard.len() ==> (#[trigger] heard[k]).got is Ok,
        forall|k: int| 0 <= k < heard.len() && k % 2 == 0 ==> says_busy(#[trigger] heard[k]),
        forall|k: int|
            0 <= k < heard.len() - 1 && k % 2 == 0 ==> (#[trigger] heard[k]).at < started + 750,
    ensures
        heard.len() % 2 == 0 ==> exchange(l, access, started, heard) == Exchange::Ask(
            PortAsk::Read(command_port(l)),
        ),
        heard.len() % 2 == 1 && heard.last().at < started + 750 ==> exchange(
            l,
            access,
            started,
            heard,
        ) == Exchange::Ask(PortAsk::Sleep(5)),
        heard.len() % 2 == 1 && heard.last().at >= started + 750 ==> (exchange(
            l,
            access,
            started,
            heard,
        ) matches Exchange::End(Err(Fault::Call { function, code })) && function@ == "ec_not_idle"@
            && code < 256 && heard.last().got == Ok::<u8, Fault>(code as u8)),
{
    busy_polls_are_passed_over(l, heard, 0, started);
    if heard.len() % 2 == 1 {
        assert(says_busy(heard[heard.len() - 1]));
    }
}

/// A byte nobody asked for is taken off the controller and thrown away before
/// anything is written to it.
pub proof fn a_stale_byte_is_thrown_away(
    l: Layout,
    access: Access,
    started: u64,
    heard: Seq<Answer>,
)
    requires
        0 < heard.len() <= 3,
        heard[0].got matches Ok(status) && status & 0x01 != 0,
        heard.len() > 1 ==> heard[1].got is Ok && heard[1].at < started + 750,
        heard.len() > 2 ==> heard[2].got is Ok,
    ensures
        exchange(l, access, started, heard) == Exchange::Ask(
            if heard.len() == 1 {
                PortAsk::Read(byte_port(l))
            } else if heard.len() == 2 {
                PortAsk::Sleep(5)
            } else {
                PortAsk::Read(command_port(l))
            },
        ),
{
    reveal_with_fuel(idle, 2);
}

proof fn untaken_polls_are_passed_over(
    l: Layout,
    heard: Seq<Answer>,
    i: int,
    t: int,
    step: &'static str,
    started: u64,
)
    requires
        0 <= i <= t <= heard.len(),
        (t - i) % 2 == 0,
        forall|k: int| 0 <= k < heard.len() ==> (#[trigger] heard[k]).got is Ok,
        forall|k: int|
            i <= k < t && (k - i) % 2 == 0 ==> ((#[trigger] heard[k]).got matches Ok(status)
                && status & 0x02 != 0) && heard[k].at < started + 750,
    ensures
        settling(l, heard, i, IBF, false, step, started) == settling(
            l,
            heard,
            t,
            IBF,
            false,
            step,
            started,
        ),
    decreases t - i,
{
    if i < t {
        assert(heard[i].got is Ok && heard[i].at < started + 750);
        assert(heard[i].got matches Ok(status) && status & 0x02 != 0);
        untaken_polls_are_passed_over(l, heard, i + 2, t, step, started);
    }
}

proof fn stale_bytes_are_passed_over(l: Layout, heard: Seq<Answer>, i: int, rounds: nat, left: nat)
    requires
        0 <= i,
        rounds <= left,
        i + 3 * rounds <= heard.len(),
        forall|k: int|
            i <= k < i + 3 * rounds && (k - i) % 3 == 0 ==> ((#[trigger] heard[k]).got matches Ok(
                status,
            ) && status & 0x01 != 0),
    ensures
        abandoning(l, heard, i, left) == abandoning(
            l,
            heard,
            i + 3 * rounds,
            (left - rounds) as nat,
        ),
    decreases rounds,
{
    if rounds > 0 {
        assert(heard[i].got matches Ok(status) && status & 0x01 != 0);
        assert((i + 3) + 3 * (rounds - 1) == i + 3 * rounds);
        stale_bytes_are_passed_over(
            l,
            heard,
            i + 3,
            (rounds - 1) as nat,
            (left - 1) as nat,
        );
    }
}

/// A command that is not taken is given up on 750 milliseconds after it was
/// sent, its status having been asked for every 5. Before that is reported the
/// controller is cleared of what it holds, up to eight bytes, so that the next
/// reader does not get them.
pub proof fn a_command_not_taken_is_given_up(
    l: Layout,
    access: Access,
    started: u64,
    heard: Seq<Answer>,
    t: int,
    rounds: nat,
)
    requires
        2 <= t,
        t % 2 == 0,
        rounds <= 8,
        heard.len() == t || t + 1 + 3 * rounds <= heard.len() <= t + 3 + 3 * rounds,
        forall|k: int| 0 <= k < heard.len() ==> (#[trigger] heard[k]).got is Ok,
        says_idle(heard[0]),
        forall|k: int|
            2 <= k < t && k % 2 == 0 ==> ((#[trigger] heard[k]).got matches Ok(status) && status
                & 0x02 != 0) && heard[k].at < heard[1].at + 750,
        heard.len() > t ==> (heard[t].got matches Ok(status) && status & 0x02 != 0),
        heard.len() > t + 1 ==> heard[t].at >= heard[1].at + 750,
        forall|k: int|
            t + 1 <= k < t + 1 + 3 * rounds && (k - (t + 1)) % 3 == 0 && k < heard.len() ==> ((
            #[trigger] heard[k]).got matches Ok(status) && status & 0x01 != 0),
    ensures
        ({
            let next = exchange(l, access, started, heard);
            let clearing = heard.len() - (t + 1 + 3 * rounds);
            let gave_up = (next matches Exchange::End(Err(Fault::Call { function, code }))
                && function@ == (match access {
                Access::Read(_) => "read_command"@,
                Access::Write(_, _) => "write_command"@,
            }) && heard[t].got == Ok::<u8, Fault>(code as u8) && code < 256);
            &&& heard.len() == t ==> next == Exchange::Ask(PortAsk::Read(command_port(l)))
            &&& heard.len() == t + 1 && heard[t].at < heard[1].at + 750 ==> next == Exchange::Ask(
                PortAsk::Sleep(5),
            )
            &&& heard.len() > t && heard[t].at >= heard[1].at + 750 ==> {
                &&& rounds == 8 ==> gave_up
                &&& rounds < 8 && clearing == 0 ==> next == Exchange::Ask(
                    PortAsk::Read(command_port(l)),
                )
                &&& rounds < 8 && clearing > 0 ==> {
                    if says_waiting(heard[t + 1 + 3 * rounds]) {
                        next == Exchange::Ask(
                            if clearing == 1 {
                                PortAsk::Read(byte_port(l))
                            } else {
                                PortAsk::Sleep(5)
                            },
                        )
                    } else {
                        gave_up
                    }
                }
            }
        }),
{
    let step = match access {
        Access::Read(_) => "read_command",
        Access::Write(_, _) => "write_command",
    };
    assert(heard[1].got is Ok);
    assert forall|k: int| 2 <= k < t && (k - 2) % 2 == 0 implies ((
    #[trigger] heard[k]).got matches Ok(status) && status & 0x02 != 0) && heard[k].at < heard[1].at
        + 750 by {
        assert(k % 2 == 0);
    }
    untaken_polls_are_passed_over(l, heard, 2, t, step, heard[1].at);
    if heard.len() > t {
        assert(heard[t].got is Ok);
        if heard.len() >= t + 1 + 3 * rounds {
            stale_bytes_are_passed_over(l, heard, t + 1, rounds, 8);
            if heard.len() > t + 1 + 3 * rounds {
                assert(heard[t + 1 + 3 * rounds].got is Ok);
            }
        }
    }
}

} // verus!
