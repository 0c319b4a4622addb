//! What a message to the tray's window asks for, and how often the tray looks.

use vstd::prelude::*;

use crate::menu::{chosen, ActionView, ID_MODE_BIOS, ID_MODE_SMART, ID_SETTINGS};
use crate::prompt::WM_COMMAND;
use crate::service::{alike, same_guid, Guid};

verus! {

pub const WM_DESTROY: u32 = 0x0002;

pub const WM_CONTEXTMENU: u32 = 0x007b;

pub const WM_TIMER: u32 = 0x0113;

pub const WM_LBUTTONUP: u32 = 0x0202;

pub const WM_LBUTTONDBLCLK: u32 = 0x0203;

pub const WM_RBUTTONUP: u32 = 0x0205;

pub const WM_POWERBROADCAST: u32 = 0x0218;

pub const WM_HOTKEY: u32 = 0x0312;

/// What the tray icon posts.
pub const WM_TRAY: u32 = 0x8001;

pub const TIMER_REFRESH: u64 = 1;

/// Hotkey ids. Three, and no more: a chord that set a fixed fan level would be
/// a way to take the firmware out of the loop by leaning on a keyboard.
pub const HOTKEY_BIOS: i32 = 1;

pub const HOTKEY_SMART: i32 = 2;

pub const HOTKEY_PROFILE: i32 = 3;

/// How often the tray re-reads the engine's sample while somebody can see it.
pub const REFRESH_MS: u32 = 1000;

/// And how often once the screen has gone off.
pub const REFRESH_MS_DARK: u32 = 30_000;

pub const PBT_POWERSETTINGCHANGE: u64 = 0x8013;

/// What a message to the tray's window asks for.
#[derive(Debug, Clone, Copy, PartialEq, Eq, Structural)]
pub enum Wanted {
    /// See whether the display went off or came back.
    DisplayState,
    /// Nothing: it was turned away, or means nothing.
    Nothing,
    /// Put the icon back, and refresh it.
    AddIcon,
    Refresh,
    ShowMenu,
    ToggleSettings,
    /// Do what an id of the menu asks for.
    Command(usize),
    CycleProfile,
    /// End the program.
    Quit,
    /// Nothing of ours.
    Default,
}

/// One message.
#[derive(Debug, Clone, Copy, PartialEq, Eq, Structural)]
pub struct Message {
    pub msg: u32,
    pub wparam: u64,
    pub lparam: i64,
}

/// The lower half of a parameter.
pub open spec fn low_half(n: int) -> int {
    n % 0x1_0000_0000
}

/// What a mouse event on the icon asks for.
pub open spec fn mouse(event: int) -> Wanted {
    if event == WM_RBUTTONUP || event == WM_CONTEXTMENU {
        Wanted::ShowMenu
    } else if event == WM_LBUTTONUP {
        Wanted::ToggleSettings
    } else if event == WM_LBUTTONDBLCLK {
        Wanted::Command(ID_SETTINGS)
    } else {
        Wanted::Nothing
    }
}

/// What a hotkey asks for. The first two go the way of the menu item beside
/// them, so the two cannot drift into meaning different things.
pub open spec fn chord(id: int) -> Wanted {
    if id == HOTKEY_BIOS {
        Wanted::Command(ID_MODE_BIOS)
    } else if id == HOTKEY_SMART {
        Wanted::Command(ID_MODE_SMART)
    } else if id == HOTKEY_PROFILE {
        Wanted::CycleProfile
    } else {
        Wanted::Nothing
    }
}

/// What a message that nobody claims asks for.
pub open spec fn unclaimed(msg: u32) -> Wanted {
    if msg == WM_DESTROY {
        Wanted::Quit
    } else {
        Wanted::Default
    }
}

/// What a message asks for, given whether there is a tray behind the window
/// yet, the message the shell sends when its taskbar comes up, and how many
/// modal things are open.
///
/// A modal thing runs a loop of its own, and whatever opened it still holds
/// the tray, so anything wanting the tray is turned away. Dropped, not queued:
/// a mode change nobody sees the result of is not worth carrying out three
/// dialogs later.
pub open spec fn wanted(m: Message, tray: bool, taskbar_created: u32, depth: u32) -> Wanted {
    if m.msg == WM_POWERBROADCAST {
        Wanted::DisplayState
    } else if !tray {
        unclaimed(m.msg)
    } else if depth > 0 {
        if m.msg == WM_TIMER || m.msg == WM_TRAY || m.msg == WM_COMMAND || m.msg == WM_HOTKEY
            || m.msg == taskbar_created {
            Wanted::Nothing
        } else {
            unclaimed(m.msg)
        }
    } else if m.msg == taskbar_created {
        Wanted::AddIcon
    } else if m.msg == WM_TIMER && m.wparam == TIMER_REFRESH {
        Wanted::Refresh
    } else if m.msg == WM_TRAY {
        mouse(low_half(m.lparam as int))
    } else if m.msg == WM_COMMAND {
        Wanted::Command((m.wparam % 0x1_0000) as usize)
    } else if m.msg == WM_HOTKEY {
        chord(low_half(m.wparam as int))
    } else {
        unclaimed(m.msg)
    }
}

/// What a message to the tray's window asks for.
pub fn wnd_proc(m: &Message, tray: bool, taskbar_created: u32, depth: u32) -> (r: Wanted)
    ensures
        r == wanted(*m, tray, taskbar_created, depth),
{
    if m.msg == WM_POWERBROADCAST {
        return Wanted::DisplayState;
    }
    if tray {
        if depth > 0 {
            if m.msg == WM_TIMER || m.msg == WM_TRAY || m.msg == WM_COMMAND || m.msg == WM_HOTKEY
                || m.msg == taskbar_created {
                return Wanted::Nothing;
            }
        } else if m.msg == taskbar_created {
            return Wanted::AddIcon;
        } else if m.msg == WM_TIMER && m.wparam == TIMER_REFRESH {
            return Wanted::Refresh;
        } else if m.msg == WM_TRAY {
            let event: i64 = lower(m.lparam);
            return if event == WM_RBUTTONUP as i64 || event == WM_CONTEXTMENU as i64 {
                Wanted::ShowMenu
            } else if event == WM_LBUTTONUP as i64 {
                Wanted::ToggleSettings
            } else if event == WM_LBUTTONDBLCLK as i64 {
                Wanted::Command(ID_SETTINGS)
            } else {
                Wanted::Nothing
            };
        } else if m.msg == WM_COMMAND {
            return Wanted::Command((m.wparam % 0x1_0000) as usize);
        } else if m.msg == WM_HOTKEY {
            let id: u64 = m.wparam % 0x1_0000_0000;
            return if id == HOTKEY_BIOS as u64 {
                Wanted::Command(ID_MODE_BIOS)
            } else if id == HOTKEY_SMART as u64 {
                Wanted::Command(ID_MODE_SMART)
            } else if id == HOTKEY_PROFILE as u64 {
                Wanted::CycleProfile
            } else {
                Wanted::Nothing
            };
        }
    }
    if m.msg == WM_DESTROY {
        Wanted::Quit
    } else {
        Wanted::Default
    }
}

/// The lower half of a signed parameter.
fn lower(n: i64) -> (r: i64)
    ensures
        r == low_half(n as int),
{
    if n >= 0 {
        n % 0x1_0000_0000
    } else {
        let past: i64 = if n == i64::MIN {
            0
        } else {
            (-n) % 0x1_0000_0000
        };
        proof {
            assert(i64::MIN % 0x1_0000_0000 == 0);
            if n != i64::MIN {
                let m = -n;
                let q = m / 0x1_0000_0000;
                assert(m == q * 0x1_0000_0000 + past);
            }
        }
        if past == 0 {
            0
        } else {
            0x1_0000_0000 - past
        }
    }
}

/// How long the tray waits between looks, after hearing about a power
/// setting: whether it is a change to one, whether it is the display's, and
/// the first byte of its value if it has one. Nothing when it is none of ours.
/// A dimmed screen is still being looked at.
pub fn on_display_state(
    wparam: u64,
    setting: Option<&Guid>,
    display: &Guid,
    value: Option<u8>,
) -> (r: Option<u32>)
    ensures
        r == (if wparam % 0x1_0000_0000 != PBT_POWERSETTINGCHANGE {
            None
        } else {
            match (setting, value) {
                (Some(guid), Some(byte)) => if !alike(*guid, *display) {
                    None
                } else if byte == 0 {
                    Some(30_000u32)
                } else {
                    Some(1000u32)
                },
                _ => None,
            }
        }),
{
    if wparam % 0x1_0000_0000 != PBT_POWERSETTINGCHANGE {
        return None;
    }
    match setting {
        Some(guid) => match value {
            Some(byte) => if !same_guid(guid, display) {
                None
            } else if byte == 0 {
                Some(REFRESH_MS_DARK)
            } else {
                Some(REFRESH_MS)
            },
            None => None,
        },
        None => None,
    }
}

/// How many modal things are open, and how often the tray looks when none is.
///
/// A count and not a flag, because these nest: a message box opened from
/// inside the name box is two deep.
#[derive(Debug, Clone, Copy, PartialEq, Eq, Structural)]
pub struct Pauses {
    pub depth: u32,
    pub interval: u32,
}

impl Pauses {
    /// Nothing modal, and somebody looking.
    pub fn new() -> (r: Self)
        ensures
            r == (Pauses { depth: 0, interval: 1000 }),
    {
        Pauses { depth: 0, interval: REFRESH_MS }
    }

    /// Something modal has opened: the timer stops.
    pub fn pause(&mut self)
        requires
            old(self).depth < u32::MAX,
        ensures
            *final(self) == (Pauses { depth: (old(self).depth + 1) as u32, ..*old(self) }),
    {
        self.depth = self.depth + 1;
    }

    /// Something modal has closed: the timer starts again, at this interval.
    /// Not always the fast one, or a box closing in the dark would quietly put
    /// that back.
    pub fn resume(&mut self) -> (r: u32)
        requires
            old(self).depth > 0,
        ensures
            *final(self) == (Pauses { depth: (old(self).depth - 1) as u32, ..*old(self) }),
            r == old(self).interval,
    {
        self.depth = self.depth - 1;
        self.interval
    }

    /// The display went off or came back.
    pub fn look_every(&mut self, interval: u32)
        ensures
            *final(self) == (Pauses { interval, ..*old(self) }),
    {
        self.interval = interval;
    }
}

/// While anything modal is open, nothing that wants the tray gets it: no
/// refresh, no menu, no command, no hotkey.
pub proof fn nothing_reaches_the_tray_while_something_modal_is_open(
    m: Message,
    tray: bool,
    taskbar_created: u32,
    depth: u32,
)
    requires
        depth > 0,
    ensures
        ({
            let w = wanted(m, tray, taskbar_created, depth);
            w == Wanted::DisplayState || w == Wanted::Nothing || w == Wanted::Quit || w
                == Wanted::Default
        }),
        m.msg == WM_HOTKEY && tray ==> wanted(m, tray, taskbar_created, depth) == Wanted::Nothing,
{
}

/// No hotkey asks for a fixed fan level: whichever is pressed, whatever the
/// profiles, the engine is asked for nothing but firmware control or the
/// curve.
pub proof fn no_hotkey_asks_for_a_fixed_level(names: Seq<Seq<char>>, id: int)
    ensures
        chord(id) matches Wanted::Command(command) ==> {
            ||| chosen(names, command as int) == (ActionView::Post {
                mode: crate::ipc::MODE_BIOS,
                level: 0,
            })
            ||| chosen(names, command as int) == (ActionView::Post {
                mode: crate::ipc::MODE_SMART,
                level: 0,
            })
        },
        chord(id) is Command || chord(id) == Wanted::CycleProfile || chord(id) == Wanted::Nothing,
{
}

/// The program ends only when its window does.
pub proof fn only_the_window_going_ends_the_program(
    m: Message,
    tray: bool,
    taskbar_created: u32,
    depth: u32,
)
    ensures
        wanted(m, tray, taskbar_created, depth) == Wanted::Quit ==> m.msg == WM_DESTROY,
{
}

/// What each message asks of the tray, with nothing modal open: the shell's
/// taskbar coming up puts the icon back; the refresh timer refreshes; the
/// right button and the menu key open the menu, the left button the settings;
/// a command does what it names; the three hotkeys hand the fan to the
/// firmware, follow the curve, and go on to the next profile; the window going
/// ends the program; and anything else is left alone.
pub proof fn each_message_asks_for_its_own(m: Message, taskbar_created: u32)
    requires
        taskbar_created >= 0xc000,
        0 <= m.lparam < 0x1_0000_0000,
        m.wparam < 0x1_0000_0000,
    ensures
        ({
            let w = wanted(m, true, taskbar_created, 0);
            &&& m.msg == 0x0218 ==> w == Wanted::DisplayState
            &&& m.msg == taskbar_created ==> w == Wanted::AddIcon
            &&& m.msg == 0x0113 && m.wparam == 1 ==> w == Wanted::Refresh
            &&& m.msg == 0x8001 && (m.lparam == 0x0205 || m.lparam == 0x007b) ==> w
                == Wanted::ShowMenu
            &&& m.msg == 0x8001 && m.lparam == 0x0202 ==> w == Wanted::ToggleSettings
            &&& m.msg == 0x8001 && m.lparam == 0x0203 ==> w == Wanted::Command(200)
            &&& m.msg == 0x0111 && m.wparam < 0x1_0000 ==> w == Wanted::Command(m.wparam as usize)
            &&& m.msg == 0x0312 && m.wparam == 1 ==> w == Wanted::Command(100)
            &&& m.msg == 0x0312 && m.wparam == 2 ==> w == Wanted::Command(101)
            &&& m.msg == 0x0312 && m.wparam == 3 ==> w == Wanted::CycleProfile
            &&& m.msg == 0x0002 ==> w == Wanted::Quit
            &&& m.msg != 0x0218 && m.msg != taskbar_created && m.msg != 0x0113 && m.msg != 0x8001
                && m.msg != 0x0111 && m.msg != 0x0312 && m.msg != 0x0002 ==> w == Wanted::Default
        }),
{
}

} // verus!
