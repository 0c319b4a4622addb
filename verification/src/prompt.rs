//! The small modal box for typing a name into, and what every modal box here
//! shares: where it is put, and how its message loop ends.

use vstd::prelude::*;

use crate::text::{chars_of, string_of, trim};

verus! {

pub const WIDTH: i32 = 360;

pub const HEIGHT: i32 = 150;

pub const ID_EDIT: u32 = 100;

pub const ID_OK: u32 = 1;

pub const ID_CANCEL: u32 = 2;

/// A rectangle on the screen.
#[derive(Debug, Clone, Copy, PartialEq, Eq, Structural)]
pub struct Area {
    pub left: i32,
    pub top: i32,
    pub right: i32,
    pub bottom: i32,
}

/// Half a number, cut towards zero.
pub open spec fn halved(n: int) -> int {
    if n >= 0 {
        n / 2
    } else {
        -((-n) / 2)
    }
}

/// Where something of a length begins, to sit in the middle of a stretch.
pub open spec fn middle(low: int, high: int, length: int) -> int {
    low + halved(high - low - length)
}

/// Whether nothing on the way to the middle is too large a number.
pub open spec fn reachable(low: int, high: int, length: int) -> bool {
    &&& i32::MIN <= high - low <= i32::MAX
    &&& i32::MIN <= high - low - length <= i32::MAX
    &&& i32::MIN <= middle(low, high, length) <= i32::MAX
}

fn centered_along(low: i32, high: i32, length: i32) -> (r: i32)
    requires
        reachable(low as int, high as int, length as int),
    ensures
        r == middle(low as int, high as int, length as int),
{
    let room: i32 = high - low - length;
    let half: i32 = if room >= 0 {
        room / 2
    } else {
        let past: i64 = -(room as i64);
        (-(past / 2)) as i32
    };
    low + half
}

/// Where to put a box of a size so it lands in the middle of an area: the
/// owner's window when there is one on screen, and otherwise the work area of
/// the display the pointer is on.
pub fn centered(area: &Area, width: i32, height: i32) -> (r: (i32, i32))
    requires
        reachable(area.left as int, area.right as int, width as int),
        reachable(area.top as int, area.bottom as int, height as int),
    ensures
        r.0 == middle(area.left as int, area.right as int, width as int),
        r.1 == middle(area.top as int, area.bottom as int, height as int),
{
    (centered_along(area.left, area.right, width), centered_along(area.top, area.bottom, height))
}

/// A box no larger than the area it is put in lies inside it, with no more
/// than one pixel between the room on either side.
pub proof fn a_box_that_fits_lies_inside(low: int, high: int, length: int)
    requires
        0 <= length <= high - low,
    ensures
        low <= middle(low, high, length),
        middle(low, high, length) + length <= high,
        0 <= (high - middle(low, high, length) - length) - (middle(low, high, length) - low) <= 1,
{
}

/// What kind of thing a control is.
#[derive(Debug, Clone, Copy, PartialEq, Eq, Structural)]
pub enum Widget {
    Edit,
    Button,
}

/// One control of a box.
#[derive(Debug)]
pub struct Control {
    pub widget: Widget,
    pub id: u32,
    pub label: String,
    pub x: i32,
    pub y: i32,
    pub width: i32,
    pub height: i32,
}

/// One control, mathematically.
pub ghost struct ControlView {
    pub widget: Widget,
    pub id: u32,
    pub label: Seq<char>,
    pub x: int,
    pub y: int,
    pub width: int,
    pub height: int,
}

impl View for Control {
    type V = ControlView;

    open spec fn view(&self) -> ControlView {
        ControlView {
            widget: self.widget,
            id: self.id,
            label: self.label@,
            x: self.x as int,
            y: self.y as int,
            width: self.width as int,
            height: self.height as int,
        }
    }
}

/// Controls, mathematically.
pub open spec fn control_views(v: Seq<Control>) -> Seq<ControlView> {
    v.map_values(|c: Control| c@)
}

/// The controls of the name box: the field, holding the name it starts from,
/// and the two buttons under it.
pub open spec fn name_box(initial: Seq<char>) -> Seq<ControlView> {
    seq![
        ControlView {
            widget: Widget::Edit,
            id: ID_EDIT,
            label: initial,
            x: 16,
            y: 16,
            width: 310,
            height: 26,
        },
        ControlView {
            widget: Widget::Button,
            id: ID_OK,
            label: "OK"@,
            x: 150,
            y: 60,
            width: 86,
            height: 28,
        },
        ControlView {
            widget: Widget::Button,
            id: ID_CANCEL,
            label: "Cancel"@,
            x: 240,
            y: 60,
            width: 86,
            height: 28,
        },
    ]
}

/// The controls of the name box.
pub fn controls(initial: &str) -> (r: Vec<Control>)
    ensures
        control_views(r@) == name_box(initial@),
{
    let mut r: Vec<Control> = Vec::new();
    r.push(
        Control {
            widget: Widget::Edit,
            id: ID_EDIT,
            label: initial.to_owned(),
            x: 16,
            y: 16,
            width: 310,
            height: 26,
        },
    );
    r.push(
        Control {
            widget: Widget::Button,
            id: ID_OK,
            label: "OK".to_owned(),
            x: 150,
            y: 60,
            width: 86,
            height: 28,
        },
    );
    r.push(
        Control {
            widget: Widget::Button,
            id: ID_CANCEL,
            label: "Cancel".to_owned(),
            x: 240,
            y: 60,
            width: 86,
            height: 28,
        },
    );
    proof {
        assert(control_views(r@) =~= name_box(initial@));
    }
    r
}

pub const WM_COMMAND: u32 = 0x0111;

pub const WM_CLOSE: u32 = 0x0010;

/// What a message to the name box asks for.
#[derive(Debug, Clone, Copy, PartialEq, Eq, Structural)]
pub enum Answer {
    /// Take what is in the field and close.
    Accept,
    /// Close with nothing.
    Cancel,
    /// Nothing of ours.
    Default,
}

/// What a message to the name box asks for. Nothing is done as it is
/// destroyed: posting a quit there would end more than the loop that waits for
/// the box.
pub fn answered(msg: u32, wparam: u64) -> (r: Answer)
    ensures
        r == (if msg == WM_COMMAND && wparam % 0x1_0000 == ID_OK as u64 {
            Answer::Accept
        } else if msg == WM_CLOSE || msg == WM_COMMAND && wparam % 0x1_0000 == ID_CANCEL as u64 {
            Answer::Cancel
        } else {
            Answer::Default
        }),
{
    let id: u64 = wparam % 0x1_0000;
    if msg == WM_COMMAND && id == ID_OK as u64 {
        Answer::Accept
    } else if msg == WM_CLOSE || msg == WM_COMMAND && id == ID_CANCEL as u64 {
        Answer::Cancel
    } else {
        Answer::Default
    }
}

/// The name a box comes to: what was typed, without the white space around
/// it, or nothing when that leaves nothing.
pub open spec fn name_given(typed: Option<Seq<char>>) -> Option<Seq<char>> {
    match typed {
        Some(text) => if crate::text::trimmed(text).len() == 0 {
            None
        } else {
            Some(crate::text::trimmed(text))
        },
        None => None,
    }
}

/// The name a box comes to: `None` if canceled or left empty.
pub fn ask(typed: Option<&str>) -> (r: Option<String>)
    ensures
        match name_given(
            match typed {
                Some(text) => Some(text@),
                None => None,
            },
        ) {
            Some(name) => r matches Some(n) && n@ == name,
            None => r is None,
        },
{
    match typed {
        Some(text) => {
            let kept = trim(&chars_of(text));
            if kept.len() == 0 {
                None
            } else {
                Some(string_of(&kept))
            }
        },
        None => None,
    }
}

/// How a box's message loop came to an end.
#[derive(Debug, Clone, Copy, PartialEq, Eq, Structural)]
pub enum Pumped {
    /// A message, to be dispatched.
    Message,
    /// A quit from somewhere outside the box.
    Quit,
    /// An error.
    Broken,
}

/// What waiting for a message came to, by what the wait returned.
pub fn pumped(got: i32) -> (r: Pumped)
    ensures
        r == (if got > 0 {
            Pumped::Message
        } else if got == 0 {
            Pumped::Quit
        } else {
            Pumped::Broken
        }),
{
    if got > 0 {
        Pumped::Message
    } else if got == 0 {
        Pumped::Quit
    } else {
        Pumped::Broken
    }
}

/// What is left to do once a box's loop is over.
#[derive(Debug, Clone, Copy, PartialEq, Eq, Structural)]
pub struct Ending {
    /// The box is still there and has to go.
    pub destroy: bool,
    /// The owner has to be enabled again and put in front.
    pub enable_owner: bool,
    /// The quit that was taken has to be put back.
    pub post_quit: bool,
}

/// What a box's loop does next. It ends when the box is gone, which is looked
/// at before waiting, so the message that destroyed the box is the last one
/// the loop handles.
#[derive(Debug, Clone, Copy, PartialEq, Eq, Structural)]
pub enum PumpAsk {
    /// Wait for a message.
    Wait,
    /// Dispatch the one that came.
    Dispatch,
    /// Leave, doing what is left to do.
    Leave(Ending),
}

/// What a box's loop does next, given what the last wait came to, whether the
/// box is still there, and whether it has an owner.
pub open spec fn pumping(last: Option<Pumped>, there: bool, owned: bool) -> PumpAsk {
    match last {
        Some(Pumped::Message) => PumpAsk::Dispatch,
        None => if there {
            PumpAsk::Wait
        } else {
            PumpAsk::Leave(Ending { destroy: false, enable_owner: owned, post_quit: false })
        },
        Some(ended) => PumpAsk::Leave(
            Ending { destroy: there, enable_owner: owned, post_quit: ended == Pumped::Quit },
        ),
    }
}

/// What a box's loop does next.
pub fn pump(last: Option<Pumped>, there: bool, owned: bool) -> (r: PumpAsk)
    ensures
        r == pumping(last, there, owned),
{
    match last {
        Some(Pumped::Message) => PumpAsk::Dispatch,
        None => if there {
            PumpAsk::Wait
        } else {
            PumpAsk::Leave(Ending { destroy: false, enable_owner: owned, post_quit: false })
        },
        Some(Pumped::Quit) => PumpAsk::Leave(
            Ending { destroy: there, enable_owner: owned, post_quit: true },
        ),
        Some(Pumped::Broken) => PumpAsk::Leave(
            Ending { destroy: there, enable_owner: owned, post_quit: false },
        ),
    }
}

/// A box's loop never swallows a quit, never invents one, never leaves its box
/// behind, and never leaves its owner disabled.
pub proof fn a_loop_leaves_nothing_behind(last: Option<Pumped>, there: bool, owned: bool)
    ensures
        pumping(last, there, owned) matches PumpAsk::Leave(ending) ==> {
            &&& ending.post_quit <==> last == Some(Pumped::Quit)
            &&& ending.destroy <==> there
            &&& ending.enable_owner <==> owned
        },
        last == Some(Pumped::Quit) ==> pumping(last, there, owned) is Leave,
{
}

/// The name a box comes to is what was typed, less the white space around it,
/// and there is none where nothing but white space was typed, or nothing.
pub proof fn a_name_is_what_was_typed(typed: Seq<char>)
    ensures
        name_given(None) is None,
        name_given(Some(typed)) is None <==> forall|i: int|
            0 <= i < typed.len() ==> crate::text::white(#[trigger] typed[i]),
        name_given(Some(typed)) matches Some(name) ==> exists|i: int, j: int|
            {
                &&& 0 <= i < j <= typed.len()
                &&& name == #[trigger] typed.subrange(i, j)
                &&& !crate::text::white(typed[i]) && !crate::text::white(typed[j - 1])
                &&& forall|k: int| 0 <= k < i ==> crate::text::white(#[trigger] typed[k])
                &&& forall|k: int|
                    j <= k < typed.len() ==> crate::text::white(#[trigger] typed[k])
            },
{
    crate::text::trimming_takes_the_white_around(typed);
    let (i, j) = choose|i: int, j: int|
        {
            &&& 0 <= i <= j <= typed.len()
            &&& crate::text::trimmed(typed) == #[trigger] typed.subrange(i, j)
            &&& forall|k: int| 0 <= k < i ==> crate::text::white(#[trigger] typed[k])
            &&& forall|k: int| j <= k < typed.len() ==> crate::text::white(#[trigger] typed[k])
            &&& i < j ==> !crate::text::white(typed[i]) && !crate::text::white(typed[j - 1])
        };
    if i < j {
        assert(!crate::text::white(typed[i]));
        assert(typed.subrange(i, j).len() > 0);
    } else {
        assert(typed.subrange(i, j).len() == 0);
        assert forall|k: int| 0 <= k < typed.len() implies crate::text::white(
            #[trigger] typed[k],
        ) by {
            assert(k < i || j <= k);
        }
    }
}

/// The name box opens on the name it starts from, and its controls lie inside
/// it without covering one another.
pub proof fn the_name_box_holds_the_name(initial: Seq<char>, i: int, j: int)
    requires
        0 <= i < j < 3,
    ensures
        ({
            let c = name_box(initial);
            &&& c.len() == 3
            &&& c[0].widget == Widget::Edit && c[0].label == initial
            &&& c[1].label == "OK"@ && c[1].id == 1
            &&& c[2].label == "Cancel"@ && c[2].id == 2
            &&& c[i].id != c[j].id
            &&& 0 <= c[i].x && c[i].x + c[i].width <= 360
            &&& 0 <= c[i].y && c[i].y + c[i].height <= 150
            &&& c[j].x + c[j].width <= 360 && c[j].y + c[j].height <= 150
            &&& c[i].x + c[i].width <= c[j].x || c[i].y + c[i].height <= c[j].y
        }),
{
}

} // verus!
