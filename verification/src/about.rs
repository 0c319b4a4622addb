//! The About box: the version, the warnings, and every attribution owed.
//!
//! The order of the text is deliberate. The disclaimer and the hardware
//! warning sit directly under the name, where they are on screen before
//! anyone scrolls, because they are the part somebody should actually read.
//! The attributions follow, and the license housekeeping comes last.

use vstd::prelude::*;

use crate::prompt::{Area, Control, ControlView, Widget, WM_CLOSE, WM_COMMAND};
use crate::text::to_returns;

verus! {

pub const ID_TEXT: u32 = 100;

pub const ID_FOLDER: u32 = 101;

pub const ID_PAGE: u32 = 102;

/// The id the Escape key is turned into.
pub const ID_CLOSE: u32 = 2;

pub const WIDTH: i32 = 660;

pub const HEIGHT: i32 = 640;

/// Room around everything.
pub const PAD: i32 = 20;

pub const ICON: i32 = 48;

/// Where the header's words start: past the icon, plus room to breathe.
pub const HEAD_X: i32 = 84;

/// The hairline under the header.
pub const RULE_Y: i32 = 100;

/// The top of the text.
pub const TEXT_Y: i32 = 118;

pub const BUTTON_H: i32 = 32;

/// The window's colors, blue first, the way the system's drawing calls take
/// them.
pub const BACK: u32 = 0x16_11_0f;

pub const FIELD: u32 = 0x21_19_16;

pub const INK: u32 = 0xf0_ea_e8;

pub const DIM: u32 = 0xae_a0_99;

pub const FAINT: u32 = 0x74_66_5f;

/// White at eight parts in a hundred over the ground, already blended.
pub const EDGE: u32 = 0x28_21_1f;

/// The edge of a button that is focused or pressed.
pub const EDGE_LIT: u32 = 0x50_46_42;

pub const RAISED: u32 = 0x2b_23_1f;

pub const TAGLINE: &'static str = "Fan control software for ThinkPads. MIT licensed.";

pub const LENOVO: &'static str = "Not affiliated with, endorsed by, or supported by Lenovo.";

/// Everything the text field says, up to the address of the project page.
pub const BODY: &'static str =
    "Yamato writes directly to your ThinkPad's embedded controller. Setting a \
     manual fan level switches the firmware's own thermal management off, which \
     is what makes fan control possible and also what makes it worth taking \
     seriously. Yamato hands the fan back to the firmware on exit, on crash, on \
     shutdown, on sleep, and when a watchdog notices the control loop has \
     stalled, and it refuses the disengaged setting outright and refuses level 0 \
     as a held manual mode. Use it on hardware you are willing to look after.\n\
     \n\
     The software is provided \"as is\", without warranty of any kind, express \
     or implied. The authors or copyright holders shall not be liable for any \
     claim, damages or other liability arising from, out of or in connection \
     with the software or the use or other dealings in the software. LICENSE \
     has the full text.\n\
     \n\
     A hobby project. Issues and pull requests are closed, and there is no \
     support. It was written for one ThinkPad and shared because it may suit \
     yours; if it does not work for you, it does not work for you. That is the \
     honest version rather than an unfriendly one: reaching an embedded \
     controller depends on hardware that varies by model and by firmware \
     revision, and answering \"it doesn't work on my machine\" properly means \
     owning that machine. TPFanControl and its forks have done this job well \
     for twenty years and may support more machines than this does.\n\
     \n\
     Yamato stands on twenty years of prior work:\n\
     \n\
     TPFanControl, the original: https://github.com/ThinkPad-Forum/TPFanControl\n\
     byrnes' dual-fan mod, where second fan support came from: \
     https://github.com/byrnes/TPFanControl\n\
     TPFanCtrl2: https://github.com/Shuzhengz/TPFanCtrl2\n\
     FanDjango's fork, the most current: https://github.com/FanDjango/TPFanCtrl2\n\
     \n\
     No code was copied from any of them: no functions, no identifiers, no \
     comments. What is shared is knowledge of the hardware, facts about a \
     ThinkPad independently documented in the Linux thinkpad_acpi driver and \
     on ThinkWiki.\n\
     \n\
     Yamato reaches the embedded controller through PawnIO, by namazso, \
     GPL-2.0-or-later. PawnIO is not bundled: it is installed separately from \
     https://pawnio.eu, and Yamato speaks to it only over DeviceIoControl.\n\
     \n\
     Two PawnIO modules ship with Yamato: LpcACPIEC.bin and LpcIO.bin, by \
     namazso, LGPL-2.1-or-later, byte for byte unmodified, with their sources \
     LpcACPIEC.p and LpcIO.p beside them.\n\
     \n\
     The Rust crates linked into yamato.exe are permissively licensed, MIT or \
     Apache-2.0 for nearly all of them. Their license texts and copyright \
     notices are reproduced in full in THIRD-PARTY-LICENSES.txt.\n\
     \n\
     The full texts are installed next to yamato.exe: LICENSE, \
     LICENSE.LGPL-2.1.txt, NOTICE.md and THIRD-PARTY-LICENSES.txt.\n\
     \n\
     Project page: ";

/// The first of the three identity lines.
pub open spec fn title_of(version: Seq<char>) -> Seq<char> {
    "Yamato "@ + version
}

/// What the text field says.
pub open spec fn body_of(page: Seq<char>) -> Seq<char> {
    BODY@ + page + "\n"@
}

/// Everything the box says, as one block of text.
pub open spec fn all_of(version: Seq<char>, page: Seq<char>) -> Seq<char> {
    title_of(version) + "\n"@ + TAGLINE@ + "\n"@ + LENOVO@ + "\n\n"@ + body_of(page)
}

/// The first of the three identity lines, which are painted at the top of the
/// box.
pub fn title(version: &str) -> (r: String)
    ensures
        r@ == title_of(version@),
{
    let mut s = "Yamato ".to_owned();
    s.append(version);
    s
}

/// What the text field says.
pub fn body(page: &str) -> (r: String)
    ensures
        r@ == body_of(page@),
{
    let mut s = BODY.to_owned();
    s.append(page);
    s.append("\n");
    s
}

/// Everything the box says, as one block of text.
pub fn text(version: &str, page: &str) -> (r: String)
    ensures
        r@ == all_of(version@, page@),
{
    let mut s = title(version);
    s.append("\n");
    s.append(TAGLINE);
    s.append("\n");
    s.append(LENOVO);
    s.append("\n\n");
    s.append(body(page).as_str());
    s
}

/// One line of the header.
#[derive(Debug)]
pub struct HeaderLine {
    pub text: String,
    /// Whether it is drawn in the large face.
    pub large: bool,
    pub color: u32,
    pub at: Area,
}

/// Where a line of the header goes in a client area of a width.
pub open spec fn header_area(width: i32, top: int, height: int) -> Area {
    Area {
        left: HEAD_X,
        top: top as i32,
        right: (width - PAD) as i32,
        bottom: (top + height) as i32,
    }
}

/// The header: the name and version, and the two lines that say what this is
/// and whose it is not.
pub fn header(version: &str, width: i32) -> (r: Vec<HeaderLine>)
    requires
        0 <= width,
    ensures
        r@.len() == 3,
        r@[0].text@ == title_of(version@) && r@[0].large && r@[0].color == INK && r@[0].at
            == header_area(width, PAD as int, 32),
        r@[1].text@ == TAGLINE@ && !r@[1].large && r@[1].color == DIM && r@[1].at == header_area(
            width,
            PAD + 36,
            20,
        ),
        r@[2].text@ == LENOVO@ && !r@[2].large && r@[2].color == FAINT && r@[2].at == header_area(
            width,
            PAD + 56,
            20,
        ),
{
    let right: i32 = width - PAD;
    let mut r: Vec<HeaderLine> = Vec::new();
    r.push(
        HeaderLine {
            text: title(version),
            large: true,
            color: INK,
            at: Area { left: HEAD_X, top: PAD, right, bottom: PAD + 32 },
        },
    );
    r.push(
        HeaderLine {
            text: TAGLINE.to_owned(),
            large: false,
            color: DIM,
            at: Area { left: HEAD_X, top: PAD + 36, right, bottom: PAD + 36 + 20 },
        },
    );
    r.push(
        HeaderLine {
            text: LENOVO.to_owned(),
            large: false,
            color: FAINT,
            at: Area { left: HEAD_X, top: PAD + 56, right, bottom: PAD + 56 + 20 },
        },
    );
    r
}

/// The controls of the box, in a client area of a size: the text, then the
/// three buttons along the bottom.
pub open spec fn laid_out(page: Seq<char>, width: int, height: int) -> Seq<ControlView> {
    let row = height - PAD - BUTTON_H;
    seq![
        ControlView {
            widget: Widget::Edit,
            id: ID_TEXT,
            label: crate::text::with_returns(body_of(page)),
            x: PAD as int,
            y: TEXT_Y as int,
            width: width - 2 * PAD,
            height: row - 16 - TEXT_Y,
        },
        ControlView {
            widget: Widget::Button,
            id: ID_FOLDER,
            label: "Open license folder"@,
            x: PAD as int,
            y: row,
            width: 172,
            height: BUTTON_H as int,
        },
        ControlView {
            widget: Widget::Button,
            id: ID_PAGE,
            label: "Project page"@,
            x: PAD + 182,
            y: row,
            width: 130,
            height: BUTTON_H as int,
        },
        ControlView {
            widget: Widget::Button,
            id: ID_CLOSE,
            label: "Close"@,
            x: width - PAD - 116,
            y: row,
            width: 116,
            height: BUTTON_H as int,
        },
    ]
}

/// The controls of the box. Everything is placed against the client area: the
/// caption and frame around it change with the display the window opens on.
pub fn controls(page: &str, width: i32, height: i32) -> (r: Vec<Control>)
    requires
        0 <= width,
        0 <= height,
    ensures
        crate::prompt::control_views(r@) == laid_out(page@, width as int, height as int),
{
    let row: i32 = height - PAD - BUTTON_H;
    let mut r: Vec<Control> = Vec::new();
    r.push(
        Control {
            widget: Widget::Edit,
            id: ID_TEXT,
            label: to_returns(body(page).as_str()),
            x: PAD,
            y: TEXT_Y,
            width: width - 2 * PAD,
            height: row - 16 - TEXT_Y,
        },
    );
    r.push(
        Control {
            widget: Widget::Button,
            id: ID_FOLDER,
            label: "Open license folder".to_owned(),
            x: PAD,
            y: row,
            width: 172,
            height: BUTTON_H,
        },
    );
    r.push(
        Control {
            widget: Widget::Button,
            id: ID_PAGE,
            label: "Project page".to_owned(),
            x: PAD + 182,
            y: row,
            width: 130,
            height: BUTTON_H,
        },
    );
    r.push(
        Control {
            widget: Widget::Button,
            id: ID_CLOSE,
            label: "Close".to_owned(),
            x: width - PAD - 116,
            y: row,
            width: 116,
            height: BUTTON_H,
        },
    );
    proof {
        assert(crate::prompt::control_views(r@) =~= laid_out(page@, width as int, height as int));
    }
    r
}

/// The margin the text keeps inside its field, clear of a scrollbar of a
/// width.
pub fn inset(width: i32, height: i32, bar: i32) -> (r: Area)
    requires
        0 <= width,
        0 <= height,
        0 <= bar <= i32::MAX - 52,
    ensures
        r.left == 12,
        r.top == 10,
        r.right == width - 2 * PAD - bar - 12,
        r.bottom == height - PAD - BUTTON_H - 16 - TEXT_Y - 10,
{
    Area {
        left: 12,
        top: 10,
        right: width - 2 * PAD - bar - 12,
        bottom: height - PAD - BUTTON_H - 16 - TEXT_Y - 10,
    }
}

/// Nothing overlaps: in a client area the box opens with, the text ends above
/// the buttons, and the buttons stand side by side and inside.
pub proof fn nothing_overlaps(page: Seq<char>, width: int, height: int)
    requires
        width >= 488,
        height >= 186,
    ensures
        ({
            let c = laid_out(page, width, height);
            &&& c[0].height >= 0
            &&& c[0].y + c[0].height < c[1].y
            &&& c[1].x + c[1].width < c[2].x
            &&& c[2].x + c[2].width < c[3].x
            &&& c[3].x + c[3].width <= width
            &&& c[3].y + c[3].height <= height
        }),
{
}

/// What a button is filled and edged with. The one with focus gets a brighter
/// edge instead of a different color.
pub fn button_colors(pressed: bool, focused: bool) -> (r: (u32, u32))
    ensures
        r.0 == (if pressed {
            RAISED
        } else {
            FIELD
        }),
        r.1 == (if focused || pressed {
            EDGE_LIT
        } else {
            EDGE
        }),
{
    (
        if pressed {
            RAISED
        } else {
            FIELD
        },
        if focused || pressed {
            EDGE_LIT
        } else {
            EDGE
        },
    )
}

/// What a message to the box asks for.
#[derive(Debug, Clone, Copy, PartialEq, Eq, Structural)]
pub enum Request {
    OpenFolder,
    OpenPage,
    Close,
    /// Paint a field's text in the ink, over the field's shade.
    FieldColors,
    /// The same over the ground.
    GroundColors,
    PaintHeader,
    DrawButton,
    /// Nothing of ours.
    Default,
}

pub const WM_CTLCOLOREDIT: u32 = 0x0133;

pub const WM_CTLCOLORLISTBOX: u32 = 0x0134;

pub const WM_CTLCOLORDLG: u32 = 0x0136;

pub const WM_CTLCOLORSTATIC: u32 = 0x0138;

pub const WM_PAINT: u32 = 0x000f;

pub const WM_DRAWITEM: u32 = 0x002b;

/// What a command asks for. The other two buttons act without closing:
/// somebody reading licenses may well want the folder and the page both.
pub open spec fn commanded(id: int) -> Request {
    if id == ID_FOLDER {
        Request::OpenFolder
    } else if id == ID_PAGE {
        Request::OpenPage
    } else if id == ID_CLOSE {
        Request::Close
    } else {
        Request::Default
    }
}

/// What a message to the box asks for.
pub fn requested(msg: u32, wparam: u64) -> (r: Request)
    ensures
        r == (if msg == WM_COMMAND {
            commanded(wparam as int % 0x1_0000)
        } else if msg == WM_CLOSE {
            Request::Close
        } else if msg == WM_CTLCOLOREDIT || msg == WM_CTLCOLORSTATIC || msg
            == WM_CTLCOLORLISTBOX {
            Request::FieldColors
        } else if msg == WM_CTLCOLORDLG {
            Request::GroundColors
        } else if msg == WM_PAINT {
            Request::PaintHeader
        } else if msg == WM_DRAWITEM {
            Request::DrawButton
        } else {
            Request::Default
        }),
{
    if msg == WM_COMMAND {
        let id: u64 = wparam % 0x1_0000;
        if id == ID_FOLDER as u64 {
            Request::OpenFolder
        } else if id == ID_PAGE as u64 {
            Request::OpenPage
        } else if id == ID_CLOSE as u64 {
            Request::Close
        } else {
            Request::Default
        }
    } else if msg == WM_CLOSE {
        Request::Close
    } else if msg == WM_CTLCOLOREDIT || msg == WM_CTLCOLORSTATIC || msg == WM_CTLCOLORLISTBOX {
        Request::FieldColors
    } else if msg == WM_CTLCOLORDLG {
        Request::GroundColors
    } else if msg == WM_PAINT {
        Request::PaintHeader
    } else if msg == WM_DRAWITEM {
        Request::DrawButton
    } else {
        Request::Default
    }
}

/// Each button of the box does what it says, and nothing else in it does
/// anything.
pub proof fn each_button_does_what_it_says(page: Seq<char>, width: int, height: int, id: int)
    ensures
        ({
            let c = laid_out(page, width, height);
            &&& c.len() == 4
            &&& c[1].label == "Open license folder"@ && commanded(c[1].id as int)
                == Request::OpenFolder
            &&& c[2].label == "Project page"@ && commanded(c[2].id as int) == Request::OpenPage
            &&& commanded(c[3].id as int) == Request::Close
            &&& id != c[1].id && id != c[2].id && id != c[3].id ==> commanded(id)
                == Request::Default
        }),
{
}

/// The box names the version it is of and the page to look at.
pub proof fn the_box_says_what_it_is(version: Seq<char>, page: Seq<char>)
    ensures
        crate::text::begins(all_of(version, page), "Yamato "@ + version),
        crate::text::holds(all_of(version, page), page),
        crate::text::holds(body_of(page), page),
{
    let whole = all_of(version, page);
    let title = "Yamato "@ + version;
    assert(whole.take(title.len() as int) =~= title);
    crate::text::it_stands_at_the_end(BODY@, page);
    crate::text::it_still_stands(BODY@ + page, "\n"@, page);
    let head = title_of(version) + "\n"@ + TAGLINE@ + "\n"@ + LENOVO@ + "\n\n"@;
    crate::text::it_stands_at_the_end(head + BODY@, page);
    crate::text::it_still_stands(head + BODY@ + page, "\n"@, page);
    assert(head + BODY@ + page + "\n"@ =~= whole);
}

} // verus!
