//! The tray's menu: what is in it, and what choosing something asks for.
//!
//! The menu is built fresh each time so it always reflects reality: which mode
//! is active, which profiles exist, and what the service is doing.

use vstd::prelude::*;

use crate::config::{built_in_names, display_temp, is_built_in, shown_temp, suffix_of, unit_suffix};
use crate::ec::FAN_LEVEL_MAX;
use crate::ipc::{
    name_of, Shared, SharedView, MODE_BIOS, MODE_KEEP, MODE_MANUAL, MODE_SMART, SENSOR_ABSENT,
    SENSOR_COUNT,
};
use crate::pawnio_status::{Missing, MissingView};
use crate::profiles::ProfileAction;
use crate::service::NOT_INSTALLED;
use crate::text::{decimal, decimal_nat, push_i32, push_u64, same, texts};
use crate::tray::{degrees, Prefs, Setting, Tray, TrayView, SERVICE_RUNNING};

verus! {

pub const ID_MODE_BIOS: usize = 100;

pub const ID_MODE_SMART: usize = 101;

pub const ID_SETTINGS: usize = 200;

pub const ID_SVC_INSTALL: usize = 300;

pub const ID_SVC_UNINSTALL: usize = 301;

pub const ID_SVC_START: usize = 302;

pub const ID_SVC_STOP: usize = 303;

pub const ID_PAWNIO: usize = 304;

pub const ID_STARTUP: usize = 400;

pub const ID_UNITS: usize = 401;

pub const ID_LOGGING: usize = 402;

pub const ID_LOG_FOLDER: usize = 403;

pub const ID_TRAY_NUMBERS: usize = 404;

pub const ID_ABOUT: usize = 405;

pub const ID_PROF_NEW: usize = 500;

pub const ID_PROF_RENAME: usize = 501;

pub const ID_PROF_DUPLICATE: usize = 502;

pub const ID_PROF_DELETE: usize = 503;

pub const ID_PROF_IMPORT: usize = 504;

/// Manual levels get one id each from here upward, level 1 first.
pub const ID_MANUAL_BASE: usize = 600;

/// "Hottest" sits on the base, then one id per sensor above it.
pub const ID_TRAY_SENSOR_BASE: usize = 700;

pub const ID_EXIT: usize = 900;

/// Profiles get ids from here upward.
pub const ID_PROFILE_BASE: usize = 1000;

/// What can be done with an item.
#[derive(Debug, Clone, Copy, PartialEq, Eq, Structural)]
pub enum Offer {
    /// It can be chosen.
    Open,
    /// It cannot be chosen now, and looks it.
    Grayed,
    /// It is there to be read.
    Label,
}

/// One item of a menu.
#[derive(Debug)]
pub struct Item {
    pub id: usize,
    pub label: String,
    pub checked: bool,
    pub offer: Offer,
}

/// One item, mathematically.
pub ghost struct ItemView {
    pub id: int,
    pub label: Seq<char>,
    pub checked: bool,
    pub offer: Offer,
}

impl View for Item {
    type V = ItemView;

    open spec fn view(&self) -> ItemView {
        ItemView {
            id: self.id as int,
            label: self.label@,
            checked: self.checked,
            offer: self.offer,
        }
    }
}

/// One line of a menu that opens out of another.
#[derive(Debug)]
pub enum Leaf {
    Item(Item),
    Separator,
}

/// One line of such a menu, mathematically.
pub ghost enum LeafView {
    Item(ItemView),
    Separator,
}

impl View for Leaf {
    type V = LeafView;

    open spec fn view(&self) -> LeafView {
        match self {
            Leaf::Item(item) => LeafView::Item(item@),
            Leaf::Separator => LeafView::Separator,
        }
    }
}

/// Lines of such a menu, mathematically.
pub open spec fn leaves(v: Seq<Leaf>) -> Seq<LeafView> {
    v.map_values(|l: Leaf| l@)
}

/// One line of the menu.
#[derive(Debug)]
pub enum Entry {
    Item(Item),
    Separator,
    /// A menu that opens out of this one.
    Menu { label: &'static str, checked: bool, offer: Offer, lines: Vec<Leaf> },
}

/// One line of the menu, mathematically.
pub ghost enum EntryView {
    Item(ItemView),
    Separator,
    Menu { label: Seq<char>, checked: bool, offer: Offer, lines: Seq<LeafView> },
}

impl View for Entry {
    type V = EntryView;

    open spec fn view(&self) -> EntryView {
        match self {
            Entry::Item(item) => EntryView::Item(item@),
            Entry::Separator => EntryView::Separator,
            Entry::Menu { label, checked, offer, lines } => EntryView::Menu {
                label: label@,
                checked: *checked,
                offer: *offer,
                lines: leaves(lines@),
            },
        }
    }
}

/// Lines of the menu, mathematically.
pub open spec fn entries(v: Seq<Entry>) -> Seq<EntryView> {
    v.map_values(|e: Entry| e@)
}

/// An item that can be chosen.
pub open spec fn plain(id: int, label: Seq<char>) -> EntryView {
    EntryView::Item(ItemView { id, label, checked: false, offer: Offer::Open })
}

/// An item that can be chosen, and says whether it is on.
pub open spec fn ticked(id: int, label: Seq<char>, checked: bool) -> EntryView {
    EntryView::Item(ItemView { id, label, checked, offer: Offer::Open })
}

/// An item that is only there to be read.
pub open spec fn heading(label: Seq<char>) -> EntryView {
    EntryView::Item(ItemView { id: 0, label, checked: false, offer: Offer::Label })
}

/// A line of a menu that opens out of another.
pub open spec fn leaf(id: int, label: Seq<char>, checked: bool, offer: Offer) -> LeafView {
    LeafView::Item(ItemView { id, label, checked, offer })
}

/// What building the menu looks at, beside the engine's block.
pub struct MenuSees<'a> {
    /// What the sensors are called.
    pub sensors: &'a Vec<String>,
    pub missing: &'a Missing,
    /// What the service manager says of the service.
    pub service: i32,
    /// Whether another program that drives the fan is running.
    pub another_tool: bool,
    /// Whether the window starts with the system.
    pub starts_with_windows: bool,
}

/// What building the menu looks at, mathematically.
pub ghost struct MenuSeesView {
    pub sensors: Seq<Seq<char>>,
    pub missing: MissingView,
    pub service: i32,
    pub another_tool: bool,
    pub starts_with_windows: bool,
}

impl<'a> View for MenuSees<'a> {
    type V = MenuSeesView;

    open spec fn view(&self) -> MenuSeesView {
        MenuSeesView {
            sensors: texts(self.sensors@),
            missing: self.missing@,
            service: self.service,
            another_tool: self.another_tool,
            starts_with_windows: self.starts_with_windows,
        }
    }
}

/// Whether a mode can be asked for: with no engine to ask, it is shown as
/// unavailable instead of accepting a click and dropping it.
pub open spec fn live(s: Option<SharedView>) -> Offer {
    match s {
        Some(_) => Offer::Open,
        None => Offer::Grayed,
    }
}

/// The mode the engine says is in force.
pub open spec fn mode_now(s: Option<SharedView>) -> u8 {
    match s {
        Some(s) => s.mode,
        None => MODE_BIOS,
    }
}

/// The manual level in force, if one is: above the escape temperature the fan
/// goes back to the firmware while the mode stays manual.
pub open spec fn held(s: Option<SharedView>) -> Option<u8> {
    match s {
        Some(s) => if s.mode == MODE_MANUAL && s.fan_ctrl <= FAN_LEVEL_MAX {
            Some(s.fan_ctrl)
        } else {
            None
        },
        None => None,
    }
}

/// The profile the engine is running.
pub open spec fn profile_now(s: Option<SharedView>) -> Seq<char> {
    match s {
        Some(s) => name_of(s.profile),
        None => ""@,
    }
}

/// The line for one manual level, counted from zero.
pub open spec fn level_line(k: int, held: Option<u8>) -> LeafView {
    leaf(
        ID_MANUAL_BASE + k,
        "Level "@ + decimal_nat((k + 1) as nat),
        held == Some((k + 1) as u8),
        Offer::Open,
    )
}

/// The lines for the manual levels.
pub open spec fn level_lines(held: Option<u8>) -> Seq<LeafView> {
    Seq::new(FAN_LEVEL_MAX as nat, |k: int| level_line(k, held))
}

/// Who drives the fan.
pub open spec fn mode_lines(s: Option<SharedView>) -> Seq<EntryView> {
    let mode = mode_now(s);
    seq![
        EntryView::Item(
            ItemView {
                id: ID_MODE_BIOS as int,
                label: "BIOS control"@,
                checked: mode == MODE_BIOS,
                offer: live(s),
            },
        ),
        EntryView::Item(
            ItemView {
                id: ID_MODE_SMART as int,
                label: "Smart"@,
                checked: mode == MODE_SMART,
                offer: live(s),
            },
        ),
        EntryView::Menu {
            label: "Manual"@,
            checked: mode == MODE_MANUAL,
            offer: live(s),
            lines: level_lines(held(s)),
        },
        EntryView::Separator,
    ]
}

/// The heading over the profiles, when there are any.
pub open spec fn profile_heading(names: Seq<Seq<char>>) -> Seq<EntryView> {
    if names.len() > 0 {
        seq![heading("Profile"@)]
    } else {
        Seq::empty()
    }
}

/// The profiles, each with an id of its own.
pub open spec fn profile_lines(names: Seq<Seq<char>>, running: Seq<char>) -> Seq<EntryView> {
    Seq::new(names.len(), |k: int| ticked(ID_PROFILE_BASE + k, names[k], names[k] == running))
}

/// Whether the running profile can be deleted: not when it is the last one,
/// and not when it is one that ships.
pub open spec fn can_delete(names: Seq<Seq<char>>, running: Seq<char>) -> bool {
    names.len() > 1 && !built_in_names().contains(running)
}

/// What can be done with profiles, and the way to the settings window.
pub open spec fn manage_lines(names: Seq<Seq<char>>, running: Seq<char>) -> Seq<EntryView> {
    seq![
        EntryView::Menu {
            label: "Manage profiles"@,
            checked: false,
            offer: Offer::Open,
            lines: seq![
                leaf(ID_PROF_NEW as int, "New..."@, false, Offer::Open),
                leaf(ID_PROF_DUPLICATE as int, "Duplicate..."@, false, Offer::Open),
                leaf(ID_PROF_RENAME as int, "Rename..."@, false, Offer::Open),
                leaf(ID_PROF_IMPORT as int, "Import from TPFanControl..."@, false, Offer::Open),
                leaf(
                    ID_PROF_DELETE as int,
                    "Delete"@,
                    false,
                    if can_delete(names, running) {
                        Offer::Open
                    } else {
                        Offer::Grayed
                    },
                ),
            ],
        },
        EntryView::Separator,
        plain(ID_SETTINGS as int, "Settings and fan curve..."@),
        EntryView::Separator,
    ]
}

/// The warning about another program that drives the fan. Only to be read: it
/// is not ours to close.
pub open spec fn warning_lines(another_tool: bool) -> Seq<EntryView> {
    if another_tool {
        seq![
            heading("TPFanControl is running - close it, they will fight"@),
            EntryView::Separator,
        ]
    } else {
        Seq::empty()
    }
}

/// The way to the driver, always here: it is the one part that cannot be
/// installed for anybody.
pub open spec fn driver_lines(missing: MissingView) -> Seq<EntryView> {
    seq![
        plain(
            ID_PAWNIO as int,
            if missing is Nothing {
                "PawnIO driver..."@
            } else {
                "Yamato needs PawnIO - click to fix"@
            },
        ),
        EntryView::Separator,
    ]
}

/// What can be done with the service. The menu never offers something that
/// would just fail.
pub open spec fn service_lines(service: i32) -> Seq<EntryView> {
    if service == NOT_INSTALLED {
        seq![plain(ID_SVC_INSTALL as int, "Install service"@)]
    } else if service == SERVICE_RUNNING {
        seq![
            plain(ID_SVC_STOP as int, "Stop service"@),
            plain(ID_SVC_UNINSTALL as int, "Uninstall service"@),
        ]
    } else {
        seq![
            plain(ID_SVC_START as int, "Start service"@),
            plain(ID_SVC_UNINSTALL as int, "Uninstall service"@),
        ]
    }
}

/// A sensor's reading, as the block holds it.
pub open spec fn raw_reading(s: Option<SharedView>, k: int) -> i16 {
    match s {
        Some(s) => if k < s.sensors.len() {
            s.sensors[k]
        } else {
            SENSOR_ABSENT
        },
        None => SENSOR_ABSENT,
    }
}

/// What is said of a sensor.
pub open spec fn sensor_label(name: Seq<char>, raw: i16, fahrenheit: bool) -> Seq<char> {
    if raw == SENSOR_ABSENT {
        name + "  --"@
    } else {
        name + "  "@ + decimal(shown_temp(degrees(raw) as int, fahrenheit)) + suffix_of(fahrenheit)
    }
}

/// The line for one sensor. One this machine does not have is grayed, not
/// hidden, so nobody wonders which one is missing.
pub open spec fn sensor_line(
    sensors: Seq<Seq<char>>,
    prefs: Prefs,
    s: Option<SharedView>,
    k: int,
) -> LeafView {
    leaf(
        ID_TRAY_SENSOR_BASE + 1 + k,
        sensor_label(sensors[k], raw_reading(s, k), prefs.fahrenheit),
        prefs.tray_sensor == Some(k as u8),
        if raw_reading(s, k) == SENSOR_ABSENT {
            Offer::Grayed
        } else {
            Offer::Open
        },
    )
}

/// Which reading the icon reports.
pub open spec fn sensor_lines(
    sensors: Seq<Seq<char>>,
    prefs: Prefs,
    s: Option<SharedView>,
) -> Seq<LeafView> {
    seq![
        leaf(ID_TRAY_SENSOR_BASE as int, "Hottest"@, prefs.tray_sensor is None, Offer::Open),
        LeafView::Separator,
    ] + Seq::new(sensors.len(), |k: int| sensor_line(sensors, prefs, s, k))
}

/// How things are shown, the history, and the customary bottom group.
pub open spec fn display_lines(
    sees: MenuSeesView,
    prefs: Prefs,
    s: Option<SharedView>,
) -> Seq<EntryView> {
    seq![
        ticked(ID_UNITS as int, "Fahrenheit"@, prefs.fahrenheit),
        ticked(ID_TRAY_NUMBERS as int, "Temperature in the tray icon"@, prefs.tray_numbers),
        EntryView::Menu {
            label: "Tray shows"@,
            checked: false,
            offer: Offer::Open,
            lines: sensor_lines(sees.sensors, prefs, s),
        },
        ticked(ID_STARTUP as int, "Start with Windows"@, sees.starts_with_windows),
        ticked(ID_LOGGING as int, "Log temperatures"@, prefs.log_enabled),
        plain(ID_LOG_FOLDER as int, "Open log folder"@),
        EntryView::Separator,
        plain(ID_ABOUT as int, "About Yamato..."@),
        plain(ID_EXIT as int, "Exit and stop controlling the fan"@),
    ]
}

/// The whole menu.
pub open spec fn menu_of(tray: TrayView, sees: MenuSeesView, s: Option<SharedView>) -> Seq<
    EntryView,
> {
    mode_lines(s) + profile_heading(tray.profiles) + profile_lines(tray.profiles, profile_now(s))
        + manage_lines(tray.profiles, profile_now(s)) + warning_lines(sees.another_tool)
        + driver_lines(sees.missing) + service_lines(sees.service) + display_lines(
        sees,
        tray.prefs,
        s,
    )
}

/// The engine's block, if there is one, mathematically.
pub open spec fn block(s: Option<&Shared>) -> Option<SharedView> {
    match s {
        Some(s) => Some(s@),
        None => None,
    }
}

fn item(id: usize, label: &str, checked: bool, offer: Offer) -> (r: Entry)
    ensures
        r@ == EntryView::Item(ItemView { id: id as int, label: label@, checked, offer }),
{
    Entry::Item(Item { id, label: label.to_owned(), checked, offer })
}

fn line(id: usize, label: &str, checked: bool, offer: Offer) -> (r: Leaf)
    ensures
        r@ == leaf(id as int, label@, checked, offer),
{
    Leaf::Item(Item { id, label: label.to_owned(), checked, offer })
}

fn build_levels(held_level: Option<u8>) -> (r: Vec<Leaf>)
    ensures
        leaves(r@) == level_lines(held_level),
{
    let mut lines: Vec<Leaf> = Vec::new();
    let mut level: u8 = 1;
    while level <= FAN_LEVEL_MAX
        invariant
            1 <= level <= FAN_LEVEL_MAX + 1,
            lines@.len() == level - 1,
            forall|k: int| 0 <= k < level - 1 ==> (#[trigger] lines@[k])@ == level_line(k, held_level),
        decreases FAN_LEVEL_MAX + 1 - level,
    {
        let mut label = "Level ".to_owned();
        push_u64(&mut label, level as u64);
        let checked = match held_level {
            Some(l) => l == level,
            None => false,
        };
        lines.push(
            Leaf::Item(
                Item {
                    id: ID_MANUAL_BASE + (level as usize) - 1,
                    label,
                    checked,
                    offer: Offer::Open,
                },
            ),
        );
        level = level + 1;
    }
    proof {
        assert(leaves(lines@) =~= level_lines(held_level));
    }
    lines
}

fn build_modes(s: Option<&Shared>) -> (r: Vec<Entry>)
    ensures
        entries(r@) == mode_lines(block(s)),
{
    let (mode, held_level, offer): (u8, Option<u8>, Offer) = match s {
        Some(s) => (
            s.mode,
            if s.mode == MODE_MANUAL && s.fan_ctrl <= FAN_LEVEL_MAX {
                Some(s.fan_ctrl)
            } else {
                None
            },
            Offer::Open,
        ),
        None => (MODE_BIOS, None, Offer::Grayed),
    };
    let mut r: Vec<Entry> = Vec::new();
    r.push(item(ID_MODE_BIOS, "BIOS control", mode == MODE_BIOS, offer));
    r.push(item(ID_MODE_SMART, "Smart", mode == MODE_SMART, offer));
    r.push(
        Entry::Menu {
            label: "Manual",
            checked: mode == MODE_MANUAL,
            offer,
            lines: build_levels(held_level),
        },
    );
    r.push(Entry::Separator);
    proof {
        assert(entries(r@) =~= mode_lines(block(s)));
    }
    r
}

fn build_profiles(names: &Vec<String>, running: &str) -> (r: Vec<Entry>)
    requires
        ID_PROFILE_BASE + names@.len() <= usize::MAX,
    ensures
        entries(r@) == profile_heading(texts(names@)) + profile_lines(texts(names@), running@),
{
    let ghost all = texts(names@);
    let mut r: Vec<Entry> = Vec::new();
    if names.len() > 0 {
        r.push(item(0, "Profile", false, Offer::Label));
    }
    let ghost first = r@;
    proof {
        assert(entries(first) =~= profile_heading(all));
    }
    let mut i: usize = 0;
    while i < names.len()
        invariant
            i <= names@.len(),
            ID_PROFILE_BASE + names@.len() <= usize::MAX,
            all == texts(names@),
            r@.len() == first.len() + i,
            forall|k: int| 0 <= k < first.len() ==> (#[trigger] r@[k]) == first[k],
            forall|k: int|
                first.len() <= k < r@.len() ==> (#[trigger] r@[k])@ == ticked(
                    ID_PROFILE_BASE + (k - first.len()),
                    all[k - first.len()],
                    all[k - first.len()] == running@,
                ),
        decreases names@.len() - i,
    {
        proof {
            assert(all[i as int] == names@[i as int]@);
        }
        let checked = same(names[i].as_str(), running);
        r.push(item(ID_PROFILE_BASE + i, names[i].as_str(), checked, Offer::Open));
        i += 1;
    }
    proof {
        assert(entries(r@) =~= profile_heading(all) + profile_lines(all, running@));
    }
    r
}

fn build_manage(names: &Vec<String>, running: &str) -> (r: Vec<Entry>)
    ensures
        entries(r@) == manage_lines(texts(names@), running@),
{
    let delete = if names.len() > 1 && !is_built_in(running) {
        Offer::Open
    } else {
        Offer::Grayed
    };
    let mut lines: Vec<Leaf> = Vec::new();
    lines.push(line(ID_PROF_NEW, "New...", false, Offer::Open));
    lines.push(line(ID_PROF_DUPLICATE, "Duplicate...", false, Offer::Open));
    lines.push(line(ID_PROF_RENAME, "Rename...", false, Offer::Open));
    lines.push(line(ID_PROF_IMPORT, "Import from TPFanControl...", false, Offer::Open));
    lines.push(line(ID_PROF_DELETE, "Delete", false, delete));
    let ghost shown = lines@;
    let mut r: Vec<Entry> = Vec::new();
    r.push(Entry::Menu { label: "Manage profiles", checked: false, offer: Offer::Open, lines });
    r.push(Entry::Separator);
    r.push(item(ID_SETTINGS, "Settings and fan curve...", false, Offer::Open));
    r.push(Entry::Separator);
    proof {
        let spec_lines = manage_lines(texts(names@), running@)[0]->lines;
        assert(leaves(shown) =~= spec_lines);
        assert(entries(r@) =~= manage_lines(texts(names@), running@));
    }
    r
}

fn build_service(sees: &MenuSees) -> (r: Vec<Entry>)
    ensures
        entries(r@) == warning_lines(sees@.another_tool) + driver_lines(sees@.missing)
            + service_lines(sees@.service),
{
    let mut r: Vec<Entry> = Vec::new();
    if sees.another_tool {
        r.push(
            item(
                0,
                "TPFanControl is running - close it, they will fight",
                false,
                Offer::Label,
            ),
        );
        r.push(Entry::Separator);
    }
    let label = match sees.missing {
        Missing::Nothing => "PawnIO driver...",
        _ => "Yamato needs PawnIO - click to fix",
    };
    r.push(item(ID_PAWNIO, label, false, Offer::Open));
    r.push(Entry::Separator);
    if sees.service == NOT_INSTALLED {
        r.push(item(ID_SVC_INSTALL, "Install service", false, Offer::Open));
    } else {
        if sees.service == SERVICE_RUNNING {
            r.push(item(ID_SVC_STOP, "Stop service", false, Offer::Open));
        } else {
            r.push(item(ID_SVC_START, "Start service", false, Offer::Open));
        }
        r.push(item(ID_SVC_UNINSTALL, "Uninstall service", false, Offer::Open));
    }
    proof {
        assert(entries(r@) =~= warning_lines(sees@.another_tool) + driver_lines(sees@.missing)
            + service_lines(sees@.service));
    }
    r
}

fn sensor_text(name: &str, raw: i16, fahrenheit: bool) -> (r: String)
    ensures
        r@ == sensor_label(name@, raw, fahrenheit),
{
    let mut label = name.to_owned();
    if raw == SENSOR_ABSENT {
        label.append("  --");
    } else {
        label.append("  ");
        push_i32(
            &mut label,
            display_temp(
                #[verifier::truncate]
                (raw as i8),
                fahrenheit,
            ),
        );
        label.append(unit_suffix(fahrenheit));
    }
    label
}

fn build_sensors(sensors: &Vec<String>, prefs: &Prefs, s: Option<&Shared>) -> (r: Vec<Leaf>)
    requires
        sensors@.len() <= SENSOR_COUNT,
    ensures
        leaves(r@) == sensor_lines(texts(sensors@), *prefs, block(s)),
{
    let ghost all = texts(sensors@);
    let mut r: Vec<Leaf> = Vec::new();
    r.push(line(ID_TRAY_SENSOR_BASE, "Hottest", prefs.tray_sensor.is_none(), Offer::Open));
    r.push(Leaf::Separator);
    let ghost first = r@;
    let mut i: usize = 0;
    while i < sensors.len()
        invariant
            i <= sensors@.len() <= SENSOR_COUNT,
            all == texts(sensors@),
            first.len() == 2,
            r@.len() == 2 + i,
            r@[0] == first[0],
            r@[1] == first[1],
            forall|k: int|
                2 <= k < r@.len() ==> (#[trigger] r@[k])@ == sensor_line(
                    all,
                    *prefs,
                    block(s),
                    k - 2,
                ),
        decreases sensors@.len() - i,
    {
        proof {
            assert(all[i as int] == sensors@[i as int]@);
        }
        let raw: i16 = match s {
            Some(s) => s.sensors[i],
            None => SENSOR_ABSENT,
        };
        let checked = match prefs.tray_sensor {
            Some(chosen) => chosen as usize == i,
            None => false,
        };
        let offer = if raw == SENSOR_ABSENT {
            Offer::Grayed
        } else {
            Offer::Open
        };
        r.push(
            Leaf::Item(
                Item {
                    id: ID_TRAY_SENSOR_BASE + 1 + i,
                    label: sensor_text(sensors[i].as_str(), raw, prefs.fahrenheit),
                    checked,
                    offer,
                },
            ),
        );
        i += 1;
    }
    proof {
        assert(leaves(r@) =~= sensor_lines(all, *prefs, block(s)));
    }
    r
}

fn build_display(sees: &MenuSees, prefs: &Prefs, s: Option<&Shared>) -> (r: Vec<Entry>)
    requires
        sees@.sensors.len() <= SENSOR_COUNT,
    ensures
        entries(r@) == display_lines(sees@, *prefs, block(s)),
{
    let mut r: Vec<Entry> = Vec::new();
    r.push(item(ID_UNITS, "Fahrenheit", prefs.fahrenheit, Offer::Open));
    r.push(item(ID_TRAY_NUMBERS, "Temperature in the tray icon", prefs.tray_numbers, Offer::Open));
    r.push(
        Entry::Menu {
            label: "Tray shows",
            checked: false,
            offer: Offer::Open,
            lines: build_sensors(sees.sensors, prefs, s),
        },
    );
    r.push(item(ID_STARTUP, "Start with Windows", sees.starts_with_windows, Offer::Open));
    r.push(item(ID_LOGGING, "Log temperatures", prefs.log_enabled, Offer::Open));
    r.push(item(ID_LOG_FOLDER, "Open log folder", false, Offer::Open));
    r.push(Entry::Separator);
    r.push(item(ID_ABOUT, "About Yamato...", false, Offer::Open));
    r.push(item(ID_EXIT, "Exit and stop controlling the fan", false, Offer::Open));
    proof {
        assert(entries(r@) =~= display_lines(sees@, *prefs, block(s)));
    }
    r
}

fn add_lines(menu: &mut Vec<Entry>, lines: Vec<Entry>)
    ensures
        entries(final(menu)@) == entries(old(menu)@) + entries(lines@),
{
    let mut lines = lines;
    let ghost all = lines@;
    menu.append(&mut lines);
    proof {
        assert(entries(menu@) =~= entries(old(menu)@) + entries(all));
    }
}

/// The whole menu.
pub fn track_menu(tray: &Tray, sees: &MenuSees, s: Option<&Shared>) -> (r: Vec<Entry>)
    requires
        ID_PROFILE_BASE + tray@.profiles.len() <= usize::MAX,
        sees@.sensors.len() <= SENSOR_COUNT,
    ensures
        entries(r@) == menu_of(tray@, sees@, block(s)),
{
    let running = match s {
        Some(s) => s.read_profile(),
        None => "".to_owned(),
    };
    let mut menu = build_modes(s);
    add_lines(&mut menu, build_profiles(&tray.profiles, running.as_str()));
    add_lines(&mut menu, build_manage(&tray.profiles, running.as_str()));
    add_lines(&mut menu, build_service(sees));
    add_lines(&mut menu, build_display(sees, &tray.prefs, s));
    proof {
        assert(entries(menu@) =~= menu_of(tray@, sees@, block(s)));
    }
    menu
}

/// Something asked of the service.
#[derive(Debug, Clone, Copy, PartialEq, Eq, Structural)]
pub enum Verb {
    Install,
    Uninstall,
    Start,
    Stop,
}

impl Verb {
    /// The argument that asks an elevated copy for it.
    pub open spec fn words(self) -> Seq<char> {
        match self {
            Verb::Install => "--install"@,
            Verb::Uninstall => "--uninstall"@,
            Verb::Start => "--start-service"@,
            Verb::Stop => "--stop-service"@,
        }
    }

    /// The argument that asks an elevated copy for it.
    pub fn argument(self) -> (r: &'static str)
        ensures
            r@ == self.words(),
    {
        match self {
            Verb::Install => "--install",
            Verb::Uninstall => "--uninstall",
            Verb::Start => "--start-service",
            Verb::Stop => "--stop-service",
        }
    }
}

/// What a choice asks for.
#[derive(Debug)]
pub enum Action {
    /// Nothing.
    Nothing,
    /// Ask the engine for a mode and a level.
    Post { mode: u8, level: u8 },
    OpenSettings,
    OfferPawnio,
    /// Ask something of the service, say this if it fails, and then let go of
    /// the engine's block if told to.
    Service { verb: Verb, failure: &'static str, let_go: bool },
    Change(Setting),
    OpenLogFolder,
    ShowAbout,
    ToggleStartup,
    /// Save what is being edited, stop the service if it is running, saying
    /// this if that fails, and quit.
    Exit { failure: &'static str },
    Manage(ProfileAction),
    Import,
    SwitchProfile(String),
}

/// What a choice asks for, mathematically.
pub ghost enum ActionView {
    Nothing,
    Post { mode: u8, level: u8 },
    OpenSettings,
    OfferPawnio,
    Service { verb: Verb, failure: Seq<char>, let_go: bool },
    Change(Setting),
    OpenLogFolder,
    ShowAbout,
    ToggleStartup,
    Exit { failure: Seq<char> },
    Manage(ProfileAction),
    Import,
    SwitchProfile(Seq<char>),
}

impl View for Action {
    type V = ActionView;

    open spec fn view(&self) -> ActionView {
        match self {
            Action::Nothing => ActionView::Nothing,
            Action::Post { mode, level } => ActionView::Post { mode: *mode, level: *level },
            Action::OpenSettings => ActionView::OpenSettings,
            Action::OfferPawnio => ActionView::OfferPawnio,
            Action::Service { verb, failure, let_go } => ActionView::Service {
                verb: *verb,
                failure: failure@,
                let_go: *let_go,
            },
            Action::Change(setting) => ActionView::Change(*setting),
            Action::OpenLogFolder => ActionView::OpenLogFolder,
            Action::ShowAbout => ActionView::ShowAbout,
            Action::ToggleStartup => ActionView::ToggleStartup,
            Action::Exit { failure } => ActionView::Exit { failure: failure@ },
            Action::Manage(action) => ActionView::Manage(*action),
            Action::Import => ActionView::Import,
            Action::SwitchProfile(name) => ActionView::SwitchProfile(name@),
        }
    }
}

/// What a fixed id asks for, if it is one.
pub open spec fn fixed_action(id: int) -> Option<ActionView> {
    if id == ID_MODE_BIOS {
        Some(ActionView::Post { mode: MODE_BIOS, level: 0 })
    } else if id == ID_MODE_SMART {
        Some(ActionView::Post { mode: MODE_SMART, level: 0 })
    } else if id == ID_SETTINGS {
        Some(ActionView::OpenSettings)
    } else if id == ID_PAWNIO {
        Some(ActionView::OfferPawnio)
    } else if id == ID_SVC_INSTALL {
        Some(
            ActionView::Service {
                verb: Verb::Install,
                failure: "Yamato could not install the service."@,
                let_go: false,
            },
        )
    } else if id == ID_SVC_UNINSTALL {
        Some(
            ActionView::Service {
                verb: Verb::Uninstall,
                failure:
                    "Yamato could not remove the service. It may still be controlling the fan."@,
                let_go: true,
            },
        )
    } else if id == ID_SVC_START {
        Some(
            ActionView::Service {
                verb: Verb::Start,
                failure: "Yamato could not start the service."@,
                let_go: true,
            },
        )
    } else if id == ID_SVC_STOP {
        Some(
            ActionView::Service {
                verb: Verb::Stop,
                failure:
                    "Yamato could not stop the service. The fan may still be under its control."@,
                let_go: true,
            },
        )
    } else if id == ID_UNITS {
        Some(ActionView::Change(Setting::Units))
    } else if id == ID_TRAY_NUMBERS {
        Some(ActionView::Change(Setting::Numbers))
    } else if id == ID_LOGGING {
        Some(ActionView::Change(Setting::Logging))
    } else if id == ID_LOG_FOLDER {
        Some(ActionView::OpenLogFolder)
    } else if id == ID_ABOUT {
        Some(ActionView::ShowAbout)
    } else if id == ID_STARTUP {
        Some(ActionView::ToggleStartup)
    } else if id == ID_EXIT {
        Some(
            ActionView::Exit {
                failure:
                    "Yamato could not stop the service, so it is still controlling the fan."@,
            },
        )
    } else if id == ID_PROF_NEW {
        Some(ActionView::Manage(ProfileAction::New))
    } else if id == ID_PROF_DUPLICATE {
        Some(ActionView::Manage(ProfileAction::Duplicate))
    } else if id == ID_PROF_RENAME {
        Some(ActionView::Manage(ProfileAction::Rename))
    } else if id == ID_PROF_DELETE {
        Some(ActionView::Manage(ProfileAction::Delete))
    } else if id == ID_PROF_IMPORT {
        Some(ActionView::Import)
    } else {
        None
    }
}

/// What an id asks for, given the names the menu was built from. The manual
/// levels are closed at both ends: level 0 stops the fan with the firmware
/// switched off, and the disengage byte is not offered at all.
pub open spec fn chosen(names: Seq<Seq<char>>, id: int) -> ActionView {
    match fixed_action(id) {
        Some(action) => action,
        None => if ID_TRAY_SENSOR_BASE <= id <= ID_TRAY_SENSOR_BASE + SENSOR_COUNT {
            ActionView::Change(
                Setting::Sensor(
                    if id == ID_TRAY_SENSOR_BASE {
                        None
                    } else {
                        Some((id - ID_TRAY_SENSOR_BASE - 1) as u8)
                    },
                ),
            )
        } else if ID_MANUAL_BASE <= id < ID_MANUAL_BASE + FAN_LEVEL_MAX {
            ActionView::Post { mode: MODE_MANUAL, level: (id - ID_MANUAL_BASE + 1) as u8 }
        } else if id >= ID_PROFILE_BASE && id - ID_PROFILE_BASE < names.len() {
            ActionView::SwitchProfile(names[id - ID_PROFILE_BASE])
        } else {
            ActionView::Nothing
        },
    }
}

fn fixed(id: usize) -> (r: Option<Action>)
    ensures
        match fixed_action(id as int) {
            Some(action) => r matches Some(a) && a@ == action,
            None => r is None,
        },
{
    if id == ID_MODE_BIOS {
        Some(Action::Post { mode: MODE_BIOS, level: 0 })
    } else if id == ID_MODE_SMART {
        Some(Action::Post { mode: MODE_SMART, level: 0 })
    } else if id == ID_SETTINGS {
        Some(Action::OpenSettings)
    } else if id == ID_PAWNIO {
        Some(Action::OfferPawnio)
    } else if id == ID_SVC_INSTALL {
        Some(
            Action::Service {
                verb: Verb::Install,
                failure: "Yamato could not install the service.",
                let_go: false,
            },
        )
    } else if id == ID_SVC_UNINSTALL {
        Some(
            Action::Service {
                verb: Verb::Uninstall,
                failure: "Yamato could not remove the service. It may still be controlling the fan.",
                let_go: true,
            },
        )
    } else if id == ID_SVC_START {
        Some(
            Action::Service {
                verb: Verb::Start,
                failure: "Yamato could not start the service.",
                let_go: true,
            },
        )
    } else if id == ID_SVC_STOP {
        Some(
            Action::Service {
                verb: Verb::Stop,
                failure: "Yamato could not stop the service. The fan may still be under its control.",
                let_go: true,
            },
        )
    } else if id == ID_UNITS {
        Some(Action::Change(Setting::Units))
    } else if id == ID_TRAY_NUMBERS {
        Some(Action::Change(Setting::Numbers))
    } else if id == ID_LOGGING {
        Some(Action::Change(Setting::Logging))
    } else if id == ID_LOG_FOLDER {
        Some(Action::OpenLogFolder)
    } else if id == ID_ABOUT {
        Some(Action::ShowAbout)
    } else if id == ID_STARTUP {
        Some(Action::ToggleStartup)
    } else if id == ID_EXIT {
        Some(
            Action::Exit {
                failure: "Yamato could not stop the service, so it is still controlling the fan.",
            },
        )
    } else if id == ID_PROF_NEW {
        Some(Action::Manage(ProfileAction::New))
    } else if id == ID_PROF_DUPLICATE {
        Some(Action::Manage(ProfileAction::Duplicate))
    } else if id == ID_PROF_RENAME {
        Some(Action::Manage(ProfileAction::Rename))
    } else if id == ID_PROF_DELETE {
        Some(Action::Manage(ProfileAction::Delete))
    } else if id == ID_PROF_IMPORT {
        Some(Action::Import)
    } else {
        None
    }
}

/// What a choice asks for. Stopping the service also forgets what is drawn,
/// so the icon is not left showing a temperature that never changes again.
pub fn on_command(tray: &mut Tray, id: usize) -> (r: Action)
    ensures
        r@ == chosen(old(tray)@.profiles, id as int),
        final(tray)@ == if id == ID_SVC_STOP {
            TrayView { drawn: None, ..old(tray)@ }
        } else {
            old(tray)@
        },
{
    match fixed(id) {
        Some(action) => {
            if id == ID_SVC_STOP {
                tray.drawn = None;
            }
            action
        },
        None => if ID_TRAY_SENSOR_BASE <= id && id <= ID_TRAY_SENSOR_BASE + SENSOR_COUNT {
            let choice: Option<u8> = if id == ID_TRAY_SENSOR_BASE {
                None
            } else {
                Some((id - ID_TRAY_SENSOR_BASE - 1) as u8)
            };
            Action::Change(Setting::Sensor(choice))
        } else if ID_MANUAL_BASE <= id && id < ID_MANUAL_BASE + FAN_LEVEL_MAX as usize {
            Action::Post { mode: MODE_MANUAL, level: (id - ID_MANUAL_BASE + 1) as u8 }
        } else if id >= ID_PROFILE_BASE && id - ID_PROFILE_BASE < tray.profiles.len() {
            let k: usize = id - ID_PROFILE_BASE;
            proof {
                assert(texts(tray.profiles@)[k as int] == tray.profiles@[k as int]@);
            }
            Action::SwitchProfile(tray.profiles[k].clone())
        } else {
            Action::Nothing
        },
    }
}

/// What is posted to the engine's block when a mode is asked for: the mode and
/// the level, and the profile it is already running.
pub fn post(block: &mut Shared, mode: u8, level: u8) -> (r: u32)
    ensures
        final(block)@ == old(block)@.posted(mode, level, name_of(old(block)@.profile)),
        r == final(block)@.cmd_seq,
{
    let profile = block.read_profile();
    block.post_command(mode, level, profile.as_str())
}

/// What is posted to the engine's block when a profile is chosen. Not the mode
/// the engine last published: echoing manual would count as a fresh manual
/// instruction and clear the escape, and echoing firmware control would cancel
/// a pending recovery.
pub fn announce(block: &mut Shared, profile: &str) -> (r: u32)
    ensures
        final(block)@ == old(block)@.posted(MODE_KEEP, 0, profile@),
        r == final(block)@.cmd_seq,
{
    block.post_command(MODE_KEEP, 0, profile)
}

/// What asking something of the service comes to next.
#[derive(Debug, Clone, Copy, PartialEq, Eq, Structural)]
pub enum ServiceStep {
    /// Try it here and now.
    Directly,
    /// Relaunch elevated to do it.
    Elevated,
    /// It failed, and somebody has to be told.
    Say,
    /// It worked.
    Done,
}

/// What asking something of the service comes to next, given how trying it
/// directly and trying it elevated went, where they were tried. Starting and
/// stopping need no consent prompt, because installing granted people at the
/// machine the right to them.
pub open spec fn serving(verb: Verb, direct: Option<bool>, elevated: Option<bool>) -> ServiceStep {
    if (verb == Verb::Start || verb == Verb::Stop) && direct is None {
        ServiceStep::Directly
    } else if (verb == Verb::Start || verb == Verb::Stop) && direct == Some(true) {
        ServiceStep::Done
    } else {
        match elevated {
            None => ServiceStep::Elevated,
            Some(true) => ServiceStep::Done,
            Some(false) => ServiceStep::Say,
        }
    }
}

/// What asking something of the service comes to next.
pub fn service_command(verb: Verb, direct: Option<bool>, elevated: Option<bool>) -> (r: ServiceStep)
    ensures
        r == serving(verb, direct, elevated),
{
    match verb {
        Verb::Start | Verb::Stop => match direct {
            None => {
                return ServiceStep::Directly;
            },
            Some(true) => {
                return ServiceStep::Done;
            },
            Some(false) => {},
        },
        _ => {},
    }
    match elevated {
        None => ServiceStep::Elevated,
        Some(true) => ServiceStep::Done,
        Some(false) => ServiceStep::Say,
    }
}

/// What leaving comes to next.
#[derive(Debug, Clone, Copy, PartialEq, Eq, Structural)]
pub enum LeaveStep {
    /// Save what is being edited.
    Save,
    /// Find out what the service is doing.
    Look,
    /// Stop the service.
    Stop,
    /// End the program.
    Quit,
}

/// What leaving comes to next: what is being edited is saved first, a service
/// that is running is asked to stop, and the program ends whatever that came
/// to.
pub fn leave(saved: bool, state: Option<i32>, asked: bool) -> (r: LeaveStep)
    ensures
        r == (if !saved {
            LeaveStep::Save
        } else {
            match state {
                None => LeaveStep::Look,
                Some(state) => if state == SERVICE_RUNNING && !asked {
                    LeaveStep::Stop
                } else {
                    LeaveStep::Quit
                },
            }
        }),
{
    if !saved {
        return LeaveStep::Save;
    }
    match state {
        None => LeaveStep::Look,
        Some(state) => if state == SERVICE_RUNNING && !asked {
            LeaveStep::Stop
        } else {
            LeaveStep::Quit
        },
    }
}

/// What starting the service at launch comes to next.
#[derive(Debug, Clone, Copy, PartialEq, Eq, Structural)]
pub enum LaunchStep {
    Directly,
    Elevated,
    /// Whether an attempt was made.
    Tried(bool),
}

/// What starting the service at launch comes to next: nothing when it is not
/// installed or already running, and otherwise directly first and elevated
/// only if that is refused.
pub fn start_service_if_stopped(
    state: i32,
    direct: Option<bool>,
    elevated: Option<bool>,
) -> (r: LaunchStep)
    ensures
        r == (if state == NOT_INSTALLED || state == SERVICE_RUNNING {
            LaunchStep::Tried(false)
        } else {
            match direct {
                None => LaunchStep::Directly,
                Some(true) => LaunchStep::Tried(true),
                Some(false) => match elevated {
                    None => LaunchStep::Elevated,
                    Some(worked) => LaunchStep::Tried(worked),
                },
            }
        }),
{
    if state == NOT_INSTALLED || state == SERVICE_RUNNING {
        return LaunchStep::Tried(false);
    }
    match direct {
        None => LaunchStep::Directly,
        Some(true) => LaunchStep::Tried(true),
        Some(false) => match elevated {
            None => LaunchStep::Elevated,
            Some(worked) => LaunchStep::Tried(worked),
        },
    }
}

/// Whether an elevated copy ran and reported success. Without a handle there
/// is nothing to wait on and nothing to ask, and inventing a failure from that
/// would put an error box in front of something that very likely worked.
pub fn run_elevated(launched: bool, has_handle: bool, exit_code: Option<u32>) -> (r: bool)
    ensures
        r == (launched && (!has_handle || exit_code == Some(0u32))),
{
    if !launched {
        return false;
    }
    if !has_handle {
        return true;
    }
    match exit_code {
        Some(code) => code == 0,
        None => false,
    }
}

/// What offering the driver comes to: a missing module has nowhere useful to
/// send anyone, so it is only said; anything else is asked about, and a yes
/// opens the page.
#[derive(Debug)]
pub enum DriverStep {
    Say(String),
    AskWhetherToOpen(String),
}

/// What offering the driver comes to.
pub fn offer_pawnio(missing: &Missing) -> (r: DriverStep)
    ensures
        match missing@ {
            MissingView::Module(_) => r matches DriverStep::Say(words) && words@
                == missing@.words(),
            _ => r matches DriverStep::AskWhetherToOpen(words) && words@ == missing@.words(),
        },
{
    match missing {
        Missing::Module(_) => DriverStep::Say(missing.explain()),
        _ => DriverStep::AskWhetherToOpen(missing.explain()),
    }
}

/// The profile a change is made to: whichever is live, so the tray and the
/// engine cannot disagree about what is being renamed or deleted.
pub fn live_profile(s: Option<&Shared>, configured: &str) -> (r: String)
    ensures
        r@ == match block(s) {
            Some(s) => name_of(s.profile),
            None => configured@,
        },
{
    match s {
        Some(s) => s.read_profile(),
        None => configured.to_owned(),
    }
}

/// Every fixed id, and the two ranges of ids, lie below those of the profiles,
/// and no id means two things: adding an item cannot silently start selecting
/// a profile, a level or a sensor.
pub proof fn no_id_means_two_things(id: int)
    ensures
        fixed_action(id) is Some ==> {
            &&& id < ID_PROFILE_BASE
            &&& !(ID_TRAY_SENSOR_BASE <= id <= ID_TRAY_SENSOR_BASE + SENSOR_COUNT)
            &&& !(ID_MANUAL_BASE <= id < ID_MANUAL_BASE + FAN_LEVEL_MAX)
        },
        ID_MANUAL_BASE + FAN_LEVEL_MAX <= ID_TRAY_SENSOR_BASE,
        ID_TRAY_SENSOR_BASE + SENSOR_COUNT < ID_PROFILE_BASE,
{
}

/// No id asks the engine for anything but firmware control, the curve, or a
/// level from 1 to 7: the fan cannot be stopped or disengaged from the menu.
pub proof fn the_menu_cannot_stop_the_fan(names: Seq<Seq<char>>, id: int)
    ensures
        chosen(names, id) matches ActionView::Post { mode, level } ==> {
            ||| mode == MODE_BIOS && level == 0
            ||| mode == MODE_SMART && level == 0
            ||| mode == MODE_MANUAL && 1 <= level <= FAN_LEVEL_MAX
        },
{
}

/// Choosing a line of the menu does what the line says: a profile's line
/// switches to that profile, a level's line asks for that level, and a
/// sensor's line reports that sensor.
pub proof fn a_line_does_what_it_says(names: Seq<Seq<char>>, held: Option<u8>, k: int)
    ensures
        0 <= k < names.len() ==> chosen(names, ID_PROFILE_BASE + k) == ActionView::SwitchProfile(
            names[k],
        ),
        0 <= k < FAN_LEVEL_MAX ==> chosen(names, level_line(k, held)->Item_0.id)
            == (ActionView::Post { mode: MODE_MANUAL, level: (k + 1) as u8 }),
        0 <= k < SENSOR_COUNT ==> chosen(names, ID_TRAY_SENSOR_BASE + 1 + k) == ActionView::Change(
            Setting::Sensor(Some(k as u8)),
        ),
        chosen(names, ID_TRAY_SENSOR_BASE as int) == ActionView::Change(Setting::Sensor(None)),
{
}

/// At most one level is ticked, and only while one is being held.
pub proof fn the_level_in_force_is_the_one_ticked(s: Option<SharedView>, k: int)
    requires
        0 <= k < FAN_LEVEL_MAX,
    ensures
        level_lines(held(s))[k]->Item_0.checked <==> (s matches Some(b) && b.mode == MODE_MANUAL
            && b.fan_ctrl == k + 1),
{
}

/// Nothing is said to have failed until it has been tried every way it can be.
pub proof fn nothing_fails_untried(verb: Verb, direct: Option<bool>, elevated: Option<bool>)
    ensures
        serving(verb, direct, elevated) == ServiceStep::Say ==> elevated == Some(false),
        serving(verb, direct, elevated) == ServiceStep::Done ==> direct == Some(true) || elevated
            == Some(true),
{
}

/// Whether a line that can be chosen is what its number stands for: it says
/// what choosing it does, is ticked exactly while that is so, and is grayed
/// exactly where it would do nothing.
pub open spec fn is_as_it_says(
    tray: TrayView,
    sees: MenuSeesView,
    s: Option<SharedView>,
    item: ItemView,
) -> bool {
    let does = chosen(tray.profiles, item.id);
    let open = item.offer == Offer::Open;
    &&& item.id == 100 ==> {
        &&& item.label == "BIOS control"@ && does == (ActionView::Post { mode: 0, level: 0 })
        &&& item.checked == (s is None || s->0.mode == 0)
        &&& item.offer == (if s is Some {
            Offer::Open
        } else {
            Offer::Grayed
        })
    }
    &&& item.id == 101 ==> {
        &&& item.label == "Smart"@ && does == (ActionView::Post { mode: 1, level: 0 })
        &&& item.checked == (s is Some && s->0.mode == 1)
        &&& item.offer == (if s is Some {
            Offer::Open
        } else {
            Offer::Grayed
        })
    }
    &&& item.id == 200 ==> item.label == "Settings and fan curve..."@ && does
        == ActionView::OpenSettings && open
    &&& item.id == 300 ==> {
        &&& item.label == "Install service"@ && open && sees.service == NOT_INSTALLED
        &&& does matches ActionView::Service { verb, .. } && verb == Verb::Install
    }
    &&& item.id == 301 ==> {
        &&& item.label == "Uninstall service"@ && open && sees.service != NOT_INSTALLED
        &&& does matches ActionView::Service { verb, .. } && verb == Verb::Uninstall
    }
    &&& item.id == 302 ==> {
        &&& item.label == "Start service"@ && open
        &&& sees.service != NOT_INSTALLED && sees.service != SERVICE_RUNNING
        &&& does matches ActionView::Service { verb, .. } && verb == Verb::Start
    }
    &&& item.id == 303 ==> {
        &&& item.label == "Stop service"@ && open && sees.service == SERVICE_RUNNING
        &&& does matches ActionView::Service { verb, .. } && verb == Verb::Stop
    }
    &&& item.id == 304 ==> does == ActionView::OfferPawnio && open
    &&& item.id == 400 ==> item.label == "Start with Windows"@ && does == ActionView::ToggleStartup
        && item.checked == sees.starts_with_windows && open
    &&& item.id == 401 ==> item.label == "Fahrenheit"@ && does == ActionView::Change(Setting::Units)
        && item.checked == tray.prefs.fahrenheit && open
    &&& item.id == 402 ==> item.label == "Log temperatures"@ && does == ActionView::Change(
        Setting::Logging,
    ) && item.checked == tray.prefs.log_enabled && open
    &&& item.id == 403 ==> item.label == "Open log folder"@ && does == ActionView::OpenLogFolder
        && open
    &&& item.id == 404 ==> item.label == "Temperature in the tray icon"@ && does
        == ActionView::Change(Setting::Numbers) && item.checked == tray.prefs.tray_numbers && open
    &&& item.id == 405 ==> item.label == "About Yamato..."@ && does == ActionView::ShowAbout && open
    &&& item.id == 900 ==> {
        &&& item.label == "Exit and stop controlling the fan"@ && does is Exit && open
    }
    &&& item.id >= 1000 ==> {
        &&& does == ActionView::SwitchProfile(item.label) && open
        &&& item.checked == (item.label == profile_now(s))
    }
}

/// Whether a line of a menu that opens out of another is what its number
/// stands for.
pub open spec fn leaf_is_as_it_says(
    tray: TrayView,
    sees: MenuSeesView,
    s: Option<SharedView>,
    item: ItemView,
) -> bool {
    let does = chosen(tray.profiles, item.id);
    let open = item.offer == Offer::Open;
    &&& item.id == 500 ==> item.label == "New..."@ && does == ActionView::Manage(ProfileAction::New)
        && open
    &&& item.id == 501 ==> item.label == "Rename..."@ && does == ActionView::Manage(
        ProfileAction::Rename,
    ) && open
    &&& item.id == 502 ==> item.label == "Duplicate..."@ && does == ActionView::Manage(
        ProfileAction::Duplicate,
    ) && open
    &&& item.id == 503 ==> {
        &&& item.label == "Delete"@ && does == ActionView::Manage(ProfileAction::Delete)
        &&& item.offer == (if tray.profiles.len() > 1 && profile_now(s) != "Quiet"@ && profile_now(
            s,
        ) != "Balanced"@ && profile_now(s) != "Performance"@ {
            Offer::Open
        } else {
            Offer::Grayed
        })
    }
    &&& item.id == 504 ==> item.label == "Import from TPFanControl..."@ && does
        == ActionView::Import && open
    &&& 600 <= item.id < 607 ==> {
        &&& item.label == "Level "@ + decimal_nat((item.id - 599) as nat)
        &&& does == (ActionView::Post { mode: 2, level: (item.id - 599) as u8 })
        &&& item.checked == (s is Some && s->0.mode == 2 && s->0.fan_ctrl == item.id - 599)
        &&& open
    }
    &&& item.id == 700 ==> item.label == "Hottest"@ && does == ActionView::Change(
        Setting::Sensor(None),
    ) && item.checked == (tray.prefs.tray_sensor is None) && open
    &&& 700 < item.id <= 712 ==> {
        let k = item.id - 701;
        let reads = s is Some && k < s->0.sensors.len() && s->0.sensors[k] != -32768;
        &&& does == ActionView::Change(Setting::Sensor(Some(k as u8)))
        &&& item.checked == (tray.prefs.tray_sensor == Some(k as u8))
        &&& open == reads
        &&& crate::text::begins(item.label, sees.sensors[k])
    }
}

proof fn a_label_begins_with_the_name(name: Seq<char>, raw: i16, fahrenheit: bool)
    ensures
        crate::text::begins(sensor_label(name, raw, fahrenheit), name),
{
    assert(sensor_label(name, raw, fahrenheit).take(name.len() as int) =~= name);
}

proof fn the_built_ins_by_name(name: Seq<char>)
    ensures
        built_in_names().contains(name) <==> name == "Quiet"@ || name == "Balanced"@ || name
            == "Performance"@,
{
    let names = built_in_names();
    assert(names.len() == 3);
    assert(names[0] == "Quiet"@ && names[1] == "Balanced"@ && names[2] == "Performance"@);
    if names.contains(name) {
        let k = choose|k: int| 0 <= k < names.len() && names[k] == name;
        assert(k == 0 || k == 1 || k == 2);
    }
}

/// Whether one line of the menu, and each line of a menu that opens out of it,
/// is what its number stands for.
pub open spec fn entry_is_as_it_says(
    tray: TrayView,
    sees: MenuSeesView,
    s: Option<SharedView>,
    e: EntryView,
) -> bool {
    match e {
        EntryView::Item(item) => item.offer == Offer::Label || is_as_it_says(tray, sees, s, item),
        EntryView::Separator => true,
        EntryView::Menu { lines, .. } => forall|k: int|
            0 <= k < lines.len() ==> (#[trigger] lines[k] matches LeafView::Item(item)
                ==> leaf_is_as_it_says(tray, sees, s, item)),
    }
}

/// Every line of the menu, and of the menus that open out of it, says what
/// choosing it does.
pub proof fn every_line_is_as_it_says(
    tray: TrayView,
    sees: MenuSeesView,
    s: Option<SharedView>,
    i: int,
)
    requires
        sees.sensors.len() == 12,
        0 <= i < menu_of(tray, sees, s).len(),
    ensures
        entry_is_as_it_says(tray, sees, s, menu_of(tray, sees, s)[i]),
{
    let running = profile_now(s);
    let a = mode_lines(s);
    let b = profile_heading(tray.profiles);
    let c = profile_lines(tray.profiles, running);
    let d = manage_lines(tray.profiles, running);
    let e = warning_lines(sees.another_tool);
    let f = driver_lines(sees.missing);
    let g = service_lines(sees.service);
    let h = display_lines(sees, tray.prefs, s);
    the_built_ins_by_name(running);
    assert forall|k: int| 0 <= k < a.len() implies entry_is_as_it_says(
        tray,
        sees,
        s,
        #[trigger] a[k],
    ) by {
        assert(k == 0 || k == 1 || k == 2 || k == 3);
    }
    assert forall|k: int| 0 <= k < d.len() implies entry_is_as_it_says(
        tray,
        sees,
        s,
        #[trigger] d[k],
    ) by {
        assert(k == 0 || k == 1 || k == 2 || k == 3);
        if k == 0 {
            let lines = d[0]->Menu_lines;
            assert forall|m: int| 0 <= m < lines.len() implies (
            #[trigger] lines[m] matches LeafView::Item(item) ==> leaf_is_as_it_says(
                tray,
                sees,
                s,
                item,
            )) by {
                assert(m == 0 || m == 1 || m == 2 || m == 3 || m == 4);
            }
        }
    }
    assert forall|k: int| 0 <= k < f.len() implies entry_is_as_it_says(
        tray,
        sees,
        s,
        #[trigger] f[k],
    ) by {
        assert(k == 0 || k == 1);
    }
    assert forall|k: int| 0 <= k < g.len() implies entry_is_as_it_says(
        tray,
        sees,
        s,
        #[trigger] g[k],
    ) by {
        assert(k == 0 || k == 1);
    }
    assert forall|k: int| 0 <= k < h.len() implies entry_is_as_it_says(
        tray,
        sees,
        s,
        #[trigger] h[k],
    ) by {
        the_display_is_as_it_says(tray, sees, s, k);
    }
    let ab = a + b;
    let abc = ab + c;
    let abcd = abc + d;
    let abcde = abcd + e;
    let to_f = abcde + f;
    let to_g = to_f + g;
    let all = to_g + h;
    assert(all == menu_of(tray, sees, s));
    if i < a.len() {
        assert(all[i] == a[i]);
    } else if i < ab.len() {
        assert(all[i] == b[i - a.len()]);
    } else if i < abc.len() {
        assert(all[i] == c[i - ab.len()]);
    } else if i < abcd.len() {
        assert(all[i] == d[i - abc.len()]);
    } else if i < abcde.len() {
        let k = i - abcd.len();
        assert(all[i] == e[k]);
        assert(k == 0 || k == 1);
    } else if i < to_f.len() {
        assert(all[i] == f[i - abcde.len()]);
    } else if i < to_g.len() {
        assert(all[i] == g[i - to_f.len()]);
    } else {
        assert(all[i] == h[i - to_g.len()]);
    }
}

proof fn the_display_is_as_it_says(
    tray: TrayView,
    sees: MenuSeesView,
    s: Option<SharedView>,
    k: int,
)
    requires
        sees.sensors.len() == 12,
        0 <= k < display_lines(sees, tray.prefs, s).len(),
    ensures
        entry_is_as_it_says(tray, sees, s, display_lines(sees, tray.prefs, s)[k]),
{
    let h = display_lines(sees, tray.prefs, s);
    if k == 2 {
        let lines = sensor_lines(sees.sensors, tray.prefs, s);
        assert forall|m: int| 0 <= m < lines.len() implies (
        #[trigger] lines[m] matches LeafView::Item(item) ==> leaf_is_as_it_says(
            tray,
            sees,
            s,
            item,
        )) by {
            if m >= 2 {
                let j = m - 2;
                assert(lines[m] == sensor_line(sees.sensors, tray.prefs, s, j));
                a_label_begins_with_the_name(
                    sees.sensors[j],
                    raw_reading(s, j),
                    tray.prefs.fahrenheit,
                );
            }
        }
    } else {
        assert(k == 0 || k == 1 || k == 3 || k == 4 || k == 5 || k == 6 || k == 7 || k == 8);
    }
}

/// The menu always begins with the three ways to drive the fan, the manual
/// one opening out into levels 1 to 7, then has every profile in order under
/// a heading, and always ends with the way out.
pub proof fn the_menu_offers_what_there_is(
    tray: TrayView,
    sees: MenuSeesView,
    s: Option<SharedView>,
    k: int,
)
    requires
        0 <= k < tray.profiles.len(),
    ensures
        ({
            let menu = menu_of(tray, sees, s);
            &&& menu.len() > 5 + tray.profiles.len()
            &&& menu[0] matches EntryView::Item(item) && item.id == 100
            &&& menu[1] matches EntryView::Item(item) && item.id == 101
            &&& menu[2] matches EntryView::Menu { label, checked, lines, .. } && {
                &&& label == "Manual"@
                &&& checked == (s is Some && s->0.mode == 2)
                &&& lines.len() == 7
                &&& forall|m: int|
                    0 <= m < 7 ==> (#[trigger] lines[m] matches LeafView::Item(item) && item.id
                        == 600 + m)
            }
            &&& menu[5 + k] matches EntryView::Item(item) && item.id == 1000 + k && item.label
                == tray.profiles[k]
            &&& menu.last() matches EntryView::Item(item) && item.id == 900
        }),
{
    let running = profile_now(s);
    let a = mode_lines(s);
    let b = profile_heading(tray.profiles);
    let c = profile_lines(tray.profiles, running);
    let menu = menu_of(tray, sees, s);
    assert(menu[0] == a[0] && menu[1] == a[1] && menu[2] == a[2]);
    assert(menu[5 + k] == c[k]);
    let h = display_lines(sees, tray.prefs, s);
    assert(menu.last() == h[8]);
}

} // verus!
