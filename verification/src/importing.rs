//! Bringing every curve of a TPFanControl file over: what the profiles are
//! called, what happens when one cannot be added, and what is said at the end.
//!
//! Reading the settings file and writing it back happen outside. Between the
//! two, [`ImportRun`] decides.

use vstd::prelude::*;

use crate::config::{Config, ConfigView, Stored};
use crate::import::{
    imported_views, outcome, parse_tpfancontrol_ini, Imported, ImportedView,
};
use crate::paths::file_stem;
use crate::profiles::{add_profile_from_curve, with_curve, CANNOT_SAVE};
use crate::text::{
    chars_of, decimal, decimal_nat, from_utf8_lossy, join_texts, joined, lossy, lower_chars,
    lowered, push_i32, push_u64, same, string_of, texts,
};

verus! {

/// Where TPFanControl conventionally lives.
pub const CUSTOMARY_HOME: &'static str = "C:\\TPFC";

/// What the file chooser offers: a run of pairs, each part ended by a zero,
/// with another zero behind the last.
pub const FILTER: &'static str = "TPFanControl settings (*.ini)\0*.ini\0All files\0*.*\0\0";

pub const CHOOSER_TITLE: &'static str = "Import a curve from TPFanControl";

pub const NAME_TITLE: &'static str = "Name the imported profile";

pub const NO_CURVE: &'static str =
    "there are no Level= lines in that file, so there is no curve in it to import";

pub const NONE_ADDED: &'static str = "none of the curves in that file could be added";

/// What is said when the file chooser could not be shown. Dismissing it is no
/// failure, reports no error, and gets nothing said about it.
pub fn chooser_failed(error: u32) -> (r: Option<String>)
    ensures
        if error == 0 {
            r is None
        } else {
            r matches Some(words) && words@ == "Yamato could not open the file chooser (error "@
                + decimal_nat(error as nat)
                + ").\n\nYou can still import by putting the file somewhere simple, such as C:\\TPFC, and trying again."@
        },
{
    if error == 0 {
        return None;
    }
    let mut s = "Yamato could not open the file chooser (error ".to_owned();
    push_u64(&mut s, error as u64);
    s.append(
        ").\n\nYou can still import by putting the file somewhere simple, such as C:\\TPFC, and trying again.",
    );
    Some(s)
}

/// What is said about a file that could not be read.
pub fn could_not_read(path: &str) -> (r: String)
    ensures
        r@ == "Yamato could not read "@ + path@ + "."@,
{
    let mut s = "Yamato could not read ".to_owned();
    s.append(path);
    s.append(".");
    s
}

/// The curves in a file's text, or the sentence that says why there are none.
pub open spec fn curves_in(text: Seq<char>) -> Result<Seq<ImportedView>, Seq<char>> {
    match outcome(text) {
        Ok(found) => if found.len() == 0 {
            Err(NO_CURVE@)
        } else {
            Ok(found)
        },
        Err(e) => Err(e.words()),
    }
}

/// The curves in a file's text, or the sentence that says why there are none.
pub fn curves_in_text(text: &str) -> (r: Result<Vec<Imported>, String>)
    ensures
        match curves_in(text@) {
            Ok(found) => r matches Ok(v) && imported_views(v@) == found && v@.len() > 0,
            Err(words) => r matches Err(m) && m@ == words,
        },
{
    match parse_tpfancontrol_ini(text) {
        Ok(found) => if found.len() == 0 {
            Err(NO_CURVE.to_owned())
        } else {
            Ok(found)
        },
        Err(e) => Err(e.to_string()),
    }
}

/// The curves in a file, read as bytes and converted loosely: these files are
/// old, hand edited, and frequently have a stray byte in a comment.
pub fn read_curves(bytes: &Vec<u8>) -> (r: Result<Vec<Imported>, String>)
    ensures
        match curves_in(lossy(bytes@)) {
            Ok(found) => r matches Ok(v) && imported_views(v@) == found && v@.len() > 0,
            Err(words) => r matches Err(m) && m@ == words,
        },
{
    let text = from_utf8_lossy(bytes);
    curves_in_text(text.as_str())
}

/// The name offered for the profile: the file's own, unless that is what
/// every such file is called.
pub open spec fn offered(path: Seq<char>) -> Seq<char> {
    match crate::paths::stem_of(path) {
        Some(stem) if stem.len() > 0 && lowered(stem) != "tpfancontrol"@ => stem,
        _ => "Imported"@,
    }
}

/// The name offered for the profile.
pub fn offered_name(path: &str) -> (r: String)
    ensures
        r@ == offered(path@),
{
    if let Some(stem) = file_stem(path) {
        let chars = chars_of(stem.as_str());
        if chars.len() > 0 && !same(string_of(&lower_chars(&chars)).as_str(), "tpfancontrol") {
            return stem;
        }
    }
    "Imported".to_owned()
}

/// What a curve is stored under. The first keeps the name that was asked for;
/// the rest are numbered after it.
pub open spec fn numbered(name: Seq<char>, i: int) -> Seq<char> {
    if i == 0 {
        name
    } else {
        name + " "@ + decimal_nat((i + 1) as nat)
    }
}

/// What a curve is stored under.
pub fn numbered_name(name: &str, i: usize) -> (r: String)
    requires
        i < usize::MAX,
    ensures
        r@ == numbered(name@, i as int),
{
    let mut s = name.to_owned();
    if i > 0 {
        s.append(" ");
        push_u64(&mut s, (i + 1) as u64);
    }
    s
}

/// A profile that arrived: what it is called, and how many points it has.
#[derive(Debug)]
pub struct Arrived {
    pub name: String,
    pub points: usize,
}

/// Profiles that arrived, mathematically.
pub open spec fn arrivals(v: Seq<Arrived>) -> Seq<(Seq<char>, nat)> {
    v.map_values(|a: Arrived| (a.name@, a.points as nat))
}

/// What is said of one profile among several.
pub open spec fn listed(a: (Seq<char>, nat)) -> Seq<char> {
    "\""@ + a.0 + "\" with "@ + decimal_nat(a.1) + " points"@
}

/// A temperature the way it is written out.
pub open spec fn in_celsius(t: i8) -> Seq<char> {
    decimal(t as int) + " \u{00b0}C"@
}

/// What is said of the profiles that arrived.
pub open spec fn arrived_words(name: Seq<char>, arrived: Seq<(Seq<char>, nat)>) -> Seq<char> {
    if arrived.len() == 1 {
        "Imported "@ + decimal_nat(arrived[0].1) + " points into \""@ + name + "\"."@
    } else {
        "That file had "@ + decimal_nat(arrived.len()) + " curves in it. Imported "@ + joined(
            arrived.map_values(|a: (Seq<char>, nat)| listed(a)),
            ", and "@,
        ) + ", and switched to \""@ + name + "\"."@
    }
}

/// What is said of a fan setting that was not brought over.
pub open spec fn disengaged_words(at: Seq<i8>) -> Seq<char> {
    if at.len() == 0 {
        Seq::empty()
    } else {
        "\n\nThe disengaged fan setting at "@ + joined(
            at.map_values(|t: i8| in_celsius(t)),
            ", "@,
        )
            + " is not something Yamato will run, so it came across as the firmware step, which hands the fan back to the BIOS."@
    }
}

/// What is said of delays that were not brought over as they were.
pub open spec fn clamped_words(clamped: bool) -> Seq<char> {
    if clamped {
        "\n\nSome of the delays in that file were larger than Yamato will run, and came across as the largest it will. You can see them on the graph as the shaded bands."@
    } else {
        Seq::empty()
    }
}

/// What is said of a second curve.
pub open spec fn second_words(found: nat) -> Seq<char> {
    if found > 1 {
        "\n\nThat file has a second curve in it. Import it again and pick the same file to bring the other one over."@
    } else {
        Seq::empty()
    }
}

/// How an import went, in a paragraph fit to put in a message box.
pub open spec fn summarized(
    name: Seq<char>,
    arrived: Seq<(Seq<char>, nat)>,
    found: Seq<ImportedView>,
) -> Seq<char> {
    arrived_words(name, arrived) + disengaged_words(found[0].disengaged_at) + clamped_words(
        found[0].hysteresis_clamped,
    ) + second_words(found.len())
        + "\n\nOnly the curve was imported. Everything else in that file is either something Yamato decides for itself or something it does differently."@
}

fn arrived_text(name: &str, arrived: &Vec<Arrived>) -> (r: String)
    ensures
        r@ == arrived_words(name@, arrivals(arrived@)),
{
    let ghost all = arrivals(arrived@);
    if arrived.len() == 1 {
        let mut s = "Imported ".to_owned();
        push_u64(&mut s, arrived[0].points as u64);
        s.append(" points into \"");
        s.append(name);
        s.append("\".");
        return s;
    }
    let mut list: Vec<String> = Vec::new();
    let mut i: usize = 0;
    while i < arrived.len()
        invariant
            i <= arrived@.len(),
            list@.len() == i,
            all == arrivals(arrived@),
            forall|k: int| 0 <= k < i ==> (#[trigger] list@[k])@ == listed(all[k]),
        decreases arrived@.len() - i,
    {
        let mut s = "\"".to_owned();
        s.append(arrived[i].name.as_str());
        s.append("\" with ");
        push_u64(&mut s, arrived[i].points as u64);
        s.append(" points");
        proof {
            assert(all[i as int] == (arrived@[i as int].name@, arrived@[i as int].points as nat));
        }
        list.push(s);
        i += 1;
    }
    proof {
        assert(texts(list@) =~= all.map_values(|a: (Seq<char>, nat)| listed(a)));
    }
    let mut s = "That file had ".to_owned();
    push_u64(&mut s, arrived.len() as u64);
    s.append(" curves in it. Imported ");
    s.append(join_texts(&list, ", and ").as_str());
    s.append(", and switched to \"");
    s.append(name);
    s.append("\".");
    s
}

fn disengaged_text(at: &Vec<i8>) -> (r: String)
    ensures
        r@ == disengaged_words(at@),
{
    if at.len() == 0 {
        return String::new();
    }
    let mut temps: Vec<String> = Vec::new();
    let mut i: usize = 0;
    while i < at.len()
        invariant
            i <= at@.len(),
            temps@.len() == i,
            forall|k: int| 0 <= k < i ==> (#[trigger] temps@[k])@ == in_celsius(at@[k]),
        decreases at@.len() - i,
    {
        let mut s = String::new();
        push_i32(&mut s, at[i] as i32);
        s.append(" \u{00b0}C");
        proof {
            assert(s@ =~= in_celsius(at@[i as int]));
        }
        temps.push(s);
        i += 1;
    }
    proof {
        assert(texts(temps@) =~= at@.map_values(|t: i8| in_celsius(t)));
    }
    let mut s = "\n\nThe disengaged fan setting at ".to_owned();
    s.append(join_texts(&temps, ", ").as_str());
    s.append(
        " is not something Yamato will run, so it came across as the firmware step, which hands the fan back to the BIOS.",
    );
    s
}

/// How an import went, in a paragraph fit to put in a message box.
pub fn summary(name: &str, arrived: &Vec<Arrived>, found: &Vec<Imported>) -> (r: String)
    requires
        found@.len() > 0,
    ensures
        r@ == summarized(name@, arrivals(arrived@), imported_views(found@)),
{
    let ghost views = imported_views(found@);
    proof {
        assert(views[0] == found@[0]@);
        assert(views.len() == found@.len());
    }
    let mut s = arrived_text(name, arrived);
    s.append(disengaged_text(&found[0].disengaged_at).as_str());
    if found[0].hysteresis_clamped {
        s.append(
            "\n\nSome of the delays in that file were larger than Yamato will run, and came across as the largest it will. You can see them on the graph as the shaded bands.",
        );
    } else {
        proof {
            assert(s@ =~= s@ + clamped_words(false));
        }
    }
    if found.len() > 1 {
        s.append(
            "\n\nThat file has a second curve in it. Import it again and pick the same file to bring the other one over.",
        );
    } else {
        proof {
            assert(s@ =~= s@ + second_words(views.len()));
        }
    }
    s.append(
        "\n\nOnly the curve was imported. Everything else in that file is either something Yamato decides for itself or something it does differently.",
    );
    s
}

/// Where an import has got to.
#[derive(Debug, Clone, Copy, PartialEq, Eq, Structural)]
pub enum ImportPhase {
    /// Waiting for the settings file, to add the next curve to.
    Adding,
    /// Waiting for the settings with the new curve to be written.
    Saving,
    /// Waiting for the settings that make the first curve active.
    Settling,
    /// Over, with something to show for it or not.
    Over,
}

/// What an import asks for.
#[derive(Debug)]
pub enum ImportAsk {
    /// Read the settings file.
    Load,
    /// Write the settings the import now holds.
    Save,
    /// It is over: this is what to say.
    Finished(String),
    /// It is over, and nothing was imported.
    Failed(String),
}

/// What an import asks for, mathematically.
pub ghost enum ImportAskView {
    Load,
    Save,
    Finished(Seq<char>),
    Failed(Seq<char>),
}

impl View for ImportAsk {
    type V = ImportAskView;

    open spec fn view(&self) -> ImportAskView {
        match self {
            ImportAsk::Load => ImportAskView::Load,
            ImportAsk::Save => ImportAskView::Save,
            ImportAsk::Finished(words) => ImportAskView::Finished(words@),
            ImportAsk::Failed(words) => ImportAskView::Failed(words@),
        }
    }
}

/// What an import hears.
#[derive(Debug)]
pub enum ImportHeard {
    /// What the settings file holds.
    File(Stored),
    /// Whether the settings were written.
    Saved(bool),
}

/// An import under way.
#[derive(Debug)]
pub struct ImportRun {
    pub name: String,
    pub found: Vec<Imported>,
    pub phase: ImportPhase,
    /// The curve being added.
    pub at: usize,
    /// What has been saved so far.
    pub config: Option<Config>,
    /// What is being saved.
    pub pending: Option<Config>,
    pub arrived: Vec<Arrived>,
}

/// An import under way, mathematically.
#[verifier::ext_equal]
pub ghost struct ImportView {
    pub name: Seq<char>,
    pub found: Seq<ImportedView>,
    pub phase: ImportPhase,
    pub at: int,
    pub config: Option<ConfigView>,
    pub pending: Option<ConfigView>,
    pub arrived: Seq<(Seq<char>, nat)>,
}

/// Settings there may be, mathematically.
pub open spec fn config_view(c: Option<Config>) -> Option<ConfigView> {
    match c {
        Some(config) => Some(config@),
        None => None,
    }
}

impl View for ImportRun {
    type V = ImportView;

    open spec fn view(&self) -> ImportView {
        ImportView {
            name: self.name@,
            found: imported_views(self.found@),
            phase: self.phase,
            at: self.at as int,
            config: config_view(self.config),
            pending: config_view(self.pending),
            arrived: arrivals(self.arrived@),
        }
    }
}

impl ImportView {
    /// The state in which every curve has been tried.
    pub open spec fn settled(self) -> (ImportView, ImportAskView) {
        match self.config {
            None => (
                ImportView { phase: ImportPhase::Over, ..self },
                ImportAskView::Failed(NONE_ADDED@),
            ),
            Some(c) => if c.active_profile != self.arrived[0].0 {
                // Each addition makes itself active as it goes, so without
                // this the last curve would win.
                let settled = ConfigView { active_profile: self.arrived[0].0, ..c };
                (
                    ImportView {
                        phase: ImportPhase::Settling,
                        config: Some(settled),
                        ..self
                    },
                    ImportAskView::Save,
                )
            } else {
                (
                    ImportView { phase: ImportPhase::Over, ..self },
                    ImportAskView::Finished(summarized(self.name, self.arrived, self.found)),
                )
            },
        }
    }

    /// The state with the present curve dealt with.
    pub open spec fn advanced(self) -> (ImportView, ImportAskView) {
        let next = ImportView { at: self.at + 1, pending: None, phase: ImportPhase::Adding, ..self };
        if next.at < self.found.len() {
            (next, ImportAskView::Load)
        } else {
            next.settled()
        }
    }

    /// The state with the present curve refused. One bad name should not throw
    /// away the curves that did arrive.
    pub open spec fn refused(self, words: Seq<char>) -> (ImportView, ImportAskView) {
        if self.arrived.len() == 0 {
            (
                ImportView { phase: ImportPhase::Over, pending: None, ..self },
                ImportAskView::Failed(words),
            )
        } else {
            self.advanced()
        }
    }

    /// The state after the settings file has been read.
    pub open spec fn read(self, file: Stored) -> (ImportView, ImportAskView) {
        match with_curve(file, numbered(self.name, self.at), self.found[self.at].curve) {
            Ok(c) => (
                ImportView { phase: ImportPhase::Saving, pending: Some(c), ..self },
                ImportAskView::Save,
            ),
            Err(words) => self.refused(words),
        }
    }

    /// The state after the settings were written, or could not be.
    pub open spec fn wrote(self, saved: bool) -> (ImportView, ImportAskView) {
        if saved {
            ImportView {
                config: self.pending,
                arrived: self.arrived.push(
                    (numbered(self.name, self.at), self.found[self.at].curve.len()),
                ),
                ..self
            }.advanced()
        } else {
            self.refused(CANNOT_SAVE@)
        }
    }

    /// The state after hearing something, and what is asked for next.
    pub open spec fn hears(self, heard: ImportHeard) -> (ImportView, ImportAskView) {
        match (self.phase, heard) {
            (ImportPhase::Adding, ImportHeard::File(file)) => self.read(file),
            (ImportPhase::Adding, ImportHeard::Saved(_)) => (self, ImportAskView::Load),
            (ImportPhase::Saving, ImportHeard::Saved(saved)) => self.wrote(saved),
            (ImportPhase::Saving, ImportHeard::File(_)) => (self, ImportAskView::Save),
            (ImportPhase::Settling, ImportHeard::Saved(_)) => (
                ImportView { phase: ImportPhase::Over, ..self },
                ImportAskView::Finished(summarized(self.name, self.arrived, self.found)),
            ),
            (ImportPhase::Settling, ImportHeard::File(_)) => (self, ImportAskView::Save),
            (ImportPhase::Over, _) => match self.config {
                Some(_) => (
                    self,
                    ImportAskView::Finished(summarized(self.name, self.arrived, self.found)),
                ),
                None => (self, ImportAskView::Failed(NONE_ADDED@)),
            },
        }
    }

    /// What every state keeps to.
    pub open spec fn well_formed(self) -> bool {
        &&& self.found.len() > 0
        &&& self.phase == ImportPhase::Adding || self.phase == ImportPhase::Saving ==> 0 <= self.at
            < self.found.len()
        &&& self.config is Some <==> self.arrived.len() > 0
        &&& self.arrived.len() > 0 ==> self.arrived[0].0 == self.name
        &&& self.arrived.len() == 0 && self.phase != ImportPhase::Over ==> self.at == 0
        &&& self.phase == ImportPhase::Saving <==> self.pending is Some
        &&& self.phase == ImportPhase::Settling ==> self.config is Some
    }
}

impl ImportRun {
    /// An import of what a file holds, under a name. It begins by asking for
    /// the settings file.
    pub fn new(name: String, found: Vec<Imported>) -> (r: Self)
        requires
            found@.len() > 0,
        ensures
            r@.well_formed(),
            r@ == (ImportView {
                name: name@,
                found: imported_views(found@),
                phase: ImportPhase::Adding,
                at: 0,
                config: None,
                pending: None,
                arrived: Seq::empty(),
            }),
    {
        let r = ImportRun {
            name,
            found,
            phase: ImportPhase::Adding,
            at: 0,
            config: None,
            pending: None,
            arrived: Vec::new(),
        };
        proof {
            assert(arrivals(r.arrived@) =~= Seq::empty());
        }
        r
    }

    fn settle(&mut self) -> (r: ImportAsk)
        requires
            old(self)@.found.len() > 0,
            old(self)@.config is Some <==> old(self)@.arrived.len() > 0,
        ensures
            final(self)@ == old(self)@.settled().0,
            r@ == old(self)@.settled().1,
    {
        match self.config.take() {
            None => {
                self.phase = ImportPhase::Over;
                ImportAsk::Failed(NONE_ADDED.to_owned())
            },
            Some(c) => {
                let mut config = c;
                proof {
                    assert(arrivals(self.arrived@).len() == self.arrived@.len());
                    assert(arrivals(self.arrived@)[0].0 == self.arrived@[0].name@);
                }
                if same(config.active_profile.as_str(), self.arrived[0].name.as_str()) {
                    self.config = Some(config);
                    self.phase = ImportPhase::Over;
                    ImportAsk::Finished(self.summary())
                } else {
                    config.active_profile = self.arrived[0].name.clone();
                    self.config = Some(config);
                    self.phase = ImportPhase::Settling;
                    ImportAsk::Save
                }
            },
        }
    }

    fn advance(&mut self) -> (r: ImportAsk)
        requires
            old(self)@.found.len() > 0,
            0 <= old(self)@.at < old(self)@.found.len(),
            old(self)@.config is Some <==> old(self)@.arrived.len() > 0,
            old(self)@.arrived.len() > 0,
            old(self)@.arrived[0].0 == old(self)@.name,
        ensures
            final(self)@ == old(self)@.advanced().0,
            r@ == old(self)@.advanced().1,
            final(self)@.well_formed(),
    {
        proof {
            assert(self@.found.len() == self.found@.len());
            assert(self.at < self.found.len());
        }
        self.at = self.at + 1;
        self.pending = None;
        self.phase = ImportPhase::Adding;
        if self.at < self.found.len() {
            ImportAsk::Load
        } else {
            self.settle()
        }
    }

    /// What is said of the import, as it stands.
    fn summary(&self) -> (r: String)
        requires
            self@.found.len() > 0,
        ensures
            r@ == summarized(self@.name, self@.arrived, self@.found),
    {
        summary(self.name.as_str(), &self.arrived, &self.found)
    }

    fn refuse(&mut self, words: &str) -> (r: ImportAsk)
        requires
            old(self)@.well_formed(),
            old(self)@.phase == ImportPhase::Adding || old(self)@.phase == ImportPhase::Saving,
        ensures
            final(self)@ == old(self)@.refused(words@).0,
            r@ == old(self)@.refused(words@).1,
            final(self)@.well_formed(),
    {
        proof {
            assert(self@.arrived.len() == self.arrived@.len());
        }
        if self.arrived.len() == 0 {
            self.phase = ImportPhase::Over;
            self.pending = None;
            ImportAsk::Failed(words.to_owned())
        } else {
            self.advance()
        }
    }

    /// Hears something, and says what is asked for next.
    pub fn hear(&mut self, heard: ImportHeard) -> (r: ImportAsk)
        requires
            old(self)@.well_formed(),
        ensures
            final(self)@ == old(self)@.hears(heard).0,
            r@ == old(self)@.hears(heard).1,
            final(self)@.well_formed(),
    {
        proof {
            assert(self@.found.len() == self.found@.len());
        }
        match self.phase {
            ImportPhase::Adding => match heard {
                ImportHeard::File(file) => {
                    proof {
                        assert(self.at < self.found.len());
                        assert(self@.found[self.at as int] == self.found@[self.at as int]@);
                    }
                    let this = numbered_name(self.name.as_str(), self.at);
                    match add_profile_from_curve(
                        this.as_str(),
                        &self.found[self.at].curve,
                        file,
                    ) {
                        Ok(config) => {
                            self.pending = Some(config);
                            self.phase = ImportPhase::Saving;
                            ImportAsk::Save
                        },
                        Err(words) => self.refuse(words),
                    }
                },
                ImportHeard::Saved(_) => ImportAsk::Load,
            },
            ImportPhase::Saving => match heard {
                ImportHeard::Saved(saved) => {
                    if saved {
                        let ghost before = self@;
                        proof {
                            assert(self.at < self.found.len());
                            assert(self@.found[self.at as int] == self.found@[self.at as int]@);
                        }
                        let this = numbered_name(self.name.as_str(), self.at);
                        let points = self.found[self.at].curve.points().len();
                        self.config = self.pending.take();
                        self.arrived.push(Arrived { name: this, points });
                        proof {
                            assert(self@.arrived =~= before.arrived.push(
                                (
                                    numbered(before.name, before.at),
                                    before.found[before.at].curve.len(),
                                ),
                            ));
                        }
                        self.advance()
                    } else {
                        self.refuse(CANNOT_SAVE)
                    }
                },
                ImportHeard::File(_) => ImportAsk::Save,
            },
            ImportPhase::Settling => match heard {
                ImportHeard::Saved(_) => {
                    self.phase = ImportPhase::Over;
                    ImportAsk::Finished(self.summary())
                },
                ImportHeard::File(_) => ImportAsk::Save,
            },
            ImportPhase::Over => match &self.config {
                Some(_) => ImportAsk::Finished(self.summary()),
                None => ImportAsk::Failed(NONE_ADDED.to_owned()),
            },
        }
    }

    /// The settings to write: those with the curve being added, or those that
    /// make the first one active.
    pub fn to_save(&self) -> (r: Option<&Config>)
        ensures
            match r {
                Some(c) => self@.pending == Some(c@) || self@.pending is None && self@.config
                    == Some(c@),
                None => self@.pending is None && self@.config is None,
            },
    {
        match &self.pending {
            Some(c) => Some(c),
            None => match &self.config {
                Some(c) => Some(c),
                None => None,
            },
        }
    }

    /// The settings as the import leaves them, once it has something to show.
    pub fn into_config(self) -> (r: Option<Config>)
        ensures
            config_view(r) == self@.config,
    {
        self.config
    }
}

/// An import that has something to show for it ends on the curve that was
/// named.
pub proof fn an_import_ends_on_the_curve_that_was_named(run: ImportView, heard: ImportHeard)
    requires
        run.well_formed(),
        run.phase == ImportPhase::Settling ==> run.config->Some_0.active_profile == run.name,
        run.phase == ImportPhase::Over && run.config is Some ==> run.config->Some_0.active_profile
            == run.name,
    ensures
        ({
            let after = run.hears(heard).0;
            &&& after.phase == ImportPhase::Settling ==> after.config->Some_0.active_profile
                == run.name
            &&& after.phase == ImportPhase::Over && after.config is Some
                ==> after.config->Some_0.active_profile == run.name
        }),
        run.hears(heard).1 is Finished ==> run.hears(heard).0.config->Some_0.active_profile
            == run.name,
{
}

/// An import fails only when nothing arrived: a curve that did arrive is never
/// thrown away by one that does not.
pub proof fn what_arrived_is_kept(run: ImportView, heard: ImportHeard)
    requires
        run.well_formed(),
    ensures
        run.hears(heard).0.arrived.len() >= run.arrived.len(),
        run.hears(heard).0.arrived.take(run.arrived.len() as int) == run.arrived,
        run.hears(heard).1 is Failed ==> run.hears(heard).0.arrived.len() == 0,
{
    assert(run.arrived.take(run.arrived.len() as int) =~= run.arrived);
    let one = (numbered(run.name, run.at), run.found[run.at].curve.len());
    assert(run.arrived.push(one).take(run.arrived.len() as int) =~= run.arrived);
}

/// An import ends: every settings file read and every file written brings it
/// closer to being over.
pub open spec fn left_to_do(run: ImportView) -> int {
    match run.phase {
        ImportPhase::Adding => 2 * (run.found.len() - run.at) + 1,
        ImportPhase::Saving => 2 * (run.found.len() - run.at),
        ImportPhase::Settling => 1,
        ImportPhase::Over => 0,
    }
}

/// An import ends: hearing what it asked for always brings it closer.
pub proof fn an_import_ends(run: ImportView, heard: ImportHeard)
    requires
        run.well_formed(),
        run.phase != ImportPhase::Over,
        run.phase == ImportPhase::Adding <==> heard is File,
    ensures
        0 <= left_to_do(run.hears(heard).0) < left_to_do(run),
{
}

/// The name offered for a profile is that of the file without its extension,
/// unless that is the other program's own, in any case.
pub proof fn the_name_offered_is_the_files(
    dir: Seq<char>,
    stem: Seq<char>,
    extension: Seq<char>,
)
    requires
        crate::paths::full_directory(dir),
        stem.len() > 0,
        crate::paths::plain_name(stem + seq!['.'] + extension),
        forall|i: int| 0 <= i < extension.len() ==> #[trigger] extension[i] != '.',
    ensures
        lowered(stem) != "tpfancontrol"@ ==> offered(
            dir + seq!['\\'] + (stem + seq!['.'] + extension),
        ) == stem,
        lowered(stem) == "tpfancontrol"@ ==> offered(
            dir + seq!['\\'] + (stem + seq!['.'] + extension),
        ) == "Imported"@,
{
    crate::paths::a_name_is_its_stem_and_its_extension(dir, stem, extension, seq!['x']);
}

/// The first curve of a file is stored under the name that was asked for, and
/// the second under that name with a 2 behind it, each as the curve that was
/// found, behind the profiles the settings hold.
pub proof fn each_curve_is_stored_under_its_name(run: ImportView, file: Stored, c: ConfigView)
    requires
        run.well_formed(),
        run.phase == ImportPhase::Adding,
        run.at <= 1,
        file.gives() == Ok::<ConfigView, crate::config::ConfigErrorView>(c),
    ensures
        ({
            let name = if run.at == 0 {
                run.name
            } else {
                run.name + " "@ + seq!['2']
            };
            let (next, ask) = run.hears(ImportHeard::File(file));
            vstd::utf8::encode_utf8(name).len() < 64 && (forall|k: int|
                0 <= k < c.profiles.len() ==> (#[trigger] c.profiles[k]).name != name) ==> {
                &&& ask == ImportAskView::Save
                &&& next.pending matches Some(after) && {
                    &&& after.profiles.len() == c.profiles.len() + 1
                    &&& forall|k: int|
                        0 <= k < c.profiles.len() ==> #[trigger] after.profiles[k]
                            == c.profiles[k]
                    &&& after.profiles[c.profiles.len() as int].name == name
                    &&& crate::config::curve_points(
                        after.profiles[c.profiles.len() as int].points,
                    ) == run.found[run.at].curve
                }
                &&& next.hears(ImportHeard::Saved(true)).0.arrived.len() == run.arrived.len() + 1
                &&& next.hears(ImportHeard::Saved(true)).0.arrived[run.arrived.len() as int] == (
                    name,
                    run.found[run.at].curve.len(),
                )
            }
        }),
{
    crate::profiles::an_added_profile_holds_the_curve(
        file,
        numbered(run.name, run.at),
        run.found[run.at].curve,
    );
    assert(decimal_nat(2) =~= seq!['2']) by {
        reveal_with_fuel(crate::text::decimal_nat, 2);
    }
}

/// What an import says at the end names what arrived, and owns up to a
/// disengaged level, to margins changed and to a second curve exactly where
/// there were any.
pub proof fn a_summary_owns_up(
    name: Seq<char>,
    arrived: Seq<(Seq<char>, nat)>,
    found: Seq<ImportedView>,
)
    requires
        arrived.len() == 1,
        found.len() > 0,
    ensures
        ({
            let said = summarized(name, arrived, found);
            &&& crate::text::begins(
                said,
                "Imported "@ + decimal_nat(arrived[0].1) + " points into \""@ + name + "\"."@,
            )
            &&& found[0].disengaged_at.len() == 1 ==> crate::text::holds(
                said,
                decimal(found[0].disengaged_at[0] as int) + " \u{00b0}C"@,
            )
            &&& found[0].disengaged_at.len() > 0 <==> disengaged_words(found[0].disengaged_at).len()
                > 0
            &&& found[0].hysteresis_clamped <==> clamped_words(found[0].hysteresis_clamped).len()
                > 0
            &&& found.len() > 1 <==> second_words(found.len()).len() > 0
        }),
{
    reveal_strlit("\n\nThe disengaged fan setting at ");
    reveal_strlit(
        "\n\nSome of the delays in that file were larger than Yamato will run, and came across as the largest it will. You can see them on the graph as the shaded bands.",
    );
    reveal_strlit(
        "\n\nThat file has a second curve in it. Import it again and pick the same file to bring the other one over.",
    );
    let a = arrived_words(name, arrived);
    let b = disengaged_words(found[0].disengaged_at);
    let c = clamped_words(found[0].hysteresis_clamped);
    let d = second_words(found.len());
    let e =
        "\n\nOnly the curve was imported. Everything else in that file is either something Yamato decides for itself or something it does differently."@;
    let said = a + b + c + d + e;
    assert(said == summarized(name, arrived, found));
    assert(said.take(a.len() as int) =~= a);
    let at = found[0].disengaged_at;
    if at.len() == 1 {
        let piece = in_celsius(at[0]);
        let list = at.map_values(|t: i8| in_celsius(t));
        assert(list.len() == 1 && list[0] == piece);
        assert(joined(list, ", "@) == piece);
        let head = "\n\nThe disengaged fan setting at "@ + piece;
        let tail =
            " is not something Yamato will run, so it came across as the firmware step, which hands the fan back to the BIOS."@;
        assert(b == head + tail);
        crate::text::it_stands_at_the_end(a + "\n\nThe disengaged fan setting at "@, piece);
        let upto = a + "\n\nThe disengaged fan setting at "@ + piece;
        crate::text::it_still_stands(upto, tail, piece);
        assert(upto + tail =~= a + b);
        crate::text::it_still_stands(a + b, c, piece);
        crate::text::it_still_stands(a + b + c, d, piece);
        crate::text::it_still_stands(a + b + c + d, e, piece);
    }
}

/// A file is refused exactly where its text holds no curve or a bad one, and
/// otherwise gives every curve in it.
pub proof fn a_file_gives_the_curves_in_it(text: Seq<char>)
    ensures
        curves_in(text) is Ok <==> outcome(text) is Ok,
        outcome(text) matches Ok(found) ==> found.len() > 0 && curves_in(text) == Ok::<
            Seq<ImportedView>,
            Seq<char>,
        >(found),
        outcome(text) matches Err(e) ==> curves_in(text) == Err::<Seq<ImportedView>, Seq<char>>(
            e.words(),
        ),
{
}

} // verus!
