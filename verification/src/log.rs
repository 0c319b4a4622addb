//! The optional history file.
//!
//! One line per pass, in a shape a spreadsheet opens without being asked
//! twice. One rule governs the rest: cooling the machine is the job, writing
//! about it is not, so the first failure of any kind turns the history off
//! for the session.

use vstd::prelude::*;
use vstd::utf8::encode_utf8;

use crate::ec::FAN_BIOS;
use crate::config::Config;
use crate::paths::{extension, file_stem, join, parent, under, with_file_name};
use crate::text::{chars_of, push_i32, push_u64};

verus! {

pub const FILE_NAME: &'static str = "yamato-log.csv";

/// The column names, written when a file is created and never again.
pub const HEADER: &'static str =
    "timestamp,sensor,temp_c,level,fan1_rpm,fan2_rpm,mode,profile";

/// A file beside another.
pub open spec fn beside(path: Seq<char>, name: Seq<char>) -> Seq<char> {
    match crate::paths::parent_of(path) {
        Some(dir) => under(dir, name),
        None => name,
    }
}

/// `%ProgramData%\Yamato\yamato-log.csv`, beside the settings file, given
/// what `%ProgramData%` is.
pub fn default_path(program_data: Option<&str>) -> (r: String)
    ensures
        r@ == beside(
            crate::config::settings_path(
                match program_data {
                    Some(dir) => Some(dir@),
                    None => None,
                },
            ),
            FILE_NAME@,
        ),
{
    let settings = Config::default_path(program_data);
    match parent(settings.as_str()) {
        Some(dir) => join(dir.as_str(), FILE_NAME),
        None => FILE_NAME.to_owned(),
    }
}

/// A moment of local time.
#[derive(Debug, Clone, Copy)]
pub struct Moment {
    pub year: u16,
    pub month: u16,
    pub day: u16,
    pub hour: u16,
    pub minute: u16,
    pub second: u16,
}

/// A number in decimal, with as many zeros in front as make it a width, where
/// it is not that wide already.
pub open spec fn padded(n: nat, width: nat) -> Seq<char> {
    let digits = crate::text::decimal_nat(n);
    if digits.len() < width {
        Seq::new((width - digits.len()) as nat, |i: int| '0') + digits
    } else {
        digits
    }
}

/// Adds a number padded with zeros to the end of a piece of text.
fn push_padded(s: &mut String, n: u16, width: usize)
    ensures
        final(s)@ == old(s)@ + padded(n as nat, width as nat),
{
    let mut digits = String::new();
    push_u64(&mut digits, n as u64);
    proof {
        assert(digits@ == crate::text::decimal_nat(n as nat));
    }
    let wide = chars_of(digits.as_str()).len();
    let mut i: usize = wide;
    while i < width
        invariant
            wide == crate::text::decimal_nat(n as nat).len(),
            wide <= i,
            wide < width ==> i <= width,
            wide >= width ==> i == wide,
            s@ == old(s)@ + Seq::new((i - wide) as nat, |k: int| '0'),
        decreases width - i,
    {
        let ghost before = s@;
        s.push('0');
        proof {
            assert(before.push('0') =~= old(s)@ + Seq::new((i + 1 - wide) as nat, |k: int| '0'));
        }
        i += 1;
    }
    let ghost filled = s@;
    s.append(digits.as_str());
    proof {
        if wide < width {
            assert(filled + digits@ =~= old(s)@ + padded(n as nat, width as nat));
        } else {
            assert(filled =~= old(s)@);
        }
    }
}

/// A moment in ISO 8601, to the second.
pub open spec fn iso(m: Moment) -> Seq<char> {
    padded(m.year as nat, 4) + "-"@ + padded(m.month as nat, 2) + "-"@ + padded(m.day as nat, 2)
        + "T"@ + padded(m.hour as nat, 2) + ":"@ + padded(m.minute as nat, 2) + ":"@ + padded(
        m.second as nat,
        2,
    )
}

/// The local wall clock, ISO 8601, to the second.
pub fn timestamp(now: &Moment) -> (r: String)
    ensures
        r@ == iso(*now),
{
    let mut s = String::new();
    push_padded(&mut s, now.year, 4);
    proof {
        assert(s@ =~= padded(now.year as nat, 4));
    }
    s.append("-");
    push_padded(&mut s, now.month, 2);
    s.append("-");
    push_padded(&mut s, now.day, 2);
    s.append("T");
    push_padded(&mut s, now.hour, 2);
    s.append(":");
    push_padded(&mut s, now.minute, 2);
    s.append(":");
    push_padded(&mut s, now.second, 2);
    s
}

/// Whether a character would let a field be misread.
pub open spec fn unsettles(c: char) -> bool {
    c == ',' || c == '"' || c == '\n' || c == '\r'
}

/// Text with every quote doubled.
pub open spec fn doubled(text: Seq<char>) -> Seq<char>
    decreases text.len(),
{
    if text.len() == 0 {
        text
    } else if text.last() == '"' {
        doubled(text.drop_last()).push('"').push('"')
    } else {
        doubled(text.drop_last()).push(text.last())
    }
}

/// A field: quoted, but only when it would otherwise be misread.
pub open spec fn field(text: Seq<char>) -> Seq<char> {
    if exists|i: int| 0 <= i < text.len() && unsettles(#[trigger] text[i]) {
        seq!['"'] + doubled(text) + seq!['"']
    } else {
        text
    }
}

/// Quotes a field, but only when it would otherwise be misread.
///
/// Profile names are whatever somebody typed, and a comma in one would shift
/// every column after it by one for the rest of the file.
pub fn cell(text: &str) -> (r: String)
    ensures
        r@ == field(text@),
{
    let chars = chars_of(text);
    let mut misread = false;
    let mut quoted = String::new();
    quoted.push('"');
    let mut i: usize = 0;
    proof {
        assert(chars@.take(0).len() == 0);
        assert(quoted@ =~= seq!['"'] + doubled(chars@.take(0)));
    }
    while i < chars.len()
        invariant
            i <= chars@.len(),
            misread == (exists|k: int| 0 <= k < i && unsettles(#[trigger] chars@[k])),
            quoted@ == seq!['"'] + doubled(chars@.take(i as int)),
        decreases chars@.len() - i,
    {
        let c = chars[i];
        let ghost before = quoted@;
        proof {
            let next = chars@.take(i + 1);
            assert(next.drop_last() =~= chars@.take(i as int));
            assert(next.last() == c);
        }
        if c == '"' {
            quoted.push('"');
        }
        quoted.push(c);
        if c == ',' || c == '"' || c == '\n' || c == '\r' {
            misread = true;
            proof {
                assert(unsettles(chars@[i as int]));
            }
        }
        i += 1;
        proof {
            assert(quoted@ =~= seq!['"'] + doubled(chars@.take(i as int)));
        }
    }
    proof {
        assert(chars@.take(chars@.len() as int) =~= text@);
    }
    if misread {
        quoted.push('"');
        proof {
            assert(quoted@ =~= seq!['"'] + doubled(text@) + seq!['"']);
        }
        quoted
    } else {
        text.to_owned()
    }
}

/// One pass, as it will be written down.
///
/// The optional fields are the ones a failed pass does not have. Written as
/// empty cells, not zeros: a zero would say the opposite of what a failed
/// pass means.
#[derive(Debug)]
pub struct Record<'a> {
    pub hottest: Option<(usize, i8)>,
    /// What the fan register was asked for, or nothing when the controller
    /// could not be read at all.
    pub applied: Option<u8>,
    pub fan_rpm: Option<[u16; 2]>,
    pub mode: &'a str,
    pub profile: &'a str,
}

impl<'a> Record<'a> {
    /// The sensor the pass acted on.
    pub open spec fn sensor_cell(self) -> Seq<char> {
        match self.hottest {
            Some((index, _)) => crate::text::decimal_nat(index as nat),
            None => Seq::empty(),
        }
    }

    /// What that sensor read.
    pub open spec fn temp_cell(self) -> Seq<char> {
        match self.hottest {
            Some((_, celsius)) => crate::text::decimal(celsius as int),
            None => Seq::empty(),
        }
    }

    /// What the fan was asked for. Firmware control is a word and not a
    /// number.
    pub open spec fn level_cell(self) -> Seq<char> {
        match self.applied {
            Some(level) => if level == FAN_BIOS {
                "bios"@
            } else {
                crate::text::decimal_nat(level as nat)
            },
            None => Seq::empty(),
        }
    }

    /// How fast a fan turned.
    pub open spec fn speed_cell(self, fan: int) -> Seq<char> {
        match self.fan_rpm {
            Some(rpm) => crate::text::decimal_nat(rpm[fan] as nat),
            None => Seq::empty(),
        }
    }

    /// The line, behind a time stamp.
    pub open spec fn written(self, stamp: Seq<char>) -> Seq<char> {
        stamp + ","@ + self.sensor_cell() + ","@ + self.temp_cell() + ","@ + self.level_cell()
            + ","@ + self.speed_cell(0) + ","@ + self.speed_cell(1) + ","@ + field(self.mode@)
            + ","@ + field(self.profile@)
    }

    /// The line as it will be written, stamped with the clock as it is now.
    pub fn line(&self, now: &Moment) -> (r: String)
        ensures
            r@ == self.written(iso(*now)),
    {
        self.line_at(timestamp(now).as_str())
    }

    /// The line, behind a given time stamp.
    pub fn line_at(&self, stamp: &str) -> (r: String)
        ensures
            r@ == self.written(stamp@),
    {
        let mut s = stamp.to_owned();
        s.append(",");
        if let Some((index, _)) = self.hottest {
            push_u64(&mut s, index as u64);
        }
        proof {
            assert(s@ =~= stamp@ + ","@ + self.sensor_cell());
        }
        s.append(",");
        let ghost before = s@;
        if let Some((_, celsius)) = self.hottest {
            push_i32(&mut s, celsius as i32);
        }
        proof {
            assert(s@ =~= before + self.temp_cell());
        }
        s.append(",");
        let ghost before = s@;
        if let Some(level) = self.applied {
            if level == FAN_BIOS {
                s.append("bios");
            } else {
                push_u64(&mut s, level as u64);
            }
        }
        proof {
            assert(s@ =~= before + self.level_cell());
        }
        s.append(",");
        let ghost before = s@;
        if let Some(rpm) = self.fan_rpm {
            push_u64(&mut s, rpm[0] as u64);
        }
        proof {
            assert(s@ =~= before + self.speed_cell(0));
        }
        s.append(",");
        let ghost before = s@;
        if let Some(rpm) = self.fan_rpm {
            push_u64(&mut s, rpm[1] as u64);
        }
        proof {
            assert(s@ =~= before + self.speed_cell(1));
        }
        s.append(",");
        s.append(cell(self.mode).as_str());
        s.append(",");
        s.append(cell(self.profile).as_str());
        s
    }
}

/// Where the previous generation is kept: the generation goes before the
/// extension, so the file still opens in whatever reads it.
pub open spec fn rotated(path: Seq<char>) -> Seq<char> {
    crate::paths::renamed(
        path,
        match (crate::paths::stem_of(path), crate::paths::extension_of(path)) {
            (Some(stem), Some(extension)) => stem + ".1."@ + extension,
            (Some(stem), None) => stem + ".1"@,
            (None, _) => "yamato-log.1.csv"@,
        },
    )
}

/// `yamato-log.csv` becomes `yamato-log.1.csv`.
pub fn rotated_path(path: &str) -> (r: String)
    ensures
        r@ == rotated(path@),
{
    let name = match file_stem(path) {
        Some(stem) => {
            let mut name = stem;
            match extension(path) {
                Some(ext) => {
                    name.append(".1.");
                    name.append(ext.as_str());
                },
                None => name.append(".1"),
            }
            name
        },
        None => "yamato-log.1.csv".to_owned(),
    };
    with_file_name(path, name.as_str())
}

/// A line with the break that ends it.
pub open spec fn ended(line: Seq<char>) -> Seq<char> {
    line + "\r\n"@
}

/// A size with this much more in it, as far as it can count.
pub open spec fn grown(size: u64, text: Seq<char>) -> u64 {
    if size + encode_utf8(text).len() > u64::MAX {
        u64::MAX
    } else {
        (size + encode_utf8(text).len()) as u64
    }
}

/// What the history is waiting to hear.
#[derive(Debug, Clone, Copy, PartialEq, Eq, Structural)]
pub enum LogPhase {
    /// Nothing: no line is being written.
    Resting,
    /// Whether the folder is there.
    Folder,
    /// Whether the file opened, and its size.
    Opening,
    /// Whether the column names were written.
    Heading,
    /// Whether the line was written.
    Appending,
    /// Whether the file was put aside.
    Rotating,
}

/// What the history wants done next.
#[derive(Debug)]
pub enum LogAsk {
    /// Make sure the folder of this path is there.
    Folder(String),
    /// Open this file for appending.
    Open(String),
    /// Write this to the open file, all of it.
    Append(String),
    /// Let go of the open file, and then rename it.
    Rotate { from: String, to: String },
    /// Let go of the file, if it is open. The line is over.
    Close,
    /// The line is over.
    Done,
}

/// What the history wants done next, mathematically.
pub ghost enum LogAskView {
    Folder(Seq<char>),
    Open(Seq<char>),
    Append(Seq<char>),
    Rotate { from: Seq<char>, to: Seq<char> },
    Close,
    Done,
}

impl View for LogAsk {
    type V = LogAskView;

    open spec fn view(&self) -> LogAskView {
        match self {
            LogAsk::Folder(path) => LogAskView::Folder(path@),
            LogAsk::Open(path) => LogAskView::Open(path@),
            LogAsk::Append(text) => LogAskView::Append(text@),
            LogAsk::Rotate { from, to } => LogAskView::Rotate { from: from@, to: to@ },
            LogAsk::Close => LogAskView::Close,
            LogAsk::Done => LogAskView::Done,
        }
    }
}

/// What the history has just heard.
#[derive(Debug, Clone, Copy)]
pub enum LogHeard {
    /// Whether it worked.
    Went(bool),
    /// The size of the file, where it opened.
    Opened(Option<u64>),
}

/// The history, mathematically.
pub ghost struct LoggerView {
    pub path: Seq<char>,
    /// Whether the file is open.
    pub open: bool,
    /// Bytes in the file that is open.
    pub size: u64,
    /// Set by the first failure of any kind and never cleared.
    pub broken: bool,
    /// The line still to be written, and the size that makes the file rotate.
    pub line: Option<Seq<char>>,
    pub max_bytes: u64,
    pub phase: LogPhase,
}

impl LoggerView {
    /// Given up for the rest of the session.
    pub open spec fn failed(self) -> LoggerView {
        LoggerView { broken: true, open: false, line: None, phase: LogPhase::Resting, ..self }
    }

    /// Beginning to write a line.
    pub open spec fn begun(self, line: Seq<char>, max_bytes: u64) -> LoggerView {
        if self.broken {
            LoggerView { line: None, phase: LogPhase::Resting, ..self }
        } else {
            LoggerView {
                line: Some(line),
                max_bytes,
                phase: if self.open {
                    LogPhase::Appending
                } else {
                    LogPhase::Folder
                },
                ..self
            }
        }
    }

    /// The file open, at this size: the line that is waiting goes in, if one
    /// is.
    pub open spec fn opened(self, size: u64) -> LoggerView {
        LoggerView {
            open: true,
            size,
            phase: if self.line is Some {
                LogPhase::Appending
            } else {
                LogPhase::Resting
            },
            ..self
        }
    }

    /// One thing heard further on. Anything that failed is the end of it, and
    /// so is an answer to something that was not asked.
    pub open spec fn after(self, heard: LogHeard) -> LoggerView {
        match (self.phase, heard) {
            (LogPhase::Folder, LogHeard::Went(true)) => LoggerView {
                phase: LogPhase::Opening,
                ..self
            },
            (LogPhase::Opening, LogHeard::Opened(Some(size))) => if size == 0 {
                LoggerView { phase: LogPhase::Heading, ..self }
            } else {
                self.opened(size)
            },
            (LogPhase::Heading, LogHeard::Went(true)) => self.opened(grown(0, ended(HEADER@))),
            (LogPhase::Appending, LogHeard::Went(true)) => {
                let size = grown(
                    self.size,
                    ended(
                        match self.line {
                            Some(line) => line,
                            None => Seq::empty(),
                        },
                    ),
                );
                if size >= self.max_bytes {
                    LoggerView {
                        size,
                        open: false,
                        line: None,
                        phase: LogPhase::Rotating,
                        ..self
                    }
                } else {
                    LoggerView { size, line: None, phase: LogPhase::Resting, ..self }
                }
            },
            (LogPhase::Rotating, LogHeard::Went(true)) => LoggerView {
                size: 0,
                phase: LogPhase::Folder,
                ..self
            },
            (LogPhase::Resting, _) => self,
            _ => self.failed(),
        }
    }

    /// What has to be done next.
    pub open spec fn asks(self) -> LogAskView {
        match self.phase {
            LogPhase::Resting => if self.open {
                LogAskView::Done
            } else {
                LogAskView::Close
            },
            LogPhase::Folder => LogAskView::Folder(self.path),
            LogPhase::Opening => LogAskView::Open(self.path),
            LogPhase::Heading => LogAskView::Append(ended(HEADER@)),
            LogPhase::Appending => LogAskView::Append(
                ended(
                    match self.line {
                        Some(line) => line,
                        None => Seq::empty(),
                    },
                ),
            ),
            LogPhase::Rotating => LogAskView::Rotate { from: self.path, to: rotated(self.path) },
        }
    }
}

/// An append-only file that rotates once and gives up permanently on failure.
pub struct Logger {
    path: String,
    open: bool,
    size: u64,
    broken: bool,
    line: Option<String>,
    max_bytes: u64,
    phase: LogPhase,
}

impl View for Logger {
    type V = LoggerView;

    closed spec fn view(&self) -> LoggerView {
        LoggerView {
            path: self.path@,
            open: self.open,
            size: self.size,
            broken: self.broken,
            line: match self.line {
                Some(line) => Some(line@),
                None => None,
            },
            max_bytes: self.max_bytes,
            phase: self.phase,
        }
    }
}

/// A size with this much more in it, as far as it can count.
fn grow(size: u64, text: &str) -> (r: u64)
    ensures
        r == grown(size, text@),
{
    let more: u64 = text.as_bytes().len() as u64;
    size.saturating_add(more)
}

/// A line with the break that ends it.
///
/// One write rather than two, so a line and its terminator cannot end up
/// separated by anything else that has the file open.
fn end_line(line: &str) -> (r: String)
    ensures
        r@ == ended(line@),
{
    let mut s = line.to_owned();
    s.append("\r\n");
    s
}

impl Logger {
    pub fn new(path: String) -> (r: Self)
        ensures
            r@ == (LoggerView {
                path: path@,
                open: false,
                size: 0,
                broken: false,
                line: None,
                max_bytes: 0,
                phase: LogPhase::Resting,
            }),
    {
        Logger {
            path,
            open: false,
            size: 0,
            broken: false,
            line: None,
            max_bytes: 0,
            phase: LogPhase::Resting,
        }
    }

    /// Appends one line, and says what has to be done first. Cannot fail, by
    /// construction.
    ///
    /// `max_bytes` is given on every call rather than remembered, because the
    /// setting behind it can change while the program is running.
    pub fn write_line(&mut self, line: String, max_bytes: u64) -> (r: LogAsk)
        ensures
            final(self)@ == old(self)@.begun(line@, max_bytes),
            r@ == final(self)@.asks(),
    {
        if self.broken {
            self.line = None;
            self.phase = LogPhase::Resting;
        } else {
            self.line = Some(line);
            self.max_bytes = max_bytes;
            self.phase = if self.open {
                LogPhase::Appending
            } else {
                LogPhase::Folder
            };
        }
        self.ask()
    }

    /// Takes in what came of it, and says what has to be done next.
    pub fn hear(&mut self, heard: LogHeard) -> (r: LogAsk)
        ensures
            final(self)@ == old(self)@.after(heard),
            r@ == final(self)@.asks(),
    {
        match (self.phase, heard) {
            (LogPhase::Folder, LogHeard::Went(true)) => {
                self.phase = LogPhase::Opening;
            },
            (LogPhase::Opening, LogHeard::Opened(Some(size))) => {
                // A header for a file that is new, or that has just been
                // rotated away, and never for one that already has rows in it.
                if size == 0 {
                    self.phase = LogPhase::Heading;
                } else {
                    self.open_at(size);
                }
            },
            (LogPhase::Heading, LogHeard::Went(true)) => {
                let size = grow(0, end_line(HEADER).as_str());
                self.open_at(size);
            },
            (LogPhase::Appending, LogHeard::Went(true)) => {
                let text = self.line_text();
                self.size = grow(self.size, text.as_str());
                self.line = None;
                if self.size >= self.max_bytes {
                    self.open = false;
                    self.phase = LogPhase::Rotating;
                } else {
                    self.phase = LogPhase::Resting;
                }
            },
            (LogPhase::Rotating, LogHeard::Went(true)) => {
                self.size = 0;
                self.phase = LogPhase::Folder;
            },
            (LogPhase::Resting, _) => {},
            _ => {
                self.fail();
            },
        }
        self.ask()
    }

    /// Lets go of the file, for when logging has been turned off. With
    /// nothing open, the file can be moved, mailed or deleted without this
    /// program having an opinion about it.
    pub fn close(&mut self)
        ensures
            final(self)@ == (LoggerView {
                open: false,
                size: 0,
                line: None,
                phase: LogPhase::Resting,
                ..old(self)@
            }),
    {
        self.open = false;
        self.size = 0;
        self.line = None;
        self.phase = LogPhase::Resting;
    }

    /// Whether logging has given up for the rest of the session.
    pub fn is_broken(&self) -> (r: bool)
        ensures
            r == self@.broken,
    {
        self.broken
    }

    fn fail(&mut self)
        ensures
            final(self)@ == old(self)@.failed(),
    {
        self.broken = true;
        self.open = false;
        self.line = None;
        self.phase = LogPhase::Resting;
    }

    /// Takes the file as open, at this size.
    fn open_at(&mut self, size: u64)
        ensures
            final(self)@ == old(self)@.opened(size),
    {
        self.open = true;
        self.size = size;
        self.phase = if self.line.is_some() {
            LogPhase::Appending
        } else {
            LogPhase::Resting
        };
    }

    /// The line that is waiting, with the break that ends it.
    fn line_text(&self) -> (r: String)
        ensures
            r@ == ended(
                match self@.line {
                    Some(line) => line,
                    None => Seq::empty(),
                },
            ),
    {
        match &self.line {
            Some(line) => end_line(line.as_str()),
            None => end_line(String::new().as_str()),
        }
    }

    /// What has to be done next.
    fn ask(&self) -> (r: LogAsk)
        ensures
            r@ == self@.asks(),
    {
        match self.phase {
            LogPhase::Resting => if self.open {
                LogAsk::Done
            } else {
                LogAsk::Close
            },
            LogPhase::Folder => LogAsk::Folder(self.path.clone()),
            LogPhase::Opening => LogAsk::Open(self.path.clone()),
            LogPhase::Heading => LogAsk::Append(end_line(HEADER)),
            LogPhase::Appending => LogAsk::Append(self.line_text()),
            LogPhase::Rotating => LogAsk::Rotate {
                from: self.path.clone(),
                to: rotated_path(self.path.as_str()),
            },
        }
    }
}

/// A history that gave up stays that way, whatever is asked of it or said to
/// it, and asks for nothing but to be let go of.
pub proof fn giving_up_is_for_the_session(
    l: LoggerView,
    line: Seq<char>,
    max_bytes: u64,
    heard: LogHeard,
)
    requires
        l.broken,
        !l.open,
        l.phase == LogPhase::Resting,
    ensures
        l.begun(line, max_bytes).broken,
        l.begun(line, max_bytes).asks() == LogAskView::Close,
        l.after(heard) == l,
{
}

/// Any failure is the last thing a history does: it lets go of the file and
/// has given up.
pub proof fn a_failure_turns_the_history_off(l: LoggerView)
    requires
        l.phase != LogPhase::Resting,
    ensures
        l.after(LogHeard::Went(false)).broken,
        l.after(LogHeard::Opened(None)).broken,
        l.after(LogHeard::Went(false)).asks() == LogAskView::Close,
        l.after(LogHeard::Opened(None)).asks() == LogAskView::Close,
{
}

/// The column names are written to a file that is empty and to no other.
pub proof fn only_an_empty_file_gets_a_header(l: LoggerView, size: u64)
    requires
        l.phase == LogPhase::Opening,
    ensures
        l.after(LogHeard::Opened(Some(size))).phase == LogPhase::Heading <==> size == 0,
        size != 0 ==> l.after(LogHeard::Opened(Some(size))) == l.opened(size),
{
}

/// A line written leaves a file below its limit, or a file on its way to
/// being put aside: neither outgrows the limit by more than the line that
/// crossed it.
pub proof fn the_file_is_held_to_its_limit(l: LoggerView, line: Seq<char>)
    requires
        l.phase == LogPhase::Appending,
        l.line == Some(line),
    ensures
        ({
            let then_ = l.after(LogHeard::Went(true));
            &&& then_.size == grown(l.size, ended(line))
            &&& then_.phase == LogPhase::Resting ==> then_.size < l.max_bytes
            &&& then_.phase == LogPhase::Rotating <==> then_.size >= l.max_bytes
            &&& then_.phase == LogPhase::Rotating ==> then_.asks() == (LogAskView::Rotate {
                from: l.path,
                to: rotated(l.path),
            })
        }),
{
}

/// Rotation keeps one generation: the live file is put in the place of the
/// one before it, and a fresh file begins with its own column names.
pub proof fn rotation_starts_a_fresh_file(l: LoggerView)
    requires
        l.phase == LogPhase::Rotating,
        l.line is None,
    ensures
        ({
            let fresh = l.after(LogHeard::Went(true)).after(LogHeard::Went(true)).after(
                LogHeard::Opened(Some(0)),
            );
            &&& fresh.asks() == LogAskView::Append(ended(HEADER@))
            &&& fresh.after(LogHeard::Went(true)).asks() == LogAskView::Done
            &&& fresh.after(LogHeard::Went(true)).size == grown(0, ended(HEADER@))
        }),
{
}

/// How many commas outside quotes there are so far, and whether a quote is
/// open, reading on from there through a piece of text.
pub open spec fn scanned(from: (int, bool), s: Seq<char>) -> (int, bool)
    decreases s.len(),
{
    if s.len() == 0 {
        from
    } else {
        let (commas, quoted) = scanned(from, s.drop_last());
        if s.last() == '"' {
            (commas, !quoted)
        } else if s.last() == ',' && !quoted {
            (commas + 1, quoted)
        } else {
            (commas, quoted)
        }
    }
}

proof fn scanning_joins(from: (int, bool), a: Seq<char>, b: Seq<char>)
    ensures
        scanned(from, a + b) == scanned(scanned(from, a), b),
    decreases b.len(),
{
    if b.len() == 0 {
        assert(a + b =~= a);
    } else {
        assert((a + b).drop_last() =~= a + b.drop_last());
        scanning_joins(from, a, b.drop_last());
    }
}

/// Whether nothing in a piece of text would let it be misread.
pub open spec fn settled(text: Seq<char>) -> bool {
    forall|i: int| 0 <= i < text.len() ==> !unsettles(#[trigger] text[i])
}

proof fn settled_text_is_skipped(from: (int, bool), text: Seq<char>)
    requires
        settled(text),
    ensures
        scanned(from, text) == from,
    decreases text.len(),
{
    if text.len() > 0 {
        assert(!unsettles(text[text.len() - 1]));
        assert forall|i: int| 0 <= i < text.drop_last().len() implies !unsettles(
            #[trigger] text.drop_last()[i],
        ) by {
            assert(text.drop_last()[i] == text[i]);
        }
        settled_text_is_skipped(from, text.drop_last());
    }
}

proof fn doubling_hides_the_quotes(commas: int, text: Seq<char>)
    ensures
        scanned((commas, true), doubled(text)) == (commas, true),
    decreases text.len(),
{
    if text.len() > 0 {
        doubling_hides_the_quotes(commas, text.drop_last());
        let before = doubled(text.drop_last());
        if text.last() == '"' {
            assert(before.push('"').push('"').drop_last() =~= before.push('"'));
            assert(before.push('"').drop_last() =~= before);
            reveal_with_fuel(scanned, 3);
        } else {
            assert(before.push(text.last()).drop_last() =~= before);
        }
    }
}

proof fn a_field_is_skipped(commas: int, text: Seq<char>)
    ensures
        scanned((commas, false), field(text)) == (commas, false),
{
    if exists|i: int| 0 <= i < text.len() && unsettles(#[trigger] text[i]) {
        let open = seq!['"'];
        assert(open.drop_last() =~= Seq::empty());
        assert(scanned((commas, false), open) == (commas, true)) by {
            reveal_with_fuel(scanned, 2);
        }
        doubling_hides_the_quotes(commas, text);
        scanning_joins((commas, false), open, doubled(text));
        scanning_joins((commas, false), open + doubled(text), open);
        assert(scanned((commas, true), open) == (commas, false)) by {
            reveal_with_fuel(scanned, 2);
        }
    } else {
        settled_text_is_skipped((commas, false), text);
    }
}

proof fn numbers_are_settled(n: nat)
    ensures
        settled(crate::text::decimal_nat(n)),
    decreases n,
{
    if n >= 10 {
        numbers_are_settled(n / 10);
    }
}

proof fn joining_settled_text(a: Seq<char>, b: Seq<char>)
    requires
        settled(a),
        settled(b),
    ensures
        settled(a + b),
{
    assert forall|i: int| 0 <= i < (a + b).len() implies !unsettles(#[trigger] (a + b)[i]) by {
        if i < a.len() {
            assert((a + b)[i] == a[i]);
        } else {
            assert((a + b)[i] == b[i - a.len()]);
        }
    }
}

proof fn a_cell_follows(commas: int, line: Seq<char>, cell: Seq<char>)
    requires
        scanned((0, false), line) == (commas, false),
        scanned((commas + 1, false), cell) == (commas + 1, false),
    ensures
        scanned((0, false), line + ","@ + cell) == (commas + 1, false),
{
    reveal_strlit(",");
    scanning_joins((0, false), line, ","@);
    assert(","@.drop_last() =~= Seq::empty());
    assert(scanned((commas, false), ","@) == (commas + 1, false)) by {
        reveal_with_fuel(scanned, 2);
    }
    scanning_joins((0, false), line + ","@, cell);
}

/// A line has one cell for every column, whatever the mode and the profile
/// are called: seven commas outside quotes, as the column names have.
pub proof fn a_line_has_one_cell_for_every_column(record: Record<'_>, stamp: Seq<char>)
    requires
        settled(stamp),
    ensures
        scanned((0, false), record.written(stamp)) == (7int, false),
        scanned((0, false), HEADER@) == (7int, false),
{
    reveal_strlit("bios");
    if let Some((index, celsius)) = record.hottest {
        numbers_are_settled(index as nat);
        numbers_are_settled(celsius as nat);
        numbers_are_settled((-celsius) as nat);
        if celsius < 0 {
            joining_settled_text(seq!['-'], crate::text::decimal_nat((-celsius) as nat));
        }
    }
    if let Some(level) = record.applied {
        numbers_are_settled(level as nat);
    }
    if let Some(rpm) = record.fan_rpm {
        numbers_are_settled(rpm[0] as nat);
        numbers_are_settled(rpm[1] as nat);
    }
    settled_text_is_skipped((0, false), stamp);
    settled_text_is_skipped((1, false), record.sensor_cell());
    settled_text_is_skipped((2, false), record.temp_cell());
    settled_text_is_skipped((3, false), record.level_cell());
    settled_text_is_skipped((4, false), record.speed_cell(0));
    settled_text_is_skipped((5, false), record.speed_cell(1));
    a_field_is_skipped(6, record.mode@);
    a_field_is_skipped(7, record.profile@);
    let a = stamp;
    let b = a + ","@ + record.sensor_cell();
    let c = b + ","@ + record.temp_cell();
    let d = c + ","@ + record.level_cell();
    let e = d + ","@ + record.speed_cell(0);
    let f = e + ","@ + record.speed_cell(1);
    let g = f + ","@ + field(record.mode@);
    a_cell_follows(0, a, record.sensor_cell());
    a_cell_follows(1, b, record.temp_cell());
    a_cell_follows(2, c, record.level_cell());
    a_cell_follows(3, d, record.speed_cell(0));
    a_cell_follows(4, e, record.speed_cell(1));
    a_cell_follows(5, f, field(record.mode@));
    a_cell_follows(6, g, field(record.profile@));
    the_header_has_eight_columns();
}

proof fn the_header_has_eight_columns()
    ensures
        scanned((0, false), HEADER@) == (7int, false),
{
    reveal_strlit("timestamp,sensor,temp_c,level,fan1_rpm,fan2_rpm,mode,profile");
    reveal_strlit(",");
    reveal_strlit("timestamp");
    reveal_strlit("sensor");
    reveal_strlit("temp_c");
    reveal_strlit("level");
    reveal_strlit("fan1_rpm");
    reveal_strlit("fan2_rpm");
    reveal_strlit("mode");
    reveal_strlit("profile");
    settled_text_is_skipped((0, false), "timestamp"@);
    settled_text_is_skipped((1, false), "sensor"@);
    settled_text_is_skipped((2, false), "temp_c"@);
    settled_text_is_skipped((3, false), "level"@);
    settled_text_is_skipped((4, false), "fan1_rpm"@);
    settled_text_is_skipped((5, false), "fan2_rpm"@);
    settled_text_is_skipped((6, false), "mode"@);
    settled_text_is_skipped((7, false), "profile"@);
    let a = "timestamp"@;
    let b = a + ","@ + "sensor"@;
    let c = b + ","@ + "temp_c"@;
    let d = c + ","@ + "level"@;
    let e = d + ","@ + "fan1_rpm"@;
    let f = e + ","@ + "fan2_rpm"@;
    let g = f + ","@ + "mode"@;
    let h = g + ","@ + "profile"@;
    a_cell_follows(0, a, "sensor"@);
    a_cell_follows(1, b, "temp_c"@);
    a_cell_follows(2, c, "level"@);
    a_cell_follows(3, d, "fan1_rpm"@);
    a_cell_follows(4, e, "fan2_rpm"@);
    a_cell_follows(5, f, "mode"@);
    a_cell_follows(6, g, "profile"@);
    assert(HEADER@ =~= h);
}

/// How far a reader of comma separated values has got: the cells behind it,
/// the one it is in, whether that is inside quotes, and whether the last
/// character closed them.
pub ghost struct Reader {
    pub done: Seq<Seq<char>>,
    pub cell: Seq<char>,
    pub quoted: bool,
    pub closed: bool,
}

impl Reader {
    /// One character further on. Inside quotes a quote ends them, and one that
    /// follows at once stands for a quote.
    pub open spec fn takes(self, c: char) -> Reader {
        if self.quoted {
            if c == '"' {
                Reader { quoted: false, closed: true, ..self }
            } else {
                Reader { cell: self.cell.push(c), ..self }
            }
        } else if c == '"' {
            if self.closed {
                Reader { cell: self.cell.push('"'), quoted: true, closed: false, ..self }
            } else {
                Reader { quoted: true, closed: false, ..self }
            }
        } else if c == ',' {
            Reader {
                done: self.done.push(self.cell),
                cell: Seq::empty(),
                quoted: false,
                closed: false,
            }
        } else {
            Reader { cell: self.cell.push(c), closed: false, ..self }
        }
    }

    /// A piece of text further on.
    pub open spec fn reads(self, s: Seq<char>) -> Reader
        decreases s.len(),
    {
        if s.len() == 0 {
            self
        } else {
            self.reads(s.drop_last()).takes(s.last())
        }
    }
}

/// The cells a line of comma separated values holds.
pub open spec fn cells_of(line: Seq<char>) -> Seq<Seq<char>> {
    let end = (Reader {
        done: Seq::empty(),
        cell: Seq::empty(),
        quoted: false,
        closed: false,
    }).reads(line);
    end.done.push(end.cell)
}

proof fn reading_joins(r: Reader, a: Seq<char>, b: Seq<char>)
    ensures
        r.reads(a + b) == r.reads(a).reads(b),
    decreases b.len(),
{
    if b.len() == 0 {
        assert(a + b =~= a);
    } else {
        assert((a + b).drop_last() =~= a + b.drop_last());
        reading_joins(r, a, b.drop_last());
    }
}

proof fn settled_text_is_read(r: Reader, text: Seq<char>)
    requires
        settled(text),
        !r.quoted,
        !r.closed,
    ensures
        r.reads(text) == (Reader { cell: r.cell + text, ..r }),
    decreases text.len(),
{
    if text.len() > 0 {
        let before = text.drop_last();
        assert(!unsettles(text[text.len() - 1]));
        assert forall|i: int| 0 <= i < before.len() implies !unsettles(#[trigger] before[i]) by {
            assert(before[i] == text[i]);
        }
        settled_text_is_read(r, before);
        assert((r.cell + before).push(text.last()) =~= r.cell + text);
    } else {
        assert(r.cell + text =~= r.cell);
    }
}

proof fn doubled_text_is_read(r: Reader, text: Seq<char>)
    requires
        r.quoted,
        !r.closed,
    ensures
        r.reads(doubled(text)) == (Reader { cell: r.cell + text, ..r }),
    decreases text.len(),
{
    if text.len() > 0 {
        doubled_text_is_read(r, text.drop_last());
        let before = doubled(text.drop_last());
        assert((r.cell + text.drop_last()).push(text.last()) =~= r.cell + text);
        if text.last() == '"' {
            assert(before.push('"').push('"').drop_last() =~= before.push('"'));
            assert(before.push('"').drop_last() =~= before);
            assert(r.reads(before.push('"')) == r.reads(before).takes('"'));
        } else {
            assert(before.push(text.last()).drop_last() =~= before);
        }
    } else {
        assert(r.cell + text =~= r.cell);
    }
}

proof fn a_field_is_read(r: Reader, text: Seq<char>)
    requires
        !r.quoted,
        !r.closed,
    ensures
        r.reads(field(text)).cell == r.cell + text,
        r.reads(field(text)).done == r.done,
        !r.reads(field(text)).quoted,
{
    if exists|i: int| 0 <= i < text.len() && unsettles(#[trigger] text[i]) {
        let quote = seq!['"'];
        assert(quote.drop_last() =~= Seq::empty());
        assert(r.reads(quote) == r.takes('"')) by {
            reveal_with_fuel(Reader::reads, 2);
        }
        let inside = r.reads(quote);
        doubled_text_is_read(inside, text);
        reading_joins(r, quote, doubled(text));
        reading_joins(r, quote + doubled(text), quote);
        let end = inside.reads(doubled(text));
        assert(end.reads(quote) == end.takes('"')) by {
            reveal_with_fuel(Reader::reads, 2);
        }
    } else {
        settled_text_is_read(r, text);
    }
}

proof fn the_next_cell(r: Reader, line: Seq<char>, cell: Seq<char>)
    requires
        !r.reads(line).quoted,
    ensures
        r.reads(line + ","@ + cell) == (Reader {
            done: r.reads(line).done.push(r.reads(line).cell),
            cell: Seq::empty(),
            quoted: false,
            closed: false,
        }).reads(cell),
{
    reveal_strlit(",");
    assert(","@.drop_last() =~= Seq::empty());
    let end = r.reads(line);
    assert(end.reads(","@) == end.takes(',')) by {
        reveal_with_fuel(Reader::reads, 2);
    }
    reading_joins(r, line, ","@);
    reading_joins(r, line + ","@, cell);
}

proof fn the_next_number(r: Reader, line: Seq<char>, cell: Seq<char>)
    requires
        !r.reads(line).quoted,
        settled(cell),
    ensures
        r.reads(line + ","@ + cell) == (Reader {
            done: r.reads(line).done.push(r.reads(line).cell),
            cell,
            quoted: false,
            closed: false,
        }),
{
    the_next_cell(r, line, cell);
    let fresh = Reader {
        done: r.reads(line).done.push(r.reads(line).cell),
        cell: Seq::empty(),
        quoted: false,
        closed: false,
    };
    settled_text_is_read(fresh, cell);
    assert(Seq::<char>::empty() + cell =~= cell);
}

/// A line reads back. Taken apart as comma separated values it has eight
/// cells: the stamp, the sensor's number, its temperature, the level, or
/// `bios` for the firmware's, the speeds of the two fans, the mode and the
/// profile's name, whatever characters that holds. What was not measured is an
/// empty cell.
pub proof fn a_line_reads_back(record: Record<'_>, stamp: Seq<char>)
    requires
        settled(stamp),
    ensures
        ({
            let cells = cells_of(record.written(stamp));
            &&& cells.len() == 8
            &&& cells[0] == stamp
            &&& record.hottest matches Some((sensor, celsius)) ==> {
                &&& crate::text::all_digits(cells[1]) && crate::text::number(cells[1]) == sensor
                &&& crate::text::integer(cells[2]) == Some(celsius as i32)
            }
            &&& record.hottest is None ==> cells[1].len() == 0 && cells[2].len() == 0
            &&& record.applied matches Some(level) ==> {
                &&& level == 0x80 ==> cells[3] == "bios"@
                &&& level != 0x80 ==> crate::text::all_digits(cells[3]) && crate::text::number(
                    cells[3],
                ) == level
            }
            &&& record.applied is None ==> cells[3].len() == 0
            &&& record.fan_rpm matches Some(rpm) ==> {
                &&& crate::text::all_digits(cells[4]) && crate::text::number(cells[4]) == rpm@[0]
                &&& crate::text::all_digits(cells[5]) && crate::text::number(cells[5]) == rpm@[1]
            }
            &&& record.fan_rpm is None ==> cells[4].len() == 0 && cells[5].len() == 0
            &&& cells[6] == record.mode@
            &&& cells[7] == record.profile@
        }),
{
    reveal_strlit("bios");
    let r = Reader { done: Seq::empty(), cell: Seq::empty(), quoted: false, closed: false };
    let c1 = record.sensor_cell();
    let c2 = record.temp_cell();
    let c3 = record.level_cell();
    let c4 = record.speed_cell(0);
    let c5 = record.speed_cell(1);
    match record.hottest {
        Some((sensor, celsius)) => {
            numbers_are_settled(sensor as nat);
            crate::text::a_number_written_reads_back(sensor as nat);
            crate::text::an_integer_written_reads_back(celsius as i32);
            if celsius < 0 {
                numbers_are_settled((-(celsius as int)) as nat);
                joining_settled_text(
                    seq!['-'],
                    crate::text::decimal_nat((-(celsius as int)) as nat),
                );
            } else {
                numbers_are_settled(celsius as nat);
            }
        },
        None => {},
    }
    match record.applied {
        Some(level) => {
            numbers_are_settled(level as nat);
            crate::text::a_number_written_reads_back(level as nat);
        },
        None => {},
    }
    match record.fan_rpm {
        Some(rpm) => {
            numbers_are_settled(rpm[0] as nat);
            numbers_are_settled(rpm[1] as nat);
            crate::text::a_number_written_reads_back(rpm[0] as nat);
            crate::text::a_number_written_reads_back(rpm[1] as nat);
        },
        None => {},
    }
    settled_text_is_read(r, stamp);
    assert(r.cell + stamp =~= stamp);
    let l1 = stamp + ","@ + c1;
    let l2 = l1 + ","@ + c2;
    let l3 = l2 + ","@ + c3;
    let l4 = l3 + ","@ + c4;
    let l5 = l4 + ","@ + c5;
    let l6 = l5 + ","@ + field(record.mode@);
    the_next_number(r, stamp, c1);
    the_next_number(r, l1, c2);
    the_next_number(r, l2, c3);
    the_next_number(r, l3, c4);
    the_next_number(r, l4, c5);
    the_next_cell(r, l5, field(record.mode@));
    let sixth = Reader {
        done: r.reads(l5).done.push(r.reads(l5).cell),
        cell: Seq::empty(),
        quoted: false,
        closed: false,
    };
    a_field_is_read(sixth, record.mode@);
    assert(sixth.cell + record.mode@ =~= record.mode@);
    the_next_cell(r, l6, field(record.profile@));
    let seventh = Reader {
        done: r.reads(l6).done.push(r.reads(l6).cell),
        cell: Seq::empty(),
        quoted: false,
        closed: false,
    };
    a_field_is_read(seventh, record.profile@);
    assert(seventh.cell + record.profile@ =~= record.profile@);
    assert(record.written(stamp) == l6 + ","@ + field(record.profile@));
}

/// A stamp is the date and the time of day to the second: four digits and two
/// each, `-` between the parts of the date, `T` before the time and `:`
/// between its parts.
pub proof fn a_stamp_is_the_date_and_the_time(m: Moment)
    requires
        m.year <= 9999,
        m.month <= 99,
        m.day <= 99,
        m.hour <= 99,
        m.minute <= 99,
        m.second <= 99,
    ensures
        ({
            let s = iso(m);
            &&& s.len() == 19
            &&& s[4] == '-' && s[7] == '-' && s[10] == 'T' && s[13] == ':' && s[16] == ':'
            &&& crate::text::number(s.subrange(0, 4)) == m.year
            &&& crate::text::number(s.subrange(5, 7)) == m.month
            &&& crate::text::number(s.subrange(8, 10)) == m.day
            &&& crate::text::number(s.subrange(11, 13)) == m.hour
            &&& crate::text::number(s.subrange(14, 16)) == m.minute
            &&& crate::text::number(s.subrange(17, 19)) == m.second
            &&& settled(s)
        }),
{
    reveal_strlit("-");
    reveal_strlit("T");
    reveal_strlit(":");
    padding_keeps_the_number(m.year as nat, 4);
    padding_keeps_the_number(m.month as nat, 2);
    padding_keeps_the_number(m.day as nat, 2);
    padding_keeps_the_number(m.hour as nat, 2);
    padding_keeps_the_number(m.minute as nat, 2);
    padding_keeps_the_number(m.second as nat, 2);
    let s = iso(m);
    assert(s.subrange(0, 4) =~= padded(m.year as nat, 4));
    assert(s.subrange(5, 7) =~= padded(m.month as nat, 2));
    assert(s.subrange(8, 10) =~= padded(m.day as nat, 2));
    assert(s.subrange(11, 13) =~= padded(m.hour as nat, 2));
    assert(s.subrange(14, 16) =~= padded(m.minute as nat, 2));
    assert(s.subrange(17, 19) =~= padded(m.second as nat, 2));
    joining_settled_text(padded(m.year as nat, 4), "-"@);
    joining_settled_text(padded(m.year as nat, 4) + "-"@, padded(m.month as nat, 2));
    let date = padded(m.year as nat, 4) + "-"@ + padded(m.month as nat, 2);
    joining_settled_text(date, "-"@);
    joining_settled_text(date + "-"@, padded(m.day as nat, 2));
    let day = date + "-"@ + padded(m.day as nat, 2);
    joining_settled_text(day, "T"@);
    joining_settled_text(day + "T"@, padded(m.hour as nat, 2));
    let hour = day + "T"@ + padded(m.hour as nat, 2);
    joining_settled_text(hour, ":"@);
    joining_settled_text(hour + ":"@, padded(m.minute as nat, 2));
    let minute = hour + ":"@ + padded(m.minute as nat, 2);
    joining_settled_text(minute, ":"@);
    joining_settled_text(minute + ":"@, padded(m.second as nat, 2));
}

proof fn digits_needed(n: nat, width: nat)
    requires
        width == 2 && n <= 99 || width == 4 && n <= 9999,
    ensures
        crate::text::decimal_nat(n).len() <= width,
{
    reveal_with_fuel(crate::text::decimal_nat, 5);
}

proof fn zeros_in_front(count: nat, digits: Seq<char>)
    ensures
        crate::text::number(Seq::new(count, |i: int| '0') + digits) == crate::text::number(digits),
    decreases digits.len(), count,
{
    let zeros = Seq::new(count, |i: int| '0');
    let all = zeros + digits;
    if digits.len() > 0 {
        assert(all.drop_last() =~= zeros + digits.drop_last());
        assert(all.last() == digits.last());
        zeros_in_front(count, digits.drop_last());
    } else if count > 0 {
        let fewer = Seq::new((count - 1) as nat, |i: int| '0');
        assert(all.drop_last() =~= fewer + digits);
        assert(all.last() == '0');
        zeros_in_front((count - 1) as nat, digits);
    } else {
        assert(all =~= digits);
    }
}

proof fn padding_keeps_the_number(n: nat, width: nat)
    requires
        width == 2 && n <= 99 || width == 4 && n <= 9999,
    ensures
        padded(n, width).len() == width,
        crate::text::number(padded(n, width)) == n,
        settled(padded(n, width)),
{
    let digits = crate::text::decimal_nat(n);
    digits_needed(n, width);
    crate::text::a_number_written_reads_back(n);
    numbers_are_settled(n);
    let zeros = Seq::new((width - digits.len()) as nat, |i: int| '0');
    zeros_in_front((width - digits.len()) as nat, digits);
    joining_settled_text(zeros, digits);
}

/// A line that is to be kept goes into the file whole, with a carriage return
/// and a line feed behind it: at once where the file is open, and otherwise
/// behind the folder and the file, and behind the column names where the file
/// is empty.
pub proof fn a_line_goes_into_the_file(l: LoggerView, line: Seq<char>, max_bytes: u64, size: u64)
    requires
        !l.broken,
        size > 0,
    ensures
        ({
            let begun = l.begun(line, max_bytes);
            let folder = begun.after(LogHeard::Went(true));
            let full = folder.after(LogHeard::Opened(Some(size)));
            let empty = folder.after(LogHeard::Opened(Some(0)));
            let headed = empty.after(LogHeard::Went(true));
            &&& begun.max_bytes == max_bytes && begun.path == l.path
            &&& l.open ==> begun.asks() == LogAskView::Append(line + "\r\n"@)
            &&& !l.open ==> {
                &&& begun.asks() == LogAskView::Folder(l.path)
                &&& folder.asks() == LogAskView::Open(l.path)
                &&& full.asks() == LogAskView::Append(line + "\r\n"@)
                &&& full.size == size
                &&& empty.asks() == LogAskView::Append(
                    "timestamp,sensor,temp_c,level,fan1_rpm,fan2_rpm,mode,profile"@ + "\r\n"@,
                )
                &&& headed.asks() == LogAskView::Append(line + "\r\n"@)
            }
        }),
{
}

/// Once a line is in, the file is put aside exactly when it has reached its
/// limit, and nothing more is asked otherwise. The size counts the bytes of
/// the line and of its end.
pub proof fn a_full_file_is_put_aside(l: LoggerView, line: Seq<char>)
    requires
        l.phase == LogPhase::Appending,
        l.open,
        l.line == Some(line),
        l.size + encode_utf8(line + "\r\n"@).len() <= u64::MAX,
    ensures
        ({
            let size = l.size + encode_utf8(line + "\r\n"@).len();
            let next = l.after(LogHeard::Went(true));
            &&& size >= l.max_bytes ==> next.asks() is Rotate && !next.open
            &&& size < l.max_bytes ==> next.asks() == LogAskView::Done && next.open && next.size
                == size
            &&& next.line is None && !next.broken == !l.broken
        }),
{
}

/// A file put aside stays in its folder and keeps its extension, with a 1
/// between that and its stem.
pub proof fn a_file_put_aside_stays_beside(
    dir: Seq<char>,
    stem: Seq<char>,
    extension: Seq<char>,
)
    requires
        crate::paths::full_directory(dir),
        stem.len() > 0,
        crate::paths::plain_name(stem + seq!['.'] + extension),
        forall|i: int| 0 <= i < extension.len() ==> #[trigger] extension[i] != '.',
    ensures
        rotated(dir + seq!['\\'] + (stem + seq!['.'] + extension)) == dir + seq!['\\'] + (stem
            + ".1."@ + extension),
{
    reveal_strlit(".1.");
    let name = stem + seq!['.'] + extension;
    let aside = stem + ".1."@ + extension;
    crate::paths::a_name_is_its_stem_and_its_extension(dir, stem, extension, seq!['x']);
    assert forall|i: int| 0 <= i < aside.len() implies #[trigger] aside[i] != '\\' && aside[i]
        != '/' && aside[i] != ':' by {
        if i < stem.len() {
            assert(aside[i] == name[i]);
        } else if i >= stem.len() + 3 {
            assert(aside[i] == name[i - 2]);
        } else {
            assert(aside[i] == ".1."@[i - stem.len()]);
        }
    }
    assert(aside.len() >= 4);
    crate::paths::a_file_goes_by_its_name(dir, name, aside);
}

} // verus!
