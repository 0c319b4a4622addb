//! Reading curves out of a TPFanControl ini.
//!
//! ```text
//! Level=46 0 0 3
//! Level=52 1 0 5
//! Level=90 128 0 7
//! ```
//!
//! Only the curves are read. Text in, curves out: no file, no window, no
//! clock.

use vstd::prelude::*;

use crate::config::{HYST_DOWN_MAX, HYST_UP_MAX};
use crate::curve::{curve_fault, valid_curve, Curve, CurveError, CurvePoint};
use crate::ec::{FAN_BIOS, FAN_DISENGAGED, FAN_LEVEL_MAX};
use crate::text::{
    chars_of, find_char, lower_chars, parse_integer, part, split_lines, split_words, string_of,
    trim,
};

verus! {

/// The level TPFanControl writes for "give the fan back to the firmware".
pub const INI_BIOS: i32 = 128;

/// Why a file gives no curves.
#[derive(Debug, Clone, Copy, PartialEq, Eq, Structural)]
pub enum ImportError {
    /// Not one `Level=` line anywhere. Almost always the wrong file.
    NoCurve,
    /// The lines were there but do not describe a curve this program would
    /// accept. Reported, not repaired.
    Curve(CurveError),
}

impl ImportError {
    pub open spec fn words(self) -> Seq<char> {
        match self {
            ImportError::NoCurve =>
                "there are no Level= lines in that file, so there is no curve in it to import"@,
            ImportError::Curve(e) => "the curve in that file is not usable: "@ + e.words(),
        }
    }

    pub fn to_string(&self) -> (r: String)
        ensures
            r@ == self.words(),
    {
        match self {
            ImportError::NoCurve =>
                "there are no Level= lines in that file, so there is no curve in it to import".to_owned(),
            ImportError::Curve(e) => {
                let mut s = "the curve in that file is not usable: ".to_owned();
                s.append(e.to_string().as_str());
                s
            },
        }
    }
}

/// One curve found in the file, plus what changed on the way in.
#[derive(Debug)]
pub struct Imported {
    /// `Level` or `Level2`, which is what the second smart profile is called.
    pub key: String,
    pub curve: Curve,
    /// Temperatures whose level was the disengaged byte, which this program
    /// will not run. Substituted, and reported.
    pub disengaged_at: Vec<i8>,
    /// Whether any hysteresis figure had to be brought inside the range this
    /// program will run.
    pub hysteresis_clamped: bool,
}

/// One curve found in the file, mathematically.
pub struct ImportedView {
    pub key: Seq<char>,
    pub curve: Seq<CurvePoint>,
    pub disengaged_at: Seq<i8>,
    pub hysteresis_clamped: bool,
}

impl View for Imported {
    type V = ImportedView;

    open spec fn view(&self) -> ImportedView {
        ImportedView {
            key: self.key@,
            curve: self.curve@,
            disengaged_at: self.disengaged_at@,
            hysteresis_clamped: self.hysteresis_clamped,
        }
    }
}

/// Where a comment begins, from place `i` on: at two slashes, or nowhere.
pub open spec fn comment_start(line: Seq<char>, i: int) -> int
    decreases line.len() - i,
{
    if i + 1 >= line.len() {
        line.len() as int
    } else if line[i] == '/' && line[i + 1] == '/' {
        i
    } else {
        comment_start(line, i + 1)
    }
}

/// Which of the two curves a key names: matched in any case and with blanks
/// around it.
pub open spec fn curve_key(key: Seq<char>) -> Option<bool> {
    let name = crate::text::lowered(crate::text::trimmed(key));
    if name == "level"@ {
        Some(false)
    } else if name == "level2"@ {
        Some(true)
    } else {
        None
    }
}

/// How a curve is called: the first, or the second smart profile.
pub open spec fn key_name(second: bool) -> Seq<char> {
    if second {
        "Level2"@
    } else {
        "Level"@
    }
}

/// TPFanControl's fan byte, as a level this program will run, and whether the
/// disengaged byte was substituted. Anything that is not a level is read as
/// the firmware step.
pub open spec fn translated(level: i32) -> (u8, bool) {
    if level == FAN_DISENGAGED {
        (FAN_LEVEL_MAX, true)
    } else if 0 <= level <= FAN_LEVEL_MAX {
        (level as u8, false)
    } else {
        (FAN_BIOS, false)
    }
}

/// Degrees held between none and a ceiling.
pub open spec fn held_degrees(degrees: i32, ceiling: i8) -> i8 {
    crate::config::between(degrees as int, 0, ceiling as int) as i8
}

/// One line of a curve, once read.
pub struct LineView {
    pub second: bool,
    pub point: CurvePoint,
    pub disengaged: bool,
    pub clamped: bool,
}

/// The number a field holds, or a number in its place when it is missing or
/// holds none.
pub open spec fn field_or(fields: Seq<Seq<char>>, k: int, otherwise: i32) -> i32 {
    if k < fields.len() {
        match crate::text::integer(fields[k]) {
            Some(n) => n,
            None => otherwise,
        }
    } else {
        otherwise
    }
}

/// The point the fields of a line describe: a temperature that is one and a
/// level that is a number, and hysteresis where it is given.
pub open spec fn point_of(second: bool, fields: Seq<Seq<char>>) -> Option<LineView> {
    if fields.len() < 2 {
        None
    } else {
        match (crate::text::integer(fields[0]), crate::text::integer(fields[1])) {
            (Some(temp), Some(level)) => if i8::MIN <= temp <= i8::MAX {
                let up = field_or(fields, 2, 0);
                let down = field_or(fields, 3, 4);
                Some(
                    LineView {
                        second,
                        point: CurvePoint {
                            temp: temp as i8,
                            level: translated(level).0,
                            hyst_up: held_degrees(up, HYST_UP_MAX),
                            hyst_down: held_degrees(down, HYST_DOWN_MAX),
                        },
                        disengaged: translated(level).1,
                        clamped: held_degrees(up, HYST_UP_MAX) != up || held_degrees(
                            down,
                            HYST_DOWN_MAX,
                        ) != down,
                    },
                )
            } else {
                None
            },
            _ => None,
        }
    }
}

/// What a line of the file says about a curve, if anything: a key and a
/// value around the first equals sign, comments cut off. A line that is not a
/// point is skipped.
pub open spec fn line_point(line: Seq<char>) -> Option<LineView> {
    let said = line.take(comment_start(line, 0));
    let eq = crate::text::find(said, '=', 0);
    if eq >= said.len() {
        None
    } else {
        match curve_key(said.take(eq)) {
            Some(second) => point_of(second, crate::text::words(said.skip(eq + 1))),
            None => None,
        }
    }
}

/// One curve being gathered.
pub struct FoundView {
    pub second: bool,
    pub points: Seq<CurvePoint>,
    pub disengaged_at: Seq<i8>,
    pub clamped: bool,
}

/// Where a curve is among those found, from place `i` on.
pub open spec fn found_at(found: Seq<FoundView>, second: bool, i: int) -> int
    decreases found.len() - i,
{
    if i >= found.len() {
        found.len() as int
    } else if found[i].second == second {
        i
    } else {
        found_at(found, second, i + 1)
    }
}

/// A curve with one more point.
pub open spec fn extended(f: FoundView, line: LineView) -> FoundView {
    FoundView {
        second: f.second,
        points: f.points.push(line.point),
        disengaged_at: if line.disengaged {
            f.disengaged_at.push(line.point.temp)
        } else {
            f.disengaged_at
        },
        clamped: f.clamped || line.clamped,
    }
}

/// A curve nothing has been found of yet.
pub open spec fn nothing_found(second: bool) -> FoundView {
    FoundView { second, points: Seq::empty(), disengaged_at: Seq::empty(), clamped: false }
}

/// What has been found, with one more line: the curve it belongs to gains a
/// point, and a curve not seen before goes to the end.
pub open spec fn noted(found: Seq<FoundView>, line: LineView) -> Seq<FoundView> {
    let i = found_at(found, line.second, 0);
    if i < found.len() {
        found.update(i, extended(found[i], line))
    } else {
        found.push(extended(nothing_found(line.second), line))
    }
}

/// What the first `n` lines of a file hold.
pub open spec fn gathered(lines: Seq<Seq<char>>, n: int) -> Seq<FoundView>
    decreases n,
{
    if n <= 0 {
        Seq::empty()
    } else {
        match line_point(lines[n - 1]) {
            Some(line) => noted(gathered(lines, n - 1), line),
            None => gathered(lines, n - 1),
        }
    }
}

/// Where a point belongs among points in order: behind every point that is
/// no hotter.
pub open spec fn place_for(points: Seq<CurvePoint>, p: CurvePoint) -> int
    decreases points.len(),
{
    if points.len() == 0 {
        0
    } else if points.last().temp <= p.temp {
        points.len() as int
    } else {
        place_for(points.drop_last(), p)
    }
}

/// Points in order of temperature, equally hot ones in the order they came.
pub open spec fn in_order(points: Seq<CurvePoint>) -> Seq<CurvePoint>
    decreases points.len(),
{
    if points.len() == 0 {
        Seq::empty()
    } else {
        let rest = in_order(points.drop_last());
        rest.insert(place_for(rest, points.last()), points.last())
    }
}

/// A gathered curve as it is handed over.
pub open spec fn handed_over(f: FoundView) -> ImportedView {
    ImportedView {
        key: key_name(f.second),
        curve: in_order(f.points),
        disengaged_at: f.disengaged_at,
        hysteresis_clamped: f.clamped,
    }
}

/// The first gathered curve, from place `i` on, that is not a curve.
pub open spec fn first_bad(found: Seq<FoundView>, i: int) -> Option<CurveError>
    decreases found.len() - i,
{
    if i >= found.len() {
        None
    } else {
        match curve_fault(in_order(found[i].points)) {
            Some(e) => Some(e),
            None => first_bad(found, i + 1),
        }
    }
}

/// What importing a text gives.
pub open spec fn outcome(text: Seq<char>) -> Result<Seq<ImportedView>, ImportError> {
    let lines = crate::text::lines(text);
    let found = gathered(lines, lines.len() as int);
    if found.len() == 0 {
        Err(ImportError::NoCurve)
    } else {
        match first_bad(found, 0) {
            Some(e) => Err(ImportError::Curve(e)),
            None => Ok(found.map_values(|f: FoundView| handed_over(f))),
        }
    }
}

/// TPFanControl's fan byte, as a level this program will run.
pub fn translate_level(level: i32) -> (r: (u8, bool))
    ensures
        r == translated(level),
{
    if level == INI_BIOS {
        (FAN_BIOS, false)
    } else if level == FAN_DISENGAGED as i32 {
        (FAN_LEVEL_MAX, true)
    } else if 0 <= level && level <= FAN_LEVEL_MAX as i32 {
        (level as u8, false)
    } else {
        (FAN_BIOS, false)
    }
}

/// Hysteresis as a number of degrees this program will run, and whether it
/// had to be changed to get there.
pub fn clamp_hysteresis(degrees: i32, ceiling: i8) -> (r: (i8, bool))
    requires
        0 <= ceiling,
    ensures
        r.0 == held_degrees(degrees, ceiling),
        r.1 == (r.0 != degrees),
{
    if degrees < 0 {
        (0, true)
    } else if degrees > ceiling as i32 {
        (ceiling, true)
    } else {
        (degrees as i8, false)
    }
}

fn find_comment(line: &Vec<char>) -> (r: usize)
    ensures
        r == comment_start(line@, 0),
        r <= line@.len(),
{
    let mut i: usize = 0;
    while i < line.len()
        invariant
            i <= line@.len(),
            comment_start(line@, 0) == comment_start(line@, i as int),
        decreases line@.len() - i,
    {
        if line.len() - i <= 1 {
            return line.len();
        }
        if line[i] == '/' && line[i + 1] == '/' {
            return i;
        }
        i += 1;
    }
    i
}

fn spells(chars: &Vec<char>, name: &str) -> (r: bool)
    ensures
        r == (chars@ == name@),
{
    let s = string_of(chars);
    crate::text::same(s.as_str(), name)
}

fn read_key(key: &Vec<char>) -> (r: Option<bool>)
    ensures
        r == curve_key(key@),
{
    let name = lower_chars(&trim(key));
    if spells(&name, "level") {
        Some(false)
    } else if spells(&name, "level2") {
        Some(true)
    } else {
        None
    }
}

fn read_field(fields: &Vec<Vec<char>>, k: usize, otherwise: i32) -> (r: i32)
    ensures
        r == field_or(crate::text::runs(fields@), k as int, otherwise),
{
    if k < fields.len() {
        match parse_integer(&fields[k]) {
            Some(n) => n,
            None => otherwise,
        }
    } else {
        otherwise
    }
}

/// One line of a curve, once read.
struct Line {
    second: bool,
    point: CurvePoint,
    disengaged: bool,
    clamped: bool,
}

impl View for Line {
    type V = LineView;

    closed spec fn view(&self) -> LineView {
        LineView {
            second: self.second,
            point: self.point,
            disengaged: self.disengaged,
            clamped: self.clamped,
        }
    }
}

fn read_point(second: bool, fields: &Vec<Vec<char>>) -> (r: Option<Line>)
    ensures
        match point_of(second, crate::text::runs(fields@)) {
            Some(line) => r matches Some(got) && got@ == line,
            None => r is None,
        },
{
    if fields.len() < 2 {
        return None;
    }
    let temp = match parse_integer(&fields[0]) {
        Some(n) => n,
        None => {
            return None;
        },
    };
    let level = match parse_integer(&fields[1]) {
        Some(n) => n,
        None => {
            return None;
        },
    };
    let up = read_field(fields, 2, 0);
    let down = read_field(fields, 3, 4);
    if temp < i8::MIN as i32 || temp > i8::MAX as i32 {
        return None;
    }
    let (level, disengaged) = translate_level(level);
    let (hyst_up, up_clamped) = clamp_hysteresis(up, HYST_UP_MAX);
    let (hyst_down, down_clamped) = clamp_hysteresis(down, HYST_DOWN_MAX);
    Some(
        Line {
            second,
            point: CurvePoint { temp: temp as i8, level, hyst_up, hyst_down },
            disengaged,
            clamped: up_clamped || down_clamped,
        },
    )
}

fn read_line(line: &Vec<char>) -> (r: Option<Line>)
    ensures
        match line_point(line@) {
            Some(l) => r matches Some(got) && got@ == l,
            None => r is None,
        },
{
    let said = part(line, 0, find_comment(line));
    proof {
        assert(said@ == line@.take(comment_start(line@, 0)));
    }
    let eq = find_char(&said, '=', 0);
    if eq >= said.len() {
        return None;
    }
    let key = part(&said, 0, eq);
    proof {
        assert(key@ == said@.take(eq as int));
    }
    match read_key(&key) {
        Some(second) => {
            let value = part(&said, eq + 1, said.len());
            proof {
                assert(value@ == said@.skip(eq + 1));
            }
            let fields = split_words(&value);
            read_point(second, &fields)
        },
        None => None,
    }
}

/// One curve being gathered.
struct Found {
    second: bool,
    points: Vec<CurvePoint>,
    disengaged_at: Vec<i8>,
    clamped: bool,
}

impl View for Found {
    type V = FoundView;

    closed spec fn view(&self) -> FoundView {
        FoundView {
            second: self.second,
            points: self.points@,
            disengaged_at: self.disengaged_at@,
            clamped: self.clamped,
        }
    }
}

spec fn found_views(found: Seq<Found>) -> Seq<FoundView> {
    found.map_values(|f: Found| f@)
}

fn extend(f: Found, line: &Line) -> (r: Found)
    ensures
        r@ == extended(f@, line@),
{
    let mut r = f;
    r.points.push(line.point);
    if line.disengaged {
        r.disengaged_at.push(line.point.temp);
    }
    if line.clamped {
        r.clamped = true;
    }
    r
}

fn note(found: Vec<Found>, line: &Line) -> (r: Vec<Found>)
    ensures
        found_views(r@) == noted(found_views(found@), line@),
{
    let ghost views = found_views(found@);
    let mut list = found;
    let mut i: usize = 0;
    while i < list.len()
        invariant
            i <= list@.len(),
            views == found_views(list@),
            views == found_views(found@),
            found_at(views, line@.second, 0) == found_at(views, line@.second, i as int),
        decreases list@.len() - i,
    {
        proof {
            assert(views[i as int] == list@[i as int]@);
        }
        if list[i].second == line.second {
            let f = list.remove(i);
            let g = extend(f, line);
            list.insert(i, g);
            proof {
                assert(found_views(list@) =~= views.update(i as int, extended(f@, line@)));
            }
            return list;
        }
        i += 1;
    }
    let empty = Found {
        second: line.second,
        points: Vec::new(),
        disengaged_at: Vec::new(),
        clamped: false,
    };
    let g = extend(empty, line);
    list.push(g);
    proof {
        assert(found_views(list@) =~= views.push(
            extended(nothing_found(line@.second), line@),
        ));
    }
    list
}

fn sort(points: &Vec<CurvePoint>) -> (r: Vec<CurvePoint>)
    ensures
        r@ == in_order(points@),
{
    let mut r: Vec<CurvePoint> = Vec::new();
    let mut i: usize = 0;
    proof {
        assert(points@.take(0) == Seq::<CurvePoint>::empty());
    }
    while i < points.len()
        invariant
            i <= points@.len(),
            r@ == in_order(points@.take(i as int)),
        decreases points@.len() - i,
    {
        let p = points[i];
        let mut at: usize = r.len();
        proof {
            assert(r@.take(at as int) == r@);
        }
        while at > 0 && r[at - 1].temp > p.temp
            invariant
                at <= r@.len(),
                place_for(r@, p) == place_for(r@.take(at as int), p),
            decreases at,
        {
            proof {
                assert(r@.take(at as int).last() == r@[at - 1]);
                assert(r@.take(at as int).drop_last() == r@.take(at - 1));
            }
            at -= 1;
        }
        proof {
            if at > 0 {
                assert(r@.take(at as int).last() == r@[at - 1]);
            }
            let upto = points@.take(i + 1);
            assert(upto.drop_last() == points@.take(i as int));
            assert(upto.last() == p);
        }
        r.insert(at, p);
        i += 1;
    }
    proof {
        assert(points@.take(points@.len() as int) == points@);
    }
    r
}

/// Imported curves, mathematically.
pub open spec fn imported_views(v: Seq<Imported>) -> Seq<ImportedView> {
    v.map_values(|i: Imported| i@)
}

/// Pulls every curve out of a TPFanControl ini.
///
/// The order they came in is kept: whichever of `Level` and `Level2` the file
/// names first comes first.
pub fn parse_tpfancontrol_ini(text: &str) -> (r: Result<Vec<Imported>, ImportError>)
    ensures
        match outcome(text@) {
            Ok(curves) => r matches Ok(list) && imported_views(list@) == curves,
            Err(e) => r == Err::<Vec<Imported>, ImportError>(e),
        },
{
    let chars = chars_of(text);
    let lines = split_lines(&chars);
    let ghost said = crate::text::lines(text@);
    let mut found: Vec<Found> = Vec::new();
    let mut n: usize = 0;
    proof {
        assert(found_views(found@) =~= gathered(said, 0));
    }
    while n < lines.len()
        invariant
            n <= lines@.len(),
            said == crate::text::runs(lines@),
            found_views(found@) == gathered(said, n as int),
        decreases lines@.len() - n,
    {
        proof {
            assert(said[n as int] == lines@[n as int]@);
        }
        match read_line(&lines[n]) {
            Some(line) => {
                found = note(found, &line);
            },
            None => {},
        }
        n += 1;
    }
    let ghost views = found_views(found@);
    proof {
        assert(said.len() == lines@.len());
        assert(views == gathered(said, said.len() as int));
    }
    if found.len() == 0 {
        return Err(ImportError::NoCurve);
    }
    let mut curves: Vec<Imported> = Vec::new();
    let mut i: usize = 0;
    while i < found.len()
        invariant
            i <= found@.len(),
            found@.len() > 0,
            views == found_views(found@),
            outcome(text@) == (match first_bad(views, 0) {
                Some(e) => Err::<Seq<ImportedView>, ImportError>(ImportError::Curve(e)),
                None => Ok(views.map_values(|f: FoundView| handed_over(f))),
            }),
            first_bad(views, 0) == first_bad(views, i as int),
            curves@.len() == i,
            forall|k: int| 0 <= k < i ==> (#[trigger] curves@[k])@ == handed_over(views[k]),
        decreases found@.len() - i,
    {
        proof {
            assert(views[i as int] == found@[i as int]@);
        }
        let points = sort(&found[i].points);
        match Curve::new(points) {
            Ok(curve) => {
                let mut disengaged_at: Vec<i8> = Vec::new();
                let mut k: usize = 0;
                while k < found[i as usize].disengaged_at.len()
                    invariant
                        i < found@.len(),
                        k <= found@[i as int].disengaged_at@.len(),
                        disengaged_at@ == found@[i as int].disengaged_at@.take(k as int),
                    decreases found@[i as int].disengaged_at@.len() - k,
                {
                    disengaged_at.push(found[i].disengaged_at[k]);
                    k += 1;
                    proof {
                        let all = found@[i as int].disengaged_at@;
                        assert(all.take(k - 1).push(all[k - 1]) == all.take(k as int));
                    }
                }
                proof {
                    let all = found@[i as int].disengaged_at@;
                    assert(all.take(all.len() as int) == all);
                }
                let key = if found[i].second {
                    "Level2".to_owned()
                } else {
                    "Level".to_owned()
                };
                curves.push(
                    Imported { key, curve, disengaged_at, hysteresis_clamped: found[i].clamped },
                );
            },
            Err(e) => {
                return Err(ImportError::Curve(e));
            },
        }
        i += 1;
    }
    proof {
        assert(imported_views(curves@) =~= views.map_values(|f: FoundView| handed_over(f)));
    }
    Ok(curves)
}

/// Whether a point keeps to what this program runs: an ordinary level or the
/// firmware handoff, and hysteresis inside the bounds.
pub open spec fn proper(p: CurvePoint) -> bool {
    p.legal() && 0 <= p.hyst_up <= HYST_UP_MAX && 0 <= p.hyst_down <= HYST_DOWN_MAX
}

/// Whether every point of a list does.
pub open spec fn all_proper(points: Seq<CurvePoint>) -> bool {
    forall|k: int| 0 <= k < points.len() ==> proper(#[trigger] points[k])
}

/// Whether points are in order of temperature.
pub open spec fn ordered(points: Seq<CurvePoint>) -> bool {
    forall|i: int, j: int|
        0 <= i <= j < points.len() ==> (#[trigger] points[i]).temp <= (#[trigger] points[j]).temp
}

proof fn place_fits(points: Seq<CurvePoint>, p: CurvePoint)
    requires
        ordered(points),
    ensures
        0 <= place_for(points, p) <= points.len(),
        forall|k: int| 0 <= k < place_for(points, p) ==> (#[trigger] points[k]).temp <= p.temp,
        forall|k: int|
            place_for(points, p) <= k < points.len() ==> (#[trigger] points[k]).temp > p.temp,
    decreases points.len(),
{
    if points.len() > 0 {
        if points.last().temp <= p.temp {
            assert forall|k: int| 0 <= k < points.len() implies (#[trigger] points[k]).temp
                <= p.temp by {
                assert(points[k].temp <= points[points.len() - 1].temp);
            }
        } else {
            let rest = points.drop_last();
            assert forall|i: int, j: int| 0 <= i <= j < rest.len() implies (
            #[trigger] rest[i]).temp <= (#[trigger] rest[j]).temp by {
                assert(points[i].temp <= points[j].temp);
            }
            place_fits(rest, p);
            assert forall|k: int|
                place_for(points, p) <= k < points.len() implies (#[trigger] points[k]).temp
                > p.temp by {
                if k < rest.len() {
                    assert(rest[k].temp > p.temp);
                }
            }
            assert forall|k: int| 0 <= k < place_for(points, p) implies (#[trigger] points[k]).temp
                <= p.temp by {
                assert(rest[k].temp <= p.temp);
            }
        }
    }
}

/// Sorting points keeps them all, puts them in order, and moves nothing that
/// was in order already.
pub proof fn sorting_only_sorts(points: Seq<CurvePoint>)
    ensures
        ordered(in_order(points)),
        in_order(points).to_multiset() == points.to_multiset(),
        ordered(points) ==> in_order(points) == points,
    decreases points.len(),
{
    broadcast use vstd::seq_lib::group_to_multiset_ensures;

    if points.len() > 0 {
        let rest = points.drop_last();
        let p = points.last();
        sorting_only_sorts(rest);
        let sorted = in_order(rest);
        place_fits(sorted, p);
        let at = place_for(sorted, p);
        let now = sorted.insert(at, p);
        assert forall|i: int, j: int| 0 <= i <= j < now.len() implies (#[trigger] now[i]).temp <= (
        #[trigger] now[j]).temp by {
            let a = if i < at {
                i
            } else {
                i - 1
            };
            let b = if j < at {
                j
            } else {
                j - 1
            };
            if i != at && j != at {
                assert(now[i] == sorted[a] && now[j] == sorted[b]);
                assert(sorted[a].temp <= sorted[b].temp);
            } else if i == at && j != at {
                assert(now[j] == sorted[b]);
            } else if i != at && j == at {
                assert(now[i] == sorted[a]);
            }
        }
        sorted.to_multiset_ensures();
        assert(now.to_multiset() =~= sorted.to_multiset().insert(p));
        assert(rest.push(p) == points);
        rest.to_multiset_ensures();
        assert(points.to_multiset() =~= rest.to_multiset().insert(p));
        if ordered(points) {
            assert forall|i: int, j: int| 0 <= i <= j < rest.len() implies (
            #[trigger] rest[i]).temp <= (#[trigger] rest[j]).temp by {
                assert(points[i].temp <= points[j].temp);
            }
            assert(sorted == rest);
            if rest.len() > 0 {
                assert(points[rest.len() - 1].temp <= points[rest.len() as int].temp);
                assert(rest.last().temp <= p.temp);
            }
            assert(now =~= points);
        }
    } else {
        assert(in_order(points) =~= points);
    }
}

proof fn sorting_keeps_proper(points: Seq<CurvePoint>)
    requires
        all_proper(points),
    ensures
        all_proper(in_order(points)),
    decreases points.len(),
{
    if points.len() > 0 {
        let rest = points.drop_last();
        assert forall|k: int| 0 <= k < rest.len() implies proper(#[trigger] rest[k]) by {
            assert(proper(points[k]));
        }
        sorting_keeps_proper(rest);
        sorting_only_sorts(rest);
        let sorted = in_order(rest);
        place_fits(sorted, points.last());
        let at = place_for(sorted, points.last());
        let now = in_order(points);
        assert(proper(points[points.len() - 1]));
        assert forall|k: int| 0 <= k < now.len() implies proper(#[trigger] now[k]) by {
            if k < at {
                assert(now[k] == sorted[k]);
            } else if k > at {
                assert(now[k] == sorted[k - 1]);
            }
        }
    }
}

proof fn found_at_is_there(found: Seq<FoundView>, second: bool, i: int)
    requires
        0 <= i <= found.len(),
    ensures
        i <= found_at(found, second, i) <= found.len(),
        found_at(found, second, i) < found.len() ==> found[found_at(found, second, i)].second
            == second,
        forall|k: int|
            i <= k < found_at(found, second, i) ==> (#[trigger] found[k]).second != second,
    decreases found.len() - i,
{
    if i < found.len() && found[i].second != second {
        found_at_is_there(found, second, i + 1);
    }
}

/// Whether what has been gathered is well kept: each curve once, none empty,
/// every point proper.
spec fn well_kept(found: Seq<FoundView>) -> bool {
    &&& forall|i: int, j: int|
        0 <= i < j < found.len() ==> (#[trigger] found[i]).second != (#[trigger] found[j]).second
    &&& forall|i: int| 0 <= i < found.len() ==> (#[trigger] found[i]).points.len() > 0
    &&& forall|i: int| 0 <= i < found.len() ==> all_proper((#[trigger] found[i]).points)
}

proof fn gathering_keeps_well(lines: Seq<Seq<char>>, n: int)
    requires
        0 <= n <= lines.len(),
    ensures
        well_kept(gathered(lines, n)),
    decreases n,
{
    if n > 0 {
        gathering_keeps_well(lines, n - 1);
        let before = gathered(lines, n - 1);
        match line_point(lines[n - 1]) {
            Some(line) => {
                assert(proper(line.point));
                found_at_is_there(before, line.second, 0);
                let at = found_at(before, line.second, 0);
                let now = noted(before, line);
                assert forall|i: int| 0 <= i < now.len() implies (#[trigger] now[i]).points.len()
                    > 0 && all_proper(now[i].points) by {
                    if i < before.len() {
                        assert(all_proper(before[i].points));
                    }
                    if i == at {
                        let old = if at < before.len() {
                            before[at].points
                        } else {
                            Seq::empty()
                        };
                        assert(now[i].points == old.push(line.point));
                        assert forall|k: int| 0 <= k < now[i].points.len() implies proper(
                            #[trigger] now[i].points[k],
                        ) by {
                            if k < old.len() {
                                assert(proper(old[k]));
                            }
                        }
                    } else {
                        assert(now[i] == before[i]);
                    }
                }
                assert forall|i: int, j: int| 0 <= i < j < now.len() implies (
                #[trigger] now[i]).second != (#[trigger] now[j]).second by {
                    if j < before.len() {
                        assert(before[i].second != before[j].second);
                    } else {
                        assert(before[i].second != line.second);
                    }
                }
            },
            None => {},
        }
    }
}

proof fn no_bad(found: Seq<FoundView>, i: int)
    requires
        0 <= i,
        first_bad(found, i) is None,
    ensures
        forall|k: int|
            i <= k < found.len() ==> curve_fault(in_order((#[trigger] found[k]).points)) is None,
    decreases found.len() - i,
{
    if i < found.len() {
        no_bad(found, i + 1);
    }
}

/// Every imported curve is one the engine would accept: valid, with no
/// disengaged level, and inside the hysteresis bounds.
pub proof fn an_imported_curve_is_one_the_engine_would_accept(text: Seq<char>, k: int)
    requires
        outcome(text) matches Ok(curves) && 0 <= k < curves.len(),
    ensures
        valid_curve(outcome(text)->Ok_0[k].curve),
        all_proper(outcome(text)->Ok_0[k].curve),
        forall|i: int|
            0 <= i < outcome(text)->Ok_0[k].curve.len() ==> (
            #[trigger] outcome(text)->Ok_0[k].curve[i]).level != FAN_DISENGAGED,
{
    let lines = crate::text::lines(text);
    let found = gathered(lines, lines.len() as int);
    gathering_keeps_well(lines, lines.len() as int);
    no_bad(found, 0);
    let curves = outcome(text)->Ok_0;
    assert(curves[k] == handed_over(found[k]));
    assert(all_proper(found[k].points));
    sorting_keeps_proper(found[k].points);
    crate::curve::refused_exactly_when_not_a_curve(in_order(found[k].points));
    assert forall|i: int| 0 <= i < curves[k].curve.len() implies (
    #[trigger] curves[k].curve[i]).level != FAN_DISENGAGED by {
        assert(proper(curves[k].curve[i]));
    }
}

/// A file gives at least one curve or an error, at most two curves, and no
/// curve twice.
pub proof fn each_curve_is_imported_once(text: Seq<char>)
    requires
        outcome(text) is Ok,
    ensures
        1 <= outcome(text)->Ok_0.len() <= 2,
        outcome(text)->Ok_0.len() == 2 ==> outcome(text)->Ok_0[0].key
            != outcome(text)->Ok_0[1].key,
{
    let lines = crate::text::lines(text);
    let found = gathered(lines, lines.len() as int);
    gathering_keeps_well(lines, lines.len() as int);
    let curves = outcome(text)->Ok_0;
    reveal_strlit("Level");
    reveal_strlit("Level2");
    if found.len() > 2 {
        assert(found[0].second != found[1].second);
        assert(found[0].second != found[2].second);
        assert(found[1].second != found[2].second);
    }
    if found.len() == 2 {
        assert(found[0].second != found[1].second);
        assert(curves[0] == handed_over(found[0]));
        assert(curves[1] == handed_over(found[1]));
        assert("Level"@.len() != "Level2"@.len());
    }
}

/// Whether a line says nothing from a place on: two slashes stand there and
/// nowhere before, or there are none and the line is over.
pub open spec fn said_up_to(line: Seq<char>, cut: int) -> bool {
    &&& 0 <= cut <= line.len()
    &&& forall|k: int|
        0 <= k < cut && k + 1 < line.len() ==> !(#[trigger] line[k] == '/' && line[k + 1] == '/')
    &&& cut == line.len() || (cut + 1 < line.len() && line[cut] == '/' && line[cut + 1] == '/')
}

/// Whether a line gives these fields to a curve: the curve's name, in any case
/// and with blanks around it, the first equals sign, and the fields apart by
/// blanks.
pub open spec fn gives_fields(line: Seq<char>, second: bool, fields: Seq<Seq<char>>) -> bool {
    exists|cut: int, eq: int|
        {
            &&& #[trigger] said_up_to(line, cut)
            &&& 0 <= eq < cut
            &&& #[trigger] line[eq] == '='
            &&& forall|k: int| 0 <= k < eq ==> #[trigger] line[k] != '='
            &&& crate::text::lowered(crate::text::trimmed(line.subrange(0, eq))) == (if second {
                "level2"@
            } else {
                "level"@
            })
            &&& fields == crate::text::words(line.subrange(eq + 1, cut))
        }
}

/// The number a field gives, and `otherwise` where there is no such field or
/// no number in it.
pub open spec fn given(fields: Seq<Seq<char>>, k: int, otherwise: int) -> int {
    if k < fields.len() && crate::text::integer(fields[k]) is Some {
        crate::text::integer(fields[k])->0 as int
    } else {
        otherwise
    }
}

/// Whether a margin is a number of degrees brought between none and a most.
pub open spec fn brought_into(margin: i8, degrees: int, most: int) -> bool {
    &&& 0 <= degrees <= most ==> margin == degrees
    &&& degrees < 0 ==> margin == 0
    &&& degrees > most ==> margin == most
}

/// Whether fields describe a point: its temperature first; a level of 0 to 7
/// as it stands, 64 as 7 and anything else as the firmware handoff; then the
/// margins, none upwards and four degrees downwards where they are missing,
/// brought into 0 to 5 and 0 to 15.
pub open spec fn describe(fields: Seq<Seq<char>>, p: CurvePoint) -> bool {
    &&& fields.len() >= 2
    &&& crate::text::integer(fields[0]) == Some(p.temp as i32)
    &&& crate::text::integer(fields[1]) matches Some(level) && {
        &&& 0 <= level <= 7 ==> p.level == level
        &&& level == 64 ==> p.level == 7
        &&& !(0 <= level <= 7) && level != 64 ==> p.level == 0x80
    }
    &&& brought_into(p.hyst_up, given(fields, 2, 0), 5)
    &&& brought_into(p.hyst_down, given(fields, 3, 4), 15)
}

/// Whether a line puts a point into one of the two curves.
pub open spec fn tells(line: Seq<char>, second: bool, p: CurvePoint) -> bool {
    exists|fields: Seq<Seq<char>>| #[trigger]
        gives_fields(line, second, fields) && describe(fields, p)
}

proof fn a_comment_starts_once(line: Seq<char>, i: int, cut: int)
    requires
        0 <= i,
        said_up_to(line, cut) && i <= cut || i > line.len(),
    ensures
        i <= line.len() ==> comment_start(line, i) == cut,
    decreases line.len() - i,
{
    if i + 1 < line.len() && i < cut {
        a_comment_starts_once(line, i + 1, cut);
    }
}

proof fn a_comment_starts_somewhere(line: Seq<char>, i: int)
    requires
        0 <= i <= line.len(),
        forall|k: int|
            0 <= k < i && k + 1 < line.len() ==> !(#[trigger] line[k] == '/' && line[k + 1] == '/'),
    ensures
        said_up_to(line, comment_start(line, i)),
    decreases line.len() - i,
{
    if i + 1 < line.len() && !(line[i] == '/' && line[i + 1] == '/') {
        a_comment_starts_somewhere(line, i + 1);
    }
}

proof fn what_a_line_gives(line: Seq<char>)
    ensures
        forall|second: bool, p: CurvePoint|
            #![trigger tells(line, second, p)]
            tells(line, second, p) <==> (line_point(line) matches Some(l) && l.second == second
                && l.point == p),
        line_point(line) matches Some(l) ==> tells(line, l.second, l.point),
{
    let cut = comment_start(line, 0);
    a_comment_starts_somewhere(line, 0);
    let said = line.take(cut);
    let at = crate::text::find(said, '=', 0);
    crate::text::what_is_found(said, '=', 0);
    if at < said.len() {
        assert(said.take(at) =~= line.subrange(0, at));
        assert(said.skip(at + 1) =~= line.subrange(at + 1, cut));
    }
    reveal_strlit("level");
    reveal_strlit("level2");
    assert("level"@.len() != "level2"@.len());
    match line_point(line) {
        Some(l) => {
            let fields = crate::text::words(said.skip(at + 1));
            assert(said[at] == '=');
            assert(line[at] == '=');
            assert forall|k: int| 0 <= k < at implies #[trigger] line[k] != '=' by {
                assert(said[k] != '=');
            }
            assert(gives_fields(line, l.second, fields));
            assert(describe(fields, l.point));
        },
        None => {},
    }
    assert forall|second: bool, p: CurvePoint|
        #![trigger tells(line, second, p)]
        tells(line, second, p) implies line_point(line) matches Some(l) && l.second == second
        && l.point == p by {
        let fields = choose|fields: Seq<Seq<char>>| #[trigger]
            gives_fields(line, second, fields) && describe(fields, p);
        let (c, eq) = choose|c: int, eq: int|
            {
                &&& #[trigger] said_up_to(line, c)
                &&& 0 <= eq < c
                &&& #[trigger] line[eq] == '='
                &&& forall|k: int| 0 <= k < eq ==> #[trigger] line[k] != '='
                &&& crate::text::lowered(crate::text::trimmed(line.subrange(0, eq))) == (
                if second {
                    "level2"@
                } else {
                    "level"@
                })
                &&& fields == crate::text::words(line.subrange(eq + 1, c))
            };
        a_comment_starts_once(line, 0, c);
        assert(c == cut);
        assert(said[eq] == '=');
        if at < eq {
            assert(said[at] == '=');
            assert(line[at] == '=');
        }
        assert(at == eq);
        assert(curve_key(said.take(at)) == Some(second));
        let l = point_of(second, fields);
        assert(l is Some);
        assert(l->0.point.temp == p.temp);
        assert(l->0.point.level == p.level);
        assert(l->0.point.hyst_up == p.hyst_up);
        assert(l->0.point.hyst_down == p.hyst_down);
        assert(l->0.point == p);
    }
}

/// Whether a curve has been found with a point in it.
spec fn found_with(found: Seq<FoundView>, second: bool, p: CurvePoint) -> bool {
    exists|k: int|
        0 <= k < found.len() && (#[trigger] found[k]).second == second && found[k].points.contains(p)
}

proof fn gathering_is_faithful(lines: Seq<Seq<char>>, n: int, second: bool, p: CurvePoint)
    requires
        0 <= n <= lines.len(),
    ensures
        found_with(gathered(lines, n), second, p) <==> exists|m: int|
            0 <= m < n && tells(#[trigger] lines[m], second, p),
    decreases n,
{
    let now = gathered(lines, n);
    if n > 0 {
        let before = gathered(lines, n - 1);
        gathering_is_faithful(lines, n - 1, second, p);
        gathering_keeps_well(lines, n - 1);
        gathering_keeps_well(lines, n);
        what_a_line_gives(lines[n - 1]);
        match line_point(lines[n - 1]) {
            Some(line) => {
                found_at_is_there(before, line.second, 0);
                let at = found_at(before, line.second, 0);
                let old = if at < before.len() {
                    before[at].points
                } else {
                    Seq::empty()
                };
                assert(now[at].points == old.push(line.point));
                assert(now[at].second == line.second);
                assert(now[at].points[old.len() as int] == line.point);
                assert(now[at].points.contains(line.point));
                if found_with(before, second, p) {
                    let k = choose|k: int|
                        0 <= k < before.len() && (#[trigger] before[k]).second == second
                            && before[k].points.contains(p);
                    let i = choose|i: int| 0 <= i < before[k].points.len() && before[k].points[i]
                        == p;
                    assert(now[k].points[i] == p);
                    assert(now[k].second == second);
                    assert(found_with(now, second, p));
                }
                if found_with(now, second, p) {
                    let k = choose|k: int|
                        0 <= k < now.len() && (#[trigger] now[k]).second == second
                            && now[k].points.contains(p);
                    let i = choose|i: int| 0 <= i < now[k].points.len() && now[k].points[i] == p;
                    if k == at && i == old.len() {
                        assert(tells(lines[n - 1], second, p));
                    } else if k == at {
                        assert(old[i] == p);
                        assert(before[at].points.contains(p));
                        assert(found_with(before, second, p));
                    } else {
                        assert(before[k] == now[k]);
                        assert(found_with(before, second, p));
                    }
                }
                if tells(lines[n - 1], second, p) {
                    assert(now[at].second == second && now[at].points.contains(p));
                    assert(found_with(now, second, p));
                }
            },
            None => {},
        }
        if exists|m: int| 0 <= m < n && tells(#[trigger] lines[m], second, p) {
            let m = choose|m: int| 0 <= m < n && tells(#[trigger] lines[m], second, p);
            if m < n - 1 {
                assert(exists|m: int| 0 <= m < n - 1 && tells(#[trigger] lines[m], second, p));
            }
        }
    }
}

/// Whether a list of imported curves holds a point under a name.
pub open spec fn imported_with(curves: Seq<ImportedView>, name: Seq<char>, p: CurvePoint) -> bool {
    exists|k: int|
        0 <= k < curves.len() && (#[trigger] curves[k]).key == name && curves[k].curve.contains(p)
}

/// What a file says is what is imported: `Level` holds exactly the points that
/// lines of `Level` describe, `Level2` exactly those that lines of `Level2`
/// do, and there are no other curves.
pub proof fn every_line_is_imported_as_it_stands(text: Seq<char>, second: bool, p: CurvePoint)
    requires
        outcome(text) is Ok,
    ensures
        imported_with(outcome(text)->Ok_0, if second {
            "Level2"@
        } else {
            "Level"@
        }, p) <==> exists|m: int|
            0 <= m < crate::text::lines(text).len() && tells(
                #[trigger] crate::text::lines(text)[m],
                second,
                p,
            ),
        forall|k: int|
            0 <= k < outcome(text)->Ok_0.len() ==> (#[trigger] outcome(text)->Ok_0[k]).key
                == "Level"@ || outcome(text)->Ok_0[k].key == "Level2"@,
{
    let lines = crate::text::lines(text);
    let found = gathered(lines, lines.len() as int);
    let curves = outcome(text)->Ok_0;
    gathering_is_faithful(lines, lines.len() as int, second, p);
    reveal_strlit("Level");
    reveal_strlit("Level2");
    assert("Level"@.len() != "Level2"@.len());
    let name = if second {
        "Level2"@
    } else {
        "Level"@
    };
    assert forall|k: int| 0 <= k < found.len() implies (#[trigger] curves[k]) == handed_over(
        found[k],
    ) && (curves[k].curve.contains(p) <==> found[k].points.contains(p)) by {
        broadcast use vstd::seq_lib::group_to_multiset_ensures;

        let points = found[k].points;
        sorting_only_sorts(points);
        assert(curves[k] == handed_over(found[k]));
        assert(points.contains(p) <==> points.to_multiset().count(p) > 0);
        assert(in_order(points).contains(p) <==> in_order(points).to_multiset().count(p) > 0);
    }
    if imported_with(curves, name, p) {
        let k = choose|k: int|
            0 <= k < curves.len() && (#[trigger] curves[k]).key == name
                && curves[k].curve.contains(p);
        assert(found[k].second == second);
        assert(found_with(found, second, p));
    }
    if found_with(found, second, p) {
        let k = choose|k: int|
            0 <= k < found.len() && (#[trigger] found[k]).second == second
                && found[k].points.contains(p);
        assert(curves[k].key == name && curves[k].curve.contains(p));
    }
}

/// A file is refused for having no curve exactly when no line of it describes
/// a point.
pub proof fn a_file_without_points_has_no_curve(text: Seq<char>)
    ensures
        outcome(text) == Err::<Seq<ImportedView>, ImportError>(ImportError::NoCurve) <==> forall|
            m: int,
            second: bool,
            p: CurvePoint,
        |
            0 <= m < crate::text::lines(text).len() ==> !#[trigger] tells(
                crate::text::lines(text)[m],
                second,
                p,
            ),
{
    let lines = crate::text::lines(text);
    let found = gathered(lines, lines.len() as int);
    gathering_keeps_well(lines, lines.len() as int);
    if found.len() > 0 {
        let p = found[0].points[0];
        assert(found[0].points.contains(p));
        assert(found_with(found, found[0].second, p));
        gathering_is_faithful(lines, lines.len() as int, found[0].second, p);
    } else {
        assert forall|m: int, second: bool, p: CurvePoint| 0 <= m < lines.len() implies !#[trigger] tells(
            lines[m],
            second,
            p,
        ) by {
            gathering_is_faithful(lines, lines.len() as int, second, p);
        }
    }
}

/// Whether a line puts a point at this temperature into one of the two curves
/// with the disengaged level, 64.
pub open spec fn tells_disengaged(line: Seq<char>, second: bool, temp: i8) -> bool {
    exists|fields: Seq<Seq<char>>|
        {
            &&& #[trigger] gives_fields(line, second, fields)
            &&& fields.len() >= 2
            &&& crate::text::integer(fields[0]) == Some(temp as i32)
            &&& crate::text::integer(fields[1]) == Some(64i32)
        }
}

/// Whether a line puts a point into one of the two curves with a margin
/// outside 0 to 5 degrees up or 0 to 15 down.
pub open spec fn tells_too_much(line: Seq<char>, second: bool) -> bool {
    exists|fields: Seq<Seq<char>>|
        {
            &&& #[trigger] gives_fields(line, second, fields)
            &&& fields.len() >= 2
            &&& crate::text::integer(fields[0]) matches Some(temp) && -128 <= temp <= 127
            &&& crate::text::integer(fields[1]) is Some
            &&& !(0 <= given(fields, 2, 0) <= 5 && 0 <= given(fields, 3, 4) <= 15)
        }
}

proof fn a_line_gives_its_fields_only(line: Seq<char>, second: bool, fields: Seq<Seq<char>>)
    requires
        gives_fields(line, second, fields),
    ensures
        line_point(line) == point_of(second, fields),
{
    let cut = comment_start(line, 0);
    a_comment_starts_somewhere(line, 0);
    let said = line.take(cut);
    let at = crate::text::find(said, '=', 0);
    crate::text::what_is_found(said, '=', 0);
    let (c, eq) = choose|c: int, eq: int|
        {
            &&& #[trigger] said_up_to(line, c)
            &&& 0 <= eq < c
            &&& #[trigger] line[eq] == '='
            &&& forall|k: int| 0 <= k < eq ==> #[trigger] line[k] != '='
            &&& crate::text::lowered(crate::text::trimmed(line.subrange(0, eq))) == (if second {
                "level2"@
            } else {
                "level"@
            })
            &&& fields == crate::text::words(line.subrange(eq + 1, c))
        };
    a_comment_starts_once(line, 0, c);
    assert(said[eq] == '=');
    if at < eq {
        assert(said[at] == '=');
        assert(line[at] == '=');
    }
    assert(at == eq);
    assert(said.take(at) =~= line.subrange(0, at));
    assert(said.skip(at + 1) =~= line.subrange(at + 1, cut));
    reveal_strlit("level");
    reveal_strlit("level2");
    assert("level"@.len() != "level2"@.len());
}

proof fn what_a_line_owns_up_to(line: Seq<char>, second: bool, temp: i8)
    ensures
        tells_disengaged(line, second, temp) <==> (line_point(line) matches Some(l) && l.second
            == second && l.point.temp == temp && l.disengaged),
        tells_too_much(line, second) <==> (line_point(line) matches Some(l) && l.second == second
            && l.clamped),
{
    if tells_disengaged(line, second, temp) {
        let fields = choose|fields: Seq<Seq<char>>|
            {
                &&& #[trigger] gives_fields(line, second, fields)
                &&& fields.len() >= 2
                &&& crate::text::integer(fields[0]) == Some(temp as i32)
                &&& crate::text::integer(fields[1]) == Some(64i32)
            };
        a_line_gives_its_fields_only(line, second, fields);
    }
    if tells_too_much(line, second) {
        let fields = choose|fields: Seq<Seq<char>>|
            {
                &&& #[trigger] gives_fields(line, second, fields)
                &&& fields.len() >= 2
                &&& crate::text::integer(fields[0]) matches Some(temp) && -128 <= temp <= 127
                &&& crate::text::integer(fields[1]) is Some
                &&& !(0 <= given(fields, 2, 0) <= 5 && 0 <= given(fields, 3, 4) <= 15)
            };
        a_line_gives_its_fields_only(line, second, fields);
    }
    what_a_line_gives(line);
    match line_point(line) {
        Some(l) => {
            assert(tells(line, l.second, l.point));
            let fields = choose|fields: Seq<Seq<char>>| #[trigger]
                gives_fields(line, l.second, fields) && describe(fields, l.point);
            a_line_gives_its_fields_only(line, l.second, fields);
        },
        None => {},
    }
}

/// Whether a curve has been found that owns up to a disengaged level.
spec fn found_disengaged(found: Seq<FoundView>, second: bool, temp: i8) -> bool {
    exists|k: int|
        0 <= k < found.len() && (#[trigger] found[k]).second == second
            && found[k].disengaged_at.contains(temp)
}

/// Whether a curve has been found that owns up to a margin changed.
spec fn found_clamped(found: Seq<FoundView>, second: bool) -> bool {
    exists|k: int|
        0 <= k < found.len() && (#[trigger] found[k]).second == second && found[k].clamped
}

proof fn gathering_owns_up(lines: Seq<Seq<char>>, n: int, second: bool, temp: i8)
    requires
        0 <= n <= lines.len(),
    ensures
        found_disengaged(gathered(lines, n), second, temp) <==> exists|m: int|
            0 <= m < n && tells_disengaged(#[trigger] lines[m], second, temp),
        found_clamped(gathered(lines, n), second) <==> exists|m: int|
            0 <= m < n && tells_too_much(#[trigger] lines[m], second),
    decreases n,
{
    let now = gathered(lines, n);
    if n > 0 {
        let before = gathered(lines, n - 1);
        gathering_owns_up(lines, n - 1, second, temp);
        what_a_line_owns_up_to(lines[n - 1], second, temp);
        match line_point(lines[n - 1]) {
            Some(line) => {
                found_at_is_there(before, line.second, 0);
                let at = found_at(before, line.second, 0);
                let old = if at < before.len() {
                    before[at]
                } else {
                    nothing_found(line.second)
                };
                assert(now[at] == extended(old, line));
                if line.disengaged {
                    assert(now[at].disengaged_at[old.disengaged_at.len() as int]
                        == line.point.temp);
                    assert(now[at].disengaged_at.contains(line.point.temp));
                }
                if found_disengaged(before, second, temp) {
                    let k = choose|k: int|
                        0 <= k < before.len() && (#[trigger] before[k]).second == second
                            && before[k].disengaged_at.contains(temp);
                    let i = choose|i: int|
                        0 <= i < before[k].disengaged_at.len() && before[k].disengaged_at[i]
                            == temp;
                    assert(now[k].disengaged_at[i] == temp);
                    assert(now[k].second == second);
                    assert(found_disengaged(now, second, temp));
                }
                if found_disengaged(now, second, temp) {
                    let k = choose|k: int|
                        0 <= k < now.len() && (#[trigger] now[k]).second == second
                            && now[k].disengaged_at.contains(temp);
                    let i = choose|i: int|
                        0 <= i < now[k].disengaged_at.len() && now[k].disengaged_at[i] == temp;
                    if k == at && i >= old.disengaged_at.len() {
                        assert(tells_disengaged(lines[n - 1], second, temp));
                    } else if k == at {
                        assert(old.disengaged_at[i] == temp);
                        assert(before[at].disengaged_at.contains(temp));
                        assert(found_disengaged(before, second, temp));
                    } else {
                        assert(before[k] == now[k]);
                        assert(found_disengaged(before, second, temp));
                    }
                }
                if tells_disengaged(lines[n - 1], second, temp) {
                    assert(now[at].second == second && now[at].disengaged_at.contains(temp));
                    assert(found_disengaged(now, second, temp));
                }
                if found_clamped(before, second) {
                    let k = choose|k: int|
                        0 <= k < before.len() && (#[trigger] before[k]).second == second
                            && before[k].clamped;
                    assert(now[k].second == second && now[k].clamped);
                }
                if found_clamped(now, second) {
                    let k = choose|k: int|
                        0 <= k < now.len() && (#[trigger] now[k]).second == second
                            && now[k].clamped;
                    if k == at && line.clamped {
                        assert(tells_too_much(lines[n - 1], second));
                    } else if k == at {
                        assert(before[at].clamped && before[at].second == second);
                    } else {
                        assert(before[k] == now[k]);
                    }
                }
                if tells_too_much(lines[n - 1], second) {
                    assert(now[at].second == second && now[at].clamped);
                }
            },
            None => {},
        }
        if exists|m: int| 0 <= m < n && tells_disengaged(#[trigger] lines[m], second, temp) {
            let m = choose|m: int| 0 <= m < n && tells_disengaged(#[trigger] lines[m], second, temp);
            if m < n - 1 {
                assert(tells_disengaged(lines[m], second, temp));
                assert(found_disengaged(before, second, temp));
            }
        }
        if exists|m: int| 0 <= m < n && tells_too_much(#[trigger] lines[m], second) {
            let m = choose|m: int| 0 <= m < n && tells_too_much(#[trigger] lines[m], second);
            if m < n - 1 {
                assert(tells_too_much(lines[m], second));
                assert(found_clamped(before, second));
            }
        }
    }
}

/// What was changed on the way in is owned up to: a temperature is listed
/// exactly where a line of that curve asks for the disengaged level at it, and
/// a curve says its hysteresis was changed exactly where a line of it gives a
/// margin outside the bounds.
pub proof fn what_was_changed_is_owned_up_to(text: Seq<char>, second: bool, temp: i8)
    requires
        outcome(text) is Ok,
    ensures
        (exists|k: int|
            {
                &&& 0 <= k < outcome(text)->Ok_0.len()
                &&& (#[trigger] outcome(text)->Ok_0[k]).key == (if second {
                    "Level2"@
                } else {
                    "Level"@
                })
                &&& outcome(text)->Ok_0[k].disengaged_at.contains(temp)
            }) <==> exists|m: int|
            0 <= m < crate::text::lines(text).len() && tells_disengaged(
                #[trigger] crate::text::lines(text)[m],
                second,
                temp,
            ),
        (exists|k: int|
            {
                &&& 0 <= k < outcome(text)->Ok_0.len()
                &&& (#[trigger] outcome(text)->Ok_0[k]).key == (if second {
                    "Level2"@
                } else {
                    "Level"@
                })
                &&& outcome(text)->Ok_0[k].hysteresis_clamped
            }) <==> exists|m: int|
            0 <= m < crate::text::lines(text).len() && tells_too_much(
                #[trigger] crate::text::lines(text)[m],
                second,
            ),
{
    let lines = crate::text::lines(text);
    let found = gathered(lines, lines.len() as int);
    let curves = outcome(text)->Ok_0;
    gathering_owns_up(lines, lines.len() as int, second, temp);
    reveal_strlit("Level");
    reveal_strlit("Level2");
    assert("Level"@.len() != "Level2"@.len());
    let name = if second {
        "Level2"@
    } else {
        "Level"@
    };
    assert forall|k: int| 0 <= k < found.len() implies (#[trigger] curves[k]) == handed_over(
        found[k],
    ) && (curves[k].key == name <==> found[k].second == second) by {}
    if found_disengaged(found, second, temp) {
        let k = choose|k: int|
            0 <= k < found.len() && (#[trigger] found[k]).second == second
                && found[k].disengaged_at.contains(temp);
        assert(curves[k].key == name && curves[k].disengaged_at.contains(temp));
    }
    if exists|k: int|
        0 <= k < curves.len() && (#[trigger] curves[k]).key == name
            && curves[k].disengaged_at.contains(temp) {
        let k = choose|k: int|
            0 <= k < curves.len() && (#[trigger] curves[k]).key == name
                && curves[k].disengaged_at.contains(temp);
        assert(found[k].second == second && found[k].disengaged_at.contains(temp));
    }
    if found_clamped(found, second) {
        let k = choose|k: int|
            0 <= k < found.len() && (#[trigger] found[k]).second == second && found[k].clamped;
        assert(curves[k].key == name && curves[k].hysteresis_clamped);
    }
    if exists|k: int|
        0 <= k < curves.len() && (#[trigger] curves[k]).key == name
            && curves[k].hysteresis_clamped {
        let k = choose|k: int|
            0 <= k < curves.len() && (#[trigger] curves[k]).key == name
                && curves[k].hysteresis_clamped;
        assert(found[k].second == second && found[k].clamped);
    }
}

} // verus!
