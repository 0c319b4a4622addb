//! The fan curve, as something you drag rather than something you type.
//!
//! What lives here is where a point lands, in degrees and fan levels. Which
//! pixels those are is the window's business.

use vstd::prelude::*;

use crate::config::{HYST_DOWN_MAX, HYST_UP_MAX};
use crate::curve::{copied, Curve, CurveError, CurvePoint};
use crate::ec::{FAN_BIOS, FAN_DISENGAGED, FAN_LEVEL_MAX};
use crate::theme::{LEVEL_MAX, TEMP_MAX, TEMP_MIN};

verus! {

/// What the pointer is doing.
#[derive(Debug, Clone, Copy, PartialEq, Eq, Structural)]
pub enum Grab {
    Nothing,
    /// Index of the point being dragged.
    Point(usize),
}

/// The level a slot of the axis stands for: the ordinary speeds in order, and
/// the firmware handoff above them.
pub open spec fn level_of_slot(slot: int) -> u8 {
    if slot > FAN_LEVEL_MAX {
        FAN_BIOS
    } else {
        slot as u8
    }
}

/// Levels a point can hold, in the order the axis shows them.
///
/// `FAN_BIOS` sits one step above level 7. It is not a faster fan but a
/// handback to the firmware, which reacts faster than any polling loop. The
/// disengaged level is absent and cannot be chosen.
pub fn level_for_axis(slot: u8) -> (r: u8)
    ensures
        r == level_of_slot(slot as int),
        r != FAN_DISENGAGED,
        r <= FAN_LEVEL_MAX || r == FAN_BIOS,
{
    if slot > FAN_LEVEL_MAX {
        FAN_BIOS
    } else {
        slot
    }
}

/// The slot of the axis a level is drawn at.
pub open spec fn slot_of_level(level: u8) -> int {
    if level == FAN_BIOS {
        FAN_LEVEL_MAX + 1
    } else if level > FAN_LEVEL_MAX {
        FAN_LEVEL_MAX as int
    } else {
        level as int
    }
}

/// The slot of the axis a level is drawn at, for placing a stored point on
/// the graph.
pub fn axis_for_level(level: u8) -> (r: u8)
    ensures
        r == slot_of_level(level),
        r <= LEVEL_MAX,
{
    if level == FAN_BIOS {
        FAN_LEVEL_MAX + 1
    } else if level > FAN_LEVEL_MAX {
        FAN_LEVEL_MAX
    } else {
        level
    }
}

/// A legal level and its slot on the axis are each other's inverse.
pub proof fn the_axis_shows_every_level(level: u8)
    requires
        level <= FAN_LEVEL_MAX || level == FAN_BIOS,
    ensures
        level_of_slot(slot_of_level(level)) == level,
{
}

/// The coolest a point may be dragged: one degree above the one below it, and
/// for the first point the edge of the graph.
pub open spec fn coolest(points: Seq<CurvePoint>, i: int) -> int {
    if i == 0 {
        TEMP_MIN as int
    } else {
        points[i - 1].temp + 1
    }
}

/// The hottest a point may be dragged: one degree below the one above it, and
/// for the last point the edge of the graph.
pub open spec fn hottest(points: Seq<CurvePoint>, i: int) -> int {
    if i + 1 >= points.len() {
        TEMP_MAX as int
    } else {
        points[i + 1].temp - 1
    }
}

/// A number held between two bounds, whichever way round they are.
pub open spec fn held(n: int, one: int, other: int) -> int {
    let low = if one < other {
        one
    } else {
        other
    };
    let high = if one < other {
        other
    } else {
        one
    };
    if n < low {
        low
    } else if n > high {
        high
    } else {
        n
    }
}

/// The temperature a point dragged towards `temp` stops at.
pub open spec fn dragged_temp(points: Seq<CurvePoint>, i: int, temp: int) -> int {
    crate::curve::saturated(held(temp, coolest(points, i), hottest(points, i)))
}

/// The slowest slot a point with this one below it may take. The firmware
/// step is not a slower fan, so it bounds nothing.
pub open spec fn slowest(below: Option<CurvePoint>) -> int {
    match below {
        Some(p) => if p.hands_over() {
            0
        } else {
            p.level as int
        },
        None => 0,
    }
}

/// The fastest slot a point with this one above it may take.
pub open spec fn fastest(above: Option<CurvePoint>) -> int {
    match above {
        Some(p) => if p.hands_over() {
            FAN_LEVEL_MAX + 1
        } else {
            p.level as int
        },
        None => FAN_LEVEL_MAX + 1,
    }
}

/// The level a point asked for at a slot takes between its neighbors: never
/// slower than the one below, never faster than the one above, and where
/// those two disagree, as fast as the one below.
pub open spec fn level_between(
    below: Option<CurvePoint>,
    above: Option<CurvePoint>,
    slot: int,
) -> u8 {
    let floor = slowest(below);
    let ceiling = fastest(above);
    level_of_slot(
        held(
            slot,
            floor,
            if ceiling > floor {
                ceiling
            } else {
                floor
            },
        ),
    )
}

/// The point at a place, if there is one.
pub open spec fn point_at(points: Seq<CurvePoint>, i: int) -> Option<CurvePoint> {
    if 0 <= i < points.len() {
        Some(points[i])
    } else {
        None
    }
}

/// A curve with one point dragged.
pub open spec fn dragged(points: Seq<CurvePoint>, i: int, temp: int, slot: int) -> Seq<
    CurvePoint,
> {
    points.update(
        i,
        CurvePoint {
            temp: dragged_temp(points, i, temp) as i8,
            level: level_between(point_at(points, i - 1), point_at(points, i + 1), slot),
            ..points[i]
        },
    )
}

/// Whether some point already sits at a temperature.
pub open spec fn taken(points: Seq<CurvePoint>, temp: int) -> bool {
    exists|i: int| 0 <= i < points.len() && (#[trigger] points[i]).temp == temp
}

/// Whether a new point may be moved to a temperature: on the graph, and free.
pub open spec fn open_at(points: Seq<CurvePoint>, temp: int) -> bool {
    TEMP_MIN <= temp <= TEMP_MAX && !taken(points, temp)
}

/// How far from where it was dropped a new point may be moved.
pub const REACH: i8 = 6;

/// The nearest free degree to one that is taken, from `step` degrees away on.
/// Of two equally near the cooler one.
pub open spec fn beside(points: Seq<CurvePoint>, temp: i8, step: int) -> Option<int>
    decreases REACH + 1 - step,
{
    let cooler = crate::curve::saturated(temp - step);
    let hotter = crate::curve::saturated(temp + step);
    if step > REACH {
        None
    } else if open_at(points, cooler) {
        Some(cooler)
    } else if open_at(points, hotter) {
        Some(hotter)
    } else {
        beside(points, temp, step + 1)
    }
}

/// Where a point dropped at a temperature lands, if anywhere.
pub open spec fn landing(points: Seq<CurvePoint>, temp: i8) -> Option<int> {
    if taken(points, temp as int) {
        beside(points, temp, 1)
    } else {
        Some(temp as int)
    }
}

/// The place in the list for a temperature, looking from `i` on: before the
/// first hotter point.
pub open spec fn place(points: Seq<CurvePoint>, temp: int, i: int) -> int
    decreases points.len() - i,
{
    if i >= points.len() {
        points.len() as int
    } else if points[i].temp > temp {
        i
    } else {
        place(points, temp, i + 1)
    }
}

/// A new point for a place in the list. Its hysteresis is that of the
/// neighbor below, or of the one above where it is the first; a curve with no
/// points has none to give, and the defaults stand in.
pub open spec fn fresh(points: Seq<CurvePoint>, at: int, temp: int, slot: int) -> CurvePoint {
    let level = level_between(point_at(points, at - 1), point_at(points, at), slot);
    let neighbor = if at > 0 {
        point_at(points, at - 1)
    } else {
        point_at(points, at)
    };
    match neighbor {
        Some(p) => CurvePoint {
            temp: temp as i8,
            level,
            hyst_up: p.hyst_up,
            hyst_down: p.hyst_down,
        },
        None => CurvePoint { temp: temp as i8, level, hyst_up: 0, hyst_down: 4 },
    }
}

/// A curve with a point added at a temperature that is free.
pub open spec fn with_point(points: Seq<CurvePoint>, temp: int, slot: int) -> Seq<CurvePoint> {
    let at = place(points, temp, 0);
    points.insert(at, fresh(points, at, temp, slot))
}

/// Which point is chosen once one has been taken out.
pub open spec fn selection_without(selected: Option<int>, index: int) -> Option<int> {
    match selected {
        Some(i) => if i == index {
            None
        } else if i > index {
            Some(i - 1)
        } else {
            Some(i)
        },
        None => None,
    }
}

/// The nearest of the points within reach, the first of several equally near,
/// among those from `i` on.
pub open spec fn nearest(distances: Seq<u32>, reach: u32, i: int) -> Option<int>
    decreases i,
{
    if i <= 0 {
        None
    } else {
        let before = nearest(distances, reach, i - 1);
        if distances[i - 1] <= reach && (before matches Some(b) ==> distances[i - 1]
            < distances[b]) {
            Some(i - 1)
        } else {
            before
        }
    }
}

/// The editor, mathematically.
pub ghost struct EditorView {
    pub points: Seq<CurvePoint>,
    pub grab: Grab,
    pub live_temp: Option<i8>,
    pub dirty: bool,
    /// Which point the hysteresis rows are about, as last chosen.
    pub selected: Option<int>,
}

impl EditorView {
    /// The point the hysteresis rows are about, if there is still one.
    pub open spec fn chosen(self) -> Option<int> {
        match self.selected {
            Some(i) => if 0 <= i < self.points.len() {
                Some(i)
            } else {
                None
            },
            None => None,
        }
    }
}

/// A curve being edited.
pub struct Editor {
    points: Vec<CurvePoint>,
    grab: Grab,
    /// Latest reading, drawn on the graph so you can see where you sit.
    live_temp: Option<i8>,
    dirty: bool,
    /// Which point the hysteresis rows are talking about.
    selected: Option<usize>,
}

impl View for Editor {
    type V = EditorView;

    closed spec fn view(&self) -> EditorView {
        EditorView {
            points: self.points@,
            grab: self.grab,
            live_temp: self.live_temp,
            dirty: self.dirty,
            selected: crate::curve::as_step(self.selected),
        }
    }
}

/// Whether some point already sits at a temperature.
fn is_taken(points: &Vec<CurvePoint>, temp: i8) -> (r: bool)
    ensures
        r == taken(points@, temp as int),
{
    let mut i: usize = 0;
    while i < points.len()
        invariant
            i <= points@.len(),
            forall|k: int| 0 <= k < i ==> (#[trigger] points@[k]).temp != temp,
        decreases points@.len() - i,
    {
        if points[i].temp == temp {
            return true;
        }
        i += 1;
    }
    false
}

/// The place in the list for a temperature.
fn find_place(points: &Vec<CurvePoint>, temp: i8) -> (r: usize)
    ensures
        r == place(points@, temp as int, 0),
        r <= points@.len(),
{
    let mut i: usize = 0;
    while i < points.len()
        invariant
            i <= points@.len(),
            place(points@, temp as int, 0) == place(points@, temp as int, i as int),
        decreases points@.len() - i,
    {
        if points[i].temp > temp {
            return i;
        }
        i += 1;
    }
    i
}

/// A number of degrees held inside what a reading can be.
fn saturate(degrees: i16) -> (r: i8)
    ensures
        r == crate::curve::saturated(degrees as int),
{
    if degrees < -128 {
        -128
    } else if degrees > 127 {
        127
    } else {
        degrees as i8
    }
}

/// The point at a place, if there is one.
fn find_point(points: &Vec<CurvePoint>, i: usize) -> (r: Option<CurvePoint>)
    ensures
        r == point_at(points@, i as int),
{
    if i < points.len() {
        Some(points[i])
    } else {
        None
    }
}

/// The point before a place, if there is one.
fn find_below(points: &Vec<CurvePoint>, i: usize) -> (r: Option<CurvePoint>)
    ensures
        r == point_at(points@, i - 1),
{
    if i > 0 {
        find_point(points, i - 1)
    } else {
        None
    }
}

/// A level that cannot make the curve run the fan slower as the machine gets
/// hotter.
fn level_between_neighbors(
    below: Option<CurvePoint>,
    above: Option<CurvePoint>,
    slot: u8,
) -> (r: u8)
    ensures
        r == level_between(below, above, slot as int),
{
    let floor: u8 = match below {
        Some(p) => if p.is_bios() {
            0
        } else {
            p.level
        },
        None => 0,
    };
    let ceiling: u8 = match above {
        Some(p) => if p.is_bios() {
            FAN_LEVEL_MAX + 1
        } else {
            p.level
        },
        None => FAN_LEVEL_MAX + 1,
    };
    let top: u8 = if ceiling > floor {
        ceiling
    } else {
        floor
    };
    level_for_axis(
        if slot < floor {
            floor
        } else if slot > top {
            top
        } else {
            slot
        },
    )
}

impl Editor {
    /// Begins editing a curve.
    pub fn new(curve: &Curve) -> (r: Self)
        ensures
            r@ == (EditorView {
                points: curve@,
                grab: Grab::Nothing,
                live_temp: None,
                dirty: false,
                selected: None,
            }),
            crate::curve::valid_curve(r@.points),
    {
        let from = curve.points();
        let mut points: Vec<CurvePoint> = Vec::new();
        let mut i: usize = 0;
        while i < from.len()
            invariant
                i <= from@.len(),
                from@ == curve@,
                points@ == from@.take(i as int),
            decreases from@.len() - i,
        {
            points.push(from[i]);
            i += 1;
            proof {
                assert(from@.take(i - 1).push(from@[i - 1]) == from@.take(i as int));
            }
        }
        proof {
            assert(from@.take(from@.len() as int) == from@);
        }
        Editor { points, grab: Grab::Nothing, live_temp: None, dirty: false, selected: None }
    }

    /// The points as they stand.
    pub fn points(&self) -> (r: &[CurvePoint])
        ensures
            r@ == self@.points,
    {
        self.points.as_slice()
    }

    /// Whether anything has changed since the curve was last saved.
    pub fn is_dirty(&self) -> (r: bool)
        ensures
            r == self@.dirty,
    {
        self.dirty
    }

    /// Takes note of the latest reading.
    pub fn set_live_temp(&mut self, temp: Option<i8>)
        ensures
            final(self)@ == (EditorView { live_temp: temp, ..old(self)@ }),
    {
        self.live_temp = temp;
    }

    /// The latest reading.
    pub fn live_temp(&self) -> (r: Option<i8>)
        ensures
            r == self@.live_temp,
    {
        self.live_temp
    }

    /// Validates what is on screen. The editor allows a curve to be
    /// *arranged* invalidly for a moment while dragging, but never saved that
    /// way.
    pub fn validate(&self) -> (r: Result<Curve, CurveError>)
        ensures
            match r {
                Ok(curve) => crate::curve::curve_fault(self@.points) is None && curve@
                    == self@.points,
                Err(e) => crate::curve::curve_fault(self@.points) == Some(e),
            },
    {
        Curve::new(copied(&self.points))
    }

    /// Which point, if any, is under the pointer, given how far the pointer
    /// is from each: the nearest within reach.
    pub fn hit_test(&self, distances: &Vec<u32>, reach: u32) -> (r: Option<usize>)
        ensures
            crate::curve::as_step(r) == nearest(
                distances@,
                reach,
                if distances@.len() < self@.points.len() {
                    distances@.len() as int
                } else {
                    self@.points.len() as int
                },
            ),
            r matches Some(i) ==> i < self@.points.len(),
    {
        let n: usize = if distances.len() < self.points.len() {
            distances.len()
        } else {
            self.points.len()
        };
        let mut best: Option<usize> = None;
        let mut i: usize = 0;
        while i < n
            invariant
                i <= n <= distances@.len(),
                crate::curve::as_step(best) == nearest(distances@, reach, i as int),
                best matches Some(b) ==> b < i,
            decreases n - i,
        {
            let d: u32 = distances[i];
            let nearer = match best {
                Some(b) => d < distances[b],
                None => true,
            };
            if d <= reach && nearer {
                best = Some(i);
            }
            i += 1;
        }
        best
    }

    /// Takes hold of the point under the pointer, and chooses it.
    pub fn begin_drag(&mut self, hit: Option<usize>) -> (r: bool)
        ensures
            r == (hit is Some),
            match hit {
                Some(i) => final(self)@ == (EditorView {
                    grab: Grab::Point(i),
                    selected: Some(i as int),
                    ..old(self)@
                }),
                None => final(self)@ == old(self)@,
            },
    {
        match hit {
            Some(i) => {
                self.grab = Grab::Point(i);
                // Grabbing a point is also how it is chosen, so the rows that
                // show its hysteresis follow the pointer without needing a
                // gesture of their own.
                self.selected = Some(i);
                true
            },
            None => false,
        }
    }

    /// The point the hysteresis rows are about, if any.
    pub fn selected(&self) -> (r: Option<usize>)
        ensures
            crate::curve::as_step(r) == self@.chosen(),
    {
        match self.selected {
            Some(i) => if i < self.points.len() {
                Some(i)
            } else {
                None
            },
            None => None,
        }
    }

    /// Chooses a point, or none.
    pub fn select(&mut self, index: Option<usize>)
        ensures
            final(self)@ == (EditorView {
                selected: (EditorView { selected: crate::curve::as_step(index), ..old(self)@ }).chosen(),
                ..old(self)@
            }),
    {
        self.selected = match index {
            Some(i) => if i < self.points.len() {
                Some(i)
            } else {
                None
            },
            None => None,
        };
    }

    /// The chosen point, for reading its numbers out.
    pub fn selected_point(&self) -> (r: Option<CurvePoint>)
        ensures
            r == match self@.chosen() {
                Some(i) => Some(self@.points[i]),
                None => None,
            },
    {
        match self.selected() {
            Some(i) => Some(self.points[i]),
            None => None,
        }
    }

    /// Steps how far the machine must cool below this point before the curve
    /// drops off it, wrapping round at the top of its range.
    pub fn step_hyst_down(&mut self)
        requires
            old(self)@.chosen() matches Some(i) ==> old(self)@.points[i].hyst_down < i8::MAX,
        ensures
            match old(self)@.chosen() {
                Some(i) => {
                    let p = old(self)@.points[i];
                    let next = if p.hyst_down + 1 > HYST_DOWN_MAX {
                        0
                    } else {
                        p.hyst_down + 1
                    };
                    final(self)@ == (EditorView {
                        points: old(self)@.points.update(
                            i,
                            CurvePoint { hyst_down: next as i8, ..p },
                        ),
                        dirty: true,
                        ..old(self)@
                    })
                },
                None => final(self)@ == old(self)@,
            },
    {
        if let Some(i) = self.selected() {
            let mut p = self.points[i];
            let next: i8 = p.hyst_down + 1;
            p.hyst_down = if next > HYST_DOWN_MAX {
                0
            } else {
                next
            };
            self.points.set(i, p);
            self.dirty = true;
        }
    }

    /// Steps how far *above* this point's threshold the machine must get
    /// before the curve steps up to it, wrapping round at the top of its
    /// range.
    pub fn step_hyst_up(&mut self)
        requires
            old(self)@.chosen() matches Some(i) ==> old(self)@.points[i].hyst_up < i8::MAX,
        ensures
            match old(self)@.chosen() {
                Some(i) => {
                    let p = old(self)@.points[i];
                    let next = if p.hyst_up + 1 > HYST_UP_MAX {
                        0
                    } else {
                        p.hyst_up + 1
                    };
                    final(self)@ == (EditorView {
                        points: old(self)@.points.update(i, CurvePoint { hyst_up: next as i8, ..p }),
                        dirty: true,
                        ..old(self)@
                    })
                },
                None => final(self)@ == old(self)@,
            },
    {
        if let Some(i) = self.selected() {
            let mut p = self.points[i];
            let next: i8 = p.hyst_up + 1;
            p.hyst_up = if next > HYST_UP_MAX {
                0
            } else {
                next
            };
            self.points.set(i, p);
            self.dirty = true;
        }
    }

    /// Moves the held point, keeping the curve in ascending order.
    ///
    /// Clamping between the neighbors instead of reordering means a point
    /// never jumps past another while you are dragging it, which would swap
    /// two rows out from under the pointer.
    pub fn drag_to(&mut self, temp: i8, slot: u8)
        requires
            old(self)@.grab matches Grab::Point(i) ==> i < old(self)@.points.len(),
        ensures
            match old(self)@.grab {
                Grab::Point(i) => final(self)@ == (EditorView {
                    points: dragged(old(self)@.points, i as int, temp as int, slot as int),
                    dirty: true,
                    ..old(self)@
                }),
                Grab::Nothing => final(self)@ == old(self)@,
            },
    {
        match self.grab {
            Grab::Point(i) => {
                // At least one degree of daylight either side, so two points
                // can never land on the same temperature.
                let low: i16 = if i == 0 {
                    TEMP_MIN as i16
                } else {
                    self.points[i - 1].temp as i16 + 1
                };
                let high: i16 = if i >= self.points.len() - 1 {
                    TEMP_MAX as i16
                } else {
                    self.points[i + 1].temp as i16 - 1
                };
                let wanted: i16 = temp as i16;
                let (least, most): (i16, i16) = if low < high {
                    (low, high)
                } else {
                    (high, low)
                };
                let stopped: i16 = if wanted < least {
                    least
                } else if wanted > most {
                    most
                } else {
                    wanted
                };
                let mut p = self.points[i];
                p.temp = saturate(stopped);
                p.level = level_between_neighbors(
                    find_below(&self.points, i),
                    find_point(&self.points, i + 1),
                    slot,
                );
                self.points.set(i, p);
                self.dirty = true;
            },
            Grab::Nothing => {},
        }
    }

    /// Lets go of the point being dragged.
    pub fn end_drag(&mut self)
        ensures
            final(self)@ == (EditorView { grab: Grab::Nothing, ..old(self)@ }),
    {
        self.grab = Grab::Nothing;
    }

    /// Whether a point is being dragged.
    pub fn is_dragging(&self) -> (r: bool)
        ensures
            r == (self@.grab != Grab::Nothing),
    {
        match self.grab {
            Grab::Nothing => false,
            Grab::Point(_) => true,
        }
    }

    /// Adds a point where the pointer is, keeping the list ordered, and
    /// chooses it.
    ///
    /// A curve cannot hold two points at one temperature, so a point dropped
    /// on another moves to the nearest free degree. With every degree in
    /// reach taken there is nowhere to go, and nothing changes.
    pub fn add_point(&mut self, temp: i8, slot: u8) -> (r: bool)
        requires
            old(self)@.points.len() < usize::MAX,
        ensures
            match landing(old(self)@.points, temp) {
                Some(t) => r && final(self)@ == (EditorView {
                    points: with_point(old(self)@.points, t, slot as int),
                    selected: Some(place(old(self)@.points, t, 0)),
                    dirty: true,
                    ..old(self)@
                }),
                None => !r && final(self)@ == old(self)@,
            },
    {
        let mut landed: i8 = temp;
        if is_taken(&self.points, temp) {
            let mut step: i8 = 1;
            let mut found = false;
            while step <= REACH && !found
                invariant
                    1 <= step <= REACH + 1,
                    !found ==> beside(self.points@, temp, 1) == beside(
                        self.points@,
                        temp,
                        step as int,
                    ),
                    found ==> beside(self.points@, temp, 1) == Some(landed as int),
                decreases REACH + 1 - step, !found as int,
            {
                let cooler: i8 = saturate(temp as i16 - step as i16);
                let hotter: i8 = saturate(temp as i16 + step as i16);
                if cooler >= TEMP_MIN && cooler <= TEMP_MAX && !is_taken(&self.points, cooler) {
                    landed = cooler;
                    found = true;
                } else if hotter >= TEMP_MIN && hotter <= TEMP_MAX && !is_taken(
                    &self.points,
                    hotter,
                ) {
                    landed = hotter;
                    found = true;
                } else {
                    step += 1;
                }
            }
            if !found {
                return false;
            }
        }
        let at = find_place(&self.points, landed);
        let below = find_below(&self.points, at);
        let above = find_point(&self.points, at);
        let level = level_between_neighbors(below, above, slot);
        let mut point = CurvePoint::new(landed, level);
        let neighbor = if at > 0 {
            below
        } else {
            above
        };
        if let Some(p) = neighbor {
            point.hyst_up = p.hyst_up;
            point.hyst_down = p.hyst_down;
        }
        self.points.insert(at, point);
        self.selected = Some(at);
        self.dirty = true;
        true
    }

    /// Removes a point. The last one cannot go: a curve with no points is not
    /// a curve, and the engine would have nothing to follow.
    pub fn remove_point(&mut self, index: usize) -> (r: bool)
        ensures
            r == (old(self)@.points.len() > 1 && index < old(self)@.points.len()),
            if r {
                final(self)@ == (EditorView {
                    points: old(self)@.points.remove(index as int),
                    dirty: true,
                    selected: selection_without(old(self)@.selected, index as int),
                    ..old(self)@
                })
            } else {
                final(self)@ == old(self)@
            },
    {
        if self.points.len() <= 1 || index >= self.points.len() {
            return false;
        }
        self.points.remove(index);
        self.dirty = true;
        // The selection is an index into a list that just got shorter, so it
        // moves with the points or is dropped.
        self.selected = match self.selected {
            Some(i) => if i == index {
                None
            } else if i > index {
                Some(i - 1)
            } else {
                Some(i)
            },
            None => None,
        };
        true
    }

    /// Takes what is on screen as saved.
    pub fn mark_saved(&mut self)
        ensures
            final(self)@ == (EditorView { dirty: false, ..old(self)@ }),
    {
        self.dirty = false;
    }
}

/// Whether a point has room on the graph: the first one an edge below the
/// next, the last one an edge above the one before it.
pub open spec fn has_room(points: Seq<CurvePoint>, i: int) -> bool {
    &&& i == 0 && points.len() > 1 ==> points[1].temp > TEMP_MIN
    &&& i > 0 && i + 1 == points.len() ==> points[i - 1].temp < TEMP_MAX
}

/// Whether two points may stand next to each other, the second above the
/// first.
pub open spec fn steps_up(below: CurvePoint, above: CurvePoint) -> bool {
    below.hands_over() || above.hands_over() || below.level <= above.level
}

/// A dragged point never crosses the points on either side of it.
pub proof fn a_dragged_point_stays_between_its_neighbors(
    points: Seq<CurvePoint>,
    i: int,
    temp: int,
)
    requires
        crate::curve::valid_curve(points),
        0 <= i < points.len(),
        has_room(points, i),
    ensures
        i > 0 ==> points[i - 1].temp < dragged_temp(points, i, temp),
        i + 1 < points.len() ==> dragged_temp(points, i, temp) < points[i + 1].temp,
        coolest(points, i) <= dragged_temp(points, i, temp) <= hottest(points, i),
{
    if i > 0 {
        assert(points[i - 1].temp < points[i].temp);
    }
    if i + 1 < points.len() {
        assert(points[i].temp < points[i + 1].temp);
    }
}

/// A level held between two neighbors that may stand next to each other may
/// stand between them.
proof fn between_steps_up(below: Option<CurvePoint>, above: Option<CurvePoint>, slot: int)
    requires
        slot >= 0,
        below matches Some(b) ==> b.legal(),
        above matches Some(a) ==> a.legal(),
        below matches Some(b) ==> (above matches Some(a) ==> steps_up(b, a)),
    ensures
        level_between(below, above, slot) <= FAN_LEVEL_MAX || level_between(below, above, slot)
            == FAN_BIOS,
        below matches Some(b) ==> b.hands_over() || level_between(below, above, slot) == FAN_BIOS
            || b.level <= level_between(below, above, slot),
        above matches Some(a) ==> a.hands_over() || level_between(below, above, slot) == FAN_BIOS
            || level_between(below, above, slot) <= a.level,
{
}

/// Dragging a point of a curve leaves a curve, as long as the point has room
/// on the graph and its two neighbors could stand next to each other.
pub proof fn dragging_keeps_a_curve(points: Seq<CurvePoint>, i: int, temp: int, slot: int)
    requires
        crate::curve::valid_curve(points),
        0 <= i < points.len(),
        slot >= 0,
        has_room(points, i),
        0 < i && i + 1 < points.len() ==> steps_up(points[i - 1], points[i + 1]),
    ensures
        crate::curve::valid_curve(dragged(points, i, temp, slot)),
{
    a_dragged_point_stays_between_its_neighbors(points, i, temp);
    between_steps_up(point_at(points, i - 1), point_at(points, i + 1), slot);
    let after = dragged(points, i, temp, slot);
    let t = dragged_temp(points, i, temp);
    assert(after[i].temp == t);
    assert forall|a: int, b: int| 0 <= a < b < after.len() implies (#[trigger] after[a]).temp < (
    #[trigger] after[b]).temp by {
        if a == i {
            if b > i + 1 {
                assert(points[i + 1].temp < points[b].temp);
            }
        } else if b == i {
            if a < i - 1 {
                assert(points[a].temp < points[i - 1].temp);
            }
        } else {
            assert(points[a].temp < points[b].temp);
        }
    }
    assert forall|a: int, b: int|
        0 <= a < b < after.len() && b == a + 1 && !(#[trigger] after[a]).hands_over() && !(
        #[trigger] after[b]).hands_over() implies after[a].level <= after[b].level by {
        if a != i && b != i {
            assert(after[a] == points[a] && after[b] == points[b]);
        }
    }
}

/// Dragging moves one point and no other, and leaves that point's hysteresis
/// alone.
pub proof fn dragging_leaves_the_rest_alone(
    points: Seq<CurvePoint>,
    i: int,
    temp: int,
    slot: int,
    k: int,
)
    requires
        0 <= i < points.len(),
        0 <= k < points.len(),
    ensures
        dragged(points, i, temp, slot).len() == points.len(),
        k != i ==> dragged(points, i, temp, slot)[k] == points[k],
        dragged(points, i, temp, slot)[k].hyst_up == points[k].hyst_up,
        dragged(points, i, temp, slot)[k].hyst_down == points[k].hyst_down,
{
}

proof fn place_splits(points: Seq<CurvePoint>, temp: int, i: int)
    requires
        crate::curve::valid_curve(points),
        0 <= i <= points.len(),
        forall|k: int| 0 <= k < i ==> (#[trigger] points[k]).temp <= temp,
    ensures
        i <= place(points, temp, i) <= points.len(),
        forall|k: int| 0 <= k < place(points, temp, i) ==> (#[trigger] points[k]).temp <= temp,
        forall|k: int|
            place(points, temp, i) <= k < points.len() ==> (#[trigger] points[k]).temp > temp,
    decreases points.len() - i,
{
    if i < points.len() && points[i].temp <= temp {
        place_splits(points, temp, i + 1);
    } else if i < points.len() {
        assert forall|k: int| i <= k < points.len() implies (#[trigger] points[k]).temp > temp by {
            if k > i {
                assert(points[i].temp < points[k].temp);
            }
        }
    }
}

proof fn beside_is_free(points: Seq<CurvePoint>, temp: i8, step: int)
    requires
        1 <= step,
    ensures
        beside(points, temp, step) matches Some(t) ==> open_at(points, t) && i8::MIN <= t
            <= i8::MAX && -REACH <= t - temp <= REACH,
    decreases REACH + 1 - step,
{
    if step <= REACH {
        beside_is_free(points, temp, step + 1);
    }
}

/// A new point lands on a free degree within reach of where it was dropped,
/// on the very degree if that is free, and is turned away only where no
/// degree of the graph within reach is free.
pub proof fn a_new_point_lands_on_a_free_degree(points: Seq<CurvePoint>, temp: i8)
    ensures
        landing(points, temp) matches Some(t) ==> !taken(points, t) && -6 <= t - temp <= 6
            && i8::MIN <= t <= i8::MAX,
        !taken(points, temp as int) ==> landing(points, temp) == Some(temp as int),
        landing(points, temp) is None ==> forall|t: int|
            #![trigger open_at(points, t)]
            -6 <= t - temp <= 6 && i8::MIN <= t <= i8::MAX ==> !open_at(points, t),
{
    beside_is_free(points, temp, 1);
    if landing(points, temp) is None {
        assert forall|t: int|
            #![trigger open_at(points, t)]
            -REACH <= t - temp <= REACH && i8::MIN <= t <= i8::MAX implies !open_at(points, t) by {
            if t < temp {
                none_beside(points, temp, 1, temp - t);
            } else if t > temp {
                none_beside(points, temp, 1, t - temp);
            }
        }
    }
}

proof fn none_beside(points: Seq<CurvePoint>, temp: i8, step: int, far: int)
    requires
        1 <= step <= far <= REACH,
        beside(points, temp, step) is None,
    ensures
        !open_at(points, crate::curve::saturated(temp - far)),
        !open_at(points, crate::curve::saturated(temp + far)),
    decreases far - step,
{
    if step < far {
        none_beside(points, temp, step + 1, far);
    }
}

/// Adding a point to a curve at a free degree leaves a curve, one point
/// longer, with the new point in its place.
pub proof fn adding_keeps_a_curve(points: Seq<CurvePoint>, temp: int, slot: int)
    requires
        crate::curve::valid_curve(points),
        i8::MIN <= temp <= i8::MAX,
        !taken(points, temp),
        slot >= 0,
    ensures
        crate::curve::valid_curve(with_point(points, temp, slot)),
        with_point(points, temp, slot).len() == points.len() + 1,
        with_point(points, temp, slot)[place(points, temp, 0)].temp == temp,
{
    let at = place(points, temp, 0);
    place_splits(points, temp, 0);
    let point = fresh(points, at, temp, slot);
    let after = with_point(points, temp, slot);
    let below = point_at(points, at - 1);
    let above = point_at(points, at);
    if 0 < at < points.len() {
        assert(points[at - 1].temp < points[at].temp);
    }
    between_steps_up(below, above, slot);
    assert(after[at] == point);
    assert forall|a: int| 0 <= a < after.len() implies (#[trigger] after[a]).legal() by {
        if a < at {
            assert(after[a] == points[a]);
        } else if a > at {
            assert(after[a] == points[a - 1]);
        }
    }
    assert forall|a: int, b: int| 0 <= a < b < after.len() implies (#[trigger] after[a]).temp < (
    #[trigger] after[b]).temp by {
        if b < at {
            assert(after[a] == points[a] && after[b] == points[b]);
        } else if a > at {
            assert(after[a] == points[a - 1] && after[b] == points[b - 1]);
        } else if b == at {
            assert(after[a] == points[a]);
            assert(points[a].temp != temp);
        } else if a == at {
            assert(after[b] == points[b - 1]);
        } else {
            assert(after[a] == points[a] && after[b] == points[b - 1]);
        }
    }
    assert forall|a: int, b: int|
        0 <= a < b < after.len() && b == a + 1 && !(#[trigger] after[a]).hands_over() && !(
        #[trigger] after[b]).hands_over() implies after[a].level <= after[b].level by {
        if b < at {
            assert(after[a] == points[a] && after[b] == points[b]);
        } else if a > at {
            assert(after[a] == points[a - 1] && after[b] == points[b - 1]);
        } else if b == at {
            assert(after[a] == points[at - 1]);
        } else {
            assert(after[b] == points[at]);
        }
    }
}

/// Removing a point of a curve leaves a curve, as long as two are left and
/// the points on either side may stand next to each other.
pub proof fn removing_keeps_a_curve(points: Seq<CurvePoint>, i: int)
    requires
        crate::curve::valid_curve(points),
        0 <= i < points.len(),
        points.len() > 2,
        0 < i && i + 1 < points.len() ==> steps_up(points[i - 1], points[i + 1]),
    ensures
        crate::curve::valid_curve(points.remove(i)),
{
    let after = points.remove(i);
    assert forall|a: int| 0 <= a < after.len() implies (#[trigger] after[a]).legal() by {
        if a < i {
            assert(after[a] == points[a]);
        } else {
            assert(after[a] == points[a + 1]);
        }
    }
    assert forall|a: int, b: int| 0 <= a < b < after.len() implies (#[trigger] after[a]).temp < (
    #[trigger] after[b]).temp by {
        let x = if a < i {
            a
        } else {
            a + 1
        };
        let y = if b < i {
            b
        } else {
            b + 1
        };
        assert(after[a] == points[x] && after[b] == points[y]);
    }
    assert forall|a: int, b: int|
        0 <= a < b < after.len() && b == a + 1 && !(#[trigger] after[a]).hands_over() && !(
        #[trigger] after[b]).hands_over() implies after[a].level <= after[b].level by {
        if b < i {
            assert(after[a] == points[a] && after[b] == points[b]);
        } else if a >= i {
            assert(after[a] == points[a + 1] && after[b] == points[b + 1]);
        } else {
            assert(after[a] == points[i - 1] && after[b] == points[i + 1]);
        }
    }
}

/// A step taken out of a curve can be put back where it was, at the
/// temperature and level it had, unless it was the firmware step.
pub proof fn a_removed_step_can_be_put_back(points: Seq<CurvePoint>, i: int)
    requires
        crate::curve::valid_curve(points),
        0 <= i < points.len(),
        !points[i].hands_over(),
    ensures
        landing(points.remove(i), points[i].temp) == Some(points[i].temp as int),
        place(points.remove(i), points[i].temp as int, 0) == i,
        with_point(points.remove(i), points[i].temp as int, slot_of_level(points[i].level)).len()
            == points.len(),
        with_point(points.remove(i), points[i].temp as int, slot_of_level(points[i].level))[i].temp
            == points[i].temp,
        with_point(points.remove(i), points[i].temp as int, slot_of_level(points[i].level))[i].level
            == points[i].level,
        forall|k: int|
            0 <= k < points.len() && k != i ==> #[trigger] with_point(
                points.remove(i),
                points[i].temp as int,
                slot_of_level(points[i].level),
            )[k] == points[k],
{
    let left = points.remove(i);
    let t = points[i].temp as int;
    assert forall|k: int| 0 <= k < left.len() implies (#[trigger] left[k]).temp != t by {
        if k < i {
            assert(left[k] == points[k]);
        } else {
            assert(left[k] == points[k + 1]);
        }
    }
    assert(!taken(left, t));
    place_of_removed(points, i, 0);
    if i > 0 {
        assert(left[i - 1] == points[i - 1]);
        assert(points[i - 1].hands_over() || points[i - 1].level <= points[i].level);
    }
    if i + 1 < points.len() {
        assert(left[i] == points[i + 1]);
        assert(points[i + 1].hands_over() || points[i].level <= points[i + 1].level);
    }
    assert(points[i].legal());
}

proof fn place_of_removed(points: Seq<CurvePoint>, i: int, k: int)
    requires
        crate::curve::valid_curve(points),
        0 <= k <= i < points.len(),
    ensures
        place(points.remove(i), points[i].temp as int, k) == i,
    decreases i - k,
{
    let left = points.remove(i);
    if k < i {
        assert(left[k] == points[k]);
        assert(points[k].temp < points[i].temp);
        place_of_removed(points, i, k + 1);
    } else if i < left.len() {
        assert(left[i] == points[i + 1]);
        assert(points[i].temp < points[i + 1].temp);
    }
}

/// Taking a point out never leaves the selection on a point nobody chose: it
/// stays on the point it was on, or is dropped with it.
pub proof fn the_selection_moves_with_its_point(
    points: Seq<CurvePoint>,
    selected: Option<int>,
    index: int,
)
    requires
        0 <= index < points.len(),
        selected matches Some(i) ==> 0 <= i < points.len(),
    ensures
        match selection_without(selected, index) {
            Some(after) => {
                &&& selected matches Some(i)
                &&& i != index
                &&& 0 <= after < points.remove(index).len()
                &&& points.remove(index)[after] == points[i]
            },
            None => selected is None || selected == Some(index),
        },
{
}

/// Stepping the hysteresis of a point of a curve leaves a curve, whatever the
/// two numbers become.
pub proof fn hysteresis_does_not_make_a_curve(
    points: Seq<CurvePoint>,
    i: int,
    hyst_up: i8,
    hyst_down: i8,
)
    requires
        crate::curve::valid_curve(points),
        0 <= i < points.len(),
    ensures
        crate::curve::valid_curve(
            points.update(i, CurvePoint { hyst_up, hyst_down, ..points[i] }),
        ),
{
    let after = points.update(i, CurvePoint { hyst_up, hyst_down, ..points[i] });
    assert forall|k: int| 0 <= k < after.len() implies (#[trigger] after[k]).level
        == points[k].level && after[k].temp == points[k].temp by {}
    assert forall|a: int, b: int| 0 <= a < b < after.len() implies (#[trigger] after[a]).temp < (
    #[trigger] after[b]).temp by {
        assert(points[a].temp < points[b].temp);
    }
    assert forall|a: int, b: int|
        0 <= a < b < after.len() && b == a + 1 && !(#[trigger] after[a]).hands_over() && !(
        #[trigger] after[b]).hands_over() implies after[a].level <= after[b].level by {
        assert(!points[a].hands_over() && !points[b].hands_over());
    }
}

/// The axis in numbers: slots 0 to 7 are those levels, and anything above is
/// the firmware handoff, which is drawn at slot 8.
pub proof fn the_axis_by_number(slot: int)
    ensures
        0 <= slot <= 7 ==> level_of_slot(slot) == slot && slot_of_level(slot as u8) == slot,
        slot > 7 ==> level_of_slot(slot) == 0x80,
        slot_of_level(0x80) == 8,
{
}

/// A point goes where it is dragged: to the temperature asked for, held
/// strictly between its neighbors' and, where it has none, on the graph; and
/// to the slot asked for, held no slower than the neighbor below and no faster
/// than the one above, a neighbor that hands over not counting.
pub proof fn a_point_goes_where_it_is_dragged(
    points: Seq<CurvePoint>,
    i: int,
    temp: int,
    slot: int,
)
    requires
        crate::curve::valid_curve(points),
        0 <= i < points.len(),
        slot >= 0,
        has_room(points, i),
    ensures
        ({
            let p = dragged(points, i, temp, slot)[i];
            let cool = if i == 0 {
                30
            } else {
                points[i - 1].temp + 1
            };
            let hot = if i + 1 == points.len() {
                100
            } else {
                points[i + 1].temp - 1
            };
            let slow = if i == 0 || points[i - 1].level == 0x80 {
                0
            } else {
                points[i - 1].level as int
            };
            let fast = if i + 1 == points.len() || points[i + 1].level == 0x80 {
                8
            } else {
                points[i + 1].level as int
            };
            &&& cool <= temp <= hot ==> p.temp == temp
            &&& temp < cool ==> p.temp == cool
            &&& temp > hot ==> p.temp == hot
            &&& slow <= fast && slow <= slot <= fast ==> p.level == level_of_slot(slot)
            &&& slow <= fast && slot < slow ==> p.level == slow
            &&& slow <= fast && slot > fast ==> p.level == level_of_slot(fast)
        }),
{
    if i > 0 {
        assert(points[i - 1].temp < points[i].temp);
        assert(points[i - 1].legal());
    }
    if i + 1 < points.len() {
        assert(points[i].temp < points[i + 1].temp);
        assert(points[i + 1].legal());
    }
}

proof fn no_place_nearer(points: Seq<CurvePoint>, temp: i8, step: int)
    requires
        1 <= step <= REACH + 1,
    ensures
        beside(points, temp, step) matches Some(t) ==> {
            let far = if t < temp {
                temp - t
            } else {
                t - temp
            };
            &&& open_at(points, t)
            &&& far <= REACH
            &&& forall|u: int|
                #![trigger open_at(points, u)]
                i8::MIN <= u <= i8::MAX && open_at(points, u) && step <= (if u < temp {
                    temp - u
                } else {
                    u - temp
                }) ==> far <= (if u < temp {
                    temp - u
                } else {
                    u - temp
                })
            &&& t > temp && step <= far && i8::MIN <= temp - far ==> !open_at(points, temp - far)
        },
    decreases REACH + 1 - step,
{
    let cooler = crate::curve::saturated(temp - step);
    let hotter = crate::curve::saturated(temp + step);
    if step <= REACH && !open_at(points, cooler) && !open_at(points, hotter) {
        no_place_nearer(points, temp, step + 1);
        match beside(points, temp, step) {
            Some(t) => {
                let far = if t < temp {
                    temp - t
                } else {
                    t - temp
                };
                assert forall|u: int|
                    #![trigger open_at(points, u)]
                    i8::MIN <= u <= i8::MAX && open_at(points, u) && step <= (if u < temp {
                        temp - u
                    } else {
                        u - temp
                    }) implies far <= (if u < temp {
                    temp - u
                } else {
                    u - temp
                }) by {
                    if u == temp - step {
                        assert(u == cooler);
                    } else if u == temp + step {
                        assert(u == hotter);
                    }
                }
            },
            None => {},
        }
    }
}

/// A point dropped on a taken degree lands on the nearest free one on the
/// graph, and of two equally near on the cooler.
pub proof fn a_dropped_point_lands_nearby(points: Seq<CurvePoint>, temp: i8, u: int)
    requires
        taken(points, temp as int),
        landing(points, temp) is Some,
        30 <= u <= 100,
        forall|i: int| 0 <= i < points.len() ==> (#[trigger] points[i]).temp != u,
    ensures
        ({
            let t = landing(points, temp)->0;
            let far = if t < temp {
                temp - t
            } else {
                t - temp
            };
            &&& 30 <= t <= 100
            &&& forall|i: int| 0 <= i < points.len() ==> (#[trigger] points[i]).temp != t
            &&& u <= temp ==> far <= temp - u
            &&& u >= temp ==> far <= u - temp
            &&& u == temp - far ==> t == u
        }),
{
    no_place_nearer(points, temp, 1);
    assert(!taken(points, u));
    assert(open_at(points, u));
    let t = landing(points, temp)->0;
    assert(open_at(points, t));
    assert forall|i: int| 0 <= i < points.len() implies (#[trigger] points[i]).temp != t by {
        if points[i].temp == t {
            assert(taken(points, t));
        }
    }
    if u == temp {
        let i = choose|i: int| 0 <= i < points.len() && (#[trigger] points[i]).temp == temp as int;
        assert(points[i].temp == u);
    }
}

proof fn the_place_is_in_order(points: Seq<CurvePoint>, temp: int, i: int)
    requires
        0 <= i <= points.len(),
        forall|k: int| 0 <= k < i ==> (#[trigger] points[k]).temp <= temp,
    ensures
        i <= place(points, temp, i) <= points.len(),
        forall|k: int| 0 <= k < place(points, temp, i) ==> (#[trigger] points[k]).temp <= temp,
        place(points, temp, i) < points.len() ==> points[place(points, temp, i)].temp > temp,
    decreases points.len() - i,
{
    if i < points.len() && points[i].temp <= temp {
        the_place_is_in_order(points, temp, i + 1);
    }
}

/// A new point is put in order and takes what it was asked for: the
/// temperature, the slot held between its neighbors' levels, and the margins
/// of the neighbor below it, or of the one above where it is the first. The
/// other points stay.
pub proof fn a_new_point_takes_what_it_was_asked_for(
    points: Seq<CurvePoint>,
    temp: i8,
    slot: int,
    at: int,
)
    requires
        crate::curve::valid_curve(points),
        !taken(points, temp as int),
        slot >= 0,
        0 <= at <= points.len(),
        at > 0 ==> points[at - 1].temp < temp,
        at < points.len() ==> temp < points[at].temp,
    ensures
        ({
            let now = with_point(points, temp as int, slot);
            let slow = if at == 0 || points[at - 1].level == 0x80 {
                0
            } else {
                points[at - 1].level as int
            };
            let fast = if at == points.len() || points[at].level == 0x80 {
                8
            } else {
                points[at].level as int
            };
            &&& now.len() == points.len() + 1
            &&& forall|k: int| 0 <= k < at ==> #[trigger] now[k] == points[k]
            &&& forall|k: int| at < k < now.len() ==> #[trigger] now[k] == points[k - 1]
            &&& now[at].temp == temp
            &&& slow <= fast && slow <= slot <= fast ==> now[at].level == level_of_slot(slot)
            &&& slow <= fast && slot < slow ==> now[at].level == slow
            &&& slow <= fast && slot > fast ==> now[at].level == level_of_slot(fast)
            &&& at > 0 ==> now[at].hyst_up == points[at - 1].hyst_up && now[at].hyst_down
                == points[at - 1].hyst_down
            &&& at == 0 ==> now[at].hyst_up == points[0].hyst_up && now[at].hyst_down
                == points[0].hyst_down
        }),
{
    the_place_is_in_order(points, temp as int, 0);
    let found = place(points, temp as int, 0);
    if found < at {
        if found < at - 1 {
            assert(points[found].temp < points[at - 1].temp);
        }
    }
    if at < found {
        assert(points[at].temp <= temp);
    }
    assert(found == at);
    if at > 0 {
        assert(points[at - 1].legal());
    }
    if at < points.len() {
        assert(points[at].legal());
    }
}

proof fn none_is_nearer(distances: Seq<u32>, reach: u32, i: int)
    requires
        0 <= i <= distances.len(),
    ensures
        match nearest(distances, reach, i) {
            Some(k) => {
                &&& 0 <= k < i
                &&& distances[k] <= reach
                &&& forall|j: int| 0 <= j < i ==> distances[k] <= #[trigger] distances[j]
                &&& forall|j: int| 0 <= j < k ==> distances[k] < #[trigger] distances[j]
            },
            None => forall|j: int| 0 <= j < i ==> #[trigger] distances[j] > reach,
        },
    decreases i,
{
    if i > 0 {
        none_is_nearer(distances, reach, i - 1);
    }
}

/// The point grabbed is the nearest within reach, the first of several equally
/// near, and none is grabbed only where none is within reach.
pub proof fn the_nearest_point_is_grabbed(distances: Seq<u32>, reach: u32)
    ensures
        match nearest(distances, reach, distances.len() as int) {
            Some(k) => {
                &&& 0 <= k < distances.len()
                &&& distances[k] <= reach
                &&& forall|j: int|
                    0 <= j < distances.len() ==> distances[k] <= #[trigger] distances[j]
                &&& forall|j: int| 0 <= j < k ==> distances[k] < #[trigger] distances[j]
            },
            None => forall|j: int| 0 <= j < distances.len() ==> #[trigger] distances[j] > reach,
        },
{
    none_is_nearer(distances, reach, distances.len() as int);
}

} // verus!
