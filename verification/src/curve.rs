//! Fan curves and how they are evaluated.
//!
//! Evaluation is a pure function of the temperature and the step last settled
//! on. Nothing here looks at the fan register to decide, because two
//! controllers that each read what the other just wrote will hunt.

use vstd::prelude::*;

use crate::ec::{FAN_BIOS, FAN_DISENGAGED, FAN_LEVEL_MAX};
use crate::text::push_u64;

verus! {

/// One step of a curve.
#[derive(Debug, Clone, Copy, PartialEq, Eq, Structural)]
pub struct CurvePoint {
    /// Degrees Celsius at or above which this step applies.
    pub temp: i8,
    /// Fan level: 0 is off, 1 to 7 are the ordinary speeds, and `FAN_BIOS`
    /// hands the fan back to the firmware.
    pub level: u8,
    /// Extra degrees required before stepping up to this point.
    pub hyst_up: i8,
    /// Degrees below this point's threshold before stepping down off it.
    pub hyst_down: i8,
}

impl CurvePoint {
    /// True when this step gives the fan back to the firmware.
    pub open spec fn hands_over(self) -> bool {
        self.level == FAN_BIOS
    }

    /// True when the level is one a fan may be asked for: an ordinary speed,
    /// or the firmware handoff.
    pub open spec fn legal(self) -> bool {
        self.level <= FAN_LEVEL_MAX || self.hands_over()
    }

    /// A step with the hysteresis a new step starts with: none on the way up,
    /// four degrees on the way down.
    pub fn new(temp: i8, level: u8) -> (r: Self)
        ensures
            r == (CurvePoint { temp, level, hyst_up: 0, hyst_down: 4 }),
    {
        CurvePoint { temp, level, hyst_up: 0, hyst_down: 4 }
    }

    /// The same step with other hysteresis.
    pub fn with_hysteresis(self, up: i8, down: i8) -> (r: Self)
        ensures
            r == (CurvePoint { temp: self.temp, level: self.level, hyst_up: up, hyst_down: down }),
    {
        CurvePoint { temp: self.temp, level: self.level, hyst_up: up, hyst_down: down }
    }

    /// True when this step gives the fan back to the firmware.
    pub fn is_bios(&self) -> (r: bool)
        ensures
            r == self.hands_over(),
    {
        self.level == FAN_BIOS
    }
}

/// Why a list of points is not a curve.
#[derive(Debug, Clone, Copy, PartialEq, Eq, Structural)]
pub enum CurveError {
    Empty,
    /// Points must climb in temperature; an out-of-order curve almost always
    /// means a typo, and silently sorting it hides the mistake.
    NotAscending { index: usize },
    /// A step that runs the fan slower than the one below it.
    Backwards { index: usize },
    /// One point, which is one level held at every temperature there is.
    TooFewPoints { count: usize },
    /// A level above 7 that is not the firmware handoff.
    IllegalLevel { index: usize, level: u8 },
}

impl CurveError {
    /// The sentence that explains the refusal.
    pub open spec fn words(self) -> Seq<char> {
        match self {
            CurveError::Empty => "a curve needs at least one point"@,
            CurveError::TooFewPoints { count } => "a curve of "@ + crate::text::decimal_nat(
                count as nat,
            )
                + " point holds one fan level at every temperature, with the firmware's own control switched off; it needs at least two"@,
            CurveError::Backwards { index } => "point "@ + crate::text::decimal_nat(index as nat)
                + " runs the fan slower than the point below it, so the fan                  would ease off as the machine gets hotter"@,
            CurveError::NotAscending { index } => "point "@ + crate::text::decimal_nat(index as nat)
                + " is not warmer than the one before it"@,
            CurveError::IllegalLevel { index, level } => "point "@ + crate::text::decimal_nat(
                index as nat,
            ) + " asks for level "@ + crate::text::decimal_nat(level as nat) + "; only 0 to "@
                + crate::text::decimal_nat(FAN_LEVEL_MAX as nat)
                + " and the firmware handoff are allowed"@,
        }
    }

    /// The sentence that explains the refusal.
    pub fn to_string(&self) -> (r: String)
        ensures
            r@ == self.words(),
    {
        match self {
            CurveError::Empty => "a curve needs at least one point".to_owned(),
            CurveError::TooFewPoints { count } => {
                let mut s = "a curve of ".to_owned();
                push_u64(&mut s, *count as u64);
                s.append(
                    " point holds one fan level at every temperature, with the firmware's own control switched off; it needs at least two",
                );
                s
            },
            CurveError::Backwards { index } => {
                let mut s = "point ".to_owned();
                push_u64(&mut s, *index as u64);
                s.append(
                    " runs the fan slower than the point below it, so the fan                  would ease off as the machine gets hotter",
                );
                s
            },
            CurveError::NotAscending { index } => {
                let mut s = "point ".to_owned();
                push_u64(&mut s, *index as u64);
                s.append(" is not warmer than the one before it");
                s
            },
            CurveError::IllegalLevel { index, level } => {
                let mut s = "point ".to_owned();
                push_u64(&mut s, *index as u64);
                s.append(" asks for level ");
                push_u64(&mut s, *level as u64);
                s.append("; only 0 to ");
                push_u64(&mut s, FAN_LEVEL_MAX as u64);
                s.append(" and the firmware handoff are allowed");
                s
            },
        }
    }
}

/// What is wrong with one point of a list, looking at it and the one before.
pub open spec fn point_fault(points: Seq<CurvePoint>, i: int) -> Option<CurveError> {
    if !points[i].legal() {
        Some(CurveError::IllegalLevel { index: i as usize, level: points[i].level })
    } else if i > 0 && points[i].temp <= points[i - 1].temp {
        Some(CurveError::NotAscending { index: i as usize })
    } else if i > 0 && !points[i].hands_over() && !points[i - 1].hands_over() && points[i].level
        < points[i - 1].level {
        Some(CurveError::Backwards { index: i as usize })
    } else {
        None
    }
}

/// The first thing wrong with any point from `i` on.
pub open spec fn first_point_fault(points: Seq<CurvePoint>, i: int) -> Option<CurveError>
    decreases points.len() - i,
{
    if i >= points.len() {
        None
    } else {
        match point_fault(points, i) {
            Some(e) => Some(e),
            None => first_point_fault(points, i + 1),
        }
    }
}

/// Why a list of points is not a curve, if it is not one.
///
/// A list too short is judged last, so that a lone point asking for the
/// disengaged level is reported as what it is.
pub open spec fn curve_fault(points: Seq<CurvePoint>) -> Option<CurveError> {
    if points.len() == 0 {
        Some(CurveError::Empty)
    } else {
        match first_point_fault(points, 0) {
            Some(e) => Some(e),
            None => if points.len() < 2 {
                Some(CurveError::TooFewPoints { count: points.len() as usize })
            } else {
                None
            },
        }
    }
}

/// What it is to be a curve: at least two steps, legal levels, climbing
/// temperatures, and no step running the fan slower than the one below it.
pub open spec fn valid_curve(points: Seq<CurvePoint>) -> bool {
    &&& points.len() >= 2
    &&& forall|i: int| 0 <= i < points.len() ==> (#[trigger] points[i]).legal()
    &&& forall|i: int, j: int|
        0 <= i < j < points.len() ==> (#[trigger] points[i]).temp < (#[trigger] points[j]).temp
    &&& forall|i: int, j: int|
        0 <= i < j < points.len() && j == i + 1 && !(#[trigger] points[i]).hands_over() && !(
        #[trigger] points[j]).hands_over() ==> points[i].level <= points[j].level
}

proof fn no_fault_from(points: Seq<CurvePoint>, i: int)
    requires
        0 <= i <= points.len(),
        first_point_fault(points, i) is None,
    ensures
        forall|k: int| i <= k < points.len() ==> #[trigger] point_fault(points, k) is None,
    decreases points.len() - i,
{
    if i < points.len() {
        no_fault_from(points, i + 1);
    }
}

proof fn faultless_from(points: Seq<CurvePoint>, i: int)
    requires
        0 <= i <= points.len(),
        forall|k: int| i <= k < points.len() ==> #[trigger] point_fault(points, k) is None,
    ensures
        first_point_fault(points, i) is None,
    decreases points.len() - i,
{
    if i < points.len() {
        assert(point_fault(points, i) is None);
        faultless_from(points, i + 1);
    }
}

proof fn climbing(points: Seq<CurvePoint>, i: int, j: int)
    requires
        forall|k: int| 0 <= k < points.len() ==> #[trigger] point_fault(points, k) is None,
        0 <= i < j < points.len(),
    ensures
        points[i].temp < points[j].temp,
    decreases j - i,
{
    assert(point_fault(points, j) is None);
    if i < j - 1 {
        climbing(points, i, j - 1);
    }
}

/// A list of points is refused exactly when it is not a curve.
pub proof fn refused_exactly_when_not_a_curve(points: Seq<CurvePoint>)
    ensures
        curve_fault(points) is None <==> valid_curve(points),
{
    if curve_fault(points) is None {
        no_fault_from(points, 0);
        assert forall|i: int| 0 <= i < points.len() implies (#[trigger] points[i]).legal() by {
            assert(point_fault(points, i) is None);
        }
        assert forall|i: int, j: int| 0 <= i < j < points.len() implies (
        #[trigger] points[i]).temp < (#[trigger] points[j]).temp by {
            climbing(points, i, j);
        }
        assert forall|i: int, j: int|
            0 <= i < j < points.len() && j == i + 1 && !(#[trigger] points[i]).hands_over() && !(
            #[trigger] points[j]).hands_over() implies points[i].level <= points[j].level by {
            assert(point_fault(points, j) is None);
        }
    }
    if valid_curve(points) {
        assert forall|k: int| 0 <= k < points.len() implies #[trigger] point_fault(
            points,
            k,
        ) is None by {
            assert(points[k].legal());
            if k > 0 {
                assert(points[k - 1].temp < points[k].temp);
            }
        }
        faultless_from(points, 0);
    }
}

/// The highest step whose plain threshold the temperature has reached, and
/// the first step when it has reached none.
pub open spec fn bare_step(points: Seq<CurvePoint>, temp: i8) -> int
    decreases points.len(),
{
    if points.len() <= 1 {
        0
    } else if temp >= points.last().temp {
        points.len() - 1
    } else {
        bare_step(points.drop_last(), temp)
    }
}

/// A number of degrees held inside what a reading can be.
pub open spec fn saturated(degrees: int) -> int {
    if degrees < i8::MIN {
        i8::MIN as int
    } else if degrees > i8::MAX {
        i8::MAX as int
    } else {
        degrees
    }
}

/// The step a curve settles on, coming from `current`.
///
/// Upwards the target has to be met by its own margin; downwards the step
/// being left has to be cleared by its own. A `current` that names no step is
/// no step at all.
pub open spec fn settled_step(points: Seq<CurvePoint>, temp: i8, current: Option<int>) -> int {
    let bare = bare_step(points, temp);
    match current {
        Some(c) if 0 <= c < points.len() => if bare > c {
            if temp >= saturated(points[bare].temp + points[bare].hyst_up) {
                bare
            } else {
                c
            }
        } else if bare < c {
            if temp <= saturated(points[c].temp - points[c].hyst_down) {
                bare
            } else {
                c
            }
        } else {
            c
        },
        _ => bare,
    }
}

/// A step index as mathematics sees it.
pub open spec fn as_step(current: Option<usize>) -> Option<int> {
    match current {
        Some(c) => Some(c as int),
        None => None,
    }
}

/// The plain step is always one of the curve's own.
pub proof fn bare_step_is_a_step(points: Seq<CurvePoint>, temp: i8)
    requires
        points.len() > 0,
    ensures
        0 <= bare_step(points, temp) < points.len(),
    decreases points.len(),
{
    if points.len() > 1 && temp < points.last().temp {
        bare_step_is_a_step(points.drop_last(), temp);
    }
}

/// Whatever a curve settles on is one of its own steps.
pub proof fn settles_on_a_step(points: Seq<CurvePoint>, temp: i8, current: Option<int>)
    requires
        points.len() > 0,
    ensures
        0 <= settled_step(points, temp, current) < points.len(),
{
    bare_step_is_a_step(points, temp);
}

/// The plain step has been reached, unless it is the first, and no later step
/// has been.
pub proof fn bare_step_is_the_highest_reached(points: Seq<CurvePoint>, temp: i8)
    requires
        points.len() > 0,
    ensures
        bare_step(points, temp) > 0 ==> temp >= points[bare_step(points, temp)].temp,
        forall|k: int|
            bare_step(points, temp) < k < points.len() ==> temp < (#[trigger] points[k]).temp,
    decreases points.len(),
{
    if points.len() > 1 && temp < points.last().temp {
        let rest = points.drop_last();
        bare_step_is_the_highest_reached(rest, temp);
        bare_step_is_a_step(rest, temp);
        assert forall|k: int| bare_step(points, temp) < k < points.len() implies temp < (
        #[trigger] points[k]).temp by {
            if k < points.len() - 1 {
                assert(rest[k] == points[k]);
            }
        }
    }
}

/// The first decision lands directly on the right step: with no step behind
/// it, a curve settles on the plain one.
pub proof fn a_cold_start_skips_hysteresis(points: Seq<CurvePoint>, temp: i8)
    ensures
        settled_step(points, temp, None) == bare_step(points, temp),
{
}

/// Asking again at the same temperature changes nothing.
pub proof fn settling_is_stable(points: Seq<CurvePoint>, temp: i8, current: Option<int>)
    requires
        points.len() > 0,
    ensures
        settled_step(points, temp, Some(settled_step(points, temp, current))) == settled_step(
            points,
            temp,
            current,
        ),
{
    bare_step_is_a_step(points, temp);
}

/// A curve does not hunt: while the temperature stays below the next step's
/// threshold and has not cleared the present step's own margin, the step
/// holds.
pub proof fn a_step_holds_inside_its_margin(points: Seq<CurvePoint>, temp: i8, current: int)
    requires
        0 <= current < points.len(),
        forall|k: int| current < k < points.len() ==> temp < (#[trigger] points[k]).temp,
        temp > saturated(points[current].temp - points[current].hyst_down),
    ensures
        settled_step(points, temp, Some(current)) == current,
{
    bare_step_is_a_step(points, temp);
    bare_step_is_the_highest_reached(points, temp);
    if bare_step(points, temp) > current {
        assert(temp < points[bare_step(points, temp)].temp);
    }
}

/// A hotter machine is never on a lower plain step.
pub proof fn hotter_is_never_lower(points: Seq<CurvePoint>, cool: i8, hot: i8)
    requires
        points.len() > 0,
        cool <= hot,
    ensures
        bare_step(points, cool) <= bare_step(points, hot),
    decreases points.len(),
{
    if points.len() > 1 {
        bare_step_is_a_step(points, cool);
        if hot < points.last().temp {
            hotter_is_never_lower(points.drop_last(), cool, hot);
        }
    }
}

/// No curve eases the fan off as the machine heats: between two steps with no
/// firmware handoff from one to the other, the hotter one is at least as fast.
pub proof fn a_curve_never_eases_off(points: Seq<CurvePoint>, i: int, j: int)
    requires
        valid_curve(points),
        0 <= i <= j < points.len(),
        forall|k: int| i <= k <= j ==> !(#[trigger] points[k]).hands_over(),
    ensures
        points[i].level <= points[j].level,
    decreases j - i,
{
    if i < j {
        a_curve_never_eases_off(points, i, j - 1);
        assert(!points[j].hands_over() && !points[j - 1].hands_over());
    }
}

/// No curve asks for the disengaged fan, at any step.
pub proof fn no_curve_disengages(points: Seq<CurvePoint>, i: int)
    requires
        valid_curve(points),
        0 <= i < points.len(),
    ensures
        points[i].level != FAN_DISENGAGED,
        points[i].level <= FAN_LEVEL_MAX || points[i].level == FAN_BIOS,
{
    assert(points[i].legal());
}

/// An ascending list of steps.
#[derive(Debug)]
pub struct Curve {
    points: Vec<CurvePoint>,
}

impl View for Curve {
    type V = Seq<CurvePoint>;

    closed spec fn view(&self) -> Seq<CurvePoint> {
        self.points@
    }
}

impl Clone for Curve {
    fn clone(&self) -> (r: Self)
        ensures
            r@ == self@,
    {
        proof {
            use_type_invariant(self);
        }
        let points = copied(&self.points);
        Curve { points }
    }
}

/// A copy of a list of points.
pub fn copied(points: &Vec<CurvePoint>) -> (r: Vec<CurvePoint>)
    ensures
        r@ == points@,
{
    let mut r: Vec<CurvePoint> = Vec::new();
    let mut i: usize = 0;
    while i < points.len()
        invariant
            i <= points@.len(),
            r@ == points@.take(i as int),
        decreases points@.len() - i,
    {
        r.push(points[i]);
        i += 1;
        proof {
            assert(points@.take(i - 1).push(points@[i - 1]) == points@.take(i as int));
        }
    }
    proof {
        assert(points@.take(points@.len() as int) == points@);
    }
    r
}

impl Curve {
    #[verifier::type_invariant]
    spec fn well_formed(self) -> bool {
        valid_curve(self.points@)
    }

    /// A curve out of a list of points, or the first thing wrong with it.
    pub fn new(points: Vec<CurvePoint>) -> (r: Result<Self, CurveError>)
        ensures
            match r {
                Ok(curve) => curve_fault(points@) is None && curve@ == points@ && valid_curve(
                    points@,
                ),
                Err(e) => curve_fault(points@) == Some(e),
            },
    {
        if points.is_empty() {
            return Err(CurveError::Empty);
        }
        let mut i: usize = 0;
        while i < points.len()
            invariant
                i <= points@.len(),
                points@.len() > 0,
                first_point_fault(points@, 0) == first_point_fault(points@, i as int),
            decreases points@.len() - i,
        {
            let p = points[i];
            if p.level > FAN_LEVEL_MAX && !p.is_bios() {
                return Err(CurveError::IllegalLevel { index: i, level: p.level });
            }
            if i > 0 && p.temp <= points[i - 1].temp {
                return Err(CurveError::NotAscending { index: i });
            }
            if i > 0 && !p.is_bios() && !points[i - 1].is_bios() && p.level < points[i - 1].level {
                return Err(CurveError::Backwards { index: i });
            }
            i += 1;
        }
        if points.len() < 2 {
            return Err(CurveError::TooFewPoints { count: points.len() });
        }
        proof {
            refused_exactly_when_not_a_curve(points@);
        }
        Ok(Curve { points })
    }

    /// The steps, coolest first.
    pub fn points(&self) -> (r: &[CurvePoint])
        ensures
            r@ == self@,
            valid_curve(self@),
    {
        proof {
            use_type_invariant(self);
        }
        self.points.as_slice()
    }

    /// Picks the step for a temperature, given the step we are currently on.
    ///
    /// Pass `None` when nothing has been applied yet, which skips hysteresis
    /// so the first decision lands directly on the right step instead of
    /// climbing to it.
    pub fn evaluate(&self, temp: i8, current: Option<usize>) -> (r: usize)
        ensures
            r == settled_step(self@, temp, as_step(current)),
            r < self@.len(),
    {
        proof {
            use_type_invariant(self);
            settles_on_a_step(self.points@, temp, as_step(current));
            bare_step_is_a_step(self.points@, temp);
        }
        let mut bare: usize = self.points.len() - 1;
        proof {
            assert(self.points@.take(bare + 1) == self.points@);
        }
        while bare > 0 && temp < self.points[bare].temp
            invariant
                bare < self.points@.len(),
                bare_step(self.points@, temp) == bare_step(self.points@.take(bare + 1), temp),
            decreases bare,
        {
            proof {
                assert(self.points@.take(bare + 1).drop_last() == self.points@.take(bare as int));
                assert(self.points@.take(bare + 1).last() == self.points@[bare as int]);
            }
            bare -= 1;
        }
        proof {
            assert(self.points@.take(bare + 1).last() == self.points@[bare as int]);
        }
        match current {
            Some(c) => {
                if c >= self.points.len() {
                    return bare;
                }
                if bare > c {
                    let target = self.points[bare];
                    if temp as i16 >= saturate(target.temp as i16 + target.hyst_up as i16) {
                        bare
                    } else {
                        c
                    }
                } else if bare < c {
                    let here = self.points[c];
                    if temp as i16 <= saturate(here.temp as i16 - here.hyst_down as i16) {
                        bare
                    } else {
                        c
                    }
                } else {
                    c
                }
            },
            None => bare,
        }
    }

    /// The level a step asks for. A step past the end is the last one.
    pub fn level_at(&self, index: usize) -> (r: u8)
        ensures
            r == level_of_step(self@, index as int),
            r <= FAN_LEVEL_MAX || r == FAN_BIOS,
    {
        proof {
            use_type_invariant(self);
            no_curve_disengages(
                self.points@,
                if index < self.points@.len() {
                    index as int
                } else {
                    self.points@.len() - 1
                },
            );
        }
        if index < self.points.len() {
            self.points[index].level
        } else {
            self.points[self.points.len() - 1].level
        }
    }
}

/// The level a step asks for. A step past the end is the last one.
pub open spec fn level_of_step(points: Seq<CurvePoint>, index: int) -> u8 {
    if index < points.len() {
        points[index].level
    } else {
        points.last().level
    }
}

/// A number of degrees held inside what a reading can be.
fn saturate(degrees: i16) -> (r: i16)
    ensures
        r == saturated(degrees as int),
{
    if degrees < -128 {
        -128
    } else if degrees > 127 {
        127
    } else {
        degrees
    }
}

/// One step with its hysteresis, for writing curves out.
pub open spec fn step(temp: i8, level: u8, up: i8, down: i8) -> CurvePoint {
    CurvePoint { temp, level, hyst_up: up, hyst_down: down }
}

/// The curve that ships as Balanced: silent below 46 C, decisive above it,
/// and the firmware takes over at the top.
pub open spec fn balanced_points() -> Seq<CurvePoint> {
    seq![
        step(46, 0, 0, 3),
        step(52, 1, 0, 5),
        step(60, 2, 0, 5),
        step(68, 3, 0, 6),
        step(76, 4, 0, 6),
        step(84, 5, 0, 6),
        step(90, FAN_BIOS, 0, 7),
    ]
}

impl Default for Curve {
    fn default() -> (r: Self)
        ensures
            r@ == balanced_points(),
            valid_curve(r@),
    {
        let points = vec![
            CurvePoint::new(46, 0).with_hysteresis(0, 3),
            CurvePoint::new(52, 1).with_hysteresis(0, 5),
            CurvePoint::new(60, 2).with_hysteresis(0, 5),
            CurvePoint::new(68, 3).with_hysteresis(0, 6),
            CurvePoint::new(76, 4).with_hysteresis(0, 6),
            CurvePoint::new(84, 5).with_hysteresis(0, 6),
            CurvePoint::new(90, FAN_BIOS).with_hysteresis(0, 7),
        ];
        proof {
            assert(points@ == balanced_points());
        }
        Curve { points }
    }
}

/// Whether a point may stand where it does: a level of 0 to 7 or the firmware
/// handoff, warmer than the point before it, and, where neither of the two
/// hands over, running the fan no slower than that one.
pub open spec fn may_follow(points: Seq<CurvePoint>, i: int) -> bool {
    &&& points[i].level <= 7 || points[i].level == 0x80
    &&& i > 0 ==> points[i].temp > points[i - 1].temp
    &&& i > 0 && points[i].level != 0x80 && points[i - 1].level != 0x80 ==> points[i].level
        >= points[i - 1].level
}

proof fn first_fault_is_first(points: Seq<CurvePoint>, i: int)
    requires
        0 <= i,
        points.len() <= usize::MAX,
    ensures
        match first_point_fault(points, i) {
            None => forall|k: int| i <= k < points.len() ==> #[trigger] may_follow(points, k),
            Some(e) => exists|at: int|
                {
                    &&& i <= at < points.len()
                    &&& !#[trigger] may_follow(points, at)
                    &&& point_fault(points, at) == Some(e)
                    &&& forall|k: int| i <= k < at ==> #[trigger] may_follow(points, k)
                },
        },
    decreases points.len() - i,
{
    if i < points.len() {
        if point_fault(points, i) is Some {
            assert(!may_follow(points, i));
        } else {
            assert(may_follow(points, i));
            first_fault_is_first(points, i + 1);
        }
    }
}

/// A refusal names the first point that may not stand where it does, and what
/// is wrong with it; a list whose points all may is refused only for being too
/// short.
pub proof fn a_refusal_names_the_first_bad_point(points: Seq<CurvePoint>)
    requires
        points.len() <= usize::MAX,
    ensures
        match curve_fault(points) {
            None => points.len() >= 2 && forall|k: int|
                0 <= k < points.len() ==> #[trigger] may_follow(points, k),
            Some(CurveError::Empty) => points.len() == 0,
            Some(CurveError::TooFewPoints { count }) => count == 1 && points.len() == 1
                && may_follow(points, 0),
            Some(CurveError::IllegalLevel { index, level }) => {
                &&& index < points.len()
                &&& points[index as int].level == level
                &&& level > 7 && level != 0x80
                &&& forall|k: int| 0 <= k < index ==> #[trigger] may_follow(points, k)
            },
            Some(CurveError::NotAscending { index }) => {
                &&& 0 < index < points.len()
                &&& points[index as int].temp <= points[index - 1].temp
                &&& forall|k: int| 0 <= k < index ==> #[trigger] may_follow(points, k)
            },
            Some(CurveError::Backwards { index }) => {
                &&& 0 < index < points.len()
                &&& points[index as int].level < points[index - 1].level
                &&& points[index as int].level <= 7 && points[index - 1].level <= 7
                &&& points[index as int].temp > points[index - 1].temp
                &&& forall|k: int| 0 <= k < index ==> #[trigger] may_follow(points, k)
            },
        },
{
    first_fault_is_first(points, 0);
    match curve_fault(points) {
        Some(CurveError::Backwards { index }) => {
            assert(may_follow(points, index - 1));
        },
        Some(CurveError::TooFewPoints { count }) => {
            assert(may_follow(points, 0));
        },
        _ => {},
    }
}

} // verus!
