use yamato::config::{HYST_DOWN_MAX, HYST_UP_MAX};
use yamato::curve::{Curve, CurveError, CurvePoint};
use yamato::curve_editor::{axis_for_level, level_for_axis, Editor};
use yamato::ec::{FAN_BIOS, FAN_DISENGAGED, FAN_LEVEL_MAX};
use yamato::theme::{LEVEL_MAX, TEMP_MAX, TEMP_MIN};

const GRAB_RADIUS: f32 = 14.0;

/// A graph on screen, in pixels.
#[derive(Clone, Copy)]
struct Rect {
    left: f32,
    top: f32,
    right: f32,
    bottom: f32,
}

impl Rect {
    fn width(&self) -> f32 {
        self.right - self.left
    }

    fn height(&self) -> f32 {
        self.bottom - self.top
    }

    fn temp_to_x(&self, temp: f32) -> f32 {
        let t = (temp - TEMP_MIN as f32) / (TEMP_MAX as f32 - TEMP_MIN as f32);
        self.left + t.clamp(0.0, 1.0) * self.width()
    }

    fn level_to_y(&self, slot: f32) -> f32 {
        let t = slot / LEVEL_MAX as f32;
        self.bottom - t.clamp(0.0, 1.0) * self.height()
    }

    fn x_to_temp(&self, x: f32) -> f32 {
        let t = ((x - self.left) / self.width()).clamp(0.0, 1.0);
        TEMP_MIN as f32 + t * (TEMP_MAX as f32 - TEMP_MIN as f32)
    }

    fn y_to_slot(&self, y: f32) -> f32 {
        let t = ((self.bottom - y) / self.height()).clamp(0.0, 1.0);
        t * LEVEL_MAX as f32
    }

    /// Distances compare as their bits do, because none is negative.
    fn hit(&self, e: &Editor, x: f32, y: f32) -> Option<usize> {
        let distances: Vec<u32> = e
            .points()
            .iter()
            .map(|p| {
                let px = self.temp_to_x(p.temp as f32);
                let py = self.level_to_y(axis_for_level(p.level) as f32);
                ((px - x).powi(2) + (py - y).powi(2)).sqrt().to_bits()
            })
            .collect();
        e.hit_test(&distances, GRAB_RADIUS.to_bits())
    }

    fn grab(&self, e: &mut Editor, x: f32, y: f32) -> bool {
        let hit = self.hit(e, x, y);
        e.begin_drag(hit)
    }

    fn drag(&self, e: &mut Editor, x: f32, y: f32) {
        e.drag_to(self.x_to_temp(x).round() as i8, self.y_to_slot(y).round() as u8);
    }

    fn add(&self, e: &mut Editor, x: f32, y: f32) -> bool {
        e.add_point(self.x_to_temp(x).round() as i8, self.y_to_slot(y).round() as u8)
    }
}

fn area() -> Rect {
    Rect { left: 0.0, top: 0.0, right: 700.0, bottom: 350.0 }
}

fn editor() -> Editor {
    Editor::new(&Curve::default())
}

#[test]
fn temperature_maps_to_pixels_and_back() {
    let e = editor();
    let a = area();

    for temp in [35.0f32, 50.0, 72.5, 99.0] {
        let x = a.temp_to_x(temp);
        let back = a.x_to_temp(x);
        assert!((back - temp).abs() < 0.5, "{temp} came back as {back}");
    }
}

#[test]
fn level_zero_is_at_the_bottom_of_the_graph() {
    // Anyone reading a fan curve expects up to mean faster.
    let e = editor();
    let a = area();
    assert!(a.level_to_y(0.0) > a.level_to_y(7.0));
}

#[test]
fn the_firmware_step_sits_above_level_seven() {
    assert!(axis_for_level(FAN_BIOS) > axis_for_level(FAN_LEVEL_MAX));
    assert_eq!(level_for_axis(8), FAN_BIOS);
    assert_eq!(level_for_axis(7), 7);
}

#[test]
fn the_disengaged_level_cannot_be_chosen_from_the_axis() {
    // 0x40 runs the blower unregulated and is documented as potentially
    // damaging. No slot on the axis produces it.
    for slot in 0..=255u8 {
        assert_ne!(level_for_axis(slot), FAN_DISENGAGED);
    }
}

#[test]
fn clicking_a_point_grabs_it() {
    let mut e = editor();
    let a = area();
    let p = e.points()[2];
    let x = a.temp_to_x(p.temp as f32);
    let y = a.level_to_y(axis_for_level(p.level) as f32);

    assert_eq!(a.hit(&e, x, y), Some(2));
    assert!(a.grab(&mut e, x, y));
    assert!(e.is_dragging());
}

#[test]
fn clicking_empty_space_grabs_nothing() {
    let mut e = editor();
    let a = area();
    assert!(!a.grab(&mut e, 5.0, 5.0));
    assert!(!e.is_dragging());
}

#[test]
fn a_dragged_point_cannot_cross_its_neighbors() {
    // Crossing would swap two rows out from under the pointer and produce
    // a curve that no longer ascends.
    let mut e = editor();
    let a = area();
    let before = e.points()[1].temp;
    let after = e.points()[3].temp;

    let p = e.points()[2];
    a.grab(&mut e, a.temp_to_x(p.temp as f32), a.level_to_y(axis_for_level(p.level) as f32));

    // Yank it hard to the left, past its left neighbor.
    a.drag(&mut e, 0.0, 100.0);
    assert!(e.points()[2].temp > before, "point crossed the one below it");

    // And hard to the right.
    a.drag(&mut e, 10_000.0, 100.0);
    assert!(e.points()[2].temp < after, "point crossed the one above it");

    assert!(e.validate().is_ok(), "dragging produced an invalid curve");
}

#[test]
fn dragging_never_produces_a_curve_that_will_not_save() {
    let mut e = editor();
    let a = area();

    for i in 0..e.points().len() {
        let p = e.points()[i];
        a.grab(&mut e, a.temp_to_x(p.temp as f32), a.level_to_y(axis_for_level(p.level) as f32));

        for (x, y) in [(0.0, 0.0), (700.0, 350.0), (350.0, 0.0), (350.0, 350.0)] {
            a.drag(&mut e, x, y);
            assert!(e.validate().is_ok(), "point {i} at ({x},{y}) broke the curve");
        }

        e.end_drag();
    }
}

#[test]
fn adding_a_point_keeps_the_curve_ordered_and_valid() {
    let mut e = editor();
    let a = area();
    let before = e.points().len();

    assert!(a.add(&mut e, a.temp_to_x(63.0), a.level_to_y(2.0)));
    assert_eq!(e.points().len(), before + 1);
    assert!(e.validate().is_ok());

    let temps: Vec<i8> = e.points().iter().map(|p| p.temp).collect();
    let mut sorted = temps.clone();
    sorted.sort_unstable();
    assert_eq!(temps, sorted, "adding a point left the curve out of order");
}

#[test]
fn a_point_dropped_on_an_existing_one_lands_beside_it() {
    // Refusing outright made a double-click near a step do nothing, with
    // nothing said about why. Two points at one temperature is still
    // impossible; the new one moves.
    let mut e = editor();
    let a = area();
    let existing = e.points()[0].temp;
    let before = e.points().len();

    assert!(a.add(&mut e, a.temp_to_x(existing as f32), a.level_to_y(3.0)));
    assert_eq!(e.points().len(), before + 1, "nothing was added");

    // Still a valid curve, which is what refusing was protecting.
    let temps: Vec<i8> = e.points().iter().map(|p| p.temp).collect();
    let mut unique = temps.clone();
    unique.sort_unstable();
    unique.dedup();
    assert_eq!(temps.len(), unique.len(), "two points share a temperature");
    assert!(e.validate().is_ok(), "the curve no longer validates");
}

#[test]
fn the_last_point_cannot_be_removed() {
    // An empty curve would leave the engine with nothing to follow.
    let mut e = Editor::new(
        &Curve::new(vec![CurvePoint::new(50, 1), CurvePoint::new(60, 2)]).unwrap(),
    );
    assert!(e.remove_point(1));
    assert_eq!((e.points()[0].temp, e.points()[0].level), (50, 1));
    assert!(!e.remove_point(0));
    assert_eq!(e.points().len(), 1);
}

#[test]
fn removing_a_point_leaves_a_valid_curve() {
    let mut e = editor();
    assert!(e.remove_point(2));
    assert!(e.validate().is_ok());
}

#[test]
fn a_new_point_takes_after_its_neighbor_rather_than_the_defaults() {
    // A tuned or imported curve has its own idea of how eagerly the fan
    // should change speed. A point added into the middle of it carrying
    // the generic 0 and 4 would behave differently from everything around
    // it, with nothing on screen saying so.
    let curve = Curve::new(vec![
        CurvePoint::new(50, 1).with_hysteresis(2, 7),
        CurvePoint::new(80, 5).with_hysteresis(1, 9),
    ])
    .unwrap();

    let mut e = Editor::new(&curve);
    let a = area();

    assert!(a.add(&mut e, a.temp_to_x(65.0), a.level_to_y(3.0)));

    let added = e.points()[1];
    assert_eq!(added.temp, 65);
    assert_eq!((added.hyst_up, added.hyst_down), (2, 7), "took the defaults, not the curve");
}

#[test]
fn a_new_first_point_takes_after_the_one_above_it() {
    // There is nothing below it to copy, and the alternative is the same
    // silent mixing at the other end of the curve.
    let curve = Curve::new(vec![
        CurvePoint::new(60, 2).with_hysteresis(3, 8),
        CurvePoint::new(80, 5),
    ])
    .unwrap();
    let mut e = Editor::new(&curve);
    assert!(e.remove_point(1));
    let a = area();

    assert!(a.add(&mut e, a.temp_to_x(40.0), a.level_to_y(1.0)));

    let added = e.points()[0];
    assert_eq!(added.temp, 40);
    assert_eq!((added.hyst_up, added.hyst_down), (3, 8));
}

#[test]
fn dragging_a_point_leaves_its_hysteresis_alone() {
    let curve = Curve::new(vec![
        CurvePoint::new(50, 1).with_hysteresis(2, 7),
        CurvePoint::new(80, 5).with_hysteresis(1, 9),
    ])
    .unwrap();

    let mut e = Editor::new(&curve);
    let a = area();

    a.grab(&mut e, a.temp_to_x(50.0), a.level_to_y(1.0));
    a.drag(&mut e, a.temp_to_x(55.0), a.level_to_y(3.0));
    e.end_drag();

    let moved = e.points()[0];
    assert_eq!(moved.temp, 55);
    assert_eq!(moved.level, 3);
    assert_eq!((moved.hyst_up, moved.hyst_down), (2, 7));
}

#[test]
fn stepping_hysteresis_stays_inside_what_the_loader_allows() {
    // The two ranges are different sizes on purpose: a late drop is a
    // quiet fan, a late climb is a hot machine.
    let mut e = editor();
    e.select(Some(0));

    for _ in 0..(HYST_DOWN_MAX as usize + 2) * 3 {
        e.step_hyst_down();
        assert!((0..=HYST_DOWN_MAX).contains(&e.points()[0].hyst_down));
    }

    let mut highest_up = 0;
    for _ in 0..(HYST_UP_MAX as usize + 2) * 3 {
        e.step_hyst_up();
        let up = e.points()[0].hyst_up;
        assert!((0..=HYST_UP_MAX).contains(&up));
        highest_up = highest_up.max(up);
    }

    // The climb has less room than the drop, and this is where that shows.
    assert!(highest_up < HYST_DOWN_MAX, "the two ranges should not be the same size");
}

#[test]
fn stepping_wraps_round_so_a_value_can_be_walked_back_down() {
    // The only gesture is a click, so the way back to zero is round the
    // top. A control you can only ever increase is a trap.
    let mut e = editor();
    e.select(Some(0));

    for _ in 0..=HYST_UP_MAX {
        e.step_hyst_up();
    }

    assert_eq!(e.points()[0].hyst_up, 0);
}

#[test]
fn nothing_selected_means_nothing_is_edited() {
    let mut e = editor();
    let before = e.points()[0];

    e.select(None);
    e.step_hyst_down();
    e.step_hyst_up();

    assert_eq!(e.points()[0].hyst_down, before.hyst_down);
    assert!(!e.is_dirty());
}

#[test]
fn removing_a_point_does_not_leave_the_selection_pointing_at_another() {
    // Otherwise the rows quietly start editing a point nobody chose.
    let mut e = editor();

    e.select(Some(3));
    e.remove_point(3);
    assert_eq!(e.selected(), None, "the selection outlived the point");

    e.select(Some(3));
    e.remove_point(1);
    assert_eq!(e.selected(), Some(2), "the selection did not move with the list");
}

#[test]
fn clicking_a_point_selects_it() {
    let mut e = editor();
    let a = area();
    let p = e.points()[2];

    a.grab(&mut e, a.temp_to_x(p.temp as f32), a.level_to_y(axis_for_level(p.level) as f32));

    assert_eq!(e.selected(), Some(2));
    assert_eq!(e.selected_point().map(|p| p.temp), Some(p.temp));
}

#[test]
fn edits_mark_the_editor_dirty_until_saved() {
    let mut e = editor();
    assert!(!e.is_dirty());

    area().add(&mut e, area().temp_to_x(55.0), area().level_to_y(1.0));
    assert!(e.is_dirty());

    e.mark_saved();
    assert!(!e.is_dirty());
}

#[test]
fn a_step_removed_from_the_middle_can_be_put_back() {
    // Reported from the machine: a point could be taken out but not added
    // again between its neighbors.
    let curve = Curve::new(vec![
        CurvePoint::new(46, 0),
        CurvePoint::new(60, 2),
        CurvePoint::new(76, 4),
    ])
    .unwrap();

    let mut editor = Editor::new(&curve);
    let area = Rect { left: 0.0, top: 0.0, right: 800.0, bottom: 400.0 };

    // Where the middle point sits on screen, before it goes.
    let x = area.temp_to_x(60.0);
    let y = area.level_to_y(axis_for_level(2) as f32);

    let middle = area.hit(&editor, x, y).expect("the middle point should be hittable");
    editor.remove_point(middle);
    assert_eq!(editor.points().len(), 2);

    // Then back again, at the very same place.
    assert!(area.add(&mut editor, x, y), "a removed point could not be added back");
    assert_eq!(editor.points().len(), 3);

    let put_back = editor.points().iter().find(|p| p.temp == 60).expect("not at 60 C");
    assert_eq!(put_back.level, 2, "it came back at the wrong level");
}

#[test]
fn a_point_cannot_be_dragged_into_running_the_fan_slower_when_hotter() {
    // Seen on the machine: level four at seventy-six and level one at
    // seventy-nine, so the fan went nearly idle as the CPU passed eighty.
    // Only the temperatures were ever checked.
    let curve = Curve::new(vec![
        CurvePoint::new(60, 2),
        CurvePoint::new(76, 4),
        CurvePoint::new(84, 5),
    ])
    .unwrap();

    let mut e = Editor::new(&curve);
    let a = area();

    // Take hold of the middle one and drag it to the floor.
    let x = a.temp_to_x(76.0);
    let y = a.level_to_y(axis_for_level(4) as f32);
    assert!(a.grab(&mut e, x, y));

    a.drag(&mut e, a.temp_to_x(79.0), a.level_to_y(1.0));
    e.end_drag();

    let levels: Vec<u8> = e.points().iter().map(|p| p.level).collect();
    assert!(
        levels.windows(2).all(|w| w[0] <= w[1] || w[1] == FAN_BIOS),
        "the curve runs the fan slower as it gets hotter: {levels:?}"
    );
}

#[test]
fn the_live_reading_does_not_touch_the_curve() {
    let mut e = editor();
    assert_eq!(e.live_temp(), None);
    e.set_live_temp(Some(63));
    assert_eq!(e.live_temp(), Some(63));
    assert!(!e.is_dirty());
}

#[test]
fn an_editor_left_with_one_point_does_not_validate() {
    let mut e = Editor::new(
        &Curve::new(vec![CurvePoint::new(50, 1), CurvePoint::new(60, 2)]).unwrap(),
    );
    assert!(e.validate().is_ok());
    assert!(e.remove_point(0));
    assert_eq!(e.validate().unwrap_err(), CurveError::TooFewPoints { count: 1 });
    assert!(!e.remove_point(7));
}

#[test]
fn the_nearest_of_two_points_is_the_one_grabbed() {
    let e = editor();
    let mut distances: Vec<u32> = vec![900; e.points().len()];
    distances[1] = 5;
    distances[3] = 4;
    assert_eq!(e.hit_test(&distances, 10), Some(3));
    assert_eq!(e.hit_test(&distances, 3), None);
    // Equally near, the first one wins.
    distances[1] = 4;
    assert_eq!(e.hit_test(&distances, 10), Some(1));
}
