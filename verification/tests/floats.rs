use yumi_wini::floating::{adjust, can_adjust, place_default, FloatChange, SizeChange};
use yumi_wini::geometry::{FloatRect, Rect};

const PX: i64 = 1_000_000;

fn work() -> Rect {
    Rect { left: 0, top: 0, right: 1000, bottom: 700 }
}

fn float() -> FloatRect {
    FloatRect { x: 300 * PX, y: 200 * PX, w: 400 * PX, h: 300 * PX }
}

fn width(change: SizeChange) -> i64 {
    adjust(float(), FloatChange::Width(change), None).w
}

#[test]
fn sizes_change_by_steps_values_and_proportions() {
    assert_eq!(width(SizeChange::Delta(10 * PX)), 410 * PX);
    assert_eq!(width(SizeChange::Fixed(640 * PX)), 640 * PX);
    assert_eq!(width(SizeChange::Proportion(1_500_000)), 600 * PX);
    assert_eq!(
        adjust(float(), FloatChange::Height(SizeChange::Fixed(PX * 500)), None),
        FloatRect { h: 500 * PX, ..float() }
    );
}

#[test]
fn a_resized_float_is_at_least_a_hundred_pixels() {
    assert_eq!(width(SizeChange::Delta(-390 * PX)), 100 * PX);
    assert_eq!(width(SizeChange::Fixed(-5)), 100 * PX);
    assert_eq!(width(SizeChange::Proportion(100_000)), 100 * PX);
}

#[test]
fn proportions_are_bounded() {
    // Not below 0.05: 4000 px become 200 px.
    let wide = FloatRect { w: 4000 * PX, ..float() };
    let r = adjust(wide, FloatChange::Width(SizeChange::Proportion(0)), None);
    assert_eq!(r.w, 200 * PX);
    // Not above 20.
    assert_eq!(width(SizeChange::Proportion(90_000_000)), 8000 * PX);
}

#[test]
fn moves_and_their_opposites() {
    let there = adjust(float(), FloatChange::Left, Some(work()));
    assert_eq!(there, FloatRect { x: 250 * PX, ..float() });
    assert_eq!(adjust(there, FloatChange::Right, Some(work())), float());
    let there = adjust(float(), FloatChange::Down, Some(work()));
    assert_eq!(there, FloatRect { y: 250 * PX, ..float() });
    assert_eq!(adjust(there, FloatChange::Up, Some(work())), float());
}

#[test]
fn floats_stay_in_reach() {
    let far = FloatRect { x: 5000 * PX, y: -5000 * PX, ..float() };
    assert_eq!(
        adjust(far, FloatChange::Right, Some(work())),
        FloatRect { x: 900 * PX, y: -200 * PX, ..float() }
    );
    // Shrinking a float that hangs off the left edge pulls it back in.
    let hanging = FloatRect { x: -300 * PX, ..float() };
    let change = FloatChange::Width(SizeChange::Fixed(200 * PX));
    assert_eq!(
        adjust(hanging, change, Some(work())),
        FloatRect { x: -100 * PX, w: 200 * PX, ..float() }
    );
}

#[test]
fn a_tiny_work_area_has_no_room() {
    let tiny = Rect { left: 0, top: 0, right: 10, bottom: 700 };
    let narrow = FloatRect { w: 100 * PX, ..float() };
    assert!(!can_adjust(narrow, FloatChange::Left, tiny));
    assert!(can_adjust(float(), FloatChange::Left, work()));
}

#[test]
fn the_default_place() {
    assert_eq!(
        place_default(Some(work())),
        FloatRect { x: 200 * PX, y: 140 * PX, w: 600 * PX, h: 420 * PX }
    );
    assert_eq!(
        place_default(Some(Rect { left: -1000, top: 100, right: 0, bottom: 800 })),
        FloatRect { x: -800 * PX, y: 240 * PX, w: 600 * PX, h: 420 * PX }
    );
    assert_eq!(
        place_default(None),
        FloatRect { x: 100 * PX, y: 100 * PX, w: 800 * PX, h: 600 * PX }
    );
}

#[test]
fn fractions_of_a_pixel_are_kept() {
    // 60% of 1001 px are 600.6 px, with 200.2 px on either side.
    let odd = Rect { left: 0, top: 0, right: 1001, bottom: 700 };
    let r = place_default(Some(odd));
    assert_eq!((r.x, r.w), (200_200_000, 600_600_000));
}

#[test]
fn a_float_wider_than_any_screen_stays_in_reach() {
    let wide = FloatRect { x: i64::MIN, w: i64::MAX, ..float() };
    let r = adjust(wide, FloatChange::Left, Some(work()));
    assert!(r.x + r.w >= 100 * PX);
    assert!(r.x <= 900 * PX);
}

#[test]
fn far_out_values_stop_at_the_end_of_the_range() {
    let edge = FloatRect { x: i64::MIN, ..float() };
    assert_eq!(adjust(edge, FloatChange::Left, None).x, i64::MIN);
    assert_eq!(width(SizeChange::Delta(i64::MAX)), i64::MAX);
}
