use geng::{
    index_range, min_max, vec2, vec3, Aabb, BlendMode, Config, Configurable, DepthFunc,
    DepthTest, DrawParameters, FixedBound, FixedRangeBounds, IndexBound, PartialOrdExt, ShowValue,
    Vec2,
};

#[test]
fn dot_and_skew() {
    assert_eq!(Vec2::dot(vec2(1, 2), vec2(3, 4)), 11);
    assert_eq!(Vec2::skew(vec2(1, 2), vec2(3, 4)), -2);
}

#[test]
fn extend_and_map() {
    assert_eq!(vec2(1, 2).extend(3), vec3(1, 2, 3));
    assert_eq!(vec2(1, 2).map(|v: i32| v * 10), vec2(10, 20));
}

#[test]
fn rotate_90_turns_counter_clockwise() {
    assert_eq!(vec2(3i64, 4).rotate_90(), vec2(-4, 3));
}

#[test]
fn clamp_min_max_per_coordinate() {
    let v = vec2(5i64, -2);
    assert_eq!(v.clamp_min_max(vec2(0, 0), vec2(1, 1)), vec2(1, 0));
    assert_eq!(vec2(0i64, 1).clamp_min_max(vec2(-1, -1), vec2(2, 2)), vec2(0, 1));
}

#[test]
fn index_range_bounds() {
    assert_eq!(index_range(10, IndexBound::Unbounded, IndexBound::Unbounded), 0..10);
    assert_eq!(index_range(10, IndexBound::Included(2), IndexBound::Included(4)), 2..5);
    assert_eq!(index_range(10, IndexBound::Excluded(2), IndexBound::Excluded(4)), 3..4);
}

#[test]
fn inclusive_range_bounds() {
    let r = 3..=7;
    assert!(matches!(FixedRangeBounds::start_bound(&r), FixedBound::Included(&3)));
    assert!(matches!(FixedRangeBounds::end_bound(&r), FixedBound::Included(&7)));
}

#[test]
fn min_max_orders() {
    assert_eq!(min_max(3, 1), (1, 3));
    assert_eq!(min_max(1, 3), (1, 3));
    assert_eq!(min_max(2, 2), (2, 2));
}

#[test]
fn draw_defaults() {
    assert_eq!(BlendMode::default(), BlendMode::Alpha);
    assert_eq!(DepthFunc::default(), DepthFunc::Less);
    let p = DrawParameters::default();
    assert!(p.write_depth);
    assert_eq!(p.viewport, None);
}

#[test]
fn draw_settings() {
    let p = DrawParameters::default();
    let s = p.settings(vec2(640, 480));
    assert_eq!(s.depth_test, DepthTest::Always);
    assert_eq!(s.viewport, (0, 0, 640, 480));
    assert!(s.depth_mask);
    let q = DrawParameters {
        depth_func: Some(DepthFunc::Greater),
        blend_mode: Some(BlendMode::Alpha),
        cull_face: None,
        viewport: Some(Aabb { x_min: 10, y_min: 20, x_max: 110, y_max: 70 }),
        write_depth: false,
    };
    let s = q.settings(vec2(640, 480));
    assert_eq!(s.depth_test, DepthTest::Greater);
    assert_eq!(s.blend, Some(BlendMode::Alpha));
    assert_eq!(s.viewport, (10, 20, 100, 50));
    assert!(!s.depth_mask);
}

#[test]
fn show_value_gives_back_its_value() {
    let c: ShowValue<String> = Configurable::config(String::from("seven"));
    assert_eq!(c.get(), "seven");
    let n = <i32 as Configurable>::config(7);
    assert_eq!(n.get(), 7);
}

#[test]
fn partial_min_max_picks() {
    assert_eq!(PartialOrdExt::partial_min(3, 1), 1);
    assert_eq!(PartialOrdExt::partial_max(3, 1), 3);
    assert_eq!(PartialOrdExt::partial_min_max(1.5, -2.0), (-2.0, 1.5));
}

#[test]
fn clamp_into_fixed_ranges() {
    assert_eq!(PartialOrdExt::clamp(2.0, 0.0..=1.0), 1.0);
    assert_eq!(PartialOrdExt::clamp(-4, 0..=10), 0);
    assert_eq!(PartialOrdExt::clamp(5, 0..=10), 5);
    assert_eq!(PartialOrdExt::clamp(7, ..), 7);
}
