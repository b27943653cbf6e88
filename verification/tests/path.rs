use plotters_skia::{build_path, PaintStyle, PathVerb};

#[test]
fn no_points_give_no_steps() {
    let none: [(i32, i32); 0] = [];
    assert_eq!(build_path(&none), Vec::<PathVerb>::new());
}

#[test]
fn first_point_is_moved_to_and_the_rest_are_lined_to() {
    let points: Vec<(i32, i32)> = vec![(0, 0), (5, 0), (5, 5), (0, 5)];
    assert_eq!(
        build_path(&points),
        vec![
            PathVerb::MoveTo((0, 0)),
            PathVerb::LineTo((5, 0)),
            PathVerb::LineTo((5, 5)),
            PathVerb::LineTo((0, 5)),
        ]
    );
}

#[test]
fn repeated_points_are_kept() {
    let points: Vec<(i32, i32)> = vec![(2, 2), (2, 2), (2, 2)];
    assert_eq!(
        build_path(&points),
        vec![PathVerb::MoveTo((2, 2)), PathVerb::LineTo((2, 2)), PathVerb::LineTo((2, 2))]
    );
}

#[test]
fn long_path_keeps_every_point_in_place() {
    let mut points: Vec<(i32, i32)> = Vec::new();
    let mut i: i32 = 0;
    while i < 1000 {
        points.push((i * 7 % 13 - 6, -i));
        i += 1;
    }
    let verbs = build_path(&points);
    assert_eq!(verbs.len(), points.len());
    assert_eq!(verbs[0], PathVerb::MoveTo(points[0]));
    let mut j: usize = 1;
    while j < points.len() {
        assert_eq!(verbs[j], PathVerb::LineTo(points[j]));
        j += 1;
    }
}

#[test]
fn extreme_coordinates_pass_through() {
    let points: [(i32, i32); 2] = [(i32::MIN, i32::MAX), (i32::MAX, i32::MIN)];
    assert_eq!(
        build_path(&points),
        vec![PathVerb::MoveTo((i32::MIN, i32::MAX)), PathVerb::LineTo((i32::MAX, i32::MIN))]
    );
}

#[test]
fn style_follows_the_fill_flag() {
    assert_eq!(PaintStyle::from_flag(true), PaintStyle::Fill);
    assert_eq!(PaintStyle::from_flag(false), PaintStyle::Stroke);
}
