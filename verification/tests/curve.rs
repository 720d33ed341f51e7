use liquidmon::curve::{polyline_vertices, TEMP_MAX_C, TEMP_MIN_C};
use liquidmon::equalizer::bin_range;

fn approx(a: f64, b: f64) -> bool {
    (a - b).abs() < 1e-9
}

fn as_f64(verts: Vec<(u8, u8)>) -> Vec<(f64, f64)> {
    verts
        .into_iter()
        .map(|(t, d)| (f64::from(t), f64::from(d)))
        .collect()
}

#[test]
fn polyline_holds_flat_left_of_first_point() {
    let points = [(30_u8, 20_u8), (45, 60), (60, 100)];
    let verts = as_f64(polyline_vertices(&points));
    assert_eq!(
        verts[0],
        (f64::from(TEMP_MIN_C), 20.0),
        "should hold at the first point's duty from the left edge"
    );
}

#[test]
fn polyline_holds_flat_right_of_last_point() {
    let points = [(30_u8, 20_u8), (45, 60)];
    let verts = as_f64(polyline_vertices(&points));
    assert_eq!(
        *verts.last().unwrap(),
        (f64::from(TEMP_MAX_C), 60.0),
        "should hold at the last point's duty to the right edge"
    );
}

#[test]
fn failsafe_point_is_present_in_drawn_vertices() {
    let points = [(30_u8, 20_u8), (60, 100)];
    let verts = as_f64(polyline_vertices(&points));
    assert!(
        verts
            .iter()
            .any(|&v| approx(v.0, 60.0) && approx(v.1, 100.0)),
        "failsafe (60, 100) missing from {verts:?}"
    );
}

#[test]
fn empty_points_yield_no_vertices() {
    assert!(polyline_vertices(&[]).is_empty());
}

// ── further cases of this library's own ─────────────────────────────────

#[test]
fn polyline_is_the_curve_between_two_flat_ends() {
    assert_eq!(
        polyline_vertices(&[(25, 25), (45, 90)]),
        vec![(20, 25), (25, 25), (45, 90), (60, 90)]
    );
}

#[test]
fn bins_split_the_window_evenly() {
    // 8 samples over 2 columns: [0, 4) and [4, 8).
    assert_eq!(bin_range(8, 2, 0), (0, 4));
    assert_eq!(bin_range(8, 2, 1), (4, 8));
    // One column takes the whole window.
    assert_eq!(bin_range(3, 1, 0), (0, 3));
}

#[test]
fn bins_of_a_short_window_are_never_empty() {
    // 3 samples over 5 columns: every column still averages one sample.
    let ranges: Vec<(usize, usize)> = (0..5).map(|c| bin_range(3, 5, c)).collect();
    assert_eq!(ranges, vec![(0, 1), (0, 1), (1, 2), (1, 2), (2, 3)]);
    for (lo, hi) in ranges {
        assert!(lo < hi && hi <= 3);
    }
    assert_eq!(bin_range(1, 5, 4), (0, 1));
}
