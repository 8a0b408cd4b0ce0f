use voxel_world::bresenham::bresenham_line;
use voxel_world::floodfill::{flood_fill_area, point_in_polygon};

fn steps_ok(points: &[(i32, i32, i32)]) -> bool {
    points.windows(2).all(|w| {
        (w[0].0 - w[1].0).abs() <= 1 && (w[0].1 - w[1].1).abs() <= 1 && (w[0].2 - w[1].2).abs() <= 1
    })
}

#[test]
fn line_scenario_four_by_three() {
    let points = bresenham_line(0, 0, 0, 4, 0, 3);
    assert_eq!(points, vec![(0, 0, 0), (1, 0, 1), (2, 0, 2), (3, 0, 2), (4, 0, 3)]);
    assert_eq!(points.len(), 5);
    assert!(steps_ok(&points));
    assert!(points.windows(2).all(|w| w[1].0 >= w[0].0 && w[1].2 >= w[0].2));
}

#[test]
fn line_single_point() {
    assert_eq!(bresenham_line(7, -3, 2, 7, -3, 2), vec![(7, -3, 2)]);
}

#[test]
fn line_negative_direction() {
    let points = bresenham_line(5, 10, -2, -3, 6, -2);
    assert_eq!(points.len(), 9);
    assert_eq!(points[0], (5, 10, -2));
    assert_eq!(*points.last().unwrap(), (-3, 6, -2));
    assert!(steps_ok(&points));
}

#[test]
fn line_dominant_y_axis() {
    let points = bresenham_line(0, 0, 0, 2, 7, -1);
    assert_eq!(points.len(), 8);
    assert_eq!(*points.last().unwrap(), (2, 7, -1));
    assert!(steps_ok(&points));
    assert!(points.windows(2).all(|w| w[1].1 == w[0].1 + 1));
}

#[test]
fn line_extreme_coordinates() {
    let points = bresenham_line(i32::MIN, 0, 0, i32::MIN + 3, 0, 0);
    assert_eq!(points.len(), 4);
    assert_eq!(points[3], (i32::MIN + 3, 0, 0));
}

fn square() -> Vec<(i32, i32)> {
    vec![(0, 0), (4, 0), (4, 4), (0, 4)]
}

#[test]
fn fill_square_interior() {
    let mut cells = flood_fill_area(&square(), None);
    cells.sort();
    let mut expected = Vec::new();
    for x in 1..=3 {
        for z in 1..=3 {
            expected.push((x, z));
        }
    }
    assert_eq!(cells, expected);
}

#[test]
fn fill_is_deterministic() {
    let poly = vec![(0, 0), (10, 2), (6, 9), (1, 7)];
    let mut a = flood_fill_area(&poly, None);
    let mut b = flood_fill_area(&poly, None);
    a.sort();
    b.sort();
    assert_eq!(a, b);
    assert!(!a.is_empty());
    assert!(a.iter().all(|&(x, z)| (0..=10).contains(&x) && (0..=9).contains(&z)));
    assert!(a.contains(&(5, 5)));
}

#[test]
fn fill_zero_deadline_is_empty() {
    let poly = vec![(0, 0), (200, 0), (200, 200), (0, 200)];
    assert!(flood_fill_area(&poly, Some(0)).is_empty());
}

#[test]
fn fill_degenerate_polygon_is_empty() {
    assert!(flood_fill_area(&vec![(0, 0), (5, 5)], None).is_empty());
    assert!(flood_fill_area(&Vec::new(), None).is_empty());
}

#[test]
fn fill_self_intersecting_terminates() {
    let poly = vec![(0, 0), (8, 8), (8, 0), (0, 8)];
    let cells = flood_fill_area(&poly, None);
    let mut sorted = cells.clone();
    sorted.sort();
    sorted.dedup();
    assert_eq!(sorted.len(), cells.len());
    assert!(cells.iter().all(|&(x, z)| (0..=8).contains(&x) && (0..=8).contains(&z)));
}

#[test]
fn point_in_polygon_square() {
    let sq = square();
    assert!(point_in_polygon(&sq, 1, 1));
    assert!(point_in_polygon(&sq, 3, 2));
    assert!(!point_in_polygon(&sq, 5, 2));
    assert!(!point_in_polygon(&sq, -1, 2));
}
