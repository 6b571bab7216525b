use hypermaze::corners::wall_corners;

#[test]
fn each_endpoint_is_paired_with_the_other() {
    let walls = vec![((0, 1), (2, 3)), ((4, 5), (6, 7))];
    assert_eq!(
        wall_corners(&walls),
        vec![
            ((0, 1), (2, 3)),
            ((2, 3), (0, 1)),
            ((4, 5), (6, 7)),
            ((6, 7), (4, 5)),
        ]
    );
}

#[test]
fn corners_of_float_walls() {
    let walls = vec![([0.5f64, -0.25], [0.5f64, 0.25])];
    let corners = wall_corners(&walls);
    assert_eq!(corners.len(), 2);
    assert_eq!(corners[0], ([0.5, -0.25], [0.5, 0.25]));
    assert_eq!(corners[1], ([0.5, 0.25], [0.5, -0.25]));
}

#[test]
fn no_walls_no_corners() {
    let walls: Vec<(u8, u8)> = Vec::new();
    assert!(wall_corners(&walls).is_empty());
}
