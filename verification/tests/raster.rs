use rusterizer::raster::BoundingBox;

fn walk(b: &BoundingBox) -> Vec<(i32, i32)> {
    let mut seen = Vec::new();
    let mut at = b.first();
    while let Some((x, y)) = at {
        seen.push((x, y));
        at = b.next(x, y);
    }
    seen
}

#[test]
fn walk_goes_row_by_row() {
    let b = BoundingBox::new(2, 5, 4, 6);
    assert_eq!(walk(&b), vec![(2, 5), (3, 5), (4, 5), (2, 6), (3, 6), (4, 6)]);
}

#[test]
fn walk_matches_nested_ranges() {
    let b = BoundingBox::new(-3, -2, 5, 4);
    let mut want = Vec::new();
    for y in -2..=4 {
        for x in -3..=5 {
            want.push((x, y));
        }
    }
    assert_eq!(walk(&b), want);
    assert_eq!(want.len(), 9 * 7);
}

#[test]
fn single_pixel_box() {
    let b = BoundingBox::new(7, 7, 7, 7);
    assert_eq!(b.first(), Some((7, 7)));
    assert_eq!(b.next(7, 7), None);
}

#[test]
fn empty_boxes_have_no_first_pixel() {
    assert_eq!(BoundingBox::new(1, 0, 0, 5).first(), None);
    assert_eq!(BoundingBox::new(0, 5, 3, 4).first(), None);
    assert_eq!(BoundingBox::new(1, 1, 0, 0).first(), None);
}

#[test]
fn walk_ends_at_the_largest_coordinates() {
    let b = BoundingBox::new(i32::MAX - 1, i32::MAX - 1, i32::MAX, i32::MAX);
    assert_eq!(
        walk(&b),
        vec![
            (i32::MAX - 1, i32::MAX - 1),
            (i32::MAX, i32::MAX - 1),
            (i32::MAX - 1, i32::MAX),
            (i32::MAX, i32::MAX),
        ]
    );
    let low = BoundingBox::new(i32::MIN, i32::MIN, i32::MIN, i32::MIN + 1);
    assert_eq!(walk(&low), vec![(i32::MIN, i32::MIN), (i32::MIN, i32::MIN + 1)]);
}

#[test]
fn every_pixel_once() {
    let b = BoundingBox::new(10, 10, 50, 50);
    let seen = walk(&b);
    assert_eq!(seen.len(), 41 * 41);
    let mut sorted = seen.clone();
    sorted.sort();
    sorted.dedup();
    assert_eq!(sorted.len(), seen.len());
    assert!(seen.iter().all(|&(x, y)| (10..=50).contains(&x) && (10..=50).contains(&y)));
}
