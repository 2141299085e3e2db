use rusterizer::color::{Color, ColorA};
use rusterizer::image::Image;

fn sample() -> Image {
    // 3 wide, 2 high:
    //   row 0: (1,2,3) (4,5,6) (7,8,9)
    //   row 1: (10,11,12) (13,14,15) (16,17,18)
    let mut img = Image::new(3, 2);
    let mut n: u8 = 1;
    for y in 0..2 {
        for x in 0..3 {
            img.set_pixel(x, y, Color(n, n + 1, n + 2));
            n += 3;
        }
    }
    img
}

#[test]
fn new_image_is_black_and_dense() {
    let img = Image::new(4, 3);
    assert_eq!(img.width, 4);
    assert_eq!(img.height, 3);
    assert_eq!(img.data.len(), 12);
    assert!(img.data.iter().all(|c| *c == Color(0, 0, 0)));
}

#[test]
fn new_image_may_be_empty() {
    let img = Image::new(0, 7);
    assert_eq!(img.data.len(), 0);
    assert_eq!(img.pixel_at(0, 0), Color(0, 0, 0));
    assert_eq!(img.get_raw_bytes(), Vec::<u8>::new());
}

#[test]
fn set_pixel_is_row_major() {
    let img = sample();
    assert_eq!(img.data[0], Color(1, 2, 3));
    assert_eq!(img.data[2], Color(7, 8, 9));
    assert_eq!(img.data[3], Color(10, 11, 12));
    assert_eq!(img.pixel_at(1, 1), Color(13, 14, 15));
    assert_eq!(img.pixel_at(2, 0), Color(7, 8, 9));
}

#[test]
fn set_pixel_changes_one_pixel_only() {
    let mut img = sample();
    img.set_pixel(1, 0, Color(200, 201, 202));
    assert_eq!(img.pixel_at(1, 0), Color(200, 201, 202));
    assert_eq!(img.pixel_at(0, 0), Color(1, 2, 3));
    assert_eq!(img.pixel_at(2, 0), Color(7, 8, 9));
    assert_eq!(img.pixel_at(1, 1), Color(13, 14, 15));
    assert_eq!(img.width, 3);
    assert_eq!(img.height, 2);
}

#[test]
fn reads_outside_the_grid_are_black() {
    let img = sample();
    assert_eq!(img.pixel_at(-1, 0), Color(0, 0, 0));
    assert_eq!(img.pixel_at(0, -1), Color(0, 0, 0));
    assert_eq!(img.pixel_at(3, 0), Color(0, 0, 0));
    assert_eq!(img.pixel_at(0, 2), Color(0, 0, 0));
    assert_eq!(img.pixel_at(-1, 1), Color(0, 0, 0));
    assert_eq!(img.pixel_at(i32::MAX, i32::MAX), Color(0, 0, 0));
    assert_eq!(img.pixel_at(i32::MIN, i32::MIN), Color(0, 0, 0));
}

#[test]
fn read_of_a_short_buffer_is_black() {
    let img = Image { width: 2, height: 2, data: vec![Color(9, 9, 9); 3] };
    assert_eq!(img.pixel_at(0, 1), Color(9, 9, 9));
    assert_eq!(img.pixel_at(1, 1), Color(0, 0, 0));
}

#[test]
fn raw_bytes_are_rgba_in_stored_order() {
    let img = sample();
    let bytes = img.get_raw_bytes();
    assert_eq!(
        bytes,
        vec![
            1, 2, 3, 255, 4, 5, 6, 255, 7, 8, 9, 255, // row 0
            10, 11, 12, 255, 13, 14, 15, 255, 16, 17, 18, 255, // row 1
        ]
    );
}

#[test]
fn raw_bytes_of_one_pixel() {
    let mut img = Image::new(1, 1);
    img.set_pixel(0, 0, Color(1, 2, 3));
    assert_eq!(img.get_raw_bytes(), vec![1, 2, 3, 255]);
}

#[test]
fn raw_bytes_have_four_bytes_per_pixel_and_opaque_alpha() {
    let img = Image::new(5, 4);
    let bytes = img.get_raw_bytes();
    assert_eq!(bytes.len(), 4 * 5 * 4);
    for (i, b) in bytes.iter().enumerate() {
        assert_eq!(*b, if i % 4 == 3 { 255 } else { 0 });
    }
}

#[test]
fn colors_compare_by_channel() {
    assert_eq!(Color(1, 2, 3), Color(1, 2, 3));
    assert_ne!(Color(1, 2, 3), Color(3, 2, 1));
    assert_eq!(ColorA(1, 2, 3, 4), ColorA(1, 2, 3, 4));
    assert_ne!(ColorA(1, 2, 3, 4), ColorA(1, 2, 3, 5));
}
