use rusterizer::color::Color;
use rusterizer::image::Image;
use rusterizer::tga::{Header, HEADER_LEN};

fn header_bytes(width: u16, height: u16, depth: u8) -> Vec<u8> {
    let h = Header {
        id_length: 0,
        color_map_type: 0,
        image_type: 2,
        c_map_start: 0,
        c_map_length: 0,
        c_map_depth: 0,
        x_offset: 0,
        y_offset: 0,
        width,
        height,
        pixel_depth: depth,
        image_descriptor: 0,
    };
    h.to_bytes().to_vec()
}

#[test]
fn header_is_eighteen_bytes_little_endian() {
    let h = Header {
        id_length: 1,
        color_map_type: 2,
        image_type: 3,
        c_map_start: 0x0405,
        c_map_length: 0x0607,
        c_map_depth: 8,
        x_offset: 0x090a,
        y_offset: 0x0b0c,
        width: 0x0d0e,
        height: 0x0f10,
        pixel_depth: 17,
        image_descriptor: 18,
    };
    let b = h.to_bytes();
    assert_eq!(b.len(), HEADER_LEN);
    assert_eq!(
        b,
        [1, 2, 3, 0x05, 0x04, 0x07, 0x06, 8, 0x0a, 0x09, 0x0c, 0x0b, 0x0e, 0x0d, 0x10, 0x0f, 17, 18]
    );
}

#[test]
fn header_round_trip() {
    let h = Header {
        id_length: 0,
        color_map_type: 0,
        image_type: 2,
        c_map_start: 0,
        c_map_length: 0,
        c_map_depth: 0,
        x_offset: 65535,
        y_offset: 256,
        width: 1024,
        height: 255,
        pixel_depth: 32,
        image_descriptor: 8,
    };
    let b = h.to_bytes().to_vec();
    assert_eq!(Header::from_bytes(&b), h);
}

#[test]
fn header_is_read_from_the_front_of_longer_input() {
    let mut b = header_bytes(300, 2, 32);
    b.extend_from_slice(&[9, 9, 9, 9]);
    let h = Header::from_bytes(&b);
    assert_eq!(h.width, 300);
    assert_eq!(h.height, 2);
    assert_eq!(h.image_type, 2);
    assert_eq!(h.pixel_depth, 32);
}

#[test]
fn write_of_one_pixel_is_blue_green_red() {
    let mut img = Image::new(1, 1);
    img.set_pixel(0, 0, Color(10, 20, 30));
    let bytes = img.write_to_tga();
    assert_eq!(bytes.len(), 21);
    assert_eq!(&bytes[18..], &[30, 20, 10]);
}

#[test]
fn write_puts_header_then_stored_order() {
    let mut img = Image::new(2, 2);
    img.set_pixel(0, 0, Color(1, 2, 3));
    img.set_pixel(1, 0, Color(4, 5, 6));
    img.set_pixel(0, 1, Color(7, 8, 9));
    img.set_pixel(1, 1, Color(10, 11, 12));
    let bytes = img.write_to_tga();
    let mut expected = vec![0, 0, 2, 0, 0, 0, 0, 0, 0, 0, 0, 0, 2, 0, 2, 0, 24, 0];
    expected.extend_from_slice(&[3, 2, 1, 6, 5, 4, 9, 8, 7, 12, 11, 10]);
    assert_eq!(bytes, expected);
}

#[test]
fn write_of_a_wide_image_spells_width_in_two_bytes() {
    let img = Image::new(300, 1);
    let bytes = img.write_to_tga();
    assert_eq!(bytes.len(), 18 + 3 * 300);
    assert_eq!(bytes[12], 44);
    assert_eq!(bytes[13], 1);
    assert_eq!(bytes[14], 1);
    assert_eq!(bytes[15], 0);
    assert_eq!(Header::from_bytes(&bytes).width, 300);
}

#[test]
fn read_drops_alpha_and_turns_rows() {
    // 2 wide, 3 high, 4 bytes per pixel; file rows from first to last.
    let mut file = header_bytes(2, 3, 32);
    file.extend_from_slice(&[
        1, 2, 3, 100,   4, 5, 6, 101,
        7, 8, 9, 102,   10, 11, 12, 103,
        13, 14, 15, 104, 16, 17, 18, 105,
    ]);
    assert!(Image::is_raw_vec(&file));
    let img = Image::from_raw_vec(file);
    assert_eq!(img.width, 2);
    assert_eq!(img.height, 3);
    assert_eq!(
        img.data,
        vec![
            Color(13, 14, 15),
            Color(16, 17, 18),
            Color(7, 8, 9),
            Color(10, 11, 12),
            Color(1, 2, 3),
            Color(4, 5, 6),
        ]
    );
    assert_eq!(img.pixel_at(1, 0), Color(16, 17, 18));
    assert_eq!(img.pixel_at(0, 2), Color(1, 2, 3));
}

#[test]
fn read_ignores_what_follows_the_pixels() {
    let mut file = header_bytes(1, 1, 32);
    file.extend_from_slice(&[5, 6, 7, 8, 42, 42, 42]);
    assert!(Image::is_raw_vec(&file));
    let img = Image::from_raw_vec(file);
    assert_eq!(img.data, vec![Color(5, 6, 7)]);
}

#[test]
fn short_input_is_no_file() {
    assert!(!Image::is_raw_vec(&Vec::new()));
    assert!(!Image::is_raw_vec(&vec![0u8; 17]));
    let mut file = header_bytes(2, 2, 32);
    file.extend_from_slice(&[0u8; 15]);
    assert!(!Image::is_raw_vec(&file));
    file.push(0);
    assert!(Image::is_raw_vec(&file));
}

#[test]
fn largest_header_needs_all_its_pixels() {
    let file = header_bytes(65535, 65535, 32);
    assert!(!Image::is_raw_vec(&file));
}

#[test]
fn empty_image_round_trip() {
    for (w, h) in [(0, 0), (0, 5), (7, 0), (4096, 0), (0, 4096)] {
        let img = Image::new(w, h);
        let file = img.write_to_tga();
        assert_eq!(file.len(), 18);
        assert!(Image::is_raw_vec(&file));
        let back = Image::from_raw_vec(file);
        assert_eq!(back.width, w);
        assert_eq!(back.height, h);
        assert_eq!(back.data, img.data);
    }
}

#[test]
fn written_image_with_pixels_is_too_short_to_read() {
    let mut img = Image::new(2, 2);
    img.set_pixel(0, 0, Color(1, 2, 3));
    let file = img.write_to_tga();
    assert_eq!(file.len(), 18 + 12);
    assert!(!Image::is_raw_vec(&file));
}
