use rusterizer::color::Color;
use rusterizer::raster::BoundingBox;
use rusterizer::shader::{Fragment, Framebuffers, ShaderConf};

// Barycentric coordinates of the pixel centre `p` in the triangle `a b c`,
// by the cross-product method.
fn barycentric(a: (f32, f32), b: (f32, f32), c: (f32, f32), p: (f32, f32)) -> (f32, f32, f32) {
    let u = (c.0 - a.0, b.0 - a.0, a.0 - p.0);
    let v = (c.1 - a.1, b.1 - a.1, a.1 - p.1);
    let cross = (u.1 * v.2 - u.2 * v.1, u.2 * v.0 - u.0 * v.2, u.0 * v.1 - u.1 * v.0);
    (1.0 - (cross.1 + cross.0) / cross.2, cross.1 / cross.2, cross.0 / cross.2)
}

fn covered(tri: [(f32, f32); 3], x: i32, y: i32) -> bool {
    let b = barycentric(tri[0], tri[1], tri[2], (x as f32, y as f32));
    !(b.0 < 0.0 || b.1 < 0.0 || b.2 < 0.0)
}

fn bounding_box(tri: [(f32, f32); 3]) -> BoundingBox {
    let xs = [tri[0].0, tri[1].0, tri[2].0];
    let ys = [tri[0].1, tri[1].1, tri[2].1];
    let min = |v: [f32; 3]| v.iter().fold(v[0], |m, x| if m > *x { *x } else { m }).round() as i32;
    let max = |v: [f32; 3]| v.iter().fold(v[0], |m, x| if m < *x { *x } else { m }).round() as i32;
    BoundingBox::new(min(xs), min(ys), max(xs), max(ys))
}

fn rasterize(fb: &mut Framebuffers, tri: [(f32, f32); 3], z: u8, color: Color) -> usize {
    let b = bounding_box(tri);
    let mut written = 0;
    let mut at = b.first();
    while let Some((x, y)) = at {
        if covered(tri, x, y) && fb.submit(Fragment { x, y, z, color }) {
            written += 1;
        }
        at = b.next(x, y);
    }
    written
}

#[test]
fn default_configuration() {
    let conf = ShaderConf::new();
    assert!(conf.diff_light);
    assert!(conf.spec_light);
    assert!(conf.texture);
    assert!(conf.normals);
    assert!(!conf.occlusion);
}

#[test]
fn new_buffers_are_black_and_of_one_size() {
    let fb = Framebuffers::new(5, 3);
    for img in [&fb.color, &fb.depth, &fb.light] {
        assert_eq!(img.width, 5);
        assert_eq!(img.height, 3);
        assert_eq!(img.data.len(), 15);
        assert!(img.data.iter().all(|c| *c == Color(0, 0, 0)));
    }
}

#[test]
fn depth_test_is_strict() {
    let mut fb = Framebuffers::new(4, 4);
    assert!(!fb.accepts(1, 1, 0));
    assert!(fb.accepts(1, 1, 1));
    fb.write(Fragment { x: 1, y: 1, z: 100, color: Color(1, 2, 3) });
    assert!(!fb.accepts(1, 1, 99));
    assert!(!fb.accepts(1, 1, 100));
    assert!(fb.accepts(1, 1, 101));
    assert!(fb.accepts(2, 1, 1));
}

#[test]
fn depth_test_clips_to_the_buffers() {
    let fb = Framebuffers::new(4, 3);
    assert!(fb.accepts(0, 0, 255));
    assert!(fb.accepts(3, 2, 255));
    assert!(!fb.accepts(-1, 0, 255));
    assert!(!fb.accepts(0, -1, 255));
    assert!(!fb.accepts(4, 0, 255));
    assert!(!fb.accepts(0, 3, 255));
    assert!(!fb.accepts(-1, 1, 255));
    assert!(!fb.accepts(i32::MAX, i32::MIN, 255));
}

#[test]
fn write_sets_colour_and_depth_of_one_pixel() {
    let mut fb = Framebuffers::new(3, 3);
    fb.write(Fragment { x: 2, y: 1, z: 77, color: Color(10, 20, 30) });
    for y in 0..3 {
        for x in 0..3 {
            let here = x == 2 && y == 1;
            assert_eq!(fb.color.pixel_at(x, y), if here { Color(10, 20, 30) } else { Color(0, 0, 0) });
            assert_eq!(fb.depth.pixel_at(x, y), if here { Color(77, 77, 77) } else { Color(0, 0, 0) });
            assert_eq!(fb.light.pixel_at(x, y), Color(0, 0, 0));
        }
    }
}

#[test]
fn submit_keeps_the_nearest_and_of_equals_the_first() {
    let mut fb = Framebuffers::new(2, 2);
    assert!(fb.submit(Fragment { x: 0, y: 0, z: 50, color: Color(1, 1, 1) }));
    assert!(!fb.submit(Fragment { x: 0, y: 0, z: 50, color: Color(2, 2, 2) }));
    assert!(!fb.submit(Fragment { x: 0, y: 0, z: 10, color: Color(3, 3, 3) }));
    assert_eq!(fb.color.pixel_at(0, 0), Color(1, 1, 1));
    assert_eq!(fb.depth.pixel_at(0, 0), Color(50, 50, 50));
    assert!(fb.submit(Fragment { x: 0, y: 0, z: 51, color: Color(4, 4, 4) }));
    assert_eq!(fb.color.pixel_at(0, 0), Color(4, 4, 4));
    assert_eq!(fb.depth.pixel_at(0, 0), Color(51, 51, 51));
    assert!(!fb.submit(Fragment { x: 2, y: 0, z: 200, color: Color(5, 5, 5) }));
    assert!(!fb.submit(Fragment { x: 0, y: 0, z: 0, color: Color(6, 6, 6) }));
    assert_eq!(fb.color.data, vec![Color(4, 4, 4), Color(0, 0, 0), Color(0, 0, 0), Color(0, 0, 0)]);
}

#[test]
fn depth_never_falls() {
    let mut fb = Framebuffers::new(3, 1);
    let zs: [u8; 9] = [5, 200, 3, 200, 201, 0, 255, 17, 255];
    let mut highest = [0u8; 3];
    for (i, z) in zs.iter().enumerate() {
        let x = (i % 3) as i32;
        fb.submit(Fragment { x, y: 0, z: *z, color: Color(*z, 0, 0) });
        highest[i % 3] = highest[i % 3].max(*z);
        for k in 0..3 {
            assert_eq!(fb.depth.pixel_at(k as i32, 0).0, highest[k]);
        }
    }
    assert_eq!(highest, [255, 201, 255]);
}

#[test]
fn emit_picks_the_buffer() {
    let mut fb = Framebuffers::new(2, 1);
    fb.write(Fragment { x: 0, y: 0, z: 9, color: Color(1, 2, 3) });
    assert_eq!(fb.emit(false), vec![1, 2, 3, 255, 0, 0, 0, 255]);
    assert_eq!(fb.emit(true), vec![9, 9, 9, 255, 0, 0, 0, 255]);
    assert_eq!(fb.emit(false), fb.color.get_raw_bytes());
    assert_eq!(fb.emit(true), fb.depth.get_raw_bytes());
}

#[test]
fn single_unlit_triangle() {
    let tri = [(10.0, 10.0), (50.0, 10.0), (30.0, 50.0)];
    let mut fb = Framebuffers::new(64, 64);
    let written = rasterize(&mut fb, tri, 128, Color(200, 200, 200));
    assert!(written > 0);
    let mut count = 0;
    for y in 0..64 {
        for x in 0..64 {
            let inside_box = (10..=50).contains(&x) && (10..=50).contains(&y);
            let want = inside_box && covered(tri, x, y);
            let got = fb.color.pixel_at(x, y);
            assert_eq!(got, if want { Color(200, 200, 200) } else { Color(0, 0, 0) }, "({}, {})", x, y);
            assert_eq!(fb.depth.pixel_at(x, y).0, if want { 128 } else { 0 });
            if !inside_box {
                assert_eq!(got, Color(0, 0, 0));
            }
            if want {
                count += 1;
            }
        }
    }
    assert_eq!(count, written);
    // The corners and an inner point are covered, a point beside the apex is not.
    assert_eq!(fb.color.pixel_at(10, 10), Color(200, 200, 200));
    assert_eq!(fb.color.pixel_at(50, 10), Color(200, 200, 200));
    assert_eq!(fb.color.pixel_at(30, 50), Color(200, 200, 200));
    assert_eq!(fb.color.pixel_at(30, 30), Color(200, 200, 200));
    assert_eq!(fb.color.pixel_at(10, 50), Color(0, 0, 0));
    assert_eq!(fb.color.pixel_at(50, 50), Color(0, 0, 0));
}

#[test]
fn depth_occlusion() {
    let front = [(20.0, 20.0), (40.0, 20.0), (30.0, 40.0)];
    let back = [(10.0, 10.0), (50.0, 10.0), (30.0, 50.0)];
    for front_first in [true, false] {
        let mut fb = Framebuffers::new(64, 64);
        if front_first {
            rasterize(&mut fb, front, 200, Color(255, 0, 0));
            rasterize(&mut fb, back, 100, Color(0, 255, 0));
        } else {
            rasterize(&mut fb, back, 100, Color(0, 255, 0));
            rasterize(&mut fb, front, 200, Color(255, 0, 0));
        }
        let mut in_front = 0;
        for y in 0..64 {
            for x in 0..64 {
                let f = (20..=40).contains(&x) && (20..=40).contains(&y) && covered(front, x, y);
                let b = (10..=50).contains(&x) && (10..=50).contains(&y) && covered(back, x, y);
                let depth = fb.depth.pixel_at(x, y).0;
                if f {
                    in_front += 1;
                    assert_eq!(depth, 200);
                    assert_eq!(fb.color.pixel_at(x, y), Color(255, 0, 0));
                } else if b {
                    assert_eq!(depth, 100);
                    assert_eq!(fb.color.pixel_at(x, y), Color(0, 255, 0));
                } else {
                    assert_eq!(depth, 0);
                }
            }
        }
        assert!(in_front > 100);
    }
}

#[test]
fn triangle_reaching_outside_is_clipped() {
    let tri = [(-5.0, -5.0), (12.0, -5.0), (3.0, 12.0)];
    let mut fb = Framebuffers::new(8, 8);
    let written = rasterize(&mut fb, tri, 1, Color(9, 9, 9));
    let lit = fb.color.data.iter().filter(|c| **c == Color(9, 9, 9)).count();
    assert_eq!(lit, written);
    assert!(written > 0 && written <= 64);
}
