use rusterizer::color::Color;
use rusterizer::image::Image;
use rusterizer::la::Vec3;
use rusterizer::model::Model;
use rusterizer::wf::Wavefront;

fn quad() -> Model<f32> {
    let mesh = Wavefront::new(
        vec![
            Vec3(-1.0, -1.0, 0.0),
            Vec3(1.0, -1.0, 0.0),
            Vec3(1.0, 1.0, 0.0),
            Vec3(-1.0, 1.0, 0.0),
        ],
        vec![([3, 0, 1], [2, 1, 0]), ([3, 1, 2], [0, 0, 3])],
        Vec::new(),
        vec![[-1.0, -1.0], [1.0, -1.0], [1.0, 1.0], [-1.0, 1.0]],
    );
    let mut normals = Image::new(2, 2);
    normals.set_pixel(1, 0, Color(10, 20, 30));
    let mut texture = Image::new(3, 1);
    texture.set_pixel(2, 0, Color(7, 8, 9));
    Model::new(mesh, normals, texture)
}

#[test]
fn faces_are_counted() {
    assert_eq!(quad().num_faces(), 2);
}

#[test]
fn vertex_follows_the_face() {
    let m = quad();
    let v = m.vertex(0, 0);
    assert_eq!((v.0, v.1, v.2), (-1.0, 1.0, 0.0));
    let v = m.vertex(0, 2);
    assert_eq!((v.0, v.1, v.2), (1.0, -1.0, 0.0));
    let v = m.vertex(1, 2);
    assert_eq!((v.0, v.1, v.2), (1.0, 1.0, 0.0));
}

#[test]
fn texture_coords_follow_their_own_index() {
    let m = quad();
    assert_eq!(m.texture_coords(0, 0), [1.0, 1.0]);
    assert_eq!(m.texture_coords(0, 1), [1.0, -1.0]);
    assert_eq!(m.texture_coords(0, 2), [-1.0, -1.0]);
    assert_eq!(m.texture_coords(1, 2), [-1.0, 1.0]);
}

#[test]
fn texture_is_read_at_a_texel_and_black_outside() {
    let m = quad();
    assert_eq!(m.texture(2, 0), Color(7, 8, 9));
    assert_eq!(m.texture(0, 0), Color(0, 0, 0));
    assert_eq!(m.texture(3, 0), Color(0, 0, 0));
    assert_eq!(m.texture(2, 1), Color(0, 0, 0));
    assert_eq!(m.texture(-1, 0), Color(0, 0, 0));
}

#[test]
fn normal_takes_the_channels_in_stored_order() {
    let m = quad();
    let n = m.normal(1, 0);
    assert_eq!((n.0, n.1, n.2), (10, 20, 30));
    let n = m.normal(0, 0);
    assert_eq!((n.0, n.1, n.2), (0, 0, 0));
    let n = m.normal(2, 0);
    assert_eq!((n.0, n.1, n.2), (0, 0, 0));
}

#[test]
fn new_keeps_the_parts() {
    let m = quad();
    assert_eq!(m.model.vertices.len(), 4);
    assert_eq!(m.normal_map.width, 2);
    assert_eq!(m.texture.width, 3);
    assert!(m.model.check_indices());
}

#[test]
fn corners_that_the_mesh_holds() {
    let m = quad();
    for f in 0..2 {
        for k in 0..3 {
            assert!(m.holds_corner(f, k));
        }
    }
    assert!(!m.holds_corner(2, 0));
    assert!(!m.holds_corner(0, 3));
    let bad = Model::new(
        Wavefront::new(vec![Vec3(0.0f32, 0.0, 0.0)], vec![([0, 1, -1], [0, 0, 0]), ([0, 0, 0], [0, 1, -1])], vec![], vec![[0.0f32, 0.0]]),
        Image::new(0, 0),
        Image::new(0, 0),
    );
    assert!(bad.holds_corner(0, 0));
    assert!(!bad.holds_corner(0, 1));
    assert!(!bad.holds_corner(0, 2));
    assert!(bad.holds_corner(1, 0));
    assert!(!bad.holds_corner(1, 1));
    assert!(!bad.holds_corner(1, 2));
}
