use rasterizer::color::Color;
use rasterizer::display::{CullMethod, RenderMethod};
use rasterizer::matrix::Matrix;
use rasterizer::mesh::Mesh;
use rasterizer::renderer::{FrameTrig, InputEvent, Key, Renderer};
use rasterizer::triangle::{Face, Triangle};
use rasterizer::vector::{Vec2, Vec3, Vec4};

const FX: i64 = 65536;

fn fx_of(v: f64) -> i64 {
    (v * 65536.0) as i64
}

fn trig_of(rotation: Vec3) -> FrameTrig {
    let ax = rotation.x as f64 / 65536.0;
    let ay = rotation.y as f64 / 65536.0;
    let az = rotation.z as f64 / 65536.0;
    FrameTrig {
        cos_x: fx_of(ax.cos()),
        sin_x: fx_of(ax.sin()),
        cos_y: fx_of(ay.cos()),
        sin_y: fx_of(ay.sin()),
        cos_z: fx_of(az.cos()),
        sin_z: fx_of(az.sin()),
    }
}

fn single_face_mesh(a: Vec3, b: Vec3, c: Vec3) -> Mesh {
    let mut m = Mesh::new_cube();
    m.vertices = vec![a, b, c];
    m.faces = vec![Face::new(1, 2, 3, Color::rgba(200, 10, 10, 255))];
    m
}

fn test_projection() -> Matrix {
    // 90 degree field of view (cot of half the angle is one), square
    // aspect, near plane at 1, far plane at 2.
    Matrix::make_perspetive(FX, FX, FX, 2 * FX)
}

#[test]
fn update_produces_one_triangle_for_one_face() {
    let mesh = single_face_mesh(
        Vec3::new(-FX, -FX, 5 * FX),
        Vec3::new(0, FX, 5 * FX),
        Vec3::new(FX, -FX, 5 * FX),
    );
    let mut r = Renderer::new(mesh, test_projection());
    let trig = trig_of(r.mesh.rotation);
    r.update(&trig);
    assert_eq!(r.triangles_to_render.len(), 1);
    // all three transformed vertices sit at depth five
    assert_eq!(r.triangles_to_render[0].avg_depth, 5 * FX);
}

#[test]
fn backface_culled_when_enabled_kept_when_disabled() {
    // With vertex order (a, b, c) the computed normal points toward the
    // camera at the origin; the mirror winding (a, c, b) points away and is
    // the backface.
    let a = Vec3::new(-FX, -FX, 5 * FX);
    let b = Vec3::new(0, FX, 5 * FX);
    let c = Vec3::new(FX, -FX, 5 * FX);

    let mut culled = Renderer::new(single_face_mesh(a, c, b), test_projection());
    culled.cull_method = CullMethod::CullBackface;
    let trig = trig_of(culled.mesh.rotation);
    culled.update(&trig);

    let mut kept = Renderer::new(single_face_mesh(a, c, b), test_projection());
    kept.cull_method = CullMethod::CullNone;
    kept.update(&trig);

    let mut front = Renderer::new(single_face_mesh(a, b, c), test_projection());
    front.cull_method = CullMethod::CullBackface;
    front.update(&trig);

    assert_eq!(culled.triangles_to_render.len(), 0);
    assert_eq!(kept.triangles_to_render.len(), 1);
    assert_eq!(front.triangles_to_render.len(), 1);
}

#[test]
fn depth_sort_is_farthest_first() {
    let p = [Vec2::new(0, 0), Vec2::new(0, 0), Vec2::new(0, 0)];
    let white = Color::rgba(255, 255, 255, 255);
    let mut tris = vec![
        Triangle::new(p, white, 5),
        Triangle::new(p, white, 1),
        Triangle::new(p, white, 3),
    ];
    rasterizer::renderer::sort_triangles_by_depth(&mut tris);
    let depths: Vec<i64> = tris.iter().map(|t| t.avg_depth).collect();
    assert_eq!(depths, vec![5, 3, 1]);
}

#[test]
fn depth_sort_keeps_equal_depths_in_order() {
    let p = [Vec2::new(0, 0), Vec2::new(0, 0), Vec2::new(0, 0)];
    let mut tris = vec![
        Triangle::new(p, Color::rgba(1, 0, 0, 255), 2),
        Triangle::new(p, Color::rgba(2, 0, 0, 255), 2),
        Triangle::new(p, Color::rgba(3, 0, 0, 255), 7),
    ];
    rasterizer::renderer::sort_triangles_by_depth(&mut tris);
    assert_eq!(tris[0].color.r, 3);
    assert_eq!(tris[1].color.r, 1);
    assert_eq!(tris[2].color.r, 2);
}

#[test]
fn perspective_maps_near_to_zero_and_far_to_one() {
    // near = 1, far = 2: the matrix entries are exact in fixed point.
    let mut m = test_projection();
    let near_point = Vec4::new(0, 0, FX, FX);
    let far_point = Vec4::new(0, 0, 2 * FX, FX);
    let pn = m.multiply_vec4_projection(&near_point);
    let pf = m.multiply_vec4_projection(&far_point);
    assert_eq!(pn.z, 0);
    assert_eq!(pf.z, FX);
    // w keeps the pre-divide depth
    assert_eq!(pn.w, FX);
    assert_eq!(pf.w, 2 * FX);
}

#[test]
fn projection_with_zero_w_passes_raw_coordinates_through() {
    let mut m = test_projection();
    // a point at z = 0 transforms to w = 0: the divide must be skipped
    let p = Vec4::new(3 * FX, 2 * FX, 0, 0);
    let r = m.multiply_vec4_projection(&p);
    assert_eq!(r.w, 0);
    assert_eq!(r.x, 3 * FX);
    assert_eq!(r.y, 2 * FX);
}

#[test]
fn composite_transform_applies_scale_rotation_translation_in_order() {
    // quarter turn about z only: cos 0, sin 1, with doubling scale and a
    // translation; every step is exact in fixed point.
    let mesh = single_face_mesh(
        Vec3::new(FX, 0, 0),
        Vec3::new(0, FX, 0),
        Vec3::new(0, 0, FX),
    );
    let mut r = Renderer::new(mesh, test_projection());
    r.mesh.scale = Vec3::new(2 * FX, 2 * FX, 2 * FX);
    r.mesh.translation = Vec3::new(10 * FX, 20 * FX, 30 * FX);
    let trig = FrameTrig { cos_x: FX, sin_x: 0, cos_y: FX, sin_y: 0, cos_z: 0, sin_z: FX };
    r.update(&trig);
    // vertex (1,0,0): scale -> (2,0,0); rotate z 90 degrees -> (0,2,0);
    // translate -> (10,22,30). Average depth is the mean of the three
    // transformed z values: (30 + 30 + 32) / 3 rounded toward zero.
    let t = &r.triangles_to_render[0];
    assert_eq!(t.avg_depth, (30 * FX + 30 * FX + 32 * FX) / 3);
    // applying the rotation before the scale-then-rotate order would have
    // been identical here, but swapping rotation and translation is
    // detectable: the rotated translation would move x to -20, not 10.
    // The screen x of the first vertex encodes translate-after-rotate:
    // clip x = (10 * cot * aspect) / w with w = 30.
    let sx = t.points[0].x;
    // expected: perspective divide of x=10 by w=30, scaled by 540 and
    // centered at 540: 540 + 540 * (10/30) = 720 (rounded down in fx).
    let expected_clip_x = ((10 * FX as i128 * FX as i128) / (30 * FX) as i128) as i64; // 21845
    let expected_sx = expected_clip_x * 540 + 540 * FX;
    assert_eq!(sx, expected_sx);
}

#[test]
fn lighting_scales_color_and_forces_opaque_alpha() {
    let mut r = Renderer::new(Mesh::new_cube(), test_projection());
    let half = FX / 2;
    let c = r.light_apply_intensity(half, Color::rgba(200, 100, 51, 7));
    assert_eq!(c.r, 100);
    assert_eq!(c.g, 50);
    assert_eq!(c.b, 25);
    assert_eq!(c.a, 255);
    let full = r.light_apply_intensity(FX, Color::rgba(200, 100, 51, 7));
    assert_eq!((full.r, full.g, full.b, full.a), (200, 100, 51, 255));
    let dark = r.light_apply_intensity(0, Color::rgba(200, 100, 51, 7));
    assert_eq!((dark.r, dark.g, dark.b, dark.a), (0, 0, 0, 255));
}

#[test]
fn process_input_drives_modes_and_quit() {
    let mut r = Renderer::new(Mesh::new_cube(), test_projection());
    assert!(r.is_running);
    assert_eq!(r.render_method, RenderMethod::Wireframe);
    r.process_input(&vec![
        InputEvent::KeyDown(Key::Num3),
        InputEvent::KeyDown(Key::Num6),
        InputEvent::KeyDown(Key::L),
    ]);
    assert_eq!(r.render_method, RenderMethod::FillTriangle);
    assert_eq!(r.cull_method, CullMethod::CullBackface);
    assert!(!r.apply_light);
    r.process_input(&vec![InputEvent::KeyDown(Key::Other)]);
    assert_eq!(r.render_method, RenderMethod::FillTriangle);
    r.process_input(&vec![InputEvent::KeyDown(Key::Escape)]);
    assert!(!r.is_running);
    let mut q = Renderer::new(Mesh::new_cube(), test_projection());
    q.process_input(&vec![InputEvent::Quit]);
    assert!(!q.is_running);
}

#[test]
fn advance_animation_steps_rotation_and_holds_distance() {
    let mut r = Renderer::new(Mesh::new_cube(), test_projection());
    r.advance_animation();
    assert_eq!(r.mesh.rotation, Vec3::new(1310, 1310, 655));
    assert_eq!(r.mesh.translation.z, 5 * FX);
    r.advance_animation();
    assert_eq!(r.mesh.rotation, Vec3::new(2620, 2620, 1310));
}

#[test]
fn render_fills_buffer_and_clears_list() {
    let mesh = single_face_mesh(
        Vec3::new(-FX, -FX, 5 * FX),
        Vec3::new(0, FX, 5 * FX),
        Vec3::new(FX, -FX, 5 * FX),
    );
    let mut r = Renderer::new(mesh, test_projection());
    r.render_method = RenderMethod::FillTriangle;
    let trig = trig_of(r.mesh.rotation);
    r.update(&trig);
    assert_eq!(r.triangles_to_render.len(), 1);
    r.render();
    assert!(r.triangles_to_render.is_empty());
    assert!(r.color_buffer.iter().any(|&b| b != 0));
}

#[test]
fn triangle_and_face_constructors_keep_their_fields() {
    let pts = [Vec2::new(1, 2), Vec2::new(3, 4), Vec2::new(5, 6)];
    let t = Triangle::new(pts, Color::rgba(9, 8, 7, 6), 42);
    assert_eq!(t.points[1], Vec2::new(3, 4));
    assert_eq!(t.color, Color::rgba(9, 8, 7, 6));
    assert_eq!(t.avg_depth, 42);
    let f = Face::new(4, 5, 6, Color::rgba(1, 2, 3, 4));
    assert_eq!((f.a, f.b, f.c), (4, 5, 6));
    let h = Vec4::from_vec3(Vec3::new(7, 8, 9));
    assert_eq!(h, Vec4::new(7, 8, 9, FX));
    assert_eq!(Vec3::from_vec4(h), Vec3::new(7, 8, 9));
}
