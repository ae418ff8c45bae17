//! The per-frame renderer: input handling, animation state, the transform /
//! lighting / culling / projection pipeline, depth ordering, and the
//! rasterization dispatch into the pixel buffer.
//!
//! The surrounding application owns the window: it feeds key events in as
//! plain values, supplies the sines and cosines of the current rotation
//! angles (the one computation the library cannot do itself), and presents
//! the finished pixel buffer.

use crate::color::Color;
use crate::display::{put_pixels, tri_outline_paint, CullMethod, RenderMethod};
use crate::fixed::{
    fxabs, fxmul, lemma_fxmul_bound, lemma_fxmul_one, lemma_fxmul_zero, lemma_mul_abs_bound,
    lemma_tdiv_bound, tdiv,
};
use crate::matrix::{
    ent, mat_in_geom, mv_w, mv_x, mv_y, mv_z, spec_is_rotate_x, spec_is_rotate_y, spec_is_rotate_z,
    spec_is_scale, spec_is_translate, spec_project, vec4_in_geom, Matrix,
};
use crate::mesh::{mesh_wf, vec3_small, Mesh};
use crate::triangle::{filled_points, Triangle};
use crate::vector::{in_geom, spec_cross, spec_dot3, spec_normalize, spec_sub3, vec3_in_geom, Vec2, Vec3, Vec4};
use vstd::multiset::Multiset;
use vstd::prelude::*;

verus! {

broadcast use vstd::seq_lib::group_to_multiset_ensures;

/// The keys the renderer reacts to; anything else arrives as `Other`.
#[derive(Debug, Clone, Copy, PartialEq, Eq, Structural)]
pub enum Key {
    Escape,
    Num1,
    Num2,
    Num3,
    Num4,
    Num5,
    Num6,
    L,
    Other,
}

/// One input event, delivered by the surrounding application.
#[derive(Debug, Clone, Copy, PartialEq, Eq, Structural)]
pub enum InputEvent {
    Quit,
    KeyDown(Key),
}

/// The renderer's whole state: the scene, the per-frame render list, the
/// pixel buffer, and the mode switches driven by input.
pub struct Renderer {
    pub is_running: bool,
    pub color_buffer: Vec<u8>,
    pub triangles_to_render: Vec<Triangle>,
    pub camera_position: Vec3,
    pub mesh: Mesh,
    pub render_method: RenderMethod,
    pub cull_method: CullMethod,
    pub apply_light: bool,
    pub projection_matrix: Matrix,
}

/// What the pipeline needs of the renderer: a well-formed mesh, small
/// transform state, and bounded projection entries.
pub open spec fn renderer_wf(r: Renderer) -> bool {
    &&& mesh_wf(r.mesh)
    &&& vec3_small(r.mesh.scale)
    &&& vec3_small(r.mesh.translation)
    &&& vec3_small(r.camera_position)
    &&& proj_wf(r.projection_matrix)
}

/// Projection entries within 2^30, comfortably inside every later bound.
pub open spec fn proj_wf(m: Matrix) -> bool {
    forall|i: int, j: int|
        0 <= i < 4 && 0 <= j < 4 ==> -0x4000_0000 <= #[trigger] crate::matrix::ent(m, i, j)
            <= 0x4000_0000
}

/// How one event changes the state: quit and escape stop the loop, digits
/// select the render and cull modes, and `L` toggles lighting.
pub open spec fn step_input(r: Renderer, e: InputEvent) -> Renderer {
    match e {
        InputEvent::Quit => Renderer { is_running: false, ..r },
        InputEvent::KeyDown(k) => match k {
            Key::Escape => Renderer { is_running: false, ..r },
            Key::Num1 => Renderer { render_method: RenderMethod::Wireframe, ..r },
            Key::Num2 => Renderer { render_method: RenderMethod::WireframeVertex, ..r },
            Key::Num3 => Renderer { render_method: RenderMethod::FillTriangle, ..r },
            Key::Num4 => Renderer { render_method: RenderMethod::FillTriangleWireframe, ..r },
            Key::Num5 => Renderer { cull_method: CullMethod::CullNone, ..r },
            Key::Num6 => Renderer { cull_method: CullMethod::CullBackface, ..r },
            Key::L => Renderer { apply_light: !r.apply_light, ..r },
            Key::Other => r,
        },
    }
}

/// Folding a whole batch of events over the state, first event first.
pub open spec fn run_inputs(r: Renderer, events: Seq<InputEvent>) -> Renderer
    decreases events.len(),
{
    if events.len() == 0 {
        r
    } else {
        run_inputs(step_input(r, events[0]), events.drop_first())
    }
}

proof fn lemma_run_inputs_snoc(r: Renderer, events: Seq<InputEvent>, e: InputEvent)
    ensures
        run_inputs(r, events.push(e)) == step_input(run_inputs(r, events), e),
    decreases events.len(),
{
    if events.len() == 0 {
        assert(events.push(e)[0] == e);
        assert(events.push(e).drop_first() =~= Seq::<InputEvent>::empty());
        assert(run_inputs(r, events) == r);
        assert(run_inputs(r, events.push(e)) == run_inputs(
            step_input(r, e),
            events.push(e).drop_first(),
        ));
        assert(run_inputs(step_input(r, e), events.push(e).drop_first()) == step_input(r, e));
    } else {
        assert(events.push(e)[0] == events[0]);
        assert(events.push(e).drop_first() =~= events.drop_first().push(e));
        lemma_run_inputs_snoc(step_input(r, events[0]), events.drop_first(), e);
        assert(run_inputs(r, events.push(e)) == run_inputs(
            step_input(r, events[0]),
            events.drop_first().push(e),
        ));
        assert(run_inputs(r, events) == run_inputs(step_input(r, events[0]), events.drop_first()));
    }
}

/// The exact result of scaling a color by a fixed-point intensity: each
/// channel is scaled and truncated, and the alpha is forced opaque.
pub open spec fn spec_light(intensity: int, c: Color) -> Color {
    Color {
        r: tdiv(c.r * intensity, 65536) as u8,
        g: tdiv(c.g * intensity, 65536) as u8,
        b: tdiv(c.b * intensity, 65536) as u8,
        a: 255u8,
    }
}

/// The render list is ordered farthest first.
pub open spec fn sorted_by_depth(s: Seq<Triangle>) -> bool {
    forall|i: int, j: int| 0 <= i <= j < s.len() ==> s[i].avg_depth >= s[j].avg_depth
}

/// Scales one channel by an intensity in `[0, 1]`.
fn scale_channel(ch: u8, intensity: i64) -> (r: u8)
    requires
        0 <= intensity <= 65536,
    ensures
        r == tdiv(ch * intensity, 65536),
{
    proof {
        lemma_mul_abs_bound(ch as int, intensity as int, 255, 65536);
        lemma_tdiv_bound(ch as int * intensity as int, 65536, 255int * 65536);
        vstd::arithmetic::div_mod::lemma_div_by_multiple(255int, 65536int);
        vstd::arithmetic::div_mod::lemma_div_pos_is_pos(ch as int * intensity as int, 65536);
        assert(ch as int * intensity as int >= 0) by (nonlinear_arith)
            requires
                ch >= 0 && intensity >= 0,
        ;
    }
    (((ch as i64) * intensity) / 65536) as u8
}

/// Inserts a triangle into a list kept sorted by descending depth, after
/// any triangles of equal depth (so repeated insertion is stable).
fn insert_by_depth(tris: &mut Vec<Triangle>, t: Triangle)
    requires
        sorted_by_depth(old(tris)@),
    ensures
        sorted_by_depth(final(tris)@),
        final(tris)@.to_multiset() == old(tris)@.to_multiset().insert(t),
        final(tris)@.len() == old(tris)@.len() + 1,
{
    let ghost orig = tris@;
    let mut idx: usize = 0;
    while idx < tris.len() && tris[idx].avg_depth >= t.avg_depth
        invariant
            tris@ == orig,
            sorted_by_depth(orig),
            0 <= idx <= tris@.len(),
            forall|k: int| 0 <= k < idx ==> tris@[k].avg_depth >= t.avg_depth,
        decreases tris@.len() - idx,
    {
        idx = idx + 1;
    }
    proof {
        assert forall|k: int| idx <= k < orig.len() implies orig[k].avg_depth
            < t.avg_depth by {
            assert(orig[idx as int].avg_depth >= orig[k].avg_depth);
        }
    }
    tris.insert(idx, t);
    proof {
        lemma_insert_multiset(orig, idx as int, t);
        orig.insert_ensures(idx as int, t);
        let s = tris@;
        assert forall|i: int, j: int|
            0 <= i <= j < s.len() implies s[i].avg_depth >= s[j].avg_depth by {
            if i < idx {
                assert(s[i] == orig[i]);
            }
            if j < idx {
                assert(s[j] == orig[j]);
            }
            if i > idx {
                assert(s[i] == orig[i - 1]);
            }
            if j > idx {
                assert(s[j] == orig[j - 1]);
            }
            assert(s[idx as int] == t);
        }
    }
}

/// Inserting into a sequence adds one occurrence to its multiset.
proof fn lemma_insert_multiset(s: Seq<Triangle>, i: int, t: Triangle)
    requires
        0 <= i <= s.len(),
    ensures
        s.insert(i, t).to_multiset() == s.to_multiset().insert(t),
{
    let left = s.subrange(0, i);
    let right = s.subrange(i, s.len() as int);
    assert(s.insert(i, t) == left.push(t) + right);
    vstd::seq_lib::lemma_multiset_commutative(left.push(t), right);
    vstd::seq_lib::lemma_multiset_commutative(left, right);
    assert(s =~= left + right);
    assert(left.push(t).to_multiset() =~= left.to_multiset().insert(t));
    assert(left.to_multiset().insert(t).add(right.to_multiset()) =~= (left.to_multiset().add(
        right.to_multiset(),
    )).insert(t));
}

/// Sorts the render list farthest first; the list keeps exactly the same
/// triangles. Triangles of equal depth keep their relative order.
pub fn sort_triangles_by_depth(tris: &mut Vec<Triangle>)
    ensures
        sorted_by_depth(final(tris)@),
        final(tris)@.to_multiset() == old(tris)@.to_multiset(),
        final(tris)@.len() == old(tris)@.len(),
{
    let ghost orig = tris@;
    let mut out: Vec<Triangle> = Vec::new();
    let mut i: usize = 0;
    proof {
        assert(orig.take(0) =~= Seq::<Triangle>::empty());
        assert(Seq::<Triangle>::empty().to_multiset() =~= Multiset::<Triangle>::empty());
    }
    while i < tris.len()
        invariant
            tris@ == orig,
            0 <= i <= orig.len(),
            sorted_by_depth(out@),
            out@.to_multiset() == orig.take(i as int).to_multiset(),
            out@.len() == i,
        decreases orig.len() - i,
    {
        let t = tris[i];
        insert_by_depth(&mut out, t);
        proof {
            assert(orig.take(i + 1) =~= orig.take(i as int).push(orig[i as int]));
            assert(orig.take(i as int).push(orig[i as int]).to_multiset() =~= orig.take(
                i as int,
            ).to_multiset().insert(orig[i as int]));
        }
        i = i + 1;
    }
    proof {
        assert(orig.take(orig.len() as int) =~= orig);
    }
    *tris = out;
}

/// The sines and cosines of the current rotation angles, supplied by the
/// caller each frame; each value lies in the fixed-point range `[-1, 1]`.
#[derive(Debug, Clone, Copy)]
pub struct FrameTrig {
    pub cos_x: i64,
    pub sin_x: i64,
    pub cos_y: i64,
    pub sin_y: i64,
    pub cos_z: i64,
    pub sin_z: i64,
}

pub open spec fn trig_wf(t: FrameTrig) -> bool {
    &&& fxabs(t.cos_x as int) <= 65536 && fxabs(t.sin_x as int) <= 65536
    &&& fxabs(t.cos_y as int) <= 65536 && fxabs(t.sin_y as int) <= 65536
    &&& fxabs(t.cos_z as int) <= 65536 && fxabs(t.sin_z as int) <= 65536
}

/// One multiplication by a scaling matrix.
pub open spec fn spec_scale_step(v: Vec4, sc: Vec3) -> Vec4 {
    Vec4 {
        x: fxmul(v.x as int, sc.x as int) as i64,
        y: fxmul(v.y as int, sc.y as int) as i64,
        z: fxmul(v.z as int, sc.z as int) as i64,
        w: v.w,
    }
}

/// One multiplication by a rotation matrix about the x axis.
pub open spec fn spec_rotate_x_step(v: Vec4, c: int, s: int) -> Vec4 {
    Vec4 {
        x: v.x,
        y: (fxmul(v.y as int, c) + fxmul(v.z as int, -s)) as i64,
        z: (fxmul(v.y as int, s) + fxmul(v.z as int, c)) as i64,
        w: v.w,
    }
}

/// One multiplication by a rotation matrix about the y axis.
pub open spec fn spec_rotate_y_step(v: Vec4, c: int, s: int) -> Vec4 {
    Vec4 {
        x: (fxmul(v.x as int, c) + fxmul(v.z as int, s)) as i64,
        y: v.y,
        z: (fxmul(v.x as int, -s) + fxmul(v.z as int, c)) as i64,
        w: v.w,
    }
}

/// One multiplication by a rotation matrix about the z axis.
pub open spec fn spec_rotate_z_step(v: Vec4, c: int, s: int) -> Vec4 {
    Vec4 {
        x: (fxmul(v.x as int, c) + fxmul(v.y as int, -s)) as i64,
        y: (fxmul(v.x as int, s) + fxmul(v.y as int, c)) as i64,
        z: v.z,
        w: v.w,
    }
}

/// One multiplication by a translation matrix.
pub open spec fn spec_translate_step(v: Vec4, tr: Vec3) -> Vec4 {
    Vec4 {
        x: (v.x + fxmul(v.w as int, tr.x as int)) as i64,
        y: (v.y + fxmul(v.w as int, tr.y as int)) as i64,
        z: (v.z + fxmul(v.w as int, tr.z as int)) as i64,
        w: v.w,
    }
}

/// The composite model transform, in its fixed order: scale, then the
/// rotations about x, y and z, then the translation. The order is a design
/// choice the pipeline reproduces exactly; composing these steps in any
/// other order yields a different transform.
pub open spec fn spec_world_vertex(v: Vec3, sc: Vec3, t: FrameTrig, tr: Vec3) -> Vec4 {
    spec_translate_step(
        spec_rotate_z_step(
            spec_rotate_y_step(
                spec_rotate_x_step(
                    spec_scale_step(Vec4 { x: v.x, y: v.y, z: v.z, w: 65536i64 }, sc),
                    t.cos_x as int,
                    t.sin_x as int,
                ),
                t.cos_y as int,
                t.sin_y as int,
            ),
            t.cos_z as int,
            t.sin_z as int,
        ),
        tr,
    )
}

proof fn lemma_scale_mat_in_geom(m: Matrix, sx: int, sy: int, sz: int)
    requires
        spec_is_scale(m, sx, sy, sz),
        in_geom(sx),
        in_geom(sy),
        in_geom(sz),
    ensures
        mat_in_geom(m),
{
    assert forall|i: int, j: int| 0 <= i < 4 && 0 <= j < 4 implies in_geom(#[trigger] ent(m, i, j)) by {
        if i != j {
            assert(ent(m, i, j) == 0);
        }
    }
}

proof fn lemma_rotate_mat_in_geom(m: Matrix, c: int, s: int)
    requires
        spec_is_rotate_x(m, c, s) || spec_is_rotate_y(m, c, s) || spec_is_rotate_z(m, c, s),
        fxabs(c) <= 65536,
        fxabs(s) <= 65536,
    ensures
        mat_in_geom(m),
{
    assert forall|i: int, j: int| 0 <= i < 4 && 0 <= j < 4 implies in_geom(#[trigger] ent(m, i, j)) by {
        assert(0 <= i < 4 && 0 <= j < 4);
    }
}

proof fn lemma_translate_mat_in_geom(m: Matrix, tx: int, ty: int, tz: int)
    requires
        spec_is_translate(m, tx, ty, tz),
        in_geom(tx),
        in_geom(ty),
        in_geom(tz),
    ensures
        mat_in_geom(m),
{
    assert forall|i: int, j: int| 0 <= i < 4 && 0 <= j < 4 implies in_geom(#[trigger] ent(m, i, j)) by {
        if i < 3 && i != j {
            assert(ent(m, i, j) == 0);
        }
        if i == j {
            assert(ent(m, i, i) == 65536);
        }
    }
}

proof fn lemma_proj_mat_in_geom(m: Matrix)
    requires
        proj_wf(m),
    ensures
        mat_in_geom(m),
{
    assert forall|i: int, j: int| 0 <= i < 4 && 0 <= j < 4 implies in_geom(#[trigger] ent(m, i, j)) by {
        assert(-0x4000_0000 <= ent(m, i, j) <= 0x4000_0000);
    }
}

/// What multiplying by a scaling matrix does, component by component.
proof fn lemma_apply_scale(m: Matrix, v: Vec4, sx: int, sy: int, sz: int)
    requires
        spec_is_scale(m, sx, sy, sz),
    ensures
        mv_x(m, v) == fxmul(v.x as int, sx),
        mv_y(m, v) == fxmul(v.y as int, sy),
        mv_z(m, v) == fxmul(v.z as int, sz),
        mv_w(m, v) == v.w as int,
{
    lemma_fxmul_zero(v.x as int);
    lemma_fxmul_zero(v.y as int);
    lemma_fxmul_zero(v.z as int);
    lemma_fxmul_zero(v.w as int);
    lemma_fxmul_one(v.w as int);
}

/// What multiplying by the x-rotation matrix does.
proof fn lemma_apply_rotate_x(m: Matrix, v: Vec4, c: int, s: int)
    requires
        spec_is_rotate_x(m, c, s),
    ensures
        mv_x(m, v) == v.x as int,
        mv_y(m, v) == fxmul(v.y as int, c) + fxmul(v.z as int, -s),
        mv_z(m, v) == fxmul(v.y as int, s) + fxmul(v.z as int, c),
        mv_w(m, v) == v.w as int,
{
    lemma_fxmul_zero(v.x as int);
    lemma_fxmul_zero(v.y as int);
    lemma_fxmul_zero(v.z as int);
    lemma_fxmul_zero(v.w as int);
    lemma_fxmul_one(v.x as int);
    lemma_fxmul_one(v.w as int);
}

/// What multiplying by the y-rotation matrix does.
proof fn lemma_apply_rotate_y(m: Matrix, v: Vec4, c: int, s: int)
    requires
        spec_is_rotate_y(m, c, s),
    ensures
        mv_x(m, v) == fxmul(v.x as int, c) + fxmul(v.z as int, s),
        mv_y(m, v) == v.y as int,
        mv_z(m, v) == fxmul(v.x as int, -s) + fxmul(v.z as int, c),
        mv_w(m, v) == v.w as int,
{
    lemma_fxmul_zero(v.x as int);
    lemma_fxmul_zero(v.y as int);
    lemma_fxmul_zero(v.z as int);
    lemma_fxmul_zero(v.w as int);
    lemma_fxmul_one(v.y as int);
    lemma_fxmul_one(v.w as int);
}

/// What multiplying by the z-rotation matrix does.
proof fn lemma_apply_rotate_z(m: Matrix, v: Vec4, c: int, s: int)
    requires
        spec_is_rotate_z(m, c, s),
    ensures
        mv_x(m, v) == fxmul(v.x as int, c) + fxmul(v.y as int, -s),
        mv_y(m, v) == fxmul(v.x as int, s) + fxmul(v.y as int, c),
        mv_z(m, v) == v.z as int,
        mv_w(m, v) == v.w as int,
{
    lemma_fxmul_zero(v.x as int);
    lemma_fxmul_zero(v.y as int);
    lemma_fxmul_zero(v.z as int);
    lemma_fxmul_zero(v.w as int);
    lemma_fxmul_one(v.z as int);
    lemma_fxmul_one(v.w as int);
}

/// What multiplying by a translation matrix does.
proof fn lemma_apply_translate(m: Matrix, v: Vec4, tx: int, ty: int, tz: int)
    requires
        spec_is_translate(m, tx, ty, tz),
    ensures
        mv_x(m, v) == v.x + fxmul(v.w as int, tx),
        mv_y(m, v) == v.y + fxmul(v.w as int, ty),
        mv_z(m, v) == v.z + fxmul(v.w as int, tz),
        mv_w(m, v) == v.w as int,
{
    lemma_fxmul_zero(v.x as int);
    lemma_fxmul_zero(v.y as int);
    lemma_fxmul_zero(v.z as int);
    lemma_fxmul_zero(v.w as int);
    lemma_fxmul_one(v.x as int);
    lemma_fxmul_one(v.y as int);
    lemma_fxmul_one(v.z as int);
    lemma_fxmul_one(v.w as int);
}

/// Applies the composite model transform to one mesh vertex by multiplying
/// through the five matrices in their fixed order.
fn world_transform(
    scale_matrix: &mut Matrix,
    rotation_matrix_x: &mut Matrix,
    rotation_matrix_y: &mut Matrix,
    rotation_matrix_z: &mut Matrix,
    translation_matrix: &mut Matrix,
    v: Vec3,
    Ghost(sc): Ghost<Vec3>,
    Ghost(t): Ghost<FrameTrig>,
    Ghost(tr): Ghost<Vec3>,
) -> (r: Vec4)
    requires
        spec_is_scale(*old(scale_matrix), sc.x as int, sc.y as int, sc.z as int),
        spec_is_rotate_x(*old(rotation_matrix_x), t.cos_x as int, t.sin_x as int),
        spec_is_rotate_y(*old(rotation_matrix_y), t.cos_y as int, t.sin_y as int),
        spec_is_rotate_z(*old(rotation_matrix_z), t.cos_z as int, t.sin_z as int),
        spec_is_translate(*old(translation_matrix), tr.x as int, tr.y as int, tr.z as int),
        vec3_small(sc),
        vec3_small(tr),
        trig_wf(t),
        vec3_small(v),
    ensures
        *final(scale_matrix) == *old(scale_matrix),
        *final(rotation_matrix_x) == *old(rotation_matrix_x),
        *final(rotation_matrix_y) == *old(rotation_matrix_y),
        *final(rotation_matrix_z) == *old(rotation_matrix_z),
        *final(translation_matrix) == *old(translation_matrix),
        r == spec_world_vertex(v, sc, t, tr),
        fxabs(r.x as int) <= 0x10_0000_0000,
        fxabs(r.y as int) <= 0x10_0000_0000,
        fxabs(r.z as int) <= 0x10_0000_0000,
        r.w == 65536,
{
    let v0 = Vec4 { x: v.x, y: v.y, z: v.z, w: 65536i64 };
    let mut tv = v0;
    proof {
        lemma_scale_mat_in_geom(*scale_matrix, sc.x as int, sc.y as int, sc.z as int);
    }
    let s1 = scale_matrix.multiply(&mut tv);
    proof {
        lemma_apply_scale(*scale_matrix, v0, sc.x as int, sc.y as int, sc.z as int);
        lemma_fxmul_bound(v.x as int, sc.x as int, 0x100_0000, 0x100_0000);
        lemma_fxmul_bound(v.y as int, sc.y as int, 0x100_0000, 0x100_0000);
        lemma_fxmul_bound(v.z as int, sc.z as int, 0x100_0000, 0x100_0000);
        lemma_fxmul_one(v0.w as int);
        assert(s1 == spec_scale_step(v0, sc));
        lemma_rotate_mat_in_geom(*rotation_matrix_x, t.cos_x as int, t.sin_x as int);
    }
    let s2 = rotation_matrix_x.multiply(&mut tv);
    proof {
        lemma_apply_rotate_x(*rotation_matrix_x, s1, t.cos_x as int, t.sin_x as int);
        lemma_fxmul_bound(s1.y as int, t.cos_x as int, 0x1_0000_0000, 65536);
        lemma_fxmul_bound(s1.z as int, -(t.sin_x as int), 0x1_0000_0000, 65536);
        lemma_fxmul_bound(s1.y as int, t.sin_x as int, 0x1_0000_0000, 65536);
        lemma_fxmul_bound(s1.z as int, t.cos_x as int, 0x1_0000_0000, 65536);
        assert(s2 == spec_rotate_x_step(s1, t.cos_x as int, t.sin_x as int));
        lemma_rotate_mat_in_geom(*rotation_matrix_y, t.cos_y as int, t.sin_y as int);
    }
    let s3 = rotation_matrix_y.multiply(&mut tv);
    proof {
        lemma_apply_rotate_y(*rotation_matrix_y, s2, t.cos_y as int, t.sin_y as int);
        lemma_fxmul_bound(s2.x as int, t.cos_y as int, 0x2_0000_0000, 65536);
        lemma_fxmul_bound(s2.z as int, t.sin_y as int, 0x2_0000_0000, 65536);
        lemma_fxmul_bound(s2.x as int, -(t.sin_y as int), 0x2_0000_0000, 65536);
        lemma_fxmul_bound(s2.z as int, t.cos_y as int, 0x2_0000_0000, 65536);
        assert(s3 == spec_rotate_y_step(s2, t.cos_y as int, t.sin_y as int));
        lemma_rotate_mat_in_geom(*rotation_matrix_z, t.cos_z as int, t.sin_z as int);
    }
    let s4 = rotation_matrix_z.multiply(&mut tv);
    proof {
        lemma_apply_rotate_z(*rotation_matrix_z, s3, t.cos_z as int, t.sin_z as int);
        lemma_fxmul_bound(s3.x as int, t.cos_z as int, 0x4_0000_0000, 65536);
        lemma_fxmul_bound(s3.y as int, -(t.sin_z as int), 0x4_0000_0000, 65536);
        lemma_fxmul_bound(s3.x as int, t.sin_z as int, 0x4_0000_0000, 65536);
        lemma_fxmul_bound(s3.y as int, t.cos_z as int, 0x4_0000_0000, 65536);
        assert(s4 == spec_rotate_z_step(s3, t.cos_z as int, t.sin_z as int));
        lemma_translate_mat_in_geom(*translation_matrix, tr.x as int, tr.y as int, tr.z as int);
    }
    let s5 = translation_matrix.multiply(&mut tv);
    proof {
        lemma_apply_translate(*translation_matrix, s4, tr.x as int, tr.y as int, tr.z as int);
        lemma_fxmul_one(tr.x as int);
        lemma_fxmul_one(tr.y as int);
        lemma_fxmul_one(tr.z as int);
        assert(s5 == spec_translate_step(s4, tr));
    }
    s5
}

/// The spatial part of a homogeneous vector.
pub open spec fn vec3_of(v: Vec4) -> Vec3 {
    Vec3 { x: v.x, y: v.y, z: v.z }
}

/// The face normal: both edges from the first vertex are normalized, then
/// their cross product is normalized. The vertex order fixes the winding
/// and so the normal's sign.
pub open spec fn spec_face_normal(a: Vec3, b: Vec3, c: Vec3) -> Vec3 {
    spec_normalize(spec_cross(spec_normalize(spec_sub3(b, a)), spec_normalize(spec_sub3(c, a))))
}

/// The fixed world-space light direction, normalized.
pub open spec fn spec_light_normal() -> Vec3 {
    spec_normalize(Vec3 { x: 0i64, y: 0i64, z: 65536i64 })
}

pub open spec fn clamp01(v: int) -> int {
    if v < 0 {
        0
    } else if v > 65536 {
        65536
    } else {
        v
    }
}

/// Lambertian intensity of a face with this normal, clamped to `[0, 1]`.
pub open spec fn spec_intensity(n: Vec3) -> int {
    clamp01(-spec_dot3(n, spec_light_normal()))
}

/// The three transformed (world-space) vertices of a face.
pub open spec fn world_a(r: Renderer, t: FrameTrig, f: crate::triangle::Face) -> Vec4 {
    spec_world_vertex(r.mesh.vertices@[f.a - 1], r.mesh.scale, t, r.mesh.translation)
}

pub open spec fn world_b(r: Renderer, t: FrameTrig, f: crate::triangle::Face) -> Vec4 {
    spec_world_vertex(r.mesh.vertices@[f.b - 1], r.mesh.scale, t, r.mesh.translation)
}

pub open spec fn world_c(r: Renderer, t: FrameTrig, f: crate::triangle::Face) -> Vec4 {
    spec_world_vertex(r.mesh.vertices@[f.c - 1], r.mesh.scale, t, r.mesh.translation)
}

pub open spec fn normal_of(r: Renderer, t: FrameTrig, f: crate::triangle::Face) -> Vec3 {
    spec_face_normal(
        vec3_of(world_a(r, t, f)),
        vec3_of(world_b(r, t, f)),
        vec3_of(world_c(r, t, f)),
    )
}

/// The backface test: with culling enabled, a face is dropped exactly when
/// its normal points away from the camera.
pub open spec fn spec_culled(r: Renderer, t: FrameTrig, f: crate::triangle::Face) -> bool {
    &&& r.cull_method == CullMethod::CullBackface
    &&& spec_dot3(
        normal_of(r, t, f),
        spec_sub3(r.camera_position, vec3_of(world_a(r, t, f))),
    ) < 0
}

/// Saturation applied before screen scaling, so the multiply stays in
/// `i64`; points the perspective divide already clipped are unaffected.
pub open spec fn clip_coord(a: int) -> int {
    if a > 0x100_0000_0000 {
        0x100_0000_0000
    } else if a < -0x100_0000_0000 {
        -0x100_0000_0000
    } else {
        a
    }
}

/// Normalized clip coordinates scaled by half the window size and moved to
/// the screen center.
pub open spec fn spec_screen_point(p: Vec4) -> Vec2 {
    Vec2 {
        x: (clip_coord(p.x as int) * 540 + 35389440) as i64,
        y: (clip_coord(p.y as int) * 360 + 23592960) as i64,
    }
}

/// The flat color a face is drawn with: its own color, scaled by the
/// lighting intensity when lighting is on.
pub open spec fn spec_face_color(r: Renderer, t: FrameTrig, f: crate::triangle::Face) -> Color {
    if r.apply_light {
        spec_light(spec_intensity(normal_of(r, t, f)), f.color)
    } else {
        f.color
    }
}

/// The screen-space triangle one face produces: each world vertex is
/// projected and mapped to the screen, and the mean of the three world z
/// values is kept for depth ordering.
pub open spec fn spec_face_triangle(r: Renderer, t: FrameTrig, f: crate::triangle::Face) -> Triangle {
    let ta = world_a(r, t, f);
    let tb = world_b(r, t, f);
    let tc = world_c(r, t, f);
    let pa = spec_project(r.projection_matrix, ta);
    let pb = spec_project(r.projection_matrix, tb);
    let pc = spec_project(r.projection_matrix, tc);
    Triangle {
        points: [spec_screen_point(pa), spec_screen_point(pb), spec_screen_point(pc)],
        color: spec_face_color(r, t, f),
        avg_depth: tdiv(ta.z + tb.z + tc.z, 3) as i64,
    }
}

/// The triangles the first `n` faces contribute to the frame, in face
/// order, culled faces skipped.
pub open spec fn frame_tris(r: Renderer, t: FrameTrig, n: nat) -> Seq<Triangle>
    decreases n,
{
    if n == 0 {
        Seq::empty()
    } else {
        let pre = frame_tris(r, t, (n - 1) as nat);
        let f = r.mesh.faces@[n - 1];
        if spec_culled(r, t, f) {
            pre
        } else {
            pre.push(spec_face_triangle(r, t, f))
        }
    }
}

/// Everything one frame renders, before depth ordering.
pub open spec fn spec_frame_triangles(r: Renderer, t: FrameTrig) -> Seq<Triangle> {
    frame_tris(r, t, r.mesh.faces@.len())
}

/// Backface culling filters exactly by the normal-camera test: with culling
/// off every face contributes its triangle in order; with culling on, every
/// rendered triangle is the output of some face that passed the test.
pub proof fn lemma_backface_cull(r: Renderer, t: FrameTrig, n: nat)
    requires
        n <= r.mesh.faces@.len(),
    ensures
        r.cull_method == CullMethod::CullNone ==> frame_tris(r, t, n).len() == n,
        r.cull_method == CullMethod::CullNone ==> forall|k: int|
            0 <= k < n ==> #[trigger] frame_tris(r, t, n)[k] == spec_face_triangle(
                r,
                t,
                r.mesh.faces@[k],
            ),
        forall|j: int|
            0 <= j < frame_tris(r, t, n).len() ==> exists|k: int|
                0 <= k < n && !spec_culled(r, t, r.mesh.faces@[k]) && #[trigger] frame_tris(
                    r,
                    t,
                    n,
                )[j] == spec_face_triangle(r, t, #[trigger] r.mesh.faces@[k]),
    decreases n,
{
    if n > 0 {
        lemma_backface_cull(r, t, (n - 1) as nat);
        let pre = frame_tris(r, t, (n - 1) as nat);
        let f = r.mesh.faces@[n - 1];
        assert forall|j: int|
            0 <= j < frame_tris(r, t, n).len() implies exists|k: int|
                0 <= k < n && !spec_culled(r, t, r.mesh.faces@[k]) && #[trigger] frame_tris(
                    r,
                    t,
                    n,
                )[j] == spec_face_triangle(r, t, #[trigger] r.mesh.faces@[k]) by {
            if j < pre.len() {
                let k = choose|k: int|
                    0 <= k < n - 1 && !spec_culled(r, t, r.mesh.faces@[k]) && pre[j]
                        == spec_face_triangle(r, t, #[trigger] r.mesh.faces@[k]);
                assert(frame_tris(r, t, n)[j] == pre[j]);
                assert(0 <= k < n && !spec_culled(r, t, r.mesh.faces@[k]) && frame_tris(r, t, n)[j]
                    == spec_face_triangle(r, t, r.mesh.faces@[k]));
            } else {
                assert(!spec_culled(r, t, f));
                assert(frame_tris(r, t, n)[j] == spec_face_triangle(r, t, f));
                assert(0 <= n - 1 < n && !spec_culled(r, t, r.mesh.faces@[n - 1]) && frame_tris(
                    r,
                    t,
                    n,
                )[j] == spec_face_triangle(r, t, r.mesh.faces@[n - 1]));
            }
        }
    }
}

/// Computes the face normal from the transformed vertices.
fn face_normal(va: Vec3, vb: Vec3, vc: Vec3) -> (n: Vec3)
    requires
        fxabs(va.x as int) <= 0x10_0000_0000,
        fxabs(va.y as int) <= 0x10_0000_0000,
        fxabs(va.z as int) <= 0x10_0000_0000,
        fxabs(vb.x as int) <= 0x10_0000_0000,
        fxabs(vb.y as int) <= 0x10_0000_0000,
        fxabs(vb.z as int) <= 0x10_0000_0000,
        fxabs(vc.x as int) <= 0x10_0000_0000,
        fxabs(vc.y as int) <= 0x10_0000_0000,
        fxabs(vc.z as int) <= 0x10_0000_0000,
    ensures
        n == spec_face_normal(va, vb, vc),
        fxabs(n.x as int) <= 65536,
        fxabs(n.y as int) <= 65536,
        fxabs(n.z as int) <= 65536,
{
    let edge_ab = vb.sub(va);
    let edge_ac = vc.sub(va);
    proof {
        assert(edge_ab == spec_sub3(vb, va));
        assert(edge_ac == spec_sub3(vc, va));
    }
    let vector_ab = edge_ab.normalize();
    let vector_ac = edge_ac.normalize();
    proof {
        lemma_fxmul_bound(vector_ab.y as int, vector_ac.z as int, 65536, 65536);
        lemma_fxmul_bound(vector_ab.z as int, vector_ac.y as int, 65536, 65536);
        lemma_fxmul_bound(vector_ab.z as int, vector_ac.x as int, 65536, 65536);
        lemma_fxmul_bound(vector_ab.x as int, vector_ac.z as int, 65536, 65536);
        lemma_fxmul_bound(vector_ab.x as int, vector_ac.y as int, 65536, 65536);
        lemma_fxmul_bound(vector_ab.y as int, vector_ac.x as int, 65536, 65536);
    }
    let crossed = vector_ab.cross(vector_ac);
    proof {
        assert(crossed == spec_cross(vector_ab, vector_ac));
    }
    crossed.normalize()
}

/// Saturates a projected coordinate and maps it into screen space.
fn to_screen(p: Vec4) -> (r: Vec2)
    ensures
        r == spec_screen_point(p),
{
    let cx: i64 = if p.x > 0x100_0000_0000 {
        0x100_0000_0000
    } else if p.x < -0x100_0000_0000 {
        -0x100_0000_0000
    } else {
        p.x
    };
    let cy: i64 = if p.y > 0x100_0000_0000 {
        0x100_0000_0000
    } else if p.y < -0x100_0000_0000 {
        -0x100_0000_0000
    } else {
        p.y
    };
    Vec2 { x: cx * 540 + 35389440, y: cy * 360 + 23592960 }
}

/// What drawing one triangle does to the buffer under each render method.
pub open spec fn spec_draw_one(buf: Seq<u8>, t: Triangle, method: RenderMethod) -> Seq<u8> {
    match method {
        RenderMethod::Wireframe => tri_outline_paint(
            buf,
            t.points,
            Color { r: 255u8, g: 255u8, b: 255u8, a: 255u8 },
            false,
        ),
        RenderMethod::WireframeVertex => tri_outline_paint(
            buf,
            t.points,
            Color { r: 255u8, g: 255u8, b: 255u8, a: 255u8 },
            true,
        ),
        RenderMethod::FillTriangle => put_pixels(buf, filled_points(t.points), t.color),
        RenderMethod::FillTriangleWireframe => tri_outline_paint(
            put_pixels(buf, filled_points(t.points), t.color),
            t.points,
            Color { r: 0u8, g: 0u8, b: 0u8, a: 255u8 },
            false,
        ),
    }
}

/// The buffer after rasterizing the first `n` triangles of the render
/// list, in order (farthest first after the depth sort, so nearer
/// triangles overwrite farther ones).
pub open spec fn spec_render_pass(
    buf: Seq<u8>,
    tris: Seq<Triangle>,
    method: RenderMethod,
    n: nat,
) -> Seq<u8>
    decreases n,
{
    if n == 0 {
        buf
    } else {
        spec_draw_one(spec_render_pass(buf, tris, method, (n - 1) as nat), tris[n - 1], method)
    }
}

impl Renderer {
    /// A fresh renderer over a loaded mesh and a prebuilt projection
    /// matrix: wireframe rendering, no culling, lighting on, a black
    /// window-sized buffer, camera at the origin.
    pub fn new(mesh: Mesh, projection_matrix: Matrix) -> (r: Renderer)
        ensures
            r.is_running == true,
            r.color_buffer@.len() == 1080 * 720 * 3,
            forall|i: int| 0 <= i < r.color_buffer@.len() ==> r.color_buffer@[i] == 0u8,
            r.triangles_to_render@ =~= Seq::<Triangle>::empty(),
            r.camera_position == (Vec3 { x: 0, y: 0, z: 0 }),
            r.mesh == mesh,
            r.render_method == RenderMethod::Wireframe,
            r.cull_method == CullMethod::CullNone,
            r.apply_light == true,
            r.projection_matrix == projection_matrix,
    {
        let mut color_buffer: Vec<u8> = Vec::new();
        crate::display::clear_color_buffer(&mut color_buffer);
        Renderer {
            is_running: true,
            color_buffer,
            triangles_to_render: Vec::new(),
            camera_position: Vec3 { x: 0, y: 0, z: 0 },
            mesh,
            render_method: RenderMethod::Wireframe,
            cull_method: CullMethod::CullNone,
            apply_light: true,
            projection_matrix,
        }
    }

    /// Applies a batch of input events in order.
    pub fn process_input(&mut self, events: &Vec<InputEvent>)
        ensures
            *final(self) == run_inputs(*old(self), events@),
    {
        let ghost orig = *self;
        let n = events.len();
        proof {
            assert(events@.take(0) =~= Seq::<InputEvent>::empty());
        }
        for idx in 0..n
            invariant
                n == events@.len(),
                *self == run_inputs(orig, events@.take(idx as int)),
        {
            let e = events[idx];
            proof {
                lemma_run_inputs_snoc(orig, events@.take(idx as int), e);
                assert(events@.take(idx + 1) =~= events@.take(idx as int).push(e));
            }
            match e {
                InputEvent::Quit => {
                    self.is_running = false;
                },
                InputEvent::KeyDown(k) => match k {
                    Key::Escape => {
                        self.is_running = false;
                    },
                    Key::Num1 => {
                        self.render_method = RenderMethod::Wireframe;
                    },
                    Key::Num2 => {
                        self.render_method = RenderMethod::WireframeVertex;
                    },
                    Key::Num3 => {
                        self.render_method = RenderMethod::FillTriangle;
                    },
                    Key::Num4 => {
                        self.render_method = RenderMethod::FillTriangleWireframe;
                    },
                    Key::Num5 => {
                        self.cull_method = CullMethod::CullNone;
                    },
                    Key::Num6 => {
                        self.cull_method = CullMethod::CullBackface;
                    },
                    Key::L => {
                        self.apply_light = !self.apply_light;
                    },
                    Key::Other => {},
                },
            }
        }
        proof {
            assert(events@.take(n as int) =~= events@);
        }
    }

    /// One animation step: the rotation angles advance by fixed increments
    /// and the mesh is held five units in front of the camera. The caller
    /// then supplies the new angles' sines and cosines to `update`.
    pub fn advance_animation(&mut self)
        requires
            fxabs(old(self).mesh.rotation.x as int) <= 0x1_0000_0000_0000,
            fxabs(old(self).mesh.rotation.y as int) <= 0x1_0000_0000_0000,
            fxabs(old(self).mesh.rotation.z as int) <= 0x1_0000_0000_0000,
        ensures
            final(self).mesh.rotation == (Vec3 {
                x: (old(self).mesh.rotation.x + 1310) as i64,
                y: (old(self).mesh.rotation.y + 1310) as i64,
                z: (old(self).mesh.rotation.z + 655) as i64,
            }),
            final(self).mesh.translation == (Vec3 {
                x: old(self).mesh.translation.x,
                y: old(self).mesh.translation.y,
                z: 327680i64,
            }),
            final(self).mesh.vertices == old(self).mesh.vertices,
            final(self).mesh.faces == old(self).mesh.faces,
            final(self).mesh.scale == old(self).mesh.scale,
            final(self).is_running == old(self).is_running,
            final(self).color_buffer == old(self).color_buffer,
            final(self).triangles_to_render == old(self).triangles_to_render,
            final(self).camera_position == old(self).camera_position,
            final(self).render_method == old(self).render_method,
            final(self).cull_method == old(self).cull_method,
            final(self).apply_light == old(self).apply_light,
            final(self).projection_matrix == old(self).projection_matrix,
    {
        self.mesh.rotation.x = self.mesh.rotation.x + 1310;
        self.mesh.rotation.y = self.mesh.rotation.y + 1310;
        self.mesh.rotation.z = self.mesh.rotation.z + 655;
        self.mesh.translation.z = 327680;
    }


    /// One frame's geometry pass: every face's vertices go through the
    /// composite model transform; the face normal drives lighting and the
    /// backface test; surviving faces are projected, mapped to the screen
    /// and appended to the render list, which is then ordered farthest
    /// first. `trig` carries the sines and cosines of the mesh's current
    /// rotation angles.
    #[verifier::rlimit(100)]
    pub fn update(&mut self, trig: &FrameTrig)
        requires
            renderer_wf(*old(self)),
            trig_wf(*trig),
        ensures
            sorted_by_depth(final(self).triangles_to_render@),
            final(self).triangles_to_render@.to_multiset() == (old(self).triangles_to_render@
                + spec_frame_triangles(*old(self), *trig)).to_multiset(),
            final(self).triangles_to_render@.len() == old(self).triangles_to_render@.len()
                + spec_frame_triangles(*old(self), *trig).len(),
            final(self).is_running == old(self).is_running,
            final(self).color_buffer == old(self).color_buffer,
            final(self).camera_position == old(self).camera_position,
            final(self).mesh == old(self).mesh,
            final(self).render_method == old(self).render_method,
            final(self).cull_method == old(self).cull_method,
            final(self).apply_light == old(self).apply_light,
            final(self).projection_matrix == old(self).projection_matrix,
    {
        let ghost r0 = *self;
        let sc = self.mesh.scale;
        let tr = self.mesh.translation;
        let mut base = Matrix::new();
        let mut scale_matrix = base.scale(sc.x, sc.y, sc.z);
        let mut translation_matrix = base.translate(tr.x, tr.y, tr.z);
        let mut rotation_matrix_x = base.rotate_x(trig.cos_x, trig.sin_x);
        let mut rotation_matrix_y = base.rotate_y(trig.cos_y, trig.sin_y);
        let mut rotation_matrix_z = base.rotate_z(trig.cos_z, trig.sin_z);
        let num_faces = self.mesh.faces.len();
        proof {
            assert(r0.triangles_to_render@ + frame_tris(r0, *trig, 0) =~= r0.triangles_to_render@);
        }
        for i in 0..num_faces
            invariant
                renderer_wf(r0),
                trig_wf(*trig),
                num_faces == r0.mesh.faces@.len(),
                sc == r0.mesh.scale,
                tr == r0.mesh.translation,
                spec_is_scale(scale_matrix, sc.x as int, sc.y as int, sc.z as int),
                spec_is_translate(translation_matrix, tr.x as int, tr.y as int, tr.z as int),
                spec_is_rotate_x(rotation_matrix_x, trig.cos_x as int, trig.sin_x as int),
                spec_is_rotate_y(rotation_matrix_y, trig.cos_y as int, trig.sin_y as int),
                spec_is_rotate_z(rotation_matrix_z, trig.cos_z as int, trig.sin_z as int),
                self.is_running == r0.is_running,
                self.color_buffer == r0.color_buffer,
                self.camera_position == r0.camera_position,
                self.mesh == r0.mesh,
                self.render_method == r0.render_method,
                self.cull_method == r0.cull_method,
                self.apply_light == r0.apply_light,
                self.projection_matrix == r0.projection_matrix,
                self.triangles_to_render@ == r0.triangles_to_render@ + frame_tris(
                    r0,
                    *trig,
                    i as nat,
                ),
        {
            self.process_face(i, &mut scale_matrix, &mut rotation_matrix_x, &mut rotation_matrix_y,
                &mut rotation_matrix_z, &mut translation_matrix, trig, Ghost(r0));
            proof {
                assert(r0.triangles_to_render@ + frame_tris(r0, *trig, (i + 1) as nat)
                    =~= if spec_culled(r0, *trig, r0.mesh.faces@[i as int]) {
                    r0.triangles_to_render@ + frame_tris(r0, *trig, i as nat)
                } else {
                    (r0.triangles_to_render@ + frame_tris(r0, *trig, i as nat)).push(
                        spec_face_triangle(r0, *trig, r0.mesh.faces@[i as int]),
                    )
                });
            }
        }
        sort_triangles_by_depth(&mut self.triangles_to_render);
    }

    /// Carries one face through the whole pipeline, appending its triangle
    /// to the render list unless the backface test discards it.
    #[verifier::rlimit(100)]
    fn process_face(
        &mut self,
        i: usize,
        scale_matrix: &mut Matrix,
        rotation_matrix_x: &mut Matrix,
        rotation_matrix_y: &mut Matrix,
        rotation_matrix_z: &mut Matrix,
        translation_matrix: &mut Matrix,
        trig: &FrameTrig,
        Ghost(r0): Ghost<Renderer>,
    )
        requires
            renderer_wf(r0),
            trig_wf(*trig),
            i < r0.mesh.faces@.len(),
            old(self).mesh == r0.mesh,
            old(self).camera_position == r0.camera_position,
            old(self).cull_method == r0.cull_method,
            old(self).apply_light == r0.apply_light,
            old(self).projection_matrix == r0.projection_matrix,
            spec_is_scale(*old(scale_matrix), r0.mesh.scale.x as int, r0.mesh.scale.y as int,
                r0.mesh.scale.z as int),
            spec_is_rotate_x(*old(rotation_matrix_x), trig.cos_x as int, trig.sin_x as int),
            spec_is_rotate_y(*old(rotation_matrix_y), trig.cos_y as int, trig.sin_y as int),
            spec_is_rotate_z(*old(rotation_matrix_z), trig.cos_z as int, trig.sin_z as int),
            spec_is_translate(*old(translation_matrix), r0.mesh.translation.x as int,
                r0.mesh.translation.y as int, r0.mesh.translation.z as int),
        ensures
            *final(scale_matrix) == *old(scale_matrix),
            *final(rotation_matrix_x) == *old(rotation_matrix_x),
            *final(rotation_matrix_y) == *old(rotation_matrix_y),
            *final(rotation_matrix_z) == *old(rotation_matrix_z),
            *final(translation_matrix) == *old(translation_matrix),
            final(self).triangles_to_render@ == if spec_culled(r0, *trig, r0.mesh.faces@[i as int]) {
                old(self).triangles_to_render@
            } else {
                old(self).triangles_to_render@.push(
                    spec_face_triangle(r0, *trig, r0.mesh.faces@[i as int]),
                )
            },
            final(self).is_running == old(self).is_running,
            final(self).color_buffer == old(self).color_buffer,
            final(self).camera_position == old(self).camera_position,
            final(self).mesh == old(self).mesh,
            final(self).render_method == old(self).render_method,
            final(self).cull_method == old(self).cull_method,
            final(self).apply_light == old(self).apply_light,
            final(self).projection_matrix == old(self).projection_matrix,
    {
        let ghost sc = r0.mesh.scale;
        let ghost tr = r0.mesh.translation;
        let cube_face = self.mesh.faces[i];
        proof {
            assert(crate::mesh::face_ok(r0.mesh.faces@[i as int], r0.mesh.vertices@.len() as int));
            assert(cube_face == r0.mesh.faces@[i as int]);
        }
        let fa = self.mesh.vertices[cube_face.a - 1];
        let fb = self.mesh.vertices[cube_face.b - 1];
        let fc = self.mesh.vertices[cube_face.c - 1];
        proof {
            assert(crate::mesh::vec3_small(r0.mesh.vertices@[cube_face.a - 1]));
            assert(crate::mesh::vec3_small(r0.mesh.vertices@[cube_face.b - 1]));
            assert(crate::mesh::vec3_small(r0.mesh.vertices@[cube_face.c - 1]));
        }
        let ta = world_transform(scale_matrix, rotation_matrix_x, rotation_matrix_y,
            rotation_matrix_z, translation_matrix, fa, Ghost(sc), Ghost(*trig), Ghost(tr));
        let tb = world_transform(scale_matrix, rotation_matrix_x, rotation_matrix_y,
            rotation_matrix_z, translation_matrix, fb, Ghost(sc), Ghost(*trig), Ghost(tr));
        let tc = world_transform(scale_matrix, rotation_matrix_x, rotation_matrix_y,
            rotation_matrix_z, translation_matrix, fc, Ghost(sc), Ghost(*trig), Ghost(tr));
        let vector_a = Vec3::from_vec4(ta);
        let vector_b = Vec3::from_vec4(tb);
        let vector_c = Vec3::from_vec4(tc);
        let normal = face_normal(vector_a, vector_b, vector_c);
        proof {
            assert(ta == world_a(r0, *trig, cube_face));
            assert(tb == world_b(r0, *trig, cube_face));
            assert(tc == world_c(r0, *trig, cube_face));
            assert(normal == normal_of(r0, *trig, cube_face));
        }
        let mut light_color = cube_face.color;
        if self.apply_light {
            let light_normal = Vec3::new(0, 0, 65536).normalize();
            proof {
                lemma_fxmul_bound(normal.x as int, light_normal.x as int, 65536, 65536);
                lemma_fxmul_bound(normal.y as int, light_normal.y as int, 65536, 65536);
                lemma_fxmul_bound(normal.z as int, light_normal.z as int, 65536, 65536);
            }
            let raw_intensity = -(normal.dot(light_normal));
            let light_intensity: i64 = if raw_intensity < 0 {
                0
            } else if raw_intensity > 65536 {
                65536
            } else {
                raw_intensity
            };
            proof {
                assert(light_normal == spec_light_normal());
                assert(light_intensity == spec_intensity(normal));
            }
            light_color = self.light_apply_intensity(light_intensity, cube_face.color);
        }
        proof {
            assert(light_color == spec_face_color(r0, *trig, cube_face));
        }
        let mut culled = false;
        if self.cull_method == CullMethod::CullBackface {
            let camera_ray = self.camera_position.sub(vector_a);
            let dot_normal_camera = normal.dot(camera_ray);
            if dot_normal_camera < 0 {
                culled = true;
            }
        }
        proof {
            assert(culled == spec_culled(r0, *trig, cube_face));
        }
        if !culled {
            proof {
                lemma_proj_mat_in_geom(self.projection_matrix);
            }
            let pa = self.projection_matrix.multiply_vec4_projection(&ta);
            let pb = self.projection_matrix.multiply_vec4_projection(&tb);
            let pc = self.projection_matrix.multiply_vec4_projection(&tc);
            let sa = to_screen(pa);
            let sb = to_screen(pb);
            let s_c = to_screen(pc);
            let avg_depth: i64 = (ta.z + tb.z + tc.z) / 3;
            let tri = Triangle { points: [sa, sb, s_c], color: light_color, avg_depth };
            proof {
                assert(tri == spec_face_triangle(r0, *trig, cube_face));
            }
            self.triangles_to_render.push(tri);
        }
    }


    /// Rasterizes the render list into the pixel buffer under the current
    /// render method, then clears the list. The surrounding application
    /// presents the buffer and clears it for the next frame.
    pub fn render(&mut self)
        ensures
            final(self).color_buffer@ == spec_render_pass(
                old(self).color_buffer@,
                old(self).triangles_to_render@,
                old(self).render_method,
                old(self).triangles_to_render@.len(),
            ),
            final(self).triangles_to_render@ == Seq::<Triangle>::empty(),
            final(self).is_running == old(self).is_running,
            final(self).camera_position == old(self).camera_position,
            final(self).mesh == old(self).mesh,
            final(self).render_method == old(self).render_method,
            final(self).cull_method == old(self).cull_method,
            final(self).apply_light == old(self).apply_light,
            final(self).projection_matrix == old(self).projection_matrix,
    {
        let ghost r0 = *self;
        let num_triangles = self.triangles_to_render.len();
        for i in 0..num_triangles
            invariant
                num_triangles == r0.triangles_to_render@.len(),
                self.triangles_to_render == r0.triangles_to_render,
                self.color_buffer@ == spec_render_pass(r0.color_buffer@,
                    r0.triangles_to_render@, r0.render_method, i as nat),
                self.is_running == r0.is_running,
                self.camera_position == r0.camera_position,
                self.mesh == r0.mesh,
                self.render_method == r0.render_method,
                self.cull_method == r0.cull_method,
                self.apply_light == r0.apply_light,
                self.projection_matrix == r0.projection_matrix,
        {
            let triangle = self.triangles_to_render[i];
            match self.render_method {
                RenderMethod::Wireframe => {
                    crate::display::draw_triangle(
                        &mut self.color_buffer,
                        triangle.points,
                        Color { r: 255, g: 255, b: 255, a: 255 },
                        false,
                    );
                },
                RenderMethod::WireframeVertex => {
                    crate::display::draw_triangle(
                        &mut self.color_buffer,
                        triangle.points,
                        Color { r: 255, g: 255, b: 255, a: 255 },
                        true,
                    );
                },
                RenderMethod::FillTriangle => {
                    crate::triangle::draw_filled_triangle(
                        &mut self.color_buffer,
                        triangle.points,
                        triangle.color,
                    );
                },
                RenderMethod::FillTriangleWireframe => {
                    crate::triangle::draw_filled_triangle(
                        &mut self.color_buffer,
                        triangle.points,
                        triangle.color,
                    );
                    crate::display::draw_triangle(
                        &mut self.color_buffer,
                        triangle.points,
                        Color { r: 0, g: 0, b: 0, a: 255 },
                        false,
                    );
                },
            }
        }
        self.triangles_to_render.clear();
    }

    /// Scales a face color by a lighting intensity in `[0, 1]`, forcing the
    /// alpha channel opaque.
    pub fn light_apply_intensity(&mut self, intensity: i64, color: Color) -> (r: Color)
        requires
            0 <= intensity <= 65536,
        ensures
            *final(self) == *old(self),
            r == spec_light(intensity as int, color),
    {
        let r = scale_channel(color.r, intensity);
        let g = scale_channel(color.g, intensity);
        let b = scale_channel(color.b, intensity);
        Color { r, g, b, a: 255 }
    }
}

} // verus!
