//! Screen-space triangles and the scanline fill.
//!
//! A triangle is filled by sorting its points by y, splitting the general
//! case at the middle vertex into a flat-bottom and a flat-top part, and
//! painting one horizontal span per scanline; the two parts share the
//! middle scanline, so the coverage has no seam (`lemma_fill_no_seam`).
//! Degenerate flat triangles of zero height paint nothing.

use crate::color::Color;
use crate::display::{
    draw_line, hspan_points, lemma_line_points_horizontal, lemma_put_pixels_concat,
    lemma_put_pixels_snoc, line_points, put_pixels,
};
use crate::fixed::{
    fx_screen, fx_to_i32, fxabs, lemma_fx_screen_mono, lemma_tdiv_bound, tdiv,
};
use crate::vector::Vec2;
use vstd::prelude::*;

verus! {

/// A screen-space triangle: three fixed-point screen points, a flat color,
/// and the mean pre-projection depth used only for ordering.
#[derive(Debug, Copy, Clone)]
pub struct Triangle {
    pub points: [Vec2; 3],
    pub color: Color,
    pub avg_depth: i64,
}

/// One mesh face: three 1-based indices into the vertex list and a flat
/// color.
#[derive(Debug, Copy, Clone, PartialEq, Eq, Structural)]
pub struct Face {
    pub a: usize,
    pub b: usize,
    pub c: usize,
    pub color: Color,
}

impl Triangle {
    pub fn new(points: [Vec2; 3], color: Color, avg_depth: i64) -> (t: Triangle)
        ensures
            t == (Triangle { points, color, avg_depth }),
    {
        Triangle { points, color, avg_depth }
    }
}

impl Face {
    pub fn new(a: usize, b: usize, c: usize, color: Color) -> (f: Face)
        ensures
            f == (Face { a, b, c, color }),
    {
        Face { a, b, c, color }
    }
}

/// The x coordinate where the edge from `(xa, ..)` to `(xb, ..)` crosses
/// the scanline `off` rows below its start, the edge spanning `dy` rows.
pub open spec fn edge_x(xa: int, xb: int, off: int, dy: int) -> int
    recommends
        dy != 0,
{
    xa + tdiv((xb - xa) * off, dy)
}

/// Evaluates `edge_x`; the result stays between the edge's endpoints.
fn interp_x(xa: i64, xb: i64, off: i64, dy: i64) -> (r: i64)
    requires
        0 < dy <= 0x1_0000_0001,
        0 <= off <= dy,
        i32::MIN <= xa <= i32::MAX,
        i32::MIN <= xb <= i32::MAX,
    ensures
        r == edge_x(xa as int, xb as int, off as int, dy as int),
        xa <= xb ==> xa <= r <= xb,
        xb <= xa ==> xb <= r <= xa,
{
    proof {
        assert(fxabs(((xb as int) - (xa as int)) * (off as int)) <= fxabs((xb as int) - (xa as int))
            * (dy as int) && fxabs((xb as int) - (xa as int)) * (dy as int) <= 0x1_0000_0000
            * 0x1_0000_0001) by (nonlinear_arith)
            requires
                0 <= off <= dy <= 0x1_0000_0001,
                fxabs((xb as int) - (xa as int)) <= 0x1_0000_0000,
        ;
        lemma_tdiv_bound(
            ((xb as int) - (xa as int)) * (off as int),
            dy as int,
            fxabs((xb as int) - (xa as int)) * (dy as int),
        );
        vstd::arithmetic::div_mod::lemma_div_by_multiple(
            fxabs((xb as int) - (xa as int)),
            dy as int,
        );
        let numi = ((xb as int) - (xa as int)) * (off as int);
        if xb >= xa {
            assert(numi >= 0) by (nonlinear_arith)
                requires
                    numi == ((xb as int) - (xa as int)) * (off as int),
                    xb >= xa,
                    off >= 0,
            ;
        } else {
            assert(numi <= 0) by (nonlinear_arith)
                requires
                    numi == ((xb as int) - (xa as int)) * (off as int),
                    xb < xa,
                    off >= 0,
            ;
            vstd::arithmetic::div_mod::lemma_div_pos_is_pos(-numi, dy as int);
        }
    }
    let num: i128 = ((xb as i128) - (xa as i128)) * (off as i128);
    let q: i128 = num / (dy as i128);
    (xa as i64) + (q as i64)
}

/// The pixels of the scanline at `y` of a flat-bottom triangle.
pub open spec fn fb_row(x0: int, y0: int, x1: int, y1: int, x2: int, y2: int, y: int) -> Seq<
    (int, int),
> {
    hspan_points(edge_x(x0, x1, y - y0, y1 - y0), edge_x(x0, x2, y - y0, y2 - y0), y)
}

/// The first `n` scanlines of a flat-bottom triangle, top down.
pub open spec fn fb_rows(x0: int, y0: int, x1: int, y1: int, x2: int, y2: int, n: nat) -> Seq<
    (int, int),
>
    decreases n,
{
    if n == 0 {
        Seq::empty()
    } else {
        fb_rows(x0, y0, x1, y1, x2, y2, (n - 1) as nat) + fb_row(x0, y0, x1, y1, x2, y2, y0 + n - 1)
    }
}

/// Everything a flat-bottom fill paints: one span per scanline from the
/// apex row to the flat edge; an apex on the flat edge's row (a zero-height
/// triangle) paints nothing.
pub open spec fn flat_bottom_points(x0: int, y0: int, x1: int, y1: int, x2: int, y2: int) -> Seq<
    (int, int),
> {
    if y0 < y1 {
        fb_rows(x0, y0, x1, y1, x2, y2, (y1 - y0 + 1) as nat)
    } else {
        Seq::empty()
    }
}

/// The pixels of the scanline at `y` of a flat-top triangle.
pub open spec fn ft_row(x0: int, y0: int, x1: int, y1: int, x2: int, y2: int, y: int) -> Seq<
    (int, int),
> {
    hspan_points(edge_x(x2, x0, y2 - y, y2 - y0), edge_x(x2, x1, y2 - y, y2 - y1), y)
}

/// The first `n` scanlines of a flat-top fill, bottom up.
pub open spec fn ft_rows(x0: int, y0: int, x1: int, y1: int, x2: int, y2: int, n: nat) -> Seq<
    (int, int),
>
    decreases n,
{
    if n == 0 {
        Seq::empty()
    } else {
        ft_rows(x0, y0, x1, y1, x2, y2, (n - 1) as nat) + ft_row(x0, y0, x1, y1, x2, y2, y2 - (n
        - 1))
    }
}

/// Everything a flat-top fill paints: one span per scanline from the bottom
/// vertex up to the flat edge; a zero-height triangle paints nothing.
pub open spec fn flat_top_points(x0: int, y0: int, x1: int, y1: int, x2: int, y2: int) -> Seq<
    (int, int),
> {
    if y0 < y2 {
        ft_rows(x0, y0, x1, y1, x2, y2, (y2 - y0 + 1) as nat)
    } else {
        Seq::empty()
    }
}

/// Fills a triangle whose bottom edge is horizontal: `(x0, y0)` is the
/// apex, `(x1, y1)` and `(x2, y2)` the bottom corners. Scans top to bottom,
/// bounding each scanline by the two legs. A zero-height triangle is a
/// silent no-op.
pub fn fill_flat_bottom_triangle(
    color_buffer: &mut Vec<u8>,
    x0: i32,
    y0: i32,
    x1: i32,
    y1: i32,
    x2: i32,
    y2: i32,
    color: Color,
)
    requires
        y1 == y2,
        y0 <= y1,
    ensures
        final(color_buffer)@ == put_pixels(
            old(color_buffer)@,
            flat_bottom_points(x0 as int, y0 as int, x1 as int, y1 as int, x2 as int, y2 as int),
            color,
        ),
{
    let ghost buf0 = color_buffer@;
    if y0 >= y1 {
        proof {
            assert(put_pixels(buf0, Seq::empty(), color) == buf0);
        }
        return ;
    }
    let mut y: i64 = y0 as i64;
    while y <= y1 as i64
        invariant
            y0 < y1,
            y1 == y2,
            y0 as i64 <= y <= y1 as i64 + 1,
            color_buffer@ == put_pixels(buf0, fb_rows(x0 as int, y0 as int, x1 as int, y1 as int,
                x2 as int, y2 as int, (y - y0) as nat), color),
        decreases y1 as i64 + 1 - y,
    {
        let xs: i64 = interp_x(x0 as i64, x1 as i64, y - y0 as i64, y1 as i64 - y0 as i64);
        let xe: i64 = interp_x(x0 as i64, x2 as i64, y - y0 as i64, y2 as i64 - y0 as i64);
        let ghost pre = color_buffer@;
        draw_line(color_buffer, xs as i32, y as i32, xe as i32, y as i32, color);
        proof {
            lemma_line_points_horizontal(xs as int, y as int, xe as int);
            lemma_put_pixels_concat(
                buf0,
                fb_rows(x0 as int, y0 as int, x1 as int, y1 as int, x2 as int, y2 as int, (y
                - y0) as nat),
                fb_row(x0 as int, y0 as int, x1 as int, y1 as int, x2 as int, y2 as int, y as int),
                color,
            );
            assert(fb_rows(x0 as int, y0 as int, x1 as int, y1 as int, x2 as int, y2 as int, (y + 1
            - y0) as nat) =~= fb_rows(x0 as int, y0 as int, x1 as int, y1 as int, x2 as int,
                y2 as int, (y - y0) as nat) + fb_row(x0 as int, y0 as int, x1 as int, y1 as int,
                x2 as int, y2 as int, y as int));
        }
        y = y + 1;
    }
}

/// Fills a triangle whose top edge is horizontal: `(x0, y0)` and `(x1, y1)`
/// are the top corners, `(x2, y2)` the bottom vertex. Scans bottom to top.
/// A zero-height triangle is a silent no-op.
pub fn fill_flat_top_triangle(
    color_buffer: &mut Vec<u8>,
    x0: i32,
    y0: i32,
    x1: i32,
    y1: i32,
    x2: i32,
    y2: i32,
    color: Color,
)
    requires
        y0 == y1,
        y0 <= y2,
    ensures
        final(color_buffer)@ == put_pixels(
            old(color_buffer)@,
            flat_top_points(x0 as int, y0 as int, x1 as int, y1 as int, x2 as int, y2 as int),
            color,
        ),
{
    let ghost buf0 = color_buffer@;
    if y0 >= y2 {
        proof {
            assert(put_pixels(buf0, Seq::empty(), color) == buf0);
        }
        return ;
    }
    let mut y: i64 = y2 as i64;
    while y >= y0 as i64
        invariant
            y0 < y2,
            y0 == y1,
            y0 as i64 - 1 <= y <= y2 as i64,
            color_buffer@ == put_pixels(buf0, ft_rows(x0 as int, y0 as int, x1 as int, y1 as int,
                x2 as int, y2 as int, (y2 - y) as nat), color),
        decreases y - y0 as i64 + 1,
    {
        let xs: i64 = interp_x(x2 as i64, x0 as i64, y2 as i64 - y, y2 as i64 - y0 as i64);
        let xe: i64 = interp_x(x2 as i64, x1 as i64, y2 as i64 - y, y2 as i64 - y1 as i64);
        draw_line(color_buffer, xs as i32, y as i32, xe as i32, y as i32, color);
        proof {
            lemma_line_points_horizontal(xs as int, y as int, xe as int);
            lemma_put_pixels_concat(
                buf0,
                ft_rows(x0 as int, y0 as int, x1 as int, y1 as int, x2 as int, y2 as int, (y2
                - y) as nat),
                ft_row(x0 as int, y0 as int, x1 as int, y1 as int, x2 as int, y2 as int, y as int),
                color,
            );
            assert(ft_rows(x0 as int, y0 as int, x1 as int, y1 as int, x2 as int, y2 as int, (y2
            - y + 1) as nat) =~= ft_rows(x0 as int, y0 as int, x1 as int, y1 as int, x2 as int,
                y2 as int, (y2 - y) as nat) + ft_row(x0 as int, y0 as int, x1 as int, y1 as int,
                x2 as int, y2 as int, y as int));
        }
        y = y - 1;
    }
}

/// The three points ordered by ascending y, mirroring a stable three-way
/// exchange sort.
pub open spec fn spec_sort3(p: [Vec2; 3]) -> (Vec2, Vec2, Vec2) {
    let (a0, b0) = if p[0].y > p[1].y {
        (p[1], p[0])
    } else {
        (p[0], p[1])
    };
    let (b1, c1) = if b0.y > p[2].y {
        (p[2], b0)
    } else {
        (b0, p[2])
    };
    let (a2, b2) = if a0.y > b1.y {
        (b1, a0)
    } else {
        (a0, b1)
    };
    (a2, b2, c1)
}

/// Everything `draw_filled_triangle` paints: the points are sorted by y and
/// the triangle is split at the middle vertex into a flat-bottom and a
/// flat-top part meeting on the middle scanline.
pub open spec fn filled_points(p: [Vec2; 3]) -> Seq<(int, int)> {
    let (a, b, c) = spec_sort3(p);
    let x0 = fx_screen(a.x as int);
    let y0 = fx_screen(a.y as int);
    let x1 = fx_screen(b.x as int);
    let y1 = fx_screen(b.y as int);
    let x2 = fx_screen(c.x as int);
    let y2 = fx_screen(c.y as int);
    if y1 == y2 {
        flat_bottom_points(x0, y0, x1, y1, x2, y2)
    } else if y0 == y1 {
        flat_top_points(x0, y0, x1, y1, x2, y2)
    } else {
        let mx = edge_x(x0, x2, y1 - y0, y2 - y0);
        flat_bottom_points(x0, y0, x1, y1, mx, y1) + flat_top_points(x1, y1, mx, y1, x2, y2)
    }
}

/// Fills a solid triangle: sorts the points by y, then decomposes into
/// flat-bottom and flat-top halves split at the middle vertex's scanline.
pub fn draw_filled_triangle(color_buffer: &mut Vec<u8>, points: [Vec2; 3], color: Color)
    ensures
        final(color_buffer)@ == put_pixels(old(color_buffer)@, filled_points(points), color),
{
    let p0 = points[0];
    let p1 = points[1];
    let p2 = points[2];
    let (a0, b0) = if p0.y > p1.y {
        (p1, p0)
    } else {
        (p0, p1)
    };
    let (b1, c1) = if b0.y > p2.y {
        (p2, b0)
    } else {
        (b0, p2)
    };
    let (a2, b2) = if a0.y > b1.y {
        (b1, a0)
    } else {
        (a0, b1)
    };
    let x0: i32 = fx_to_i32(a2.x);
    let y0: i32 = fx_to_i32(a2.y);
    let x1: i32 = fx_to_i32(b2.x);
    let y1: i32 = fx_to_i32(b2.y);
    let x2: i32 = fx_to_i32(c1.x);
    let y2: i32 = fx_to_i32(c1.y);
    proof {
        lemma_fx_screen_mono(a2.y as int, b2.y as int);
        lemma_fx_screen_mono(b2.y as int, c1.y as int);
    }
    if y1 == y2 {
        fill_flat_bottom_triangle(color_buffer, x0, y0, x1, y1, x2, y2, color);
    } else if y0 == y1 {
        fill_flat_top_triangle(color_buffer, x0, y0, x1, y1, x2, y2, color);
    } else {
        let mx64: i64 = interp_x(x0 as i64, x2 as i64, y1 as i64 - y0 as i64, y2 as i64 - y0 as i64);
        let mx: i32 = mx64 as i32;
        let my: i32 = y1;
        let ghost buf0 = color_buffer@;
        fill_flat_bottom_triangle(color_buffer, x0, y0, x1, y1, mx, my, color);
        fill_flat_top_triangle(color_buffer, x1, y1, mx, my, x2, y2, color);
        proof {
            lemma_put_pixels_concat(
                buf0,
                flat_bottom_points(x0 as int, y0 as int, x1 as int, y1 as int, mx as int,
                    my as int),
                flat_top_points(x1 as int, y1 as int, mx as int, my as int, x2 as int, y2 as int),
                color,
            );
        }
    }
}

/// Whether some painted point lies on the scanline `y`.
pub open spec fn covers_row(pts: Seq<(int, int)>, y: int) -> bool {
    exists|i: int| 0 <= i < pts.len() && pts[i].1 == y
}

proof fn lemma_covers_concat(s: Seq<(int, int)>, t: Seq<(int, int)>, y: int)
    requires
        covers_row(s, y) || covers_row(t, y),
    ensures
        covers_row(s + t, y),
{
    if covers_row(s, y) {
        let i = choose|i: int| 0 <= i < s.len() && s[i].1 == y;
        assert((s + t)[i].1 == y);
    } else {
        let i = choose|i: int| 0 <= i < t.len() && t[i].1 == y;
        assert((s + t)[s.len() + i].1 == y);
    }
}

proof fn lemma_hspan_covers(x0: int, x1: int, y: int)
    ensures
        covers_row(hspan_points(x0, x1, y), y),
{
    assert(hspan_points(x0, x1, y)[0].1 == y);
}

proof fn lemma_fb_rows_cover(x0: int, y0: int, x1: int, y1: int, x2: int, y2: int, n: nat, y: int)
    requires
        y0 <= y < y0 + n,
    ensures
        covers_row(fb_rows(x0, y0, x1, y1, x2, y2, n), y),
    decreases n,
{
    if y == y0 + n - 1 {
        lemma_hspan_covers(edge_x(x0, x1, y - y0, y1 - y0), edge_x(x0, x2, y - y0, y2 - y0), y);
        lemma_covers_concat(
            fb_rows(x0, y0, x1, y1, x2, y2, (n - 1) as nat),
            fb_row(x0, y0, x1, y1, x2, y2, y),
            y,
        );
    } else {
        lemma_fb_rows_cover(x0, y0, x1, y1, x2, y2, (n - 1) as nat, y);
        lemma_covers_concat(
            fb_rows(x0, y0, x1, y1, x2, y2, (n - 1) as nat),
            fb_row(x0, y0, x1, y1, x2, y2, y0 + n - 1),
            y,
        );
    }
}

proof fn lemma_ft_rows_cover(x0: int, y0: int, x1: int, y1: int, x2: int, y2: int, n: nat, y: int)
    requires
        y2 - n < y <= y2,
    ensures
        covers_row(ft_rows(x0, y0, x1, y1, x2, y2, n), y),
    decreases n,
{
    if y == y2 - (n - 1) {
        lemma_hspan_covers(edge_x(x2, x0, y2 - y, y2 - y0), edge_x(x2, x1, y2 - y, y2 - y1), y);
        lemma_covers_concat(
            ft_rows(x0, y0, x1, y1, x2, y2, (n - 1) as nat),
            ft_row(x0, y0, x1, y1, x2, y2, y),
            y,
        );
    } else {
        lemma_ft_rows_cover(x0, y0, x1, y1, x2, y2, (n - 1) as nat, y);
        lemma_covers_concat(
            ft_rows(x0, y0, x1, y1, x2, y2, (n - 1) as nat),
            ft_row(x0, y0, x1, y1, x2, y2, y2 - (n - 1)),
            y,
        );
    }
}

/// Scanline coverage is continuous: a filled triangle of nonzero pixel
/// height paints something on every scanline between its lowest and highest
/// point, so the split into flat-bottom and flat-top halves leaves no seam;
/// both halves share the middle vertex's scanline. (A triangle squashed
/// onto a single scanline paints nothing at all, so it is left out here.)
pub proof fn lemma_fill_no_seam(p: [Vec2; 3], y: int)
    requires
        fx_screen(spec_sort3(p).0.y as int) < fx_screen(spec_sort3(p).2.y as int),
        fx_screen(spec_sort3(p).0.y as int) <= y <= fx_screen(spec_sort3(p).2.y as int),
    ensures
        covers_row(filled_points(p), y),
{
    let (a, b, c) = spec_sort3(p);
    let x0 = fx_screen(a.x as int);
    let y0 = fx_screen(a.y as int);
    let x1 = fx_screen(b.x as int);
    let y1 = fx_screen(b.y as int);
    let x2 = fx_screen(c.x as int);
    let y2 = fx_screen(c.y as int);
    lemma_sort3_ordered(p);
    lemma_fx_screen_mono(a.y as int, b.y as int);
    lemma_fx_screen_mono(b.y as int, c.y as int);
    if y1 == y2 {
        lemma_fb_rows_cover(x0, y0, x1, y1, x2, y2, (y1 - y0 + 1) as nat, y);
    } else if y0 == y1 {
        lemma_ft_rows_cover(x0, y0, x1, y1, x2, y2, (y2 - y0 + 1) as nat, y);
    } else {
        let mx = edge_x(x0, x2, y1 - y0, y2 - y0);
        if y <= y1 {
            lemma_fb_rows_cover(x0, y0, x1, y1, mx, y1, (y1 - y0 + 1) as nat, y);
        } else {
            lemma_ft_rows_cover(x1, y1, mx, y1, x2, y2, (y2 - y1 + 1) as nat, y);
        }
        lemma_covers_concat(
            flat_bottom_points(x0, y0, x1, y1, mx, y1),
            flat_top_points(x1, y1, mx, y1, x2, y2),
            y,
        );
    }
}

/// The stable three-way exchange really sorts by y.
pub proof fn lemma_sort3_ordered(p: [Vec2; 3])
    ensures
        spec_sort3(p).0.y <= spec_sort3(p).1.y <= spec_sort3(p).2.y,
{
}

} // verus!
