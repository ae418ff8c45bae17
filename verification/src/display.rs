//! The pixel buffer and the primitive raster operations on it.
//!
//! The buffer is a flat byte vector, one RGB triple per pixel in row-major
//! order, `WINDOW_WIDTH` pixels per row; its height is whatever the length
//! allows. Every write is bounds-checked, and a write outside the buffer
//! leaves it untouched. Each drawing operation's contract gives the exact
//! sequence of pixels it paints.

use crate::color::Color;
use crate::fixed::fx_to_i32;
use crate::vector::Vec2;
use vstd::arithmetic::div_mod::{lemma_fundamental_div_mod, lemma_mod_bound};
use vstd::prelude::*;

verus! {

pub const WINDOW_WIDTH: u32 = 1080;

pub const WINDOW_HEIGHT: u32 = 720;

pub const FRAMES_PER_SECOND: u32 = 60;

/// How the frame's triangles are drawn.
#[derive(Debug, Clone, Copy, PartialEq, Eq, Structural)]
pub enum RenderMethod {
    Wireframe,
    WireframeVertex,
    FillTriangle,
    FillTriangleWireframe,
}

/// Whether backfacing triangles are discarded.
#[derive(Debug, Clone, Copy, PartialEq, Eq, Structural)]
pub enum CullMethod {
    CullNone,
    CullBackface,
}

/// The number of whole pixel rows a buffer of this length holds.
pub open spec fn buf_rows(len: int) -> int {
    len / 3240
}

/// A pixel position the buffer can hold.
pub open spec fn pix_ok(buf: Seq<u8>, x: int, y: int) -> bool {
    0 <= x < 1080 && 0 <= y < buf_rows(buf.len() as int)
}

/// One bounds-checked pixel write: out-of-range positions leave the buffer
/// unchanged.
pub open spec fn put_pixel(buf: Seq<u8>, x: int, y: int, c: Color) -> Seq<u8> {
    if pix_ok(buf, x, y) {
        let i = (y * 1080 + x) * 3;
        buf.update(i, c.r).update(i + 1, c.g).update(i + 2, c.b)
    } else {
        buf
    }
}

/// A sequence of bounds-checked pixel writes, first point first.
pub open spec fn put_pixels(buf: Seq<u8>, pts: Seq<(int, int)>, c: Color) -> Seq<u8>
    decreases pts.len(),
{
    if pts.len() == 0 {
        buf
    } else {
        put_pixels(put_pixel(buf, pts[0].0, pts[0].1, c), pts.drop_first(), c)
    }
}

/// Painting `pts.push(p)` is painting `pts`, then `p`.
pub proof fn lemma_put_pixels_snoc(buf: Seq<u8>, pts: Seq<(int, int)>, p: (int, int), c: Color)
    ensures
        put_pixels(buf, pts.push(p), c) == put_pixel(put_pixels(buf, pts, c), p.0, p.1, c),
    decreases pts.len(),
{
    if pts.len() == 0 {
        assert(pts.push(p)[0] == p);
        assert(pts.push(p).drop_first() =~= Seq::<(int, int)>::empty());
        assert(put_pixels(buf, pts, c) == buf);
        assert(put_pixels(buf, pts.push(p), c) == put_pixels(
            put_pixel(buf, p.0, p.1, c),
            pts.push(p).drop_first(),
            c,
        ));
        assert(put_pixels(put_pixel(buf, p.0, p.1, c), pts.push(p).drop_first(), c) == put_pixel(
            buf,
            p.0,
            p.1,
            c,
        ));
    } else {
        assert(pts.push(p)[0] == pts[0]);
        assert(pts.push(p).drop_first() =~= pts.drop_first().push(p));
        lemma_put_pixels_snoc(put_pixel(buf, pts[0].0, pts[0].1, c), pts.drop_first(), p, c);
        assert(put_pixels(buf, pts.push(p), c) == put_pixels(
            put_pixel(buf, pts[0].0, pts[0].1, c),
            pts.drop_first().push(p),
            c,
        ));
        assert(put_pixels(buf, pts, c) == put_pixels(
            put_pixel(buf, pts[0].0, pts[0].1, c),
            pts.drop_first(),
            c,
        ));
    }
}

/// Painting `a + b` is painting `a`, then `b`.
pub proof fn lemma_put_pixels_concat(buf: Seq<u8>, a: Seq<(int, int)>, b: Seq<(int, int)>, c: Color)
    ensures
        put_pixels(buf, a + b, c) == put_pixels(put_pixels(buf, a, c), b, c),
    decreases a.len(),
{
    if a.len() == 0 {
        assert(a + b =~= b);
    } else {
        assert((a + b)[0] == a[0]);
        assert((a + b).drop_first() =~= a.drop_first() + b);
        lemma_put_pixels_concat(put_pixel(buf, a[0].0, a[0].1, c), a.drop_first(), b, c);
    }
}

/// Fills the whole buffer with zero bytes at the fixed window size.
pub fn clear_color_buffer(color_buffer: &mut Vec<u8>)
    ensures
        final(color_buffer)@.len() == 1080 * 720 * 3,
        forall|i: int| 0 <= i < final(color_buffer)@.len() ==> final(color_buffer)@[i] == 0u8,
{
    *color_buffer = vec![0u8; (WINDOW_WIDTH * WINDOW_HEIGHT * 3) as usize];
}

/// Writes one pixel's three channels; positions at or beyond the window
/// width, or below the last whole row the buffer holds, are dropped.
pub fn draw_pixel(color_buffer: &mut Vec<u8>, x: u32, y: u32, color: Color)
    ensures
        final(color_buffer)@ == put_pixel(old(color_buffer)@, x as int, y as int, color),
{
    if x >= WINDOW_WIDTH || (y as usize) >= color_buffer.len() / ((WINDOW_WIDTH * 3) as usize) {
        return ;
    }
    proof {
        let len = color_buffer@.len() as int;
        lemma_fundamental_div_mod(len, 3240);
        lemma_mod_bound(len, 3240);
    }
    let pixel_index: usize = ((y as usize) * (WINDOW_WIDTH as usize) + (x as usize)) * 3;
    color_buffer[pixel_index] = color.r;
    color_buffer[pixel_index + 1] = color.g;
    color_buffer[pixel_index + 2] = color.b;
}

/// The pixels of one horizontal run, left to right.
pub open spec fn row_points(x: int, y: int, w: nat) -> Seq<(int, int)>
    decreases w,
{
    if w == 0 {
        Seq::empty()
    } else {
        row_points(x, y, (w - 1) as nat).push((x + w - 1, y))
    }
}

/// The pixels of a filled rectangle, row by row.
pub open spec fn rect_points(x: int, y: int, w: nat, h: nat) -> Seq<(int, int)>
    decreases h,
{
    if h == 0 {
        Seq::empty()
    } else {
        rect_points(x, y, w, (h - 1) as nat) + row_points(x, y + h - 1, w)
    }
}

/// The exact effect of `draw_rect`: nothing when the anchor lies outside
/// the window, the bounds-checked rectangle otherwise.
pub open spec fn put_rect(buf: Seq<u8>, x: int, y: int, w: nat, h: nat, c: Color) -> Seq<u8> {
    if x >= 1080 || y >= 720 {
        buf
    } else {
        put_pixels(buf, rect_points(x, y, w, h), c)
    }
}

/// Fills a `width` by `height` rectangle anchored at `(x, y)`; an anchor
/// outside the window draws nothing, and each pixel is bounds-checked.
pub fn draw_rect(color_buffer: &mut Vec<u8>, x: u32, y: u32, width: u32, height: u32, color: Color)
    requires
        x + width <= u32::MAX,
        y + height <= u32::MAX,
    ensures
        final(color_buffer)@ == put_rect(
            old(color_buffer)@,
            x as int,
            y as int,
            width as nat,
            height as nat,
            color,
        ),
{
    if x >= WINDOW_WIDTH || y >= WINDOW_HEIGHT {
        return ;
    }
    let ghost buf0 = color_buffer@;
    let mut row: u32 = y;
    while row < y + height
        invariant
            y <= row <= y + height,
            y + height <= u32::MAX,
            x + width <= u32::MAX,
            x < 1080,
            color_buffer@ == put_pixels(buf0, rect_points(x as int, y as int, width as nat, (row
                - y) as nat), color),
        decreases y + height - row,
    {
        let mut col: u32 = x;
        proof {
            lemma_put_pixels_concat(
                buf0,
                rect_points(x as int, y as int, width as nat, (row - y) as nat),
                row_points(x as int, row as int, 0),
                color,
            );
            assert(rect_points(x as int, y as int, width as nat, (row - y) as nat) + row_points(
                x as int,
                row as int,
                0,
            ) =~= rect_points(x as int, y as int, width as nat, (row - y) as nat));
        }
        while col < x + width
            invariant
                x <= col <= x + width,
                x + width <= u32::MAX,
                color_buffer@ == put_pixels(
                    put_pixels(buf0, rect_points(x as int, y as int, width as nat, (row
                    - y) as nat), color),
                    row_points(x as int, row as int, (col - x) as nat),
                    color,
                ),
            decreases x + width - col,
        {
            let ghost pre = put_pixels(
                buf0,
                rect_points(x as int, y as int, width as nat, (row - y) as nat),
                color,
            );
            proof {
                lemma_put_pixels_snoc(
                    pre,
                    row_points(x as int, row as int, (col - x) as nat),
                    (col as int, row as int),
                    color,
                );
                assert(row_points(x as int, row as int, (col - x + 1) as nat) =~= row_points(
                    x as int,
                    row as int,
                    (col - x) as nat,
                ).push((col as int, row as int)));
            }
            draw_pixel(color_buffer, col, row, color);
            col = col + 1;
        }
        proof {
            lemma_put_pixels_concat(
                buf0,
                rect_points(x as int, y as int, width as nat, (row - y) as nat),
                row_points(x as int, row as int, width as nat),
                color,
            );
            assert(rect_points(x as int, y as int, width as nat, (row - y + 1) as nat)
                =~= rect_points(x as int, y as int, width as nat, (row - y) as nat) + row_points(
                x as int,
                row as int,
                width as nat,
            ));
        }
        row = row + 1;
    }
}

/// The pixels of the dot grid: every `size`-th position in both axes,
/// row-major, within the window.
pub open spec fn grid_col_points(y: int, size: nat, cols: nat) -> Seq<(int, int)>
    decreases cols,
{
    if cols == 0 {
        Seq::empty()
    } else {
        grid_col_points(y, size, (cols - 1) as nat).push(((cols - 1) * size, y))
    }
}

pub open spec fn grid_points(size: nat, rows: nat, cols: nat) -> Seq<(int, int)>
    decreases rows,
{
    if rows == 0 {
        Seq::empty()
    } else {
        grid_points(size, (rows - 1) as nat, cols) + grid_col_points((rows - 1) * size, size, cols)
    }
}

/// How many grid steps of `size` fit strictly below `limit`.
pub open spec fn grid_steps(limit: int, size: nat) -> nat
    recommends
        size > 0,
{
    (((limit - 1) / (size as int)) + 1) as nat
}

/// Draws a white dot at every `size`-th position in both axes.
pub fn draw_grid(color_buffer: &mut Vec<u8>, size: usize)
    requires
        1 <= size <= 0x7fff_0000,
    ensures
        final(color_buffer)@ == put_pixels(
            old(color_buffer)@,
            grid_points(size as nat, grid_steps(720, size as nat), grid_steps(1080, size as nat)),
            Color { r: 255, g: 255, b: 255, a: 255 },
        ),
{
    let color = Color { r: 255, g: 255, b: 255, a: 255 };
    let ghost buf0 = color_buffer@;
    let ghost all_cols = grid_steps(1080, size as nat);
    let mut y: usize = 0;
    let mut rows: usize = 0;
    while y < 720
        invariant
            1 <= size <= 0x7fff_0000,
            y == rows * size,
            rows == 0 || (rows - 1) * size < 720,
            rows <= 720,
            color_buffer@ == put_pixels(buf0, grid_points(size as nat, rows as nat, all_cols),
                color),
            all_cols == grid_steps(1080, size as nat),
        decreases 720 + size - y,
    {
        let mut x: usize = 0;
        let mut cols: usize = 0;
        let ghost row_base = put_pixels(buf0, grid_points(size as nat, rows as nat, all_cols),
            color);
        while x < 1080
            invariant
                1 <= size <= 0x7fff_0000,
                x == cols * size,
                cols == 0 || (cols - 1) * size < 1080,
                cols <= 1080,
                y == rows * size,
                y < 720,
                color_buffer@ == put_pixels(row_base, grid_col_points(y as int, size as nat,
                    cols as nat), color),
            decreases 1080 + size - x,
        {
            proof {
                lemma_put_pixels_snoc(
                    row_base,
                    grid_col_points(y as int, size as nat, cols as nat),
                    (x as int, y as int),
                    color,
                );
                assert((cols + 1) * size == cols * size + size) by (nonlinear_arith);
                assert(grid_col_points(y as int, size as nat, (cols + 1) as nat)
                    =~= grid_col_points(y as int, size as nat, cols as nat).push(
                    (x as int, y as int),
                ));
            }
            draw_pixel(color_buffer, x as u32, y as u32, color);
            x = x + size;
            cols = cols + 1;
        }
        proof {
            assert(cols * size >= 1080 && (cols == 0 || (cols - 1) * size < 1080));
            lemma_grid_steps_count(1080, size as nat, cols as nat);
            lemma_put_pixels_concat(
                buf0,
                grid_points(size as nat, rows as nat, all_cols),
                grid_col_points(y as int, size as nat, all_cols),
                color,
            );
            assert((rows + 1) * size == rows * size + size) by (nonlinear_arith);
            assert(grid_points(size as nat, (rows + 1) as nat, all_cols) =~= grid_points(
                size as nat,
                rows as nat,
                all_cols,
            ) + grid_col_points((rows as int) * (size as int), size as nat, all_cols));
        }
        y = y + size;
        rows = rows + 1;
    }
    proof {
        lemma_grid_steps_count(720, size as nat, rows as nat);
    }
}

/// A loop stepping by `size` from zero, stopping at or past `limit`, makes
/// exactly `grid_steps(limit, size)` iterations.
proof fn lemma_grid_steps_count(limit: int, size: nat, steps: nat)
    requires
        size >= 1,
        steps * size >= limit,
        (steps - 1) * size < limit,
        limit >= 1,
    ensures
        steps == grid_steps(limit, size),
{
    let d = size as int;
    let q = (limit - 1) / d;
    lemma_fundamental_div_mod(limit - 1, d);
    lemma_mod_bound(limit - 1, d);
    assert(steps == q + 1) by (nonlinear_arith)
        requires
            d >= 1,
            steps * d >= limit,
            (steps - 1) * d < limit,
            limit - 1 == d * q + (limit - 1) % d,
            0 <= (limit - 1) % d < d,
    ;
}

/// One Bresenham step state trace: the pixels visited from `(x, y)` until
/// the endpoint (or until the step budget runs out, which a straight walk
/// between the endpoints never does).
pub open spec fn bres_rest(
    x: int,
    y: int,
    x1: int,
    y1: int,
    dx: int,
    dy: int,
    sx: int,
    sy: int,
    err: int,
    fuel: nat,
) -> Seq<(int, int)>
    decreases fuel,
{
    if x == x1 && y == y1 {
        seq![(x, y)]
    } else if fuel == 0 {
        seq![(x, y)]
    } else {
        let e2 = 2 * err;
        let nerr = err + (if e2 > dy {
            dy
        } else {
            0
        }) + (if e2 < dx {
            dx
        } else {
            0
        });
        let nx = if e2 > dy {
            x + sx
        } else {
            x
        };
        let ny = if e2 < dx {
            y + sy
        } else {
            y
        };
        seq![(x, y)] + bres_rest(nx, ny, x1, y1, dx, dy, sx, sy, nerr, (fuel - 1) as nat)
    }
}

/// The pixels of the Bresenham line from `(x0, y0)` to `(x1, y1)`.
pub open spec fn line_points(x0: int, y0: int, x1: int, y1: int) -> Seq<(int, int)> {
    let dx = if x1 >= x0 {
        x1 - x0
    } else {
        x0 - x1
    };
    let dy = if y1 >= y0 {
        -(y1 - y0)
    } else {
        -(y0 - y1)
    };
    let sx: int = if x0 < x1 {
        1
    } else {
        -1
    };
    let sy: int = if y0 < y1 {
        1
    } else {
        -1
    };
    bres_rest(x0, y0, x1, y1, dx, dy, sx, sy, dx + dy, (dx - dy) as nat)
}

/// One bounds-checked write at signed coordinates; anything outside the
/// buffer is dropped, exactly as `put_pixel` says.
fn plot(color_buffer: &mut Vec<u8>, x: i64, y: i64, color: Color)
    ensures
        final(color_buffer)@ == put_pixel(old(color_buffer)@, x as int, y as int, color),
{
    if x < 0 || x >= 1080 || y < 0 {
        return ;
    }
    let rows: usize = color_buffer.len() / 3240;
    if y as u64 >= rows as u64 {
        return ;
    }
    proof {
        let len = color_buffer@.len() as int;
        lemma_fundamental_div_mod(len, 3240);
        lemma_mod_bound(len, 3240);
    }
    let pixel_index: usize = ((y as usize) * 1080 + (x as usize)) * 3;
    color_buffer[pixel_index] = color.r;
    color_buffer[pixel_index + 1] = color.g;
    color_buffer[pixel_index + 2] = color.b;
}

/// Integer Bresenham line between two screen points; every pixel write is
/// bounds-checked.
pub fn draw_line(color_buffer: &mut Vec<u8>, x0: i32, y0: i32, x1: i32, y1: i32, color: Color)
    ensures
        final(color_buffer)@ == put_pixels(
            old(color_buffer)@,
            line_points(x0 as int, y0 as int, x1 as int, y1 as int),
            color,
        ),
{
    let ghost buf0 = color_buffer@;
    let x1w: i64 = x1 as i64;
    let y1w: i64 = y1 as i64;
    let mut x: i64 = x0 as i64;
    let mut y: i64 = y0 as i64;
    let dx: i64 = if x1w >= x {
        x1w - x
    } else {
        x - x1w
    };
    let dy: i64 = if y1w >= y {
        -(y1w - y)
    } else {
        -(y - y1w)
    };
    let sx: i64 = if x < x1w {
        1
    } else {
        -1
    };
    let sy: i64 = if y < y1w {
        1
    } else {
        -1
    };
    let mut err: i64 = dx + dy;
    let mut fuel: i64 = dx - dy;
    let ghost mut done: Seq<(int, int)> = Seq::empty();
    proof {
        assert(Seq::<(int, int)>::empty() + bres_rest(x as int, y as int, x1w as int, y1w as int,
            dx as int, dy as int, sx as int, sy as int, err as int, fuel as nat) =~= bres_rest(
            x as int, y as int, x1w as int, y1w as int, dx as int, dy as int, sx as int, sy as int,
            err as int, fuel as nat));
    }
    loop
        invariant_except_break
            done + bres_rest(x as int, y as int, x1w as int, y1w as int, dx as int, dy as int,
                sx as int, sy as int, err as int, fuel as nat) == line_points(x0 as int, y0 as int,
                x1 as int, y1 as int),
        invariant
            0 <= dx <= 0x1_0000_0000,
            -0x1_0000_0000 <= dy <= 0,
            0 <= fuel <= dx - dy,
            2 * dy <= err <= 2 * dx,
            -0x8000_0000 - (dx - dy - fuel) <= x <= 0x8000_0000 + (dx - dy - fuel),
            -0x8000_0000 - (dx - dy - fuel) <= y <= 0x8000_0000 + (dx - dy - fuel),
            sx == 1 || sx == -1,
            sy == 1 || sy == -1,
            color_buffer@ == put_pixels(buf0, done, color),
        ensures
            color_buffer@ == put_pixels(buf0, line_points(x0 as int, y0 as int, x1 as int,
                y1 as int), color),
        decreases fuel,
    {
        let ghost rest = bres_rest(x as int, y as int, x1w as int, y1w as int, dx as int,
            dy as int, sx as int, sy as int, err as int, fuel as nat);
        let ghost prev = done;
        proof {
            lemma_put_pixels_snoc(buf0, prev, (x as int, y as int), color);
        }
        plot(color_buffer, x, y, color);
        proof {
            done = prev.push((x as int, y as int));
        }
        if x == x1w && y == y1w {
            proof {
                assert(rest =~= seq![(x as int, y as int)]);
                assert(done =~= prev + rest);
            }
            break ;
        }
        if fuel == 0 {
            proof {
                assert(rest =~= seq![(x as int, y as int)]);
                assert(done =~= prev + rest);
            }
            break ;
        }
        let e2: i64 = 2 * err;
        let ghost (ox, oy) = (x as int, y as int);
        if e2 > dy {
            err = err + dy;
            x = x + sx;
        }
        if e2 < dx {
            err = err + dx;
            y = y + sy;
        }
        fuel = fuel - 1;
        proof {
            let nrest = bres_rest(x as int, y as int, x1w as int, y1w as int, dx as int, dy as int,
                sx as int, sy as int, err as int, fuel as nat);
            assert(rest =~= seq![(ox, oy)] + nrest);
            assert(done + nrest =~= prev + rest);
        }
    }
}

/// The pixels from `(x0, y)` to `(x1, y)` inclusive, one step at a time.
pub open spec fn hspan_points(x0: int, x1: int, y: int) -> Seq<(int, int)>
    decreases
            (if x1 >= x0 {
                x1 - x0
            } else {
                x0 - x1
            }),
{
    if x0 == x1 {
        seq![(x0, y)]
    } else {
        seq![(x0, y)] + hspan_points(
            x0 + (if x0 < x1 {
                1int
            } else {
                -1int
            }),
            x1,
            y,
        )
    }
}

proof fn lemma_bres_horizontal(x: int, y: int, x1: int, dx: int, sx: int, sy: int, fuel: nat)
    requires
        dx > 0,
        fuel == if x1 >= x {
            x1 - x
        } else {
            x - x1
        },
        x != x1 ==> sx == if x < x1 {
            1int
        } else {
            -1int
        },
    ensures
        bres_rest(x, y, x1, y, dx, 0, sx, sy, dx, fuel) == hspan_points(x, x1, y),
    decreases fuel,
{
    if x != x1 {
        assert(hspan_points(x, x1, y) == seq![(x, y)] + hspan_points(x + sx, x1, y));
        lemma_bres_horizontal(x + sx, y, x1, dx, sx, sy, (fuel - 1) as nat);
        assert(bres_rest(x, y, x1, y, dx, 0, sx, sy, dx, fuel) == seq![(x, y)] + bres_rest(
            x + sx,
            y,
            x1,
            y,
            dx,
            0,
            sx,
            sy,
            dx,
            (fuel - 1) as nat,
        ));
    }
}

/// A horizontal Bresenham line is exactly the pixel span between its
/// endpoints.
pub proof fn lemma_line_points_horizontal(x0: int, y: int, x1: int)
    ensures
        line_points(x0, y, x1, y) == hspan_points(x0, x1, y),
{
    let dx = if x1 >= x0 {
        x1 - x0
    } else {
        x0 - x1
    };
    if x0 == x1 {
        assert(line_points(x0, y, x1, y) == seq![(x0, y)]);
    } else {
        let sx: int = if x0 < x1 {
            1
        } else {
            -1
        };
        let sy: int = if y < y {
            1
        } else {
            -1
        };
        lemma_bres_horizontal(x0, y, x1, dx, sx, sy, dx as nat);
    }
}

/// Converts a fixed-point screen point to whole pixel coordinates.
fn screen_point(p: Vec2) -> (r: (i32, i32))
    ensures
        r.0 == crate::fixed::fx_screen(p.x as int),
        r.1 == crate::fixed::fx_screen(p.y as int),
{
    (fx_to_i32(p.x), fx_to_i32(p.y))
}

/// The pixels painted for one triangle edge, markers included: the edge's
/// line, then (when markers are on and it fits the window) a 4x4 marker
/// square anchored two pixels up and left of the edge's first vertex.
pub open spec fn edge_points(p0: Vec2, p1: Vec2) -> Seq<(int, int)> {
    line_points(
        crate::fixed::fx_screen(p0.x as int),
        crate::fixed::fx_screen(p0.y as int),
        crate::fixed::fx_screen(p1.x as int),
        crate::fixed::fx_screen(p1.y as int),
    )
}

/// The marker square for a vertex: skipped when its anchor leaves the
/// window (or is negative, which pixel coordinates cannot hold).
pub open spec fn marker_points(p: Vec2) -> Seq<(int, int)> {
    let mx = crate::fixed::fx_screen(p.x as int) - 2;
    let my = crate::fixed::fx_screen(p.y as int) - 2;
    if 0 <= mx < 1080 && 0 <= my < 720 {
        rect_points(mx, my, 4, 4)
    } else {
        Seq::empty()
    }
}

/// Draws the marker square for one vertex.
fn draw_marker(color_buffer: &mut Vec<u8>, p: Vec2)
    ensures
        final(color_buffer)@ == put_pixels(
            old(color_buffer)@,
            marker_points(p),
            Color { r: 255, g: 0, b: 0, a: 255 },
        ),
{
    let (px, py) = screen_point(p);
    let mx: i64 = px as i64 - 2;
    let my: i64 = py as i64 - 2;
    if 0 <= mx && mx < 1080 && 0 <= my && my < 720 {
        draw_rect(color_buffer, mx as u32, my as u32, 4, 4, Color { r: 255, g: 0, b: 0, a: 255 });
    }
}

/// The exact effect of `draw_triangle`: the three edges in order, each
/// followed (when markers are on) by its first vertex's red marker square.
pub open spec fn tri_outline_paint(buf: Seq<u8>, points: [Vec2; 3], c: Color, markers: bool) -> Seq<
    u8,
> {
    if !markers {
        put_pixels(
            put_pixels(put_pixels(buf, edge_points(points[0], points[1]), c), edge_points(
                points[1],
                points[2],
            ), c),
            edge_points(points[2], points[0]),
            c,
        )
    } else {
        put_pixels(
            put_pixels(
                put_pixels(
                    put_pixels(
                        put_pixels(put_pixels(buf, edge_points(points[0], points[1]), c),
                            marker_points(points[0]), Color { r: 255, g: 0, b: 0, a: 255 }),
                        edge_points(points[1], points[2]),
                        c,
                    ),
                    marker_points(points[1]),
                    Color { r: 255, g: 0, b: 0, a: 255 },
                ),
                edge_points(points[2], points[0]),
                c,
            ),
            marker_points(points[2]),
            Color { r: 255, g: 0, b: 0, a: 255 },
        )
    }
}

/// Draws the three edges of a triangle, and optionally a small filled
/// marker square at each vertex.
pub fn draw_triangle(
    color_buffer: &mut Vec<u8>,
    points: [Vec2; 3],
    color: Color,
    allow_drawing_vertex: bool,
)
    ensures
        final(color_buffer)@ == tri_outline_paint(
            old(color_buffer)@,
            points,
            color,
            allow_drawing_vertex,
        ),
{
    let (ax, ay) = screen_point(points[0]);
    let (bx, by) = screen_point(points[1]);
    let (cx, cy) = screen_point(points[2]);
    draw_line(color_buffer, ax, ay, bx, by, color);
    if allow_drawing_vertex {
        draw_marker(color_buffer, points[0]);
    }
    draw_line(color_buffer, bx, by, cx, cy, color);
    if allow_drawing_vertex {
        draw_marker(color_buffer, points[1]);
    }
    draw_line(color_buffer, cx, cy, ax, ay, color);
    if allow_drawing_vertex {
        draw_marker(color_buffer, points[2]);
    }
}

} // verus!
