use rasterizer::color::Color;
use rasterizer::display::{clear_color_buffer, draw_grid, draw_line, draw_pixel, draw_rect};
use rasterizer::display::draw_triangle;
use rasterizer::triangle::{draw_filled_triangle, fill_flat_bottom_triangle, fill_flat_top_triangle};
use rasterizer::vector::Vec2;

const FX: i64 = 65536;
const W: usize = 1080;

fn small_buffer(rows: usize) -> Vec<u8> {
    vec![0u8; W * 3 * rows]
}

fn pixel(buf: &[u8], x: usize, y: usize) -> (u8, u8, u8) {
    let i = (y * W + x) * 3;
    (buf[i], buf[i + 1], buf[i + 2])
}

#[test]
fn clear_color_buffer_zeroes_full_window() {
    let mut buf: Vec<u8> = vec![7u8; 10];
    clear_color_buffer(&mut buf);
    assert_eq!(buf.len(), 1080 * 720 * 3);
    assert!(buf.iter().all(|&b| b == 0));
}

#[test]
fn draw_pixel_writes_three_channels() {
    let mut buf = small_buffer(4);
    draw_pixel(&mut buf, 2, 1, Color::rgba(10, 20, 30, 255));
    assert_eq!(pixel(&buf, 2, 1), (10, 20, 30));
    // neighbours untouched
    assert_eq!(pixel(&buf, 1, 1), (0, 0, 0));
    assert_eq!(pixel(&buf, 3, 1), (0, 0, 0));
    assert_eq!(pixel(&buf, 2, 0), (0, 0, 0));
}

#[test]
fn out_of_bounds_pixel_writes_leave_buffer_unchanged() {
    let mut buf = small_buffer(4);
    let before = buf.clone();
    draw_pixel(&mut buf, 1080, 0, Color::rgba(255, 255, 255, 255));
    draw_pixel(&mut buf, 5000, 2, Color::rgba(255, 255, 255, 255));
    draw_pixel(&mut buf, 0, 4, Color::rgba(255, 255, 255, 255));
    draw_pixel(&mut buf, 0, 4000, Color::rgba(255, 255, 255, 255));
    assert_eq!(buf, before);
}

#[test]
fn draw_line_horizontal_covers_exact_span() {
    let mut buf = small_buffer(4);
    draw_line(&mut buf, 2, 1, 6, 1, Color::rgba(9, 9, 9, 255));
    for x in 2..=6 {
        assert_eq!(pixel(&buf, x, 1), (9, 9, 9));
    }
    assert_eq!(pixel(&buf, 1, 1), (0, 0, 0));
    assert_eq!(pixel(&buf, 7, 1), (0, 0, 0));
}

#[test]
fn draw_line_diagonal_hits_every_step() {
    let mut buf = small_buffer(8);
    draw_line(&mut buf, 0, 0, 5, 5, Color::rgba(1, 2, 3, 255));
    for d in 0..=5 {
        assert_eq!(pixel(&buf, d, d), (1, 2, 3));
    }
}

#[test]
fn draw_line_clips_offscreen_points_silently() {
    let mut buf = small_buffer(4);
    let before = buf.clone();
    draw_line(&mut buf, -10, -10, -2, -2, Color::rgba(5, 5, 5, 255));
    assert_eq!(buf, before);
}

#[test]
fn draw_rect_fills_its_region() {
    let mut buf = small_buffer(8);
    draw_rect(&mut buf, 3, 2, 4, 3, Color::rgba(8, 8, 8, 255));
    for y in 0..8usize {
        for x in 0..12usize {
            let inside = (3..7).contains(&x) && (2..5).contains(&y);
            let expect = if inside { (8, 8, 8) } else { (0, 0, 0) };
            assert_eq!(pixel(&buf, x, y), expect, "at {} {}", x, y);
        }
    }
}

#[test]
fn draw_rect_outside_window_is_a_no_op() {
    let mut buf = small_buffer(4);
    let before = buf.clone();
    draw_rect(&mut buf, 1080, 0, 4, 4, Color::rgba(8, 8, 8, 255));
    draw_rect(&mut buf, 0, 720, 4, 4, Color::rgba(8, 8, 8, 255));
    assert_eq!(buf, before);
}

#[test]
fn draw_grid_marks_every_step() {
    let mut buf = small_buffer(8);
    draw_grid(&mut buf, 4);
    for y in 0..8usize {
        for x in 0..12usize {
            let on = x % 4 == 0 && y % 4 == 0;
            let expect = if on { (255, 255, 255) } else { (0, 0, 0) };
            assert_eq!(pixel(&buf, x, y), expect, "at {} {}", x, y);
        }
    }
}

#[test]
fn filled_triangle_covers_exact_half_plane_set() {
    // The triangle (0,0), (4,0), (0,4): exactly the pixels with
    // x >= 0, y >= 0 and x + y <= 4, with no seam between scanlines.
    let mut buf = small_buffer(8);
    let pts = [
        Vec2::new(0, 0),
        Vec2::new(4 * FX, 0),
        Vec2::new(0, 4 * FX),
    ];
    draw_filled_triangle(&mut buf, pts, Color::rgba(50, 60, 70, 255));
    let mut colored = 0;
    for y in 0..8usize {
        for x in 0..8usize {
            let inside = x + y <= 4;
            let expect = if inside { (50, 60, 70) } else { (0, 0, 0) };
            assert_eq!(pixel(&buf, x, y), expect, "at {} {}", x, y);
            if inside {
                colored += 1;
            }
        }
    }
    assert_eq!(colored, 15);
}

#[test]
fn filled_triangle_general_case_has_no_scanline_gaps() {
    let mut buf = small_buffer(16);
    let pts = [
        Vec2::new(5 * FX, 1 * FX),
        Vec2::new(1 * FX, 7 * FX),
        Vec2::new(9 * FX, 12 * FX),
    ];
    draw_filled_triangle(&mut buf, pts, Color::rgba(99, 99, 99, 255));
    // every scanline between the top and bottom vertex holds some pixel
    for y in 1..=12usize {
        let any = (0..16usize).any(|x| pixel(&buf, x, y) == (99, 99, 99));
        assert!(any, "gap at scanline {}", y);
    }
}

#[test]
fn degenerate_flat_triangle_paints_nothing() {
    let mut buf = small_buffer(4);
    let before = buf.clone();
    let pts = [
        Vec2::new(0, 2 * FX),
        Vec2::new(3 * FX, 2 * FX),
        Vec2::new(6 * FX, 2 * FX),
    ];
    draw_filled_triangle(&mut buf, pts, Color::rgba(1, 1, 1, 255));
    assert_eq!(buf, before);
}

#[test]
fn flat_fills_called_directly_cover_their_spans() {
    let mut buf = small_buffer(8);
    // apex (0,0), flat bottom edge from (0,4) to (4,4)
    fill_flat_bottom_triangle(&mut buf, 0, 0, 0, 4, 4, 4, Color::rgba(7, 7, 7, 255));
    assert_eq!(pixel(&buf, 0, 0), (7, 7, 7));
    for x in 0..=4 {
        assert_eq!(pixel(&buf, x, 4), (7, 7, 7));
    }
    assert_eq!(pixel(&buf, 4, 0), (0, 0, 0));

    let mut top = small_buffer(8);
    // flat top edge from (0,0) to (4,0), bottom vertex (0,4)
    fill_flat_top_triangle(&mut top, 0, 0, 4, 0, 0, 4, Color::rgba(9, 9, 9, 255));
    for x in 0..=4 {
        assert_eq!(pixel(&top, x, 0), (9, 9, 9));
    }
    assert_eq!(pixel(&top, 0, 4), (9, 9, 9));
    assert_eq!(pixel(&top, 4, 4), (0, 0, 0));
}

#[test]
fn triangle_outline_draws_all_three_edges() {
    let mut buf = small_buffer(8);
    let pts = [
        Vec2::new(1 * FX, 1 * FX),
        Vec2::new(6 * FX, 1 * FX),
        Vec2::new(1 * FX, 6 * FX),
    ];
    draw_triangle(&mut buf, pts, Color::rgba(5, 6, 7, 255), false);
    // the corners and the straight edges are painted
    assert_eq!(pixel(&buf, 1, 1), (5, 6, 7));
    assert_eq!(pixel(&buf, 6, 1), (5, 6, 7));
    assert_eq!(pixel(&buf, 1, 6), (5, 6, 7));
    assert_eq!(pixel(&buf, 3, 1), (5, 6, 7));
    assert_eq!(pixel(&buf, 1, 3), (5, 6, 7));
    // the interior stays empty
    assert_eq!(pixel(&buf, 2, 2), (0, 0, 0));
}

#[test]
fn triangle_vertex_markers_paint_red_squares() {
    let mut buf = small_buffer(16);
    let pts = [
        Vec2::new(5 * FX, 5 * FX),
        Vec2::new(10 * FX, 5 * FX),
        Vec2::new(5 * FX, 10 * FX),
    ];
    draw_triangle(&mut buf, pts, Color::rgba(1, 1, 1, 255), true);
    // the marker square anchors two pixels up and left of each vertex
    assert_eq!(pixel(&buf, 3, 3), (255, 0, 0));
    assert_eq!(pixel(&buf, 8, 3), (255, 0, 0));
    assert_eq!(pixel(&buf, 3, 8), (255, 0, 0));
}
