use raytracer::color::{to_hex_value, Color};
use raytracer::framebuffer::{
    pixel_position, Framebuffer, GetColorErrors, PaintPointErrors,
};

#[test]
fn test_new_framebuffer_is_black() {
    let fb = Framebuffer::new(4, 3);
    assert_eq!(fb.width, 4);
    assert_eq!(fb.height, 3);
    assert_eq!(fb.buffer.len(), 12);
    assert!(fb.buffer.iter().all(|&c| c == 0));
}

#[test]
fn test_paint_point_writes_current_color() {
    let mut fb = Framebuffer::new(4, 3);
    fb.set_current_color(Color::new(1, 2, 3));
    assert!(fb.paint_point(2, 1).is_ok());
    assert_eq!(fb.buffer[1 * 4 + 2], 0x010203);
    assert_eq!(fb.get_color(2, 1), Ok(Color::new(1, 2, 3)));
}

#[test]
fn test_paint_point_errors() {
    let mut fb = Framebuffer::new(4, 3);
    assert_eq!(fb.paint_point(-1, 0), Err(PaintPointErrors::XTooSmall));
    assert_eq!(fb.paint_point(0, -1), Err(PaintPointErrors::YTooSmall));
    assert_eq!(fb.paint_point(4, 0), Err(PaintPointErrors::XTooLarge));
    assert_eq!(fb.paint_point(0, 3), Err(PaintPointErrors::YTooLarge));
}

#[test]
fn test_paint_point_rounds_at_right_edge() {
    // A coordinate half a pixel left of the edge rounds up to the width
    // itself, which is one past the last valid column.
    let width = 8usize;
    let mut fb = Framebuffer::new(width, 8);
    let x = (width as f32 - 0.5).round() as i64;
    assert_eq!(x, width as i64);
    assert_eq!(fb.paint_point(x, 0), Err(PaintPointErrors::XTooLarge));

    let neg = (-0.75f32).round() as i64;
    assert_eq!(fb.paint_point(neg, 0), Err(PaintPointErrors::XTooSmall));
}

#[test]
fn test_clear_uses_background() {
    let mut fb = Framebuffer::new(2, 2);
    fb.set_background_color(Color::new(9, 8, 7));
    fb.set_current_color(Color::white());
    assert!(fb.paint_point(0, 0).is_ok());
    fb.clear();
    let expected = to_hex_value(&Color::new(9, 8, 7));
    assert!(fb.buffer.iter().all(|&c| c == expected));
}

#[test]
fn test_save_as_background_snapshots_raster() {
    let mut fb = Framebuffer::new(2, 2);
    fb.set_current_color(Color::new(5, 5, 5));
    assert!(fb.paint_point(1, 1).is_ok());
    fb.save_as_background();
    fb.set_current_color(Color::new(6, 6, 6));
    assert!(fb.paint_point(0, 0).is_ok());
    fb.clear();
    assert_eq!(fb.buffer[3], 0x050505);
    assert_eq!(fb.buffer[0], 0);
}

#[test]
fn test_get_color_errors() {
    let fb = Framebuffer::new(4, 3);
    assert_eq!(fb.get_color(0, 4), Err(GetColorErrors::YTooLarge));
    assert_eq!(fb.get_color(5, 0), Err(GetColorErrors::XTooLarge));
}

#[test]
fn test_paint_line_horizontal() {
    let mut fb = Framebuffer::new(10, 10);
    fb.set_current_color(Color::white());
    assert!(fb.paint_line(0, 0, 3, 0).is_ok());
    for x in 0..4usize {
        assert_eq!(fb.buffer[x], 0xFFFFFF);
    }
    assert_eq!(fb.buffer[4], 0);
}

#[test]
fn test_paint_line_diagonal() {
    let mut fb = Framebuffer::new(10, 10);
    fb.set_current_color(Color::white());
    assert!(fb.paint_line(0, 0, 2, 2).is_ok());
    assert_eq!(fb.buffer[0], 0xFFFFFF);
    assert_eq!(fb.buffer[11], 0xFFFFFF);
    assert_eq!(fb.buffer[22], 0xFFFFFF);
    assert_eq!(fb.buffer[1], 0);
}

#[test]
fn test_paint_line_out_of_bounds_fails() {
    let mut fb = Framebuffer::new(4, 4);
    assert!(fb.paint_line(-2, 0, 1, 0).is_err());
}

#[test]
fn test_paint_polygon_triangle() {
    let mut fb = Framebuffer::new(10, 10);
    fb.set_current_color(Color::white());
    let points = vec![(1i64, 1i64), (5, 1), (3, 4)];
    assert!(fb.paint_polygon(&points).is_ok());
    for (x, y) in points {
        assert_eq!(fb.buffer[y as usize * 10 + x as usize], 0xFFFFFF);
    }
}

#[test]
fn test_paint_polygon_single_point() {
    let mut fb = Framebuffer::new(4, 4);
    fb.set_current_color(Color::new(1, 1, 1));
    assert!(fb.paint_polygon(&vec![(2i64, 2i64)]).is_ok());
    assert_eq!(fb.buffer[2 * 4 + 2], 0x010101);
}

#[test]
fn test_write_pixels_places_results_row_major() {
    let mut fb = Framebuffer::new(2, 2);
    let colors = vec![
        Color::new(1, 0, 0),
        Color::new(2, 0, 0),
        Color::new(3, 0, 0),
        Color::new(4, 0, 0),
    ];
    fb.write_pixels(&colors);
    assert_eq!(fb.buffer, vec![0x010000, 0x020000, 0x030000, 0x040000]);
    assert_eq!(fb.current_color, Color::new(4, 0, 0));
}

#[test]
fn test_pixel_position() {
    assert_eq!(pixel_position(0, 4), (0, 0));
    assert_eq!(pixel_position(5, 4), (1, 1));
    assert_eq!(pixel_position(11, 4), (3, 2));
}

#[test]
fn test_to_bmp_bytes_matches_encoder() {
    let mut fb = Framebuffer::new(1, 1);
    fb.set_current_color(Color::white());
    assert!(fb.paint_point(0, 0).is_ok());
    let bytes = fb.to_bmp_bytes();
    assert_eq!(bytes.len(), 58);
    assert_eq!(&bytes[54..58], &[255, 255, 255, 0]);
}

#[test]
fn test_get_color_boundary_aliasing() {
    // The bounds check admits one index past the last valid column, so a
    // read at x == width lands on the first cell of the next row.
    let mut fb = Framebuffer::new(3, 3);
    fb.set_current_color(Color::new(4, 5, 6));
    assert!(fb.paint_point(0, 1).is_ok());
    assert_eq!(fb.get_color(3, 0), Ok(Color::new(4, 5, 6)));
}

#[test]
fn test_paint_polygon_stops_at_first_error() {
    let mut fb = Framebuffer::new(4, 4);
    let points = vec![(0i64, 0i64), (99, 0), (0, 2)];
    assert_eq!(fb.paint_polygon(&points), Err(PaintPointErrors::XTooLarge));
}

#[test]
fn test_paint_line_partial_draw_keeps_prefix() {
    // The walk paints cells until the first out-of-bounds one, returns
    // that cell's error, and leaves the painted prefix in place.
    let mut fb = Framebuffer::new(4, 4);
    fb.set_current_color(Color::white());
    assert_eq!(fb.paint_line(1, 1, 5, 1), Err(PaintPointErrors::XTooLarge));
    for x in 1..4usize {
        assert_eq!(fb.buffer[1 * 4 + x], 0xFFFFFF);
    }
    assert_eq!(fb.buffer[1 * 4 + 0], 0);
}
