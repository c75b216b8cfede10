use mouse_cursor_mover::icon::{icon_pixels, ICON_SIZE, PIXEL_BYTES};

/// The drawing computed with floating point and a square root, pixel by pixel.
fn float_drawing(running: bool) -> Vec<u8> {
    const N: usize = 22;
    let mut px = vec![0u8; N * N * 4];
    let c = N as f64 / 2.0;
    let r_outer = c - 1.5;
    let r_inner = r_outer - 2.5;
    for row in 0..N {
        for col in 0..N {
            let dx = col as f64 + 0.5 - c;
            let dy = row as f64 + 0.5 - c;
            let d = (dx * dx + dy * dy).sqrt();
            let i = (row * N + col) * 4;
            let rgba: (u8, u8, u8, u8) = if running {
                if d <= r_outer { (34, 197, 94, 255) } else { (0, 0, 0, 0) }
            } else if d <= r_outer && d >= r_inner {
                (156, 163, 175, 255)
            } else {
                (0, 0, 0, 0)
            };
            px[i..i + 4].copy_from_slice(&[rgba.0, rgba.1, rgba.2, rgba.3]);
        }
    }
    px
}

fn pixel(px: &[u8], row: usize, col: usize) -> [u8; 4] {
    let i = (row * 22 + col) * 4;
    [px[i], px[i + 1], px[i + 2], px[i + 3]]
}

#[test]
fn buffer_has_twenty_two_square_rgba_pixels() {
    assert_eq!(ICON_SIZE, 22);
    assert_eq!(PIXEL_BYTES, 4);
    assert_eq!(icon_pixels(true).len(), 1936);
    assert_eq!(icon_pixels(false).len(), 1936);
}

#[test]
fn integer_drawing_matches_square_root_drawing() {
    assert_eq!(icon_pixels(true), float_drawing(true));
    assert_eq!(icon_pixels(false), float_drawing(false));
}

#[test]
fn running_icon_is_a_green_disc() {
    let px = icon_pixels(true);
    assert_eq!(pixel(&px, 10, 10), [34, 197, 94, 255]);
    assert_eq!(pixel(&px, 11, 2), [34, 197, 94, 255]);
    assert_eq!(pixel(&px, 11, 1), [0, 0, 0, 0]);
    assert_eq!(pixel(&px, 0, 0), [0, 0, 0, 0]);
    let opaque = px.chunks(4).filter(|p| p[3] == 255).count();
    assert_eq!(opaque, 276);
}

#[test]
fn stopped_icon_is_a_gray_ring() {
    let px = icon_pixels(false);
    assert_eq!(pixel(&px, 10, 10), [0, 0, 0, 0]);
    assert_eq!(pixel(&px, 11, 2), [156, 163, 175, 255]);
    assert_eq!(pixel(&px, 11, 3), [156, 163, 175, 255]);
    assert_eq!(pixel(&px, 11, 4), [0, 0, 0, 0]);
    assert_eq!(pixel(&px, 11, 5), [0, 0, 0, 0]);
    assert_eq!(pixel(&px, 21, 21), [0, 0, 0, 0]);
}

#[test]
fn ring_lies_inside_disc_and_drawing_is_symmetric() {
    let on = icon_pixels(true);
    let off = icon_pixels(false);
    for row in 0..22 {
        for col in 0..22 {
            if pixel(&off, row, col)[3] != 0 {
                assert_eq!(pixel(&on, row, col), [34, 197, 94, 255]);
            }
            for px in [&on, &off] {
                assert_eq!(pixel(px, row, col), pixel(px, row, 21 - col));
                assert_eq!(pixel(px, row, col), pixel(px, 21 - row, col));
                assert_eq!(pixel(px, row, col), pixel(px, col, row));
            }
        }
    }
}
