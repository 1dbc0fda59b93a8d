use tauri_runtime_cef::blit::{pack, paint_background};
use tauri_runtime_cef::osr::{OsrFrame, PaintElementType};

fn painted(width: i32, height: i32) -> OsrFrame {
    let len = (width * height * 4) as usize;
    let pixels: Vec<u8> = (0..len).map(|i| (i * 7 % 251) as u8).collect();
    let mut frame = OsrFrame::default();
    assert!(frame.on_paint(PaintElementType::View, Some(pixels.as_slice()), width, height));
    frame
}

fn nearest(frame: &OsrFrame, width: usize, height: usize) -> Vec<u8> {
    let src_width = frame.paint_width as usize;
    let src_height = frame.paint_height as usize;
    let mut out = Vec::new();
    for y in 0..height {
        let src_y = y.saturating_mul(src_height) / height;
        for x in 0..width {
            let src_x = x.saturating_mul(src_width) / width;
            let src = (src_y * src_width + src_x) * 4;
            out.extend_from_slice(&frame.bgra[src..src + 4]);
        }
    }
    out
}

#[test]
fn copy_at_own_size_is_exact() {
    let frame = painted(5, 3);
    let mut dst = vec![0xaa; 60];
    frame.copy_scaled(dst.as_mut_slice(), 5, 3);
    assert_eq!(dst, frame.bgra);
}

#[test]
fn copy_scales_to_nearest() {
    for (sw, sh) in [(1, 1), (2, 3), (7, 5), (16, 9)] {
        let frame = painted(sw, sh);
        for (dw, dh) in [(1, 1), (3, 2), (4, 4), (14, 10), (5, 31)] {
            let mut dst = vec![0xaa; dw * dh * 4];
            frame.copy_scaled(dst.as_mut_slice(), dw, dh);
            assert_eq!(dst, nearest(&frame, dw, dh));
        }
    }
}

#[test]
fn copy_of_two_pixels_to_four() {
    let mut frame = OsrFrame::default();
    let pixels = [1, 2, 3, 4, 5, 6, 7, 8];
    assert!(frame.on_paint(PaintElementType::View, Some(&pixels[..]), 2, 1));
    let mut dst = vec![0; 16];
    frame.copy_scaled(dst.as_mut_slice(), 4, 1);
    assert_eq!(dst, vec![1, 2, 3, 4, 1, 2, 3, 4, 5, 6, 7, 8, 5, 6, 7, 8]);
    let mut dst = vec![0; 4];
    frame.copy_scaled(dst.as_mut_slice(), 1, 1);
    assert_eq!(dst, vec![1, 2, 3, 4]);
}

#[test]
fn enlarged_picture_shows_every_pixel() {
    let frame = painted(3, 1);
    let mut dst = vec![0; 7 * 4];
    frame.copy_scaled(dst.as_mut_slice(), 7, 1);
    for pixel in 0..3 {
        let wanted = &frame.bgra[pixel * 4..pixel * 4 + 4];
        assert!((0..7).any(|at| &dst[at * 4..at * 4 + 4] == wanted));
    }
}

#[test]
fn copy_without_a_picture_clears() {
    let frame = OsrFrame::default();
    let mut dst = vec![0xaa; 16];
    frame.copy_scaled(dst.as_mut_slice(), 2, 2);
    assert_eq!(dst, vec![0; 16]);

    // Too few bytes for the announced extent.
    let mut short = painted(2, 2);
    short.paint_height = 3;
    assert!(!short.drawable());
    let mut dst = vec![0xaa; 16];
    short.copy_scaled(dst.as_mut_slice(), 2, 2);
    assert_eq!(dst, vec![0; 16]);

    let mut negative = painted(2, 2);
    negative.paint_width = -2;
    assert!(!negative.drawable());
}

#[test]
fn pack_puts_blue_lowest() {
    assert_eq!(pack(0x11, 0x22, 0x33, 0x44), 0x4433_2211);
    assert_eq!(pack(0xff, 0xff, 0xff, 0xff), u32::MAX);
}

#[test]
fn paint_shows_the_frame() {
    let frame = painted(3, 2);
    let mut buffer = vec![0xdead_beefu32; 22];
    assert!(paint_background(buffer.as_mut_slice(), 4, 5, 0x00ff_ffff, Some(&frame)));
    let bytes = nearest(&frame, 4, 5);
    for at in 0..20 {
        let b = &bytes[at * 4..at * 4 + 4];
        assert_eq!(buffer[at], u32::from_le_bytes([b[0], b[1], b[2], b[3]]));
    }
    assert_eq!(buffer[20], 0xdead_beef);
    assert_eq!(buffer[21], 0xdead_beef);
}

#[test]
fn paint_and_copy_show_the_same_picture() {
    let frame = painted(9, 4);
    let mut buffer = vec![0u32; 6 * 6];
    let mut bytes = vec![0u8; 6 * 6 * 4];
    paint_background(buffer.as_mut_slice(), 6, 6, 0, Some(&frame));
    frame.copy_scaled(bytes.as_mut_slice(), 6, 6);
    let joined: Vec<u8> = buffer.iter().flat_map(|p| p.to_le_bytes()).collect();
    assert_eq!(joined, bytes);
}

#[test]
fn paint_falls_back_to_the_color() {
    let mut buffer = vec![1u32; 6];
    assert!(paint_background(buffer.as_mut_slice(), 3, 2, 0x0012_3456, None));
    assert_eq!(buffer, vec![0x0012_3456; 6]);
}

#[test]
fn frame_without_a_picture_is_not_painted_over() {
    let mut buffer = vec![1u32; 6];
    let empty = OsrFrame::default();
    assert!(!paint_background(buffer.as_mut_slice(), 3, 2, 0x0065_4321, Some(&empty)));
    assert_eq!(buffer, vec![1; 6]);
    let mut short = painted(3, 2);
    short.bgra.pop();
    assert!(!paint_background(buffer.as_mut_slice(), 3, 2, 0x0065_4321, Some(&short)));
    assert_eq!(buffer, vec![1; 6]);
}
