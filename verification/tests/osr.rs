use tauri_runtime_cef::osr::{paint_len, OsrFrame, PaintElementType, Rect};

fn rect_of(frame: &OsrFrame) -> Rect {
    let mut rect = Rect { x: 7, y: 8, width: 9, height: 10 };
    frame.view_rect(Some(&mut rect));
    rect
}

#[test]
fn default_frame_is_empty() {
    let frame = OsrFrame::default();
    assert_eq!(frame.view_width, 0);
    assert_eq!(frame.view_height, 0);
    assert_eq!(f32::from_bits(frame.device_scale_factor), 0.0);
    assert_eq!(frame.paint_width, 0);
    assert_eq!(frame.paint_height, 0);
    assert!(frame.bgra.is_empty());
}

#[test]
fn view_rect_is_never_empty() {
    let mut frame = OsrFrame::default();
    assert_eq!(rect_of(&frame), Rect { x: 0, y: 0, width: 1, height: 1 });
    frame.view_width = 640;
    frame.view_height = -3;
    assert_eq!(rect_of(&frame), Rect { x: 0, y: 0, width: 640, height: 1 });
    frame.view_rect(None);
}

#[test]
fn screen_info_reports_scale_of_at_least_one() {
    let mut frame = OsrFrame::default();
    for scale in [
        0.0f32,
        -0.0,
        0.5,
        0.99999994,
        1.0,
        1.0000001,
        1.25,
        2.0,
        f32::MAX,
        -7.5,
        f32::INFINITY,
        f32::NEG_INFINITY,
        f32::NAN,
        -f32::NAN,
        f32::MIN_POSITIVE,
    ] {
        frame.device_scale_factor = scale.to_bits();
        let mut bits = 0u32;
        assert_eq!(frame.screen_info(Some(&mut bits)), 1);
        assert_eq!(f32::from_bits(bits), scale.max(1.0));
    }
    assert_eq!(frame.screen_info(None), 0);
}

#[test]
fn paint_len_counts_four_bytes_a_pixel() {
    assert_eq!(paint_len(PaintElementType::View, true, 3, 2), Some(24));
    assert_eq!(paint_len(PaintElementType::Popup, true, 3, 2), None);
    assert_eq!(paint_len(PaintElementType::View, false, 3, 2), None);
    assert_eq!(paint_len(PaintElementType::View, true, 0, 2), None);
    assert_eq!(paint_len(PaintElementType::View, true, 3, -2), None);
    let most = (i32::MAX as usize).checked_mul(i32::MAX as usize).and_then(|n| n.checked_mul(4));
    assert_eq!(paint_len(PaintElementType::View, true, i32::MAX, i32::MAX), most);
}

#[test]
fn on_paint_takes_over_the_view() {
    let mut frame = OsrFrame::default();
    frame.view_width = 5;
    frame.bgra = vec![9; 100];
    let pixels: Vec<u8> = (0..24).collect();
    assert!(frame.on_paint(PaintElementType::View, Some(pixels.as_slice()), 3, 2));
    assert_eq!(frame.paint_width, 3);
    assert_eq!(frame.paint_height, 2);
    assert_eq!(frame.bgra, pixels);
    assert_eq!(frame.view_width, 5);

    // A buffer may be longer than the picture in it.
    assert!(frame.on_paint(PaintElementType::View, Some(pixels.as_slice()), 1, 2));
    assert_eq!(frame.bgra, pixels[..8].to_vec());
}

#[test]
fn on_paint_ignores_everything_else() {
    let mut frame = OsrFrame::default();
    let pixels = vec![1u8; 24];
    assert!(frame.on_paint(PaintElementType::View, Some(pixels.as_slice()), 3, 2));
    let other = vec![2u8; 24];
    assert!(!frame.on_paint(PaintElementType::Popup, Some(other.as_slice()), 3, 2));
    assert!(!frame.on_paint(PaintElementType::View, None, 3, 2));
    assert!(!frame.on_paint(PaintElementType::View, Some(other.as_slice()), 0, 2));
    assert!(!frame.on_paint(PaintElementType::View, Some(other.as_slice()), 3, -1));
    assert_eq!(frame.bgra, pixels);
    assert_eq!((frame.paint_width, frame.paint_height), (3, 2));
}
