use tauri_runtime_cef::geometry::{
    scaled_extent, set_cef_container_bounds, ContentArea, HostGeometry, LogicalPoint, MoveResize,
    PhysicalSize,
};

fn area(width: i32, height: i32) -> ContentArea {
    ContentArea {
        width,
        height,
        origin: Some(LogicalPoint { x: 0.0f32.to_bits(), y: 30.5f32.to_bits() }),
    }
}

#[test]
fn extents_agree_with_double_precision() {
    let values = [
        0,
        1,
        -1,
        2,
        3,
        800,
        65_535,
        65_536,
        94_906_267,
        1_000_000_007,
        i32::MAX - 1,
        i32::MAX,
        i32::MIN,
        -800,
    ];
    for logical in values {
        for scale in values {
            let wanted = (logical as f64 * scale as f64).round() as u32;
            assert_eq!(scaled_extent(logical, scale), wanted, "{logical} {scale}");
        }
    }
}

#[test]
fn bounds_are_scaled_on_hidpi() {
    let (bounds, size) = set_cef_container_bounds(77, area(800, 600), 2);
    assert_eq!(bounds, MoveResize { xid: 77, x: 0, y: 61, width: 1600, height: 1200 });
    assert_eq!(size, PhysicalSize { width: 1600, height: 1200 });
}

#[test]
fn bounds_without_a_known_origin_start_at_zero() {
    let content = ContentArea { width: -4, height: 10, origin: None };
    let (bounds, size) = set_cef_container_bounds(1, content, 3);
    assert_eq!(bounds, MoveResize { xid: 1, x: 0, y: 0, width: 0, height: 30 });
    assert_eq!(size, PhysicalSize { width: 0, height: 30 });
}

#[test]
fn bounds_hold_at_the_limits() {
    let content = ContentArea {
        width: i32::MAX,
        height: 1,
        origin: Some(LogicalPoint { x: 1.0e20f32.to_bits(), y: (-1.0e20f32).to_bits() }),
    };
    let (bounds, _) = set_cef_container_bounds(1, content, 4);
    assert_eq!(bounds, MoveResize { xid: 1, x: i32::MAX, y: i32::MIN, width: u32::MAX, height: 4 });
}

#[test]
fn layout_takes_scale_of_at_least_one() {
    let mut geometry = HostGeometry::default();
    for reported in [0, -5, 1] {
        let bounds = geometry.layout(5, area(10, 20), reported);
        assert_eq!(bounds, MoveResize { xid: 5, x: 0, y: 31, width: 10, height: 20 });
        assert_eq!(geometry.size, PhysicalSize { width: 10, height: 20 });
    }
}

#[test]
fn relayout_is_reported_once_per_change() {
    let mut geometry = HostGeometry::default();
    assert!(!geometry.take_needs_relayout());
    geometry.layout(5, area(10, 20), 1);
    assert!(geometry.take_needs_relayout());
    assert!(!geometry.take_needs_relayout());
    geometry.layout(5, area(10, 20), 1);
    assert!(!geometry.take_needs_relayout());
}

#[test]
fn relayout_stays_pending_when_the_size_comes_back() {
    let mut geometry = HostGeometry::default();
    let first = PhysicalSize { width: 10, height: 10 };
    geometry.resize(first);
    geometry.take_needs_relayout();
    geometry.resize(PhysicalSize { width: 10, height: 8 });
    geometry.resize(first);
    assert_eq!(geometry.size, first);
    assert!(geometry.take_needs_relayout());
    geometry.resize(first);
    assert!(!geometry.take_needs_relayout());
}
