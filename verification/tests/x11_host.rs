use tauri_runtime_cef::geometry::{ContentArea, HostGeometry, MoveResize, PhysicalSize};
use tauri_runtime_cef::x11_host::{
    create_cef_container, needs_container, CefX11Host, ContainerAction, ContainerProgress,
    EventMask, VisualClass, WindowClass, X11Host,
};

const SIZE: PhysicalSize = PhysicalSize { width: 640, height: 480 };

#[test]
fn container_is_created_step_by_step() {
    assert_eq!(
        create_cef_container(3, SIZE, ContainerProgress::Begin),
        ContainerAction::MatchVisual { depth: 24, class: VisualClass::TrueColor }
    );
    assert_eq!(
        create_cef_container(3, SIZE, ContainerProgress::VisualMatched { status: 1 }),
        ContainerAction::CreateColormap
    );
    assert_eq!(
        create_cef_container(3, SIZE, ContainerProgress::ColormapCreated { colormap: 8 }),
        ContainerAction::CreateWindow {
            parent: 3,
            x: 0,
            y: 0,
            width: 640,
            height: 480,
            border_width: 0,
            border_pixel: 0,
            colormap: 8,
            window_class: WindowClass::InputOutput,
            event_mask: EventMask { exposure: true, structure_notify: true },
        }
    );
    assert_eq!(
        create_cef_container(3, SIZE, ContainerProgress::WindowCreated { colormap: 8, xid: 9 }),
        ContainerAction::MapWindow(X11Host { xid: 9, colormap: 8 })
    );
}

#[test]
fn container_failures_leave_nothing_behind() {
    assert_eq!(
        create_cef_container(3, SIZE, ContainerProgress::VisualMatched { status: 0 }),
        ContainerAction::GiveUp
    );
    assert_eq!(
        create_cef_container(3, SIZE, ContainerProgress::ColormapCreated { colormap: 0 }),
        ContainerAction::GiveUp
    );
    assert_eq!(
        create_cef_container(3, SIZE, ContainerProgress::WindowCreated { colormap: 8, xid: 0 }),
        ContainerAction::FreeColormap { colormap: 8 }
    );
}

#[test]
fn only_x11_needs_a_container() {
    assert!(needs_container(true, false));
    assert!(!needs_container(true, true));
    assert!(!needs_container(false, false));
    assert!(!needs_container(false, true));
}

#[test]
fn host_comes_with_its_container() {
    let container = X11Host { xid: 9, colormap: 8 };
    let host = CefX11Host::<u8>::new(true, false, SIZE, Some(container)).unwrap();
    assert_eq!(host.x11(), container);
    assert_eq!(host.size(), SIZE);
    assert!(!host.geometry.needs_relayout);
    assert!(host.background_color_provider.is_none());

    assert!(CefX11Host::<u8>::new(true, false, SIZE, None).is_none());
    assert!(CefX11Host::<u8>::new(false, false, SIZE, Some(container)).is_none());
    assert!(CefX11Host::<u8>::new(false, true, SIZE, None).is_none());
    let wayland = CefX11Host::<u8>::new(true, true, SIZE, None).unwrap();
    assert!(wayland.x11.is_none());
}

#[test]
fn host_follows_the_layout() {
    let container = X11Host { xid: 9, colormap: 8 };
    let mut host = CefX11Host::<u8>::new(true, false, SIZE, Some(container)).unwrap();
    let area = ContentArea { width: 100, height: 50, origin: None };
    let bounds = host.layout(area, 2);
    assert_eq!(bounds, Some(MoveResize { xid: 9, x: 0, y: 0, width: 200, height: 100 }));
    assert_eq!(host.size(), PhysicalSize { width: 200, height: 100 });
    assert!(host.take_needs_relayout());
    assert!(!host.take_needs_relayout());

    let mut wayland = CefX11Host::<u8>::new(true, true, SIZE, None).unwrap();
    assert_eq!(wayland.layout(area, 2), None);
    assert_eq!(wayland.size(), SIZE);
}

#[test]
fn disposal_hands_out_everything() {
    let container = X11Host { xid: 9, colormap: 8 };
    let mut host = CefX11Host::<u8>::new(true, false, SIZE, Some(container)).unwrap();
    host.set_background_color_provider(5);
    let disposal = host.dispose();
    assert_eq!(disposal.provider, Some(5));
    assert_eq!(disposal.container, Some(container));
    assert_eq!(host.take_background_color_provider(), None);
    let again = host.dispose();
    assert_eq!(again.provider, None);
    assert_eq!(again.container, None);

    let mut wayland = CefX11Host::<u8>::new(true, true, SIZE, None).unwrap();
    let disposal = wayland.dispose();
    assert_eq!(disposal.provider, None);
    assert_eq!(disposal.container, None);
}

#[test]
fn default_geometry_is_empty() {
    let geometry = HostGeometry::default();
    assert_eq!(geometry.size, PhysicalSize { width: 0, height: 0 });
    assert!(!geometry.needs_relayout);
}
