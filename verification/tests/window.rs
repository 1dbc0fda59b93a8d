use tauri_runtime_cef::geometry::PhysicalSize;
use tauri_runtime_cef::osr::{OsrFrame, PaintElementType};
use tauri_runtime_cef::style::Color;
use tauri_runtime_cef::window::{
    background_pixel, child_frame, first_frame, wayland_target, window_xid, AppWindow,
    Availability, ChildFrame, DisplayHandle, DrawAction, StyleChange, WaylandTarget, WindowHandle,
    WmRequest, WmState,
};
use tauri_runtime_cef::x11_host::{CefX11Host, X11Host};

const SIZE: PhysicalSize = PhysicalSize { width: 640, height: 480 };
const HANDLE: WindowHandle = WindowHandle::Xlib { window: 42 };

fn host(wayland: bool) -> CefX11Host<u8> {
    CefX11Host::new(true, wayland, SIZE, Some(X11Host { xid: 9, colormap: 8 })).unwrap()
}

fn x11_window() -> AppWindow<u8> {
    AppWindow {
        wayland: false,
        handle: Some(HANDLE),
        cef_host: host(false),
        background_color: None,
        transparent: false,
    }
}

fn wayland_window() -> AppWindow<u8> {
    AppWindow {
        wayland: true,
        handle: Some(WindowHandle::Wayland { surface: 0x7f00_1234_5678 }),
        cef_host: host(true),
        background_color: None,
        transparent: false,
    }
}

fn pending() -> OsrFrame {
    OsrFrame::default()
}

fn drawable() -> OsrFrame {
    let mut frame = OsrFrame::default();
    assert!(frame.on_paint(PaintElementType::View, Some([9u8, 8, 7, 6].as_slice()), 1, 1));
    frame
}

#[test]
fn foreign_handle_on_wayland_bars_nothing_but_the_host_handle() {
    let mut window = wayland_window();
    for handle in [None, Some(WindowHandle::Other), Some(HANDLE)] {
        window.handle = handle;
        let ready = Availability::Ready;
        assert_eq!(
            window.draw_background_surface(&[ChildFrame::Drawable], SIZE, ready, ready),
            DrawAction::PresentFrame { child: 0, width: 640, height: 480 }
        );
        assert_eq!(window.raise_native(), None);
    }
}

#[test]
fn children_show_nothing_until_they_have_pixels() {
    assert_eq!(child_frame(None), ChildFrame::Absent);
    assert_eq!(child_frame(Some(&pending())), ChildFrame::Pending);
    assert_eq!(child_frame(Some(&drawable())), ChildFrame::Drawable);
    let mut short = drawable();
    short.bgra.pop();
    assert_eq!(child_frame(Some(&short)), ChildFrame::Pending);
    let mut negative = drawable();
    negative.paint_width = -1;
    assert_eq!(child_frame(Some(&negative)), ChildFrame::Pending);
}

#[test]
fn xid_of_both_x11_handles() {
    assert_eq!(window_xid(HANDLE), 42);
    assert_eq!(window_xid(WindowHandle::Xcb { window: u32::MAX }), 0xffff_ffff);
    assert_eq!(x11_window().xid(), 42);
}

#[test]
fn alpha_capable_surface_needs_wayland_on_both_sides() {
    let display = Some(DisplayHandle::Wayland { display: 3 });
    let window = Some(WindowHandle::Wayland { surface: 4 });
    assert_eq!(wayland_target(display, window), Some(WaylandTarget { display: 3, surface: 4 }));
    assert_eq!(wayland_target(None, window), None);
    assert_eq!(wayland_target(display, None), None);
    assert_eq!(wayland_target(Some(DisplayHandle::Other), window), None);
    assert_eq!(wayland_target(display, Some(HANDLE)), None);
}

#[test]
fn browsers_are_children_of_the_host_or_the_surface() {
    assert_eq!(x11_window().cef_host_handle(), 9);
    assert_eq!(wayland_window().cef_host_handle(), 0x7f00_1234_5678);
}

#[test]
fn window_manager_is_asked_on_x11_only() {
    let window = x11_window();
    assert_eq!(window.raise_native(), Some(WmRequest::Activate { xid: 42 }));
    assert_eq!(
        window.set_skip_taskbar(true),
        Some(WmRequest::SetState { xid: 42, enable: true, state: WmState::SkipTaskbar })
    );
    assert_eq!(
        window.set_visible_on_all_workspaces(false),
        Some(WmRequest::SetState { xid: 42, enable: false, state: WmState::Sticky })
    );
    let window = wayland_window();
    assert_eq!(window.raise_native(), None);
    assert_eq!(window.set_skip_taskbar(true), None);
    assert_eq!(window.set_visible_on_all_workspaces(true), None);
}

#[test]
fn states_have_their_atoms() {
    assert_eq!(WmState::SkipTaskbar.name(), "_NET_WM_STATE_SKIP_TASKBAR");
    assert_eq!(WmState::Sticky.name(), "_NET_WM_STATE_STICKY");
}

#[test]
fn gtk_window_carries_parent_and_sensitivity() {
    let window = x11_window();
    assert!(window.apply_transient_for(true, true));
    assert!(!window.apply_transient_for(false, true));
    assert!(!window.apply_transient_for(true, false));
    assert_eq!(window.set_enabled(true, false), Some(false));
    assert_eq!(window.set_enabled(false, false), None);
    assert!(window.is_enabled(None));
    assert!(window.is_enabled(Some(true)));
    assert!(!window.is_enabled(Some(false)));
}

#[test]
fn new_background_gives_back_the_former_provider() {
    let mut window = x11_window();
    let change = window.set_background_color(true, Some(Color(1, 2, 3, 255)));
    assert_eq!(change.previous, None);
    match change.style {
        StyleChange::Install { class, css } => {
            assert_eq!(class, "tauri-cef-window-background-9");
            assert_eq!(
                css,
                ".tauri-cef-window-background-9 { background-color: rgba(1, 2, 3, 1.000); }"
            );
        }
        _ => panic!("no style"),
    }
    window.cef_host.set_background_color_provider(50);

    let change = window.set_background_color(true, Some(Color(0, 0, 0, 0)));
    assert_eq!(change.previous, Some(50));
    window.cef_host.set_background_color_provider(51);

    let change = window.set_background_color(true, None);
    assert_eq!(change.previous, Some(51));
    match change.style {
        StyleChange::RemoveClass { class } => assert_eq!(class, "tauri-cef-window-background-9"),
        _ => panic!("class stays"),
    }
    assert_eq!(window.cef_host.dispose().provider, None);
}

#[test]
fn background_is_not_styled_without_gtk_or_on_wayland() {
    let mut window = x11_window();
    window.cef_host.set_background_color_provider(50);
    let change = window.set_background_color(false, Some(Color(1, 2, 3, 4)));
    assert_eq!(change.previous, None);
    assert!(matches!(change.style, StyleChange::Keep));
    assert_eq!(window.cef_host.dispose().provider, Some(50));

    let mut window = wayland_window();
    let change = window.set_background_color(true, Some(Color(1, 2, 3, 4)));
    assert_eq!(change.previous, None);
    assert!(matches!(change.style, StyleChange::Keep));
}

#[test]
fn background_pixel_follows_color_and_transparency() {
    assert_eq!(background_pixel(Some(Color(0x11, 0x22, 0x33, 0x44)), true), 0x0011_2233);
    assert_eq!(background_pixel(None, true), 0);
    assert_eq!(background_pixel(None, false), 0x00ff_ffff);
}

#[test]
fn first_frame_is_the_first() {
    assert_eq!(first_frame(&[]), None);
    assert_eq!(first_frame(&[ChildFrame::Absent, ChildFrame::Absent]), None);
    assert_eq!(
        first_frame(&[ChildFrame::Absent, ChildFrame::Pending, ChildFrame::Drawable]),
        Some(1)
    );
    assert_eq!(first_frame(&[ChildFrame::Drawable, ChildFrame::Pending]), Some(0));
}

#[test]
fn wayland_frame_goes_to_the_argb_surface() {
    let window = wayland_window();
    let children = [ChildFrame::Absent, ChildFrame::Drawable];
    let ask = |argb| window.draw_background_surface(&children, SIZE, argb, Availability::Missing);
    assert_eq!(ask(Availability::Missing), DrawAction::CreateArgbSurface);
    assert_eq!(ask(Availability::Failed), DrawAction::Leave);
    assert_eq!(
        ask(Availability::Ready),
        DrawAction::PresentFrame { child: 1, width: 640, height: 480 }
    );
}

#[test]
fn wayland_pending_frame_is_presented_too() {
    let window = wayland_window();
    let ready = Availability::Ready;
    assert_eq!(
        window.draw_background_surface(&[ChildFrame::Pending], SIZE, ready, ready),
        DrawAction::PresentFrame { child: 0, width: 640, height: 480 }
    );
}

#[test]
fn wayland_without_a_frame_is_filled() {
    let mut window = wayland_window();
    window.background_color = Some(Color(0xaa, 0xbb, 0xcc, 0xdd));
    let ask = |plain| window.draw_background_surface(&[], SIZE, Availability::Missing, plain);
    assert_eq!(ask(Availability::Missing), DrawAction::CreateSurface);
    assert_eq!(ask(Availability::Failed), DrawAction::Leave);
    assert_eq!(
        ask(Availability::Ready),
        DrawAction::Paint { child: None, width: 640, height: 480, color: 0x00aa_bbcc }
    );
}

#[test]
fn x11_is_painted_only_with_a_picture() {
    let mut window = x11_window();
    window.background_color = Some(Color(0xaa, 0xbb, 0xcc, 0xdd));
    let ask = |children: &[ChildFrame], plain| {
        window.draw_background_surface(children, SIZE, Availability::Ready, plain)
    };
    for plain in [Availability::Missing, Availability::Ready, Availability::Failed] {
        assert_eq!(ask(&[ChildFrame::Absent], plain), DrawAction::Leave);
        assert_eq!(ask(&[ChildFrame::Pending], plain), DrawAction::Leave);
        assert_eq!(ask(&[ChildFrame::Pending, ChildFrame::Drawable], plain), DrawAction::Leave);
    }
    let children = [ChildFrame::Absent, ChildFrame::Drawable];
    assert_eq!(ask(&children, Availability::Missing), DrawAction::CreateSurface);
    assert_eq!(
        ask(&children, Availability::Ready),
        DrawAction::Paint { child: Some(1), width: 640, height: 480, color: 0x00aa_bbcc }
    );
}

#[test]
fn empty_window_is_left_alone() {
    let window = wayland_window();
    let ready = Availability::Ready;
    for size in [PhysicalSize { width: 0, height: 4 }, PhysicalSize { width: 4, height: 0 }] {
        assert_eq!(window.draw_background_surface(&[], size, ready, ready), DrawAction::Leave);
    }
}
