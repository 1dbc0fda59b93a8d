//! An application window: what to ask of the window manager, and how the window's
//! own surface is painted.

use vstd::multiset::Multiset;
use vstd::prelude::*;

use crate::blit;
use crate::geometry::PhysicalSize;
use crate::osr::OsrFrame;
use crate::style;
use crate::style::Color;
use crate::x11_host::{CefX11Host, Disposal};

verus! {

/// The pixel of an ordinary window without a background color: the opaque white
/// that a blank browser shows.
pub const WHITE: u32 = 0x00ff_ffff;

/// The native handle of a window.
#[derive(Clone, Copy, Debug, PartialEq, Eq, Structural)]
pub enum WindowHandle {
    Xlib { window: u64 },
    Xcb { window: u32 },
    /// The address of a `wl_surface`.
    Wayland { surface: u64 },
    Other,
}

impl WindowHandle {
    /// The handle is one of an X11 window.
    pub open spec fn is_x11(self) -> bool {
        self is Xlib || self is Xcb
    }

    /// The id of an X11 window.
    pub open spec fn xid(self) -> u64 {
        match self {
            WindowHandle::Xlib { window } => window,
            WindowHandle::Xcb { window } => window as u64,
            _ => 0,
        }
    }
}

/// The id of the X11 window behind a handle.
pub fn window_xid(handle: WindowHandle) -> (xid: u64)
    requires
        handle.is_x11(),
    ensures
        xid == handle.xid(),
{
    match handle {
        WindowHandle::Xlib { window } => window,
        WindowHandle::Xcb { window } => window as u64,
        _ => 0,
    }
}

/// The native handle of a display.
#[derive(Clone, Copy, Debug, PartialEq, Eq, Structural)]
pub enum DisplayHandle {
    /// The address of a `wl_display`.
    Wayland { display: u64 },
    Other,
}

/// A Wayland surface and the display that it belongs to.
#[derive(Clone, Copy, Debug, PartialEq, Eq, Structural)]
pub struct WaylandTarget {
    pub display: u64,
    pub surface: u64,
}

/// The Wayland surface behind a window, if the handles that the window has are
/// both of Wayland.
pub fn wayland_target(display: Option<DisplayHandle>, window: Option<WindowHandle>) -> (target:
    Option<WaylandTarget>)
    ensures
        target == match (display, window) {
            (
                Some(DisplayHandle::Wayland { display }),
                Some(WindowHandle::Wayland { surface }),
            ) => Some(WaylandTarget { display, surface }),
            _ => None,
        },
{
    match (display, window) {
        (
            Some(DisplayHandle::Wayland { display }),
            Some(WindowHandle::Wayland { surface }),
        ) => Some(WaylandTarget { display, surface }),
        _ => None,
    }
}

/// A state that a window asks its window manager for.
#[derive(Clone, Copy, Debug, PartialEq, Eq, Structural)]
pub enum WmState {
    SkipTaskbar,
    Sticky,
}

impl WmState {
    /// The name of the state's atom.
    pub open spec fn atom(self) -> Seq<char> {
        match self {
            WmState::SkipTaskbar => "_NET_WM_STATE_SKIP_TASKBAR"@,
            WmState::Sticky => "_NET_WM_STATE_STICKY"@,
        }
    }

    /// The name of the state's atom.
    pub fn name(&self) -> (r: &'static str)
        ensures
            r@ == self.atom(),
    {
        match self {
            WmState::SkipTaskbar => "_NET_WM_STATE_SKIP_TASKBAR",
            WmState::Sticky => "_NET_WM_STATE_STICKY",
        }
    }
}

/// A request to the X11 window manager.
#[derive(Clone, Copy, Debug, PartialEq, Eq, Structural)]
pub enum WmRequest {
    /// Activate the window, raising it above the others.
    Activate { xid: u64 },
    /// Set or clear a single state of the window.
    SetState { xid: u64, enable: bool, state: WmState },
}

/// What to do about the style class that carries the background color.
pub enum StyleChange {
    /// Leave it.
    Keep,
    /// Take it from the window.
    RemoveClass { class: String },
    /// Load the sheet into a new provider, add that to the display, give the
    /// window the class and hand the provider to the host.
    Install { class: String, css: String },
}

/// What a new background color asks for: first to remove the former provider from
/// the display, if there is one, then to change the style.
pub struct BackgroundChange<P> {
    pub previous: Option<P>,
    pub style: StyleChange,
}

/// Whether something that is created on first use is there.
#[derive(Clone, Copy, Debug, PartialEq, Eq, Structural)]
pub enum Availability {
    /// It has not been created yet.
    Missing,
    Ready,
    /// It could not be created just now.
    Failed,
}

/// How the window's own surface is painted.
#[derive(Clone, Copy, Debug, PartialEq, Eq, Structural)]
pub enum DrawAction {
    /// Not at all.
    Leave,
    /// Create the alpha-capable surface, then ask again.
    CreateArgbSurface,
    /// Present the frame of the child at `child` on the alpha-capable surface.
    PresentFrame { child: usize, width: u32, height: u32 },
    /// Create the plain surface, then ask again.
    CreateSurface,
    /// Resize the plain surface and paint it: with the frame of the child at
    /// `child` if that is given, else with `color`.
    Paint { child: Option<usize>, width: u32, height: u32, color: u32 },
}

/// What a child of a window has to show.
#[derive(Clone, Copy, Debug, PartialEq, Eq, Structural)]
pub enum ChildFrame {
    /// The child does not render off-screen.
    Absent,
    /// The child renders off-screen, but there is no picture of it yet.
    Pending,
    /// There is a picture to show.
    Drawable,
}

/// What a child with this frame has to show.
pub open spec fn child_frame_spec(frame: Option<&OsrFrame>) -> ChildFrame {
    if frame is None {
        ChildFrame::Absent
    } else if blit::shows_frame(frame) {
        ChildFrame::Drawable
    } else {
        ChildFrame::Pending
    }
}

/// What a child with this frame has to show.
pub fn child_frame(frame: Option<&OsrFrame>) -> (r: ChildFrame)
    ensures
        r == child_frame_spec(frame),
{
    match frame {
        None => ChildFrame::Absent,
        Some(frame) => if frame.drawable() {
            ChildFrame::Drawable
        } else {
            ChildFrame::Pending
        },
    }
}

/// `index` is the first child that renders off-screen.
pub open spec fn is_first_frame(children: Seq<ChildFrame>, index: Option<usize>) -> bool {
    match index {
        Some(i) => {
            &&& i < children.len()
            &&& !(children[i as int] is Absent)
            &&& forall|k: int| 0 <= k < i ==> #[trigger] children[k] is Absent
        },
        None => forall|k: int| 0 <= k < children.len() ==> #[trigger] children[k] is Absent,
    }
}

/// There is only one first child that renders off-screen.
pub proof fn first_frame_is_unique(children: Seq<ChildFrame>, a: Option<usize>, b: Option<usize>)
    requires
        is_first_frame(children, a),
        is_first_frame(children, b),
    ensures
        a == b,
{
    if a is Some && b is Some {
        assert(!(children[a->0 as int] is Absent) && !(children[b->0 as int] is Absent));
    } else if a is Some {
        assert(!(children[a->0 as int] is Absent));
    } else if b is Some {
        assert(!(children[b->0 as int] is Absent));
    }
}

/// The first child that renders off-screen.
pub fn first_frame(children: &[ChildFrame]) -> (index: Option<usize>)
    ensures
        is_first_frame(children@, index),
{
    let mut i: usize = 0;
    while i < children.len()
        invariant
            i <= children@.len(),
            forall|k: int| 0 <= k < i ==> #[trigger] children@[k] is Absent,
        decreases children@.len() - i,
    {
        if children[i] != ChildFrame::Absent {
            return Some(i);
        }
        i += 1;
    }
    None
}

/// The pixel that paints a background: the color without its alpha; without a
/// color nothing for a transparent window, so that the desktop shows through, and
/// white for an ordinary one.
pub open spec fn background_pixel_spec(color: Option<Color>, transparent: bool) -> int {
    match color {
        Some(c) => blit::packed(c.2 as int, c.1 as int, c.0 as int, 0),
        None => if transparent {
            0
        } else {
            0x00ff_ffff
        },
    }
}

/// The pixel that paints a window's background.
pub fn background_pixel(color: Option<Color>, transparent: bool) -> (pixel: u32)
    ensures
        pixel == background_pixel_spec(color, transparent),
{
    match color {
        Some(Color(r, g, b, _)) => blit::pack(b, g, r, 0),
        None => if transparent {
            0
        } else {
            WHITE
        },
    }
}

/// What of an application window the decisions rest on; `P` is a style provider
/// installed on the display.
pub struct AppWindow<P> {
    /// Whether the display server is a Wayland compositor.
    pub wayland: bool,
    /// The native handle, once it has been asked for.
    pub handle: Option<WindowHandle>,
    pub cef_host: CefX11Host<P>,
    pub background_color: Option<Color>,
    pub transparent: bool,
}

impl<P> AppWindow<P> {
    /// The native parent of the browser windows: the X11 host, or the surface
    /// under Wayland.
    pub fn cef_host_handle(&self) -> (handle: u64)
        requires
            self.wayland ==> self.handle is Some && self.handle->0 is Wayland,
            !self.wayland ==> self.cef_host.x11 is Some,
        ensures
            self.wayland ==> self.handle == Some(WindowHandle::Wayland { surface: handle }),
            !self.wayland ==> handle == self.cef_host.x11->0.xid,
    {
        if self.wayland {
            return match self.handle {
                Some(WindowHandle::Wayland { surface }) => surface,
                _ => 0,
            };
        }
        self.cef_host.x11().xid
    }

    /// The id of the toplevel's X11 window.
    pub fn xid(&self) -> (xid: u64)
        requires
            self.handle is Some,
            self.handle->0.is_x11(),
        ensures
            xid == self.handle->0.xid(),
    {
        window_xid(self.handle.unwrap())
    }

    /// Raises the window above others. Wayland has no protocol for that: there
    /// activation is a matter of focusing the window.
    pub fn raise_native(&self) -> (request: Option<WmRequest>)
        requires
            !self.wayland ==> self.handle is Some && self.handle->0.is_x11(),
        ensures
            request == if self.wayland {
                None
            } else {
                Some(WmRequest::Activate { xid: self.handle->0.xid() })
            },
    {
        if self.wayland {
            return None;
        }
        Some(WmRequest::Activate { xid: self.xid() })
    }

    /// Keeps the window out of the taskbar, or puts it back. Wayland has no
    /// equivalent that a client could set on itself.
    pub fn set_skip_taskbar(&self, skip: bool) -> (request: Option<WmRequest>)
        requires
            !self.wayland ==> self.handle is Some && self.handle->0.is_x11(),
        ensures
            request == if self.wayland {
                None
            } else {
                Some(
                    WmRequest::SetState {
                        xid: self.handle->0.xid(),
                        enable: skip,
                        state: WmState::SkipTaskbar,
                    },
                )
            },
    {
        if self.wayland {
            return None;
        }
        Some(WmRequest::SetState { xid: self.xid(), enable: skip, state: WmState::SkipTaskbar })
    }

    /// Shows the window on every workspace, or on its own only.
    pub fn set_visible_on_all_workspaces(&self, visible: bool) -> (request: Option<WmRequest>)
        requires
            !self.wayland ==> self.handle is Some && self.handle->0.is_x11(),
        ensures
            request == if self.wayland {
                None
            } else {
                Some(
                    WmRequest::SetState {
                        xid: self.handle->0.xid(),
                        enable: visible,
                        state: WmState::Sticky,
                    },
                )
            },
    {
        if self.wayland {
            return None;
        }
        Some(WmRequest::SetState { xid: self.xid(), enable: visible, state: WmState::Sticky })
    }

    /// Whether the transient parent is to be applied: there is one, and a GTK
    /// window to apply it to.
    pub fn apply_transient_for(&self, has_parent: bool, has_gtk_window: bool) -> (apply: bool)
        ensures
            apply == (has_parent && has_gtk_window),
    {
        has_parent && has_gtk_window
    }

    /// The sensitivity to give the GTK window, if there is one. Only GTK's own
    /// widgets heed it: browsers are foreign windows and stay interactive.
    pub fn set_enabled(&self, has_gtk_window: bool, enabled: bool) -> (sensitive: Option<bool>)
        ensures
            sensitive == if has_gtk_window {
                Some(enabled)
            } else {
                None
            },
    {
        if has_gtk_window {
            Some(enabled)
        } else {
            None
        }
    }

    /// Whether the window is enabled, given the sensitivity of its GTK window if
    /// there is one.
    pub fn is_enabled(&self, sensitive: Option<bool>) -> (enabled: bool)
        ensures
            enabled == match sensitive {
                Some(s) => s,
                None => true,
            },
    {
        match sensitive {
            Some(sensitive) => sensitive,
            None => true,
        }
    }

    /// Whether a background color concerns the window's style at all. Under
    /// Wayland the background of the browser itself is what is seen.
    pub open spec fn styles_background(&self, has_gtk_window: bool) -> bool {
        !self.wayland && has_gtk_window
    }

    /// What `set_background_color` answers and what becomes of the window.
    pub open spec fn restyles(
        self,
        has_gtk_window: bool,
        color: Option<Color>,
        next: AppWindow<P>,
        change: BackgroundChange<P>,
    ) -> bool {
        let host = self.cef_host;
        if !self.styles_background(has_gtk_window) {
            &&& next == self
            &&& change.previous is None
            &&& change.style is Keep
        } else {
            &&& next == (AppWindow {
                cef_host: CefX11Host { background_color_provider: None, ..host },
                ..self
            })
            &&& change.previous == host.background_color_provider
            &&& match color {
                None => change.style matches StyleChange::RemoveClass { class } && class@
                    == style::class_name(host.x11->0.xid as nat),
                Some(c) => change.style matches StyleChange::Install { class, css } && class@
                    == style::class_name(host.x11->0.xid as nat) && css@ == style::background_css(
                    class@,
                    c,
                ),
            }
        }
    }

    /// Changes the background color of the window.
    ///
    /// A provider cannot be replaced, so the one that the previous call installed
    /// is given back to be removed: otherwise every call would leave another one
    /// on the display.
    pub fn set_background_color(&mut self, has_gtk_window: bool, color: Option<Color>) -> (change:
        BackgroundChange<P>)
        requires
            old(self).styles_background(has_gtk_window) ==> old(self).cef_host.x11 is Some,
        ensures
            old(self).restyles(has_gtk_window, color, *final(self), change),
    {
        if self.wayland || !has_gtk_window {
            return BackgroundChange { previous: None, style: StyleChange::Keep };
        }
        let class = style::background_color_class(self.cef_host.x11().xid);
        let previous = self.cef_host.take_background_color_provider();
        let style = match color {
            None => StyleChange::RemoveClass { class },
            Some(color) => {
                let css = style::background_color_css(&class, color);
                StyleChange::Install { class, css }
            },
        };
        BackgroundChange { previous, style }
    }

    /// What `draw_background_surface` answers, `frame` being the first child that
    /// renders off-screen.
    pub open spec fn draw_action(
        &self,
        children: Seq<ChildFrame>,
        frame: Option<usize>,
        size: PhysicalSize,
        argb_surface: Availability,
        surface: Availability,
    ) -> DrawAction {
        if self.wayland && frame is Some {
            match argb_surface {
                Availability::Missing => DrawAction::CreateArgbSurface,
                Availability::Ready => DrawAction::PresentFrame {
                    child: frame->0,
                    width: size.width,
                    height: size.height,
                },
                Availability::Failed => DrawAction::Leave,
            }
        } else if !self.wayland && !(frame is Some && children[frame->0 as int] is Drawable) {
            DrawAction::Leave
        } else if size.width == 0 || size.height == 0 {
            DrawAction::Leave
        } else {
            match surface {
                Availability::Missing => DrawAction::CreateSurface,
                Availability::Ready => DrawAction::Paint {
                    child: frame,
                    width: size.width,
                    height: size.height,
                    color: background_pixel_spec(self.background_color, self.transparent) as u32,
                },
                Availability::Failed => DrawAction::Leave,
            }
        }
    }

    /// Decides how to paint the window's own background over everything that its
    /// webviews do not cover.
    ///
    /// On Wayland this is not optional: a toplevel is not mapped before a buffer
    /// has been committed to it, so a window that nobody painted would never
    /// become visible. X11 asks for no such thing; there the window is painted
    /// only to show a picture, and a background color goes through
    /// `set_background_color`.
    pub fn draw_background_surface(
        &self,
        children: &[ChildFrame],
        size: PhysicalSize,
        argb_surface: Availability,
        surface: Availability,
    ) -> (action: DrawAction)
        ensures
            exists|frame: Option<usize>| #[trigger]
                is_first_frame(children@, frame) && action == self.draw_action(
                    children@,
                    frame,
                    size,
                    argb_surface,
                    surface,
                ),
            forall|frame: Option<usize>| #[trigger]
                is_first_frame(children@, frame) ==> action == self.draw_action(
                    children@,
                    frame,
                    size,
                    argb_surface,
                    surface,
                ),
    {
        let frame = first_frame(children);
        proof {
            assert forall|other: Option<usize>| #[trigger]
                is_first_frame(children@, other) implies other == frame by {
                first_frame_is_unique(children@, other, frame);
            }
        }
        let color = background_pixel(self.background_color, self.transparent);
        if self.wayland {
            if let Some(child) = frame {
                return match argb_surface {
                    Availability::Missing => DrawAction::CreateArgbSurface,
                    Availability::Ready => DrawAction::PresentFrame {
                        child,
                        width: size.width,
                        height: size.height,
                    },
                    Availability::Failed => DrawAction::Leave,
                };
            }
        } else {
            let shown = match frame {
                Some(child) => children[child] == ChildFrame::Drawable,
                None => false,
            };
            if !shown {
                return DrawAction::Leave;
            }
        }
        if size.width == 0 || size.height == 0 {
            return DrawAction::Leave;
        }
        match surface {
            Availability::Missing => DrawAction::CreateSurface,
            Availability::Ready => DrawAction::Paint {
                child: frame,
                width: size.width,
                height: size.height,
                color,
            },
            Availability::Failed => DrawAction::Leave,
        }
    }
}

/// The providers that a window has on the display.
pub open spec fn installed<P>(host: CefX11Host<P>) -> Multiset<P> {
    match host.background_color_provider {
        Some(provider) => Multiset::singleton(provider),
        None => Multiset::empty(),
    }
}

/// The providers on a display once a change of the background has been carried
/// out, `provider` being the one made for a new style sheet.
pub open spec fn display_after<P>(
    display: Multiset<P>,
    change: BackgroundChange<P>,
    provider: P,
) -> Multiset<P> {
    let cleared = match change.previous {
        Some(previous) => display.remove(previous),
        None => display,
    };
    if change.style is Install {
        cleared.insert(provider)
    } else {
        cleared
    }
}

/// The host once a change of the background has been carried out.
pub open spec fn host_after<P>(
    host: CefX11Host<P>,
    change: BackgroundChange<P>,
    provider: P,
) -> CefX11Host<P> {
    if change.style is Install {
        CefX11Host { background_color_provider: Some(provider), ..host }
    } else {
        host
    }
}

/// Providers do not pile up: however the background of a window is changed, the
/// display holds of the window's providers exactly the one that the host keeps,
/// so never more than one, and none once the host has been disposed of. The
/// `others` on the display, of other windows or the program's own, stay.
pub proof fn providers_never_pile_up<P>(
    others: Multiset<P>,
    window: AppWindow<P>,
    has_gtk_window: bool,
    color: Option<Color>,
    next: AppWindow<P>,
    change: BackgroundChange<P>,
    provider: P,
    disposal: Disposal<P>,
)
    requires
        window.restyles(has_gtk_window, color, next, change),
        host_after(next.cef_host, change, provider).leaves(disposal),
    ensures
        ({
            let after = host_after(next.cef_host, change, provider);
            let display = others.add(installed(window.cef_host));
            &&& display_after(display, change, provider) == others.add(installed(after))
            &&& installed(after).len() <= 1
            &&& match disposal.provider {
                Some(last) => others.add(installed(after)).remove(last) == others,
                None => others.add(installed(after)) == others,
            }
        }),
{
    let after = host_after(next.cef_host, change, provider);
    let display = others.add(installed(window.cef_host));
    assert(display_after(display, change, provider) =~= others.add(installed(after)));
    match disposal.provider {
        Some(last) => {
            assert(others.add(installed(after)).remove(last) =~= others);
        },
        None => {
            assert(others.add(installed(after)) =~= others);
        },
    }
}

/// A window of some extent is always painted on Wayland once its surfaces are
/// there, with a frame if a child has one, so it does get mapped.
pub proof fn wayland_windows_are_painted<P>(
    window: AppWindow<P>,
    children: Seq<ChildFrame>,
    frame: Option<usize>,
    size: PhysicalSize,
)
    requires
        window.wayland,
        size.width > 0,
        size.height > 0,
    ensures
        ({
            let ready = Availability::Ready;
            let action = window.draw_action(children, frame, size, ready, ready);
            if frame is Some {
                action is PresentFrame
            } else {
                action is Paint
            }
        }),
{
}

/// On X11 a window that shows no picture is left alone: no surface is created for
/// it and nothing is painted, be it that no child renders off-screen or that the
/// first one that does has no picture yet. What is painted is the picture of that
/// child, never a background color.
pub proof fn x11_background_is_never_painted<P>(
    window: AppWindow<P>,
    children: Seq<ChildFrame>,
    frame: Option<usize>,
    size: PhysicalSize,
    argb_surface: Availability,
    surface: Availability,
)
    requires
        !window.wayland,
        is_first_frame(children, frame),
    ensures
        ({
            let action = window.draw_action(children, frame, size, argb_surface, surface);
            &&& frame is None || children[frame->0 as int] is Pending ==> action is Leave
            &&& action matches DrawAction::Paint { child, .. } ==> child == frame && child is Some
                && children[child->0 as int] is Drawable
            &&& !(action is PresentFrame) && !(action is CreateArgbSurface)
        }),
{
}

/// Transparent frames reach the screen through the alpha-capable surface: on
/// Wayland a frame is never painted on the plain one.
pub proof fn wayland_frames_keep_alpha<P>(
    window: AppWindow<P>,
    children: Seq<ChildFrame>,
    frame: Option<usize>,
    size: PhysicalSize,
    argb_surface: Availability,
    surface: Availability,
)
    requires
        window.wayland,
        frame is Some,
    ensures
        !(window.draw_action(children, frame, size, argb_surface, surface) is Paint),
        !(window.draw_action(children, frame, size, argb_surface, surface) is CreateSurface),
{
}

/// A redraw asks for one surface at most: once told what came of the creation
/// that it asked for, it asks for no other.
pub proof fn one_surface_is_created_per_redraw<P>(
    window: AppWindow<P>,
    children: Seq<ChildFrame>,
    frame: Option<usize>,
    size: PhysicalSize,
    argb_surface: Availability,
    surface: Availability,
    reply: Availability,
)
    requires
        !(reply is Missing),
    ensures
        window.draw_action(children, frame, size, argb_surface, surface) is CreateArgbSurface ==> {
            let next = window.draw_action(children, frame, size, reply, surface);
            !(next is CreateArgbSurface) && !(next is CreateSurface)
        },
        window.draw_action(children, frame, size, argb_surface, surface) is CreateSurface ==> {
            let next = window.draw_action(children, frame, size, argb_surface, reply);
            !(next is CreateArgbSurface) && !(next is CreateSurface)
        },
{
}

/// The background of a plain surface carries no alpha.
pub proof fn background_carries_no_alpha(color: Option<Color>, transparent: bool)
    ensures
        0 <= background_pixel_spec(color, transparent) <= 0xff_ffff,
{
}

/// Colors are always applied: on X11 with a GTK window a color is installed with
/// its own sheet, whatever color and provider there were before, and the class is
/// taken from the window exactly if there is to be no color. The provider there was
/// is given back each time, and nothing else of the window changes.
pub proof fn every_color_is_applied<P>(
    window: AppWindow<P>,
    color: Option<Color>,
    next: AppWindow<P>,
    change: BackgroundChange<P>,
)
    requires
        !window.wayland,
        window.cef_host.x11 is Some,
        window.restyles(true, color, next, change),
    ensures
        color is Some <==> change.style is Install,
        color is None <==> change.style is RemoveClass,
        color is Some ==> change.style->Install_class@ == style::class_name(
            window.cef_host.x11->0.xid as nat,
        ) && change.style->Install_css@ == style::background_css(
            change.style->Install_class@,
            color->0,
        ),
        color is None ==> change.style->RemoveClass_class@ == style::class_name(
            window.cef_host.x11->0.xid as nat,
        ),
        change.previous == window.cef_host.background_color_provider,
        next.cef_host.background_color_provider is None,
        next.cef_host.x11 == window.cef_host.x11,
        next.cef_host.geometry == window.cef_host.geometry,
        next.wayland == window.wayland,
        next.handle == window.handle,
        next.background_color == window.background_color,
        next.transparent == window.transparent,
{
}

/// The color of a window depends on the color alone: two windows with the same host
/// window are given the same class and sheet, whatever provider either has kept.
pub proof fn earlier_colors_have_no_say<P>(
    a: AppWindow<P>,
    b: AppWindow<P>,
    color: Color,
    next_a: AppWindow<P>,
    next_b: AppWindow<P>,
    change_a: BackgroundChange<P>,
    change_b: BackgroundChange<P>,
)
    requires
        !a.wayland,
        !b.wayland,
        a.cef_host.x11 is Some,
        b.cef_host.x11 is Some,
        a.cef_host.x11->0.xid == b.cef_host.x11->0.xid,
        a.restyles(true, Some(color), next_a, change_a),
        b.restyles(true, Some(color), next_b, change_b),
    ensures
        change_a.style is Install,
        change_b.style is Install,
        change_a.style->Install_class@ == change_b.style->Install_class@,
        change_a.style->Install_css@ == change_b.style->Install_css@,
{
}

/// Under Wayland, and without a GTK window, a color changes nothing at all.
pub proof fn colors_without_a_style_change_nothing<P>(
    window: AppWindow<P>,
    has_gtk_window: bool,
    color: Option<Color>,
    next: AppWindow<P>,
    change: BackgroundChange<P>,
)
    requires
        window.wayland || !has_gtk_window,
        window.restyles(has_gtk_window, color, next, change),
    ensures
        next == window,
        change.previous is None,
        change.style is Keep,
{
}

/// Pictures are painted on X11: a window of some extent whose first off-screen child
/// has a picture is painted with that picture at the window's size, as soon as the
/// plain surface is there, which is asked for until then. Neither the color nor the
/// transparency of the window has a say in it.
pub proof fn x11_pictures_are_painted<P>(
    window: AppWindow<P>,
    children: Seq<ChildFrame>,
    child: usize,
    size: PhysicalSize,
    argb_surface: Availability,
)
    requires
        !window.wayland,
        child < children.len(),
        children[child as int] is Drawable,
        forall|k: int| 0 <= k < child ==> #[trigger] children[k] is Absent,
        size.width >= 1,
        size.height >= 1,
    ensures
        is_first_frame(children, Some(child)),
        ({
            let action = window.draw_action(
                children,
                Some(child),
                size,
                argb_surface,
                Availability::Ready,
            );
            &&& action is Paint
            &&& action->Paint_child == Some(child)
            &&& action->Paint_width == size.width
            &&& action->Paint_height == size.height
            &&& action->Paint_color == background_pixel_spec(
                window.background_color,
                window.transparent,
            )
        }),
        window.draw_action(children, Some(child), size, argb_surface, Availability::Missing)
            is CreateSurface,
        window.draw_action(children, Some(child), size, argb_surface, Availability::Failed)
            is Leave,
{
}

/// Frames are presented on Wayland: the frame of the first off-screen child, with a
/// picture or not yet, goes to the alpha-capable surface at the window's size, as
/// soon as that is there, which is asked for until then. The plain surface, the color
/// and the transparency of the window have no say in it.
pub proof fn wayland_frames_are_presented<P>(
    window: AppWindow<P>,
    children: Seq<ChildFrame>,
    child: usize,
    size: PhysicalSize,
    surface: Availability,
)
    requires
        window.wayland,
        child < children.len(),
        children[child as int] is Drawable || children[child as int] is Pending,
        forall|k: int| 0 <= k < child ==> #[trigger] children[k] is Absent,
    ensures
        is_first_frame(children, Some(child)),
        ({
            let action = window.draw_action(
                children,
                Some(child),
                size,
                Availability::Ready,
                surface,
            );
            &&& action is PresentFrame
            &&& action->PresentFrame_child == child
            &&& action->PresentFrame_width == size.width
            &&& action->PresentFrame_height == size.height
        }),
        window.draw_action(children, Some(child), size, Availability::Missing, surface)
            is CreateArgbSurface,
        window.draw_action(children, Some(child), size, Availability::Failed, surface) is Leave,
{
}

/// A Wayland window none of whose children renders off-screen is filled: with its
/// color if it has one, with nothing if it is transparent and else with white, over
/// all of its size, as soon as the plain surface is there.
pub proof fn wayland_backgrounds_are_filled<P>(
    window: AppWindow<P>,
    children: Seq<ChildFrame>,
    size: PhysicalSize,
    argb_surface: Availability,
)
    requires
        window.wayland,
        forall|k: int| 0 <= k < children.len() ==> #[trigger] children[k] is Absent,
        size.width >= 1,
        size.height >= 1,
    ensures
        is_first_frame(children, None),
        ({
            let action = window.draw_action(
                children,
                None,
                size,
                argb_surface,
                Availability::Ready,
            );
            let color = window.background_color;
            &&& action is Paint
            &&& action->Paint_child is None
            &&& action->Paint_width == size.width
            &&& action->Paint_height == size.height
            &&& color matches Some(c) ==> action->Paint_color == c.0 * 0x1_0000 + c.1 * 0x100 + c.2
            &&& color is None && window.transparent ==> action->Paint_color == 0
            &&& color is None && !window.transparent ==> action->Paint_color == 0xff_ffff
        }),
        window.draw_action(children, None, size, argb_surface, Availability::Missing)
            is CreateSurface,
        window.draw_action(children, None, size, argb_surface, Availability::Failed) is Leave,
{
}

/// A window without extent has nothing painted on the plain surface, and none is
/// created for it.
pub proof fn nothing_is_painted_without_extent<P>(
    window: AppWindow<P>,
    children: Seq<ChildFrame>,
    frame: Option<usize>,
    size: PhysicalSize,
    argb_surface: Availability,
    surface: Availability,
)
    requires
        size.width == 0 || size.height == 0,
        !window.wayland || frame is None,
    ensures
        window.draw_action(children, frame, size, argb_surface, surface) is Leave,
{
}

/// The frame that counts is that of the first child that renders off-screen, and
/// there is none exactly if no child does.
pub proof fn first_frame_comes_before_all_others(children: Seq<ChildFrame>, index: Option<usize>)
    requires
        is_first_frame(children, index),
    ensures
        index is None ==> forall|k: int| 0 <= k < children.len() ==> #[trigger] children[k] is Absent,
        index is Some ==> index->0 < children.len() && (children[index->0 as int] is Pending
            || children[index->0 as int] is Drawable),
        forall|k: int|
            0 <= k < children.len() && !(#[trigger] children[k] is Absent) ==> index is Some
                && index->0 <= k,
{
}

/// A child without a frame has nothing to show, and one with a frame has a picture
/// exactly if no byte of the painted extent is missing.
pub proof fn children_show_whole_pictures(frame: &OsrFrame)
    ensures
        child_frame_spec(None) is Absent,
        child_frame_spec(Some(frame)) is Drawable <==> frame.paint_width >= 1
            && frame.paint_height >= 1 && frame.paint_width * frame.paint_height * 4
            <= frame.bgra@.len(),
        child_frame_spec(Some(frame)) is Pending <==> !(child_frame_spec(
            Some(frame),
        ) is Drawable),
{
}

/// The background pixel has the color's red, green and blue in its three lower
/// bytes; without a color it is empty for a transparent window and white otherwise.
pub proof fn background_pixel_has_the_color(color: Color, transparent: bool)
    ensures
        ({
            let pixel = background_pixel_spec(Some(color), transparent);
            &&& pixel / 0x1_0000 == color.0
            &&& pixel / 0x100 % 0x100 == color.1
            &&& pixel % 0x100 == color.2
        }),
        background_pixel_spec(None, true) == 0,
        background_pixel_spec(None, false) == 0xff_ffff,
{
}

/// Both kinds of X11 handle give their window's id, and no other handle counts as
/// one of X11.
pub proof fn x11_handles_give_their_window(xlib: u64, xcb: u32, surface: u64)
    ensures
        (WindowHandle::Xlib { window: xlib }).is_x11(),
        (WindowHandle::Xlib { window: xlib }).xid() == xlib,
        (WindowHandle::Xcb { window: xcb }).is_x11(),
        (WindowHandle::Xcb { window: xcb }).xid() == xcb,
        !(WindowHandle::Wayland { surface }).is_x11(),
        !WindowHandle::Other.is_x11(),
{
}

/// States are asked for by the names that window managers know them by.
pub proof fn states_have_their_standard_names(state: WmState)
    ensures
        state is SkipTaskbar ==> state.atom() == "_NET_WM_STATE_SKIP_TASKBAR"@,
        state is Sticky ==> state.atom() == "_NET_WM_STATE_STICKY"@,
{
}

} // verus!
