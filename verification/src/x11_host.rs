//! The X11 window that hosts the browser windows of a toplevel.
//!
//! GTK owns the toplevel and its menu, while the browsers are native X11 child
//! windows. Their host is kept over GTK's content box, so that they never cover
//! GTK's own widgets:
//!
//! - toplevel window
//!   - box
//!     - menu
//!     - content box
//!   - host, over the content box
//!     - browser
//!     - browser

use vstd::prelude::*;

use crate::geometry;
use crate::geometry::{ContentArea, HostGeometry, MoveResize, PhysicalSize};

verus! {

/// Color depth of the host's visual: the visual that the GTK window has may be
/// one in which browsers do not render correctly.
pub const CONTAINER_DEPTH: i32 = 24;

/// The X11 resources of a host.
#[derive(Clone, Copy, Debug, PartialEq, Eq, Structural)]
pub struct X11Host {
    pub xid: u64,
    pub colormap: u64,
}

/// How the pixels of a visual stand for colors.
#[derive(Clone, Copy, Debug, PartialEq, Eq, Structural)]
pub enum VisualClass {
    /// Each color channel has fixed bits of its own.
    TrueColor,
    /// Each channel's bits are looked up in a colormap that can be changed.
    DirectColor,
}

/// Whether a window shows something or only takes input.
#[derive(Clone, Copy, Debug, PartialEq, Eq, Structural)]
pub enum WindowClass {
    InputOutput,
    InputOnly,
}

/// The events of a window that its owner hears of; of others it does not.
#[derive(Clone, Copy, Debug, PartialEq, Eq, Structural)]
pub struct EventMask {
    /// A part of the window has to be drawn again.
    pub exposure: bool,
    /// The window was moved, resized, mapped, unmapped or destroyed.
    pub structure_notify: bool,
}

/// How far the creation of a host's window has come, with the server's replies.
#[derive(Clone, Copy, Debug, PartialEq, Eq, Structural)]
pub enum ContainerProgress {
    Begin,
    VisualMatched { status: i32 },
    ColormapCreated { colormap: u64 },
    WindowCreated { colormap: u64, xid: u64 },
}

/// What is to be asked of the X11 server next.
#[derive(Clone, Copy, Debug, PartialEq, Eq, Structural)]
pub enum ContainerAction {
    /// Find a visual of this depth and class on the default screen.
    MatchVisual { depth: i32, class: VisualClass },
    /// Create a colormap for the visual found, allocating none of its entries.
    CreateColormap,
    /// Create a window with the visual found and its depth.
    CreateWindow {
        parent: u64,
        x: i32,
        y: i32,
        width: u32,
        height: u32,
        border_width: u32,
        border_pixel: u64,
        colormap: u64,
        window_class: WindowClass,
        event_mask: EventMask,
    },
    /// Free the colormap; there is no host.
    FreeColormap { colormap: u64 },
    /// Map the window; it is the host.
    MapWindow(X11Host),
    /// There is no host and nothing to free.
    GiveUp,
}

/// The next action for the host of `parent`, given the replies so far; the server
/// answers zero to what it cannot do.
pub open spec fn container_action(
    parent: u64,
    initial_size: PhysicalSize,
    progress: ContainerProgress,
) -> ContainerAction {
    match progress {
        ContainerProgress::Begin => ContainerAction::MatchVisual {
            depth: 24,
            class: VisualClass::TrueColor,
        },
        ContainerProgress::VisualMatched { status } => if status == 0 {
            ContainerAction::GiveUp
        } else {
            ContainerAction::CreateColormap
        },
        ContainerProgress::ColormapCreated { colormap } => if colormap == 0 {
            ContainerAction::GiveUp
        } else {
            ContainerAction::CreateWindow {
                parent,
                x: 0,
                y: 0,
                width: initial_size.width,
                height: initial_size.height,
                border_width: 0,
                border_pixel: 0,
                colormap,
                window_class: WindowClass::InputOutput,
                event_mask: EventMask { exposure: true, structure_notify: true },
            }
        },
        ContainerProgress::WindowCreated { colormap, xid } => if xid == 0 {
            ContainerAction::FreeColormap { colormap }
        } else {
            ContainerAction::MapWindow(X11Host { xid, colormap })
        },
    }
}

/// Decides the next step of creating the window that hosts the browsers.
pub fn create_cef_container(
    parent_xid: u64,
    initial_size: PhysicalSize,
    progress: ContainerProgress,
) -> (action: ContainerAction)
    ensures
        action == container_action(parent_xid, initial_size, progress),
{
    match progress {
        ContainerProgress::Begin => ContainerAction::MatchVisual {
            depth: CONTAINER_DEPTH,
            class: VisualClass::TrueColor,
        },
        ContainerProgress::VisualMatched { status } => if status == 0 {
            ContainerAction::GiveUp
        } else {
            ContainerAction::CreateColormap
        },
        ContainerProgress::ColormapCreated { colormap } => if colormap == 0 {
            ContainerAction::GiveUp
        } else {
            ContainerAction::CreateWindow {
                parent: parent_xid,
                x: 0,
                y: 0,
                width: initial_size.width,
                height: initial_size.height,
                border_width: 0,
                border_pixel: 0,
                colormap,
                window_class: WindowClass::InputOutput,
                event_mask: EventMask { exposure: true, structure_notify: true },
            }
        },
        ContainerProgress::WindowCreated { colormap, xid } => if xid == 0 {
            ContainerAction::FreeColormap { colormap }
        } else {
            ContainerAction::MapWindow(X11Host { xid, colormap })
        },
    }
}

/// What the server holds for a host.
#[verifier::ext_equal]
pub struct ServerResources {
    pub windows: Set<u64>,
    pub colormaps: Set<u64>,
}

impl ServerResources {
    /// Nothing is held.
    pub open spec fn none() -> ServerResources {
        ServerResources { windows: Set::empty(), colormaps: Set::empty() }
    }

    /// Exactly the resources of this host are held.
    pub open spec fn of(host: X11Host) -> ServerResources {
        ServerResources {
            windows: Set::empty().insert(host.xid),
            colormaps: Set::empty().insert(host.colormap),
        }
    }

    /// What is held once the host's window is destroyed and its colormap freed.
    pub open spec fn disposed(self, container: Option<X11Host>) -> ServerResources {
        match container {
            Some(host) => ServerResources {
                windows: self.windows.remove(host.xid),
                colormaps: self.colormaps.remove(host.colormap),
            },
            None => self,
        }
    }
}

/// The host that comes of carrying out every action against a server with the
/// given replies, and what the server then holds.
pub open spec fn container_outcome(
    parent: u64,
    size: PhysicalSize,
    status: i32,
    colormap: u64,
    xid: u64,
) -> (Option<X11Host>, ServerResources) {
    let with_colormap = ServerResources {
        windows: Set::empty(),
        colormaps: Set::empty().insert(colormap),
    };
    match container_action(parent, size, ContainerProgress::VisualMatched { status }) {
        ContainerAction::CreateColormap => {
            match container_action(parent, size, ContainerProgress::ColormapCreated { colormap }) {
                ContainerAction::CreateWindow { colormap: used, .. } => {
                    match container_action(
                        parent,
                        size,
                        ContainerProgress::WindowCreated { colormap: used, xid },
                    ) {
                        ContainerAction::FreeColormap { colormap: freed } => (
                            None,
                            ServerResources {
                                colormaps: with_colormap.colormaps.remove(freed),
                                ..with_colormap
                            },
                        ),
                        ContainerAction::MapWindow(host) => (
                            Some(host),
                            ServerResources {
                                windows: with_colormap.windows.insert(xid),
                                ..with_colormap
                            },
                        ),
                        _ => (None, with_colormap),
                    }
                },
                _ => (None, ServerResources::none()),
            }
        },
        _ => (None, ServerResources::none()),
    }
}

/// The host of the browser windows of one toplevel; `P` is a style provider
/// installed on the display.
pub struct CefX11Host<P> {
    /// `None` under Wayland, where browsers are children of the surface or render
    /// off-screen.
    pub x11: Option<X11Host>,
    pub geometry: HostGeometry,
    /// The provider that carries the window's background color.
    pub background_color_provider: Option<P>,
}

/// What is left to free when a host goes.
pub struct Disposal<P> {
    /// To be removed from the display, first.
    pub provider: Option<P>,
    /// The window to be destroyed, then the colormap to be freed.
    pub container: Option<X11Host>,
}

/// Whether an X11 window has to be created for a host: under Wayland there is no
/// X11 window to be its parent.
pub fn needs_container(has_gtk_window: bool, wayland: bool) -> (r: bool)
    ensures
        r == (has_gtk_window && !wayland),
{
    has_gtk_window && !wayland
}

impl<P> CefX11Host<P> {
    /// What there is to free when the host goes.
    pub open spec fn leaves(self, disposal: Disposal<P>) -> bool {
        &&& disposal.provider == self.background_color_provider
        &&& disposal.container == self.x11
    }

    /// The host of a toplevel of the given size. There is none without a GTK
    /// window, nor where the X11 window that it needs could not be created.
    pub fn new(
        has_gtk_window: bool,
        wayland: bool,
        initial_size: PhysicalSize,
        container: Option<X11Host>,
    ) -> (host: Option<Self>)
        ensures
            host is Some <==> has_gtk_window && (wayland || container is Some),
            host matches Some(h) ==> {
                &&& h.x11 == if wayland {
                    None
                } else {
                    container
                }
                &&& h.geometry == (HostGeometry { size: initial_size, needs_relayout: false })
                &&& h.background_color_provider is None
            },
    {
        if !has_gtk_window {
            return None;
        }
        let x11 = if wayland {
            None
        } else {
            match container {
                Some(host) => Some(host),
                None => {
                    return None;
                },
            }
        };
        Some(
            CefX11Host {
                x11,
                geometry: HostGeometry { size: initial_size, needs_relayout: false },
                background_color_provider: None,
            },
        )
    }

    /// The X11 resources of a host that has some.
    pub fn x11(&self) -> (r: X11Host)
        requires
            self.x11 is Some,
        ensures
            self.x11 == Some(r),
    {
        self.x11.unwrap()
    }

    /// The host's size.
    pub fn size(&self) -> (r: PhysicalSize)
        ensures
            r == self.geometry.size,
    {
        self.geometry.size
    }

    /// Handles a layout of the toplevel's surface: gives the bounds to move the
    /// host to, where it has a window, and remembers a change of its size.
    pub fn layout(&mut self, area: ContentArea, reported_scale: i32) -> (bounds: Option<MoveResize>)
        ensures
            final(self).x11 == old(self).x11,
            final(self).background_color_provider == old(self).background_color_provider,
            bounds is Some <==> old(self).x11 is Some,
            bounds is None ==> final(self).geometry == old(self).geometry,
            bounds matches Some(b) ==> {
                &&& b == geometry::container_bounds(
                    old(self).x11->0.xid,
                    area,
                    geometry::effective_scale(reported_scale as int),
                )
                &&& final(self).geometry == old(self).geometry.laid_out(
                    PhysicalSize { width: b.width, height: b.height },
                )
            },
    {
        match self.x11 {
            Some(host) => Some(self.geometry.layout(host.xid, area, reported_scale)),
            None => None,
        }
    }

    /// Whether the host was resized by GTK since the browsers were last laid out.
    pub fn take_needs_relayout(&mut self) -> (r: bool)
        ensures
            r == old(self).geometry.needs_relayout,
            final(self).geometry == old(self).geometry.settled(),
            final(self).x11 == old(self).x11,
            final(self).background_color_provider == old(self).background_color_provider,
    {
        self.geometry.take_needs_relayout()
    }

    /// Hands out the provider that carries the background color.
    pub fn take_background_color_provider(&mut self) -> (provider: Option<P>)
        ensures
            provider == old(self).background_color_provider,
            final(self).background_color_provider is None,
            final(self).x11 == old(self).x11,
            final(self).geometry == old(self).geometry,
    {
        self.background_color_provider.take()
    }

    /// Keeps the provider that carries the background color.
    pub fn set_background_color_provider(&mut self, provider: P)
        ensures
            final(self).background_color_provider == Some(provider),
            final(self).x11 == old(self).x11,
            final(self).geometry == old(self).geometry,
    {
        self.background_color_provider = Some(provider);
    }

    /// Hands out what has to be freed now that the host goes; nothing is handed out
    /// a second time.
    pub fn dispose(&mut self) -> (disposal: Disposal<P>)
        ensures
            old(self).leaves(disposal),
            final(self).background_color_provider is None,
            final(self).x11 is None,
            final(self).geometry == old(self).geometry,
    {
        Disposal {
            provider: self.background_color_provider.take(),
            container: self.x11.take(),
        }
    }
}

/// Creating a host leaks nothing: it succeeds exactly if the server grants all
/// that is asked of it, in which case the server holds the host's resources and
/// no others; otherwise the server holds none. Disposing of the host frees them.
pub proof fn container_creation_leaks_nothing(
    parent: u64,
    size: PhysicalSize,
    status: i32,
    colormap: u64,
    xid: u64,
)
    ensures
        ({
            let (host, held) = container_outcome(parent, size, status, colormap, xid);
            &&& host is Some <==> status != 0 && colormap != 0 && xid != 0
            &&& host matches Some(h) ==> h == (X11Host { xid, colormap }) && held
                == ServerResources::of(h)
            &&& host is None ==> held == ServerResources::none()
            &&& held.disposed(host) == ServerResources::none()
        }),
{
    let (host, held) = container_outcome(parent, size, status, colormap, xid);
    if host is None {
        assert(held =~= ServerResources::none());
    } else {
        assert(held =~= ServerResources::of(host->0));
    }
    assert(held.disposed(host) =~= ServerResources::none());
}

/// What is asked of the server: first a true-color visual of 24 bits, then a
/// colormap, then a window of the toplevel's size in the parent's upper left corner,
/// without a border, with that colormap and told of exposure and of changes of its
/// structure; in the end the window is mapped, or the colormap freed.
pub proof fn host_is_asked_for_in_order(
    parent: u64,
    size: PhysicalSize,
    status: i32,
    colormap: u64,
    xid: u64,
)
    ensures
        container_action(parent, size, ContainerProgress::Begin) matches
            ContainerAction::MatchVisual { depth, class } && depth == 24
            && class is TrueColor,
        container_action(parent, size, ContainerProgress::VisualMatched { status })
            is CreateColormap <==> status != 0,
        container_action(parent, size, ContainerProgress::VisualMatched { status }) is GiveUp
            <==> status == 0,
        colormap == 0 ==> container_action(
            parent,
            size,
            ContainerProgress::ColormapCreated { colormap },
        ) is GiveUp,
        colormap != 0 ==> {
            let action = container_action(
                parent,
                size,
                ContainerProgress::ColormapCreated { colormap },
            );
            &&& action is CreateWindow
            &&& action->CreateWindow_parent == parent
            &&& action->CreateWindow_x == 0
            &&& action->CreateWindow_y == 0
            &&& action->CreateWindow_width == size.width
            &&& action->CreateWindow_height == size.height
            &&& action->CreateWindow_border_width == 0
            &&& action->CreateWindow_border_pixel == 0
            &&& action->CreateWindow_colormap == colormap
            &&& action->CreateWindow_window_class is InputOutput
            &&& action->CreateWindow_event_mask.exposure
            &&& action->CreateWindow_event_mask.structure_notify
        },
        xid == 0 ==> {
            let action = container_action(
                parent,
                size,
                ContainerProgress::WindowCreated { colormap, xid },
            );
            &&& action is FreeColormap
            &&& action->FreeColormap_colormap == colormap
        },
        xid != 0 ==> {
            let action = container_action(
                parent,
                size,
                ContainerProgress::WindowCreated { colormap, xid },
            );
            &&& action is MapWindow
            &&& action->0.xid == xid
            &&& action->0.colormap == colormap
        },
{
}

/// A host leaves behind just what it holds: its provider, its window and its
/// colormap, each exactly if it has one.
pub proof fn host_leaves_what_it_holds<P>(host: CefX11Host<P>, disposal: Disposal<P>)
    requires
        host.leaves(disposal),
    ensures
        disposal.provider == host.background_color_provider,
        disposal.container is Some <==> host.x11 is Some,
        host.x11 is Some ==> disposal.container->0.xid == host.x11->0.xid
            && disposal.container->0.colormap == host.x11->0.colormap,
{
}

} // verus!
