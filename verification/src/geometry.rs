//! Sizes and positions: from GTK's logical units to the device pixels of X11.

use vstd::prelude::*;

use crate::single;

verus! {

/// An extent in device pixels.
#[derive(Clone, Copy, Debug, PartialEq, Eq, Structural)]
pub struct PhysicalSize {
    pub width: u32,
    pub height: u32,
}

/// A position in logical units; both coordinates are bit patterns of
/// single-precision numbers.
#[derive(Clone, Copy, Debug, PartialEq, Eq, Structural)]
pub struct LogicalPoint {
    pub x: u32,
    pub y: u32,
}

/// The content area as GTK laid it out, in logical units.
#[derive(Clone, Copy, Debug, PartialEq, Eq, Structural)]
pub struct ContentArea {
    pub width: i32,
    pub height: i32,
    /// Where the area's origin lies in the window, if GTK can tell.
    pub origin: Option<LogicalPoint>,
}

/// Where an X11 window is to be put, in device pixels.
#[derive(Clone, Copy, Debug, PartialEq, Eq, Structural)]
pub struct MoveResize {
    pub xid: u64,
    pub x: i32,
    pub y: i32,
    pub width: u32,
    pub height: u32,
}

/// A logical extent in device pixels, held in the range of `u32`.
pub open spec fn scaled_extent_spec(logical: int, scale_factor: int) -> int {
    let exact = logical * scale_factor;
    if exact < 0 {
        0
    } else if exact > u32::MAX {
        u32::MAX as int
    } else {
        exact
    }
}

/// The bounds of the X11 window `xid` over a content area, every value scaled.
pub open spec fn container_bounds(xid: u64, area: ContentArea, scale_factor: int) -> MoveResize {
    MoveResize {
        xid,
        x: match area.origin {
            Some(point) => single::scaled_offset_spec(point.x, scale_factor) as i32,
            None => 0,
        },
        y: match area.origin {
            Some(point) => single::scaled_offset_spec(point.y, scale_factor) as i32,
            None => 0,
        },
        width: scaled_extent_spec(area.width as int, scale_factor) as u32,
        height: scaled_extent_spec(area.height as int, scale_factor) as u32,
    }
}

/// Scales a logical extent to device pixels.
pub fn scaled_extent(logical: i32, scale_factor: i32) -> (r: u32)
    ensures
        r == scaled_extent_spec(logical as int, scale_factor as int),
{
    assert(-0x8000_0000 * 0x8000_0000 <= logical * scale_factor <= 0x8000_0000 * 0x8000_0000)
        by (nonlinear_arith)
        requires
            -0x8000_0000 <= logical <= 0x7fff_ffff,
            -0x8000_0000 <= scale_factor <= 0x7fff_ffff,
    ;
    let exact = logical as i64 * scale_factor as i64;
    if exact < 0 {
        0
    } else if exact > 0xffff_ffff {
        0xffff_ffff
    } else {
        exact as u32
    }
}

/// Places the X11 host over the GTK content area and gives its new size.
///
/// GTK measures widgets in logical units while the X11 window is sized in device
/// pixels, so every value is scaled: without that the host would cover only a
/// part of the window on a HiDPI screen.
pub fn set_cef_container_bounds(xid: u64, area: ContentArea, scale_factor: i32) -> (r: (
    MoveResize,
    PhysicalSize,
))
    ensures
        r.0 == container_bounds(xid, area, scale_factor as int),
        r.1 == (PhysicalSize { width: r.0.width, height: r.0.height }),
{
    let width = scaled_extent(area.width, scale_factor);
    let height = scaled_extent(area.height, scale_factor);
    let (x, y) = match area.origin {
        Some(point) => (
            single::scaled_offset(point.x, scale_factor),
            single::scaled_offset(point.y, scale_factor),
        ),
        None => (0, 0),
    };
    (MoveResize { xid, x, y, width, height }, PhysicalSize { width, height })
}

/// Geometry of the host of the browser windows, kept up to date by GTK's layout.
#[derive(Clone, Copy, Debug)]
pub struct HostGeometry {
    pub size: PhysicalSize,
    /// Set when `size` changed and the browsers have not been laid out against it.
    pub needs_relayout: bool,
}

/// The scale factor that a surface reports, never below one.
pub open spec fn effective_scale(reported: int) -> int {
    if reported >= 1 {
        reported
    } else {
        1
    }
}

impl Default for HostGeometry {
    fn default() -> (geometry: Self)
        ensures
            geometry == (HostGeometry {
                size: PhysicalSize { width: 0, height: 0 },
                needs_relayout: false,
            }),
    {
        HostGeometry { size: PhysicalSize { width: 0, height: 0 }, needs_relayout: false }
    }
}

impl HostGeometry {
    /// The geometry once GTK has laid the host out at `size`.
    pub open spec fn laid_out(self, size: PhysicalSize) -> HostGeometry {
        HostGeometry { size, needs_relayout: self.needs_relayout || self.size != size }
    }

    /// The geometry once the browsers have been laid out against it.
    pub open spec fn settled(self) -> HostGeometry {
        HostGeometry { size: self.size, needs_relayout: false }
    }

    /// The geometry after a run of layouts.
    pub open spec fn laid_out_all(self, sizes: Seq<PhysicalSize>) -> HostGeometry
        decreases sizes.len(),
    {
        if sizes.len() == 0 {
            self
        } else {
            self.laid_out_all(sizes.drop_last()).laid_out(sizes.last())
        }
    }

    /// Takes over a size that GTK laid the host out at.
    ///
    /// The content area may change without the toplevel being resized, when a
    /// menu bar is attached, hidden or shown, so the change is remembered until
    /// the browsers have been laid out again.
    pub fn resize(&mut self, size: PhysicalSize)
        ensures
            *final(self) == old(self).laid_out(size),
    {
        if self.size != size {
            self.needs_relayout = true;
        }
        self.size = size;
    }

    /// Handles a layout of the surface: gives the bounds to move the X11 host to
    /// and remembers whether its size changed.
    pub fn layout(&mut self, xid: u64, area: ContentArea, reported_scale: i32) -> (bounds:
        MoveResize)
        ensures
            bounds == container_bounds(xid, area, effective_scale(reported_scale as int)),
            *final(self) == old(self).laid_out(
                PhysicalSize { width: bounds.width, height: bounds.height },
            ),
    {
        let scale_factor = if reported_scale >= 1 {
            reported_scale
        } else {
            1
        };
        let (bounds, size) = set_cef_container_bounds(xid, area, scale_factor);
        self.resize(size);
        bounds
    }

    /// Whether the host was resized since the browsers were last laid out; asking
    /// settles it.
    pub fn take_needs_relayout(&mut self) -> (r: bool)
        ensures
            r == old(self).needs_relayout,
            *final(self) == old(self).settled(),
    {
        let r = self.needs_relayout;
        self.needs_relayout = false;
        r
    }
}

/// On a screen of scale one or more the host covers the content area in full:
/// its size is the logical size times the scale, as far as that fits.
pub proof fn host_covers_content_area(xid: u64, area: ContentArea, reported_scale: int)
    requires
        area.width >= 0,
        area.height >= 0,
        area.width * effective_scale(reported_scale) <= u32::MAX,
        area.height * effective_scale(reported_scale) <= u32::MAX,
    ensures
        container_bounds(xid, area, effective_scale(reported_scale)).width == area.width
            * effective_scale(reported_scale),
        container_bounds(xid, area, effective_scale(reported_scale)).height == area.height
            * effective_scale(reported_scale),
        container_bounds(xid, area, effective_scale(reported_scale)).width >= area.width,
        container_bounds(xid, area, effective_scale(reported_scale)).height >= area.height,
{
    let scale = effective_scale(reported_scale);
    assert(0 <= area.width <= area.width * scale && 0 <= area.height <= area.height * scale)
        by (nonlinear_arith)
        requires
            area.width >= 0,
            area.height >= 0,
            scale >= 1,
    ;
}

/// After a run of layouts the host has the size of the last one, and a relayout
/// is called for exactly if one was already or some layout left the size that
/// the run began with.
pub proof fn relayout_iff_size_left(geometry: HostGeometry, sizes: Seq<PhysicalSize>)
    ensures
        geometry.laid_out_all(sizes).size == if sizes.len() == 0 {
            geometry.size
        } else {
            sizes.last()
        },
        geometry.laid_out_all(sizes).needs_relayout <==> geometry.needs_relayout || exists|i: int|
            0 <= i < sizes.len() && #[trigger] sizes[i] != geometry.size,
    decreases sizes.len(),
{
    if sizes.len() > 0 {
        let before = sizes.drop_last();
        relayout_iff_size_left(geometry, before);
        assert(forall|i: int| 0 <= i < before.len() ==> #[trigger] sizes[i] == before[i]);
        if exists|i: int| 0 <= i < before.len() && #[trigger] before[i] != geometry.size {
            let i = choose|i: int| 0 <= i < before.len() && #[trigger] before[i] != geometry.size;
            assert(sizes[i] != geometry.size);
        } else if before.len() > 0 {
            assert(before[before.len() - 1] == geometry.size);
        }
        assert(sizes[sizes.len() - 1] == sizes.last());
    }
}

/// A change is reported once: settled, and laid out at the size it has, the host
/// calls for nothing.
pub proof fn relayout_reported_once(geometry: HostGeometry)
    ensures
        geometry.settled().laid_out(geometry.size) == geometry.settled(),
        !geometry.settled().needs_relayout,
{
}

/// Every value is scaled, positions like sizes: where the content area begins at
/// whole logical coordinates, the host is put at these times the scale, in both
/// directions, and it has the logical size times the scale.
pub proof fn position_and_size_are_scaled_alike(
    xid: u64,
    area: ContentArea,
    scale_factor: i32,
    x: int,
    y: int,
)
    requires
        area.origin is Some,
        single::stands_for_whole(area.origin->0.x, x),
        single::stands_for_whole(area.origin->0.y, y),
        i32::MIN <= x * scale_factor <= i32::MAX,
        i32::MIN <= y * scale_factor <= i32::MAX,
        0 <= area.width * scale_factor <= u32::MAX,
        0 <= area.height * scale_factor <= u32::MAX,
    ensures
        container_bounds(xid, area, scale_factor as int).xid == xid,
        container_bounds(xid, area, scale_factor as int).x == x * scale_factor,
        container_bounds(xid, area, scale_factor as int).y == y * scale_factor,
        container_bounds(xid, area, scale_factor as int).width == area.width * scale_factor,
        container_bounds(xid, area, scale_factor as int).height == area.height * scale_factor,
{
    single::whole_numbers_are_scaled_exactly(area.origin->0.x, x, scale_factor);
    single::whole_numbers_are_scaled_exactly(area.origin->0.y, y, scale_factor);
}

/// Each coordinate of the host is the offset of the same coordinate of the content
/// area, scaled by the one factor that there is; where GTK cannot tell the area's
/// place, the host is put at the window's origin.
pub proof fn each_coordinate_is_scaled_on_its_own(
    xid: u64,
    width: i32,
    height: i32,
    point: LogicalPoint,
    scale_factor: i32,
)
    ensures
        ({
            let placed = ContentArea { width, height, origin: Some(point) };
            let bounds = container_bounds(xid, placed, scale_factor as int);
            &&& bounds.xid == xid
            &&& bounds.x == single::scaled_offset_spec(point.x, scale_factor as int)
            &&& bounds.y == single::scaled_offset_spec(point.y, scale_factor as int)
        }),
        ({
            let unplaced = ContentArea { width, height, origin: None };
            let bounds = container_bounds(xid, unplaced, scale_factor as int);
            &&& bounds.xid == xid
            &&& bounds.x == 0
            &&& bounds.y == 0
        }),
{
}

/// An extent in device pixels is the logical one times the scale; what would be
/// negative becomes nothing, and what is beyond `u32` its last value. The place of
/// the area has no say in it.
pub proof fn extents_are_held_in_range(xid: u64, area: ContentArea, scale_factor: i32)
    ensures
        ({
            let bounds = container_bounds(xid, area, scale_factor as int);
            let across = area.width * scale_factor;
            let down = area.height * scale_factor;
            &&& across <= 0 ==> bounds.width == 0
            &&& 0 <= across <= 0xffff_ffff ==> bounds.width == across
            &&& across >= 0xffff_ffff ==> bounds.width == 0xffff_ffff
            &&& down <= 0 ==> bounds.height == 0
            &&& 0 <= down <= 0xffff_ffff ==> bounds.height == down
            &&& down >= 0xffff_ffff ==> bounds.height == 0xffff_ffff
        }),
{
}

/// The scale in effect is the one that is reported, unless that is below one.
pub proof fn reported_scale_is_in_effect(reported: int)
    ensures
        reported >= 1 ==> effective_scale(reported) == reported,
        reported < 1 ==> effective_scale(reported) == 1,
{
}

/// A layout is taken over at once, and calls for a relayout exactly if the size is
/// another or a relayout was already called for; only being laid out settles that,
/// and it leaves the size alone.
pub proof fn layout_is_taken_over(geometry: HostGeometry, size: PhysicalSize)
    ensures
        geometry.laid_out(size).size == size,
        geometry.laid_out(size).needs_relayout <==> geometry.needs_relayout || geometry.size.width
            != size.width || geometry.size.height != size.height,
        geometry.settled().size == geometry.size,
        !geometry.settled().needs_relayout,
{
}

} // verus!
