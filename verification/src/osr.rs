//! Off-screen rendering: the frame a software-rendered browser paints into.

use vstd::prelude::*;
use vstd::slice::slice_subrange;

use crate::single;

verus! {

/// What a paint callback carries: the page itself or a popup above it.
#[derive(Clone, Copy, Debug, PartialEq, Eq, Structural)]
pub enum PaintElementType {
    View,
    Popup,
}

/// A rectangle in the browser's own coordinates.
#[derive(Clone, Copy, Debug, PartialEq, Eq, Structural)]
pub struct Rect {
    pub x: i32,
    pub y: i32,
    pub width: i32,
    pub height: i32,
}

/// The most recent software-rendered view frame.
///
/// Popup painting is not represented: a page that opens native menus would need
/// a second buffer with bounds of its own.
pub struct OsrFrame {
    pub view_width: i32,
    pub view_height: i32,
    /// The device scale factor as the bit pattern of a single-precision number.
    pub device_scale_factor: u32,
    pub paint_width: i32,
    pub paint_height: i32,
    /// Rows of pixels from the top, four bytes each: blue, green, red, alpha.
    pub bgra: Vec<u8>,
}

/// Bytes that a picture of the given extent takes at four bytes a pixel.
pub open spec fn bgra_len(width: int, height: int) -> int {
    width * height * 4
}

/// Whether a paint callback replaces the stored picture.
pub open spec fn accepts_paint(
    kind: PaintElementType,
    has_buffer: bool,
    width: int,
    height: int,
) -> bool {
    &&& kind == PaintElementType::View
    &&& has_buffer
    &&& width > 0
    &&& height > 0
    &&& bgra_len(width, height) <= usize::MAX
}

/// The greater of two integers.
pub open spec fn greater(a: int, b: int) -> int {
    if a >= b {
        a
    } else {
        b
    }
}

/// Number of bytes that a paint callback hands over, or `None` where the
/// callback is to be ignored.
pub fn paint_len(
    kind: PaintElementType,
    has_buffer: bool,
    width: i32,
    height: i32,
) -> (len: Option<usize>)
    ensures
        len is Some <==> accepts_paint(kind, has_buffer, width as int, height as int),
        len matches Some(n) ==> n == bgra_len(width as int, height as int),
{
    if kind != PaintElementType::View || !has_buffer || width <= 0 || height <= 0 {
        return None;
    }
    match (width as usize).checked_mul(height as usize) {
        Some(pixels) => pixels.checked_mul(4),
        None => {
            assert(width * height * 4 > usize::MAX) by (nonlinear_arith)
                requires
                    width * height > usize::MAX,
            ;
            None
        },
    }
}

impl Default for OsrFrame {
    fn default() -> (frame: Self)
        ensures
            frame.view_width == 0,
            frame.view_height == 0,
            frame.device_scale_factor == 0,
            frame.paint_width == 0,
            frame.paint_height == 0,
            frame.bgra@ == Seq::<u8>::empty(),
    {
        OsrFrame {
            view_width: 0,
            view_height: 0,
            device_scale_factor: 0,
            paint_width: 0,
            paint_height: 0,
            bgra: Vec::new(),
        }
    }
}

impl OsrFrame {
    /// The frame holds every pixel of its painted extent, and that extent is not
    /// empty.
    pub open spec fn has_pixels(&self) -> bool {
        &&& self.paint_width > 0
        &&& self.paint_height > 0
        &&& self.bgra@.len() >= bgra_len(self.paint_width as int, self.paint_height as int)
    }

    /// The frame holds the picture of this extent that `pixels` begins with.
    pub open spec fn holds(&self, pixels: Seq<u8>, width: i32, height: i32) -> bool {
        &&& self.paint_width == width
        &&& self.paint_height == height
        &&& self.bgra@ == pixels.take(bgra_len(width as int, height as int))
    }

    /// Answers where the view lies: at the origin and never smaller than one
    /// pixel either way.
    pub fn view_rect(&self, rect: Option<&mut Rect>)
        ensures
            rect matches Some(r) ==> *final(r) == (Rect {
                x: 0,
                y: 0,
                width: greater(self.view_width as int, 1) as i32,
                height: greater(self.view_height as int, 1) as i32,
            }),
    {
        let rect = match rect {
            Some(rect) => rect,
            None => {
                return;
            },
        };
        *rect = Rect {
            x: 0,
            y: 0,
            width: if self.view_width > 1 { self.view_width } else { 1 },
            height: if self.view_height > 1 { self.view_height } else { 1 },
        };
    }

    /// Writes the device scale factor, never below one, where there is a place
    /// for it, and answers whether there was.
    pub fn screen_info(&self, device_scale_factor: Option<&mut u32>) -> (written: i32)
        ensures
            written == if device_scale_factor is Some { 1int } else { 0int },
            device_scale_factor matches Some(bits) ==> *final(bits) == single::at_least_one_spec(
                self.device_scale_factor,
            ),
    {
        let target = match device_scale_factor {
            Some(target) => target,
            None => {
                return 0;
            },
        };
        *target = single::at_least_one(self.device_scale_factor);
        1
    }

    /// Takes over the picture of a paint callback and answers whether the window
    /// has to be redrawn for it.
    ///
    /// A buffer holds at least as many bytes as the extent it is announced with.
    pub fn on_paint(
        &mut self,
        kind: PaintElementType,
        buffer: Option<&[u8]>,
        width: i32,
        height: i32,
    ) -> (redraw: bool)
        requires
            accepts_paint(kind, buffer is Some, width as int, height as int) ==> buffer->0@.len()
                >= bgra_len(width as int, height as int),
        ensures
            redraw == accepts_paint(kind, buffer is Some, width as int, height as int),
            !redraw ==> *final(self) == *old(self),
            redraw ==> {
                &&& final(self).holds(buffer->0@, width, height)
                &&& final(self).has_pixels()
            },
            final(self).view_width == old(self).view_width,
            final(self).view_height == old(self).view_height,
            final(self).device_scale_factor == old(self).device_scale_factor,
    {
        let buffer = match buffer {
            Some(buffer) => buffer,
            None => {
                return false;
            },
        };
        let len = match paint_len(kind, true, width, height) {
            Some(len) => len,
            None => {
                return false;
            },
        };
        let pixels = slice_subrange(buffer, 0, len);
        self.paint_width = width;
        self.paint_height = height;
        self.bgra.clear();
        self.bgra.extend_from_slice(pixels);
        assert(self.bgra@ =~= buffer@.take(len as int));
        true
    }
}

/// A picture takes four bytes a pixel: none without rows, and four bytes for each
/// column of one more row.
pub proof fn each_pixel_takes_four_bytes(width: int, height: int)
    ensures
        bgra_len(width, 0) == 0,
        bgra_len(width, height + 1) == bgra_len(width, height) + width + width + width + width,
{
    assert(width * 0 == 0 && width * (height + 1) == width * height + width) by (nonlinear_arith);
}

/// A paint callback counts exactly if it carries the page itself, has pixels to
/// hand over and an extent of at least one pixel, and its bytes can be counted.
/// A popup never takes the place of the page.
pub proof fn only_pictures_of_the_page_count(has_buffer: bool, width: i32, height: i32)
    ensures
        !accepts_paint(PaintElementType::Popup, has_buffer, width as int, height as int),
        accepts_paint(PaintElementType::View, has_buffer, width as int, height as int)
            <==> has_buffer && width >= 1 && height >= 1 && width * height * 4 <= usize::MAX,
{
}

/// A frame that has taken a picture over has the picture's extent and its bytes,
/// one by one and no others, and so has it to show.
pub proof fn picture_is_taken_over_whole(
    frame: &OsrFrame,
    pixels: Seq<u8>,
    width: i32,
    height: i32,
)
    requires
        frame.holds(pixels, width, height),
        width >= 1,
        height >= 1,
        width * height * 4 <= pixels.len(),
    ensures
        frame.paint_width == width,
        frame.paint_height == height,
        frame.bgra@.len() == width * height * 4,
        forall|i: int| 0 <= i < width * height * 4 ==> #[trigger] frame.bgra@[i] == pixels[i],
        frame.has_pixels(),
{
    assert(0 <= width * height) by (nonlinear_arith)
        requires
            width >= 1,
            height >= 1,
    ;
}

/// There is a picture exactly if both extents are at least one pixel and no byte
/// of it is missing; bytes beyond it do not matter.
pub proof fn picture_is_there_if_no_byte_is_missing(frame: &OsrFrame)
    ensures
        frame.has_pixels() <==> frame.paint_width >= 1 && frame.paint_height >= 1
            && frame.paint_width * frame.paint_height * 4 <= frame.bgra@.len(),
{
}

/// The greater of two is one of them and below neither, so an extent raised to one
/// pixel is at least that, and larger ones stay.
pub proof fn greater_is_one_of_both(a: int, b: int)
    ensures
        greater(a, b) == a || greater(a, b) == b,
        greater(a, b) >= a,
        greater(a, b) >= b,
{
}

} // verus!
