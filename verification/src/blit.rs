//! Nearest-neighbour scaling of an off-screen frame onto a window buffer.

use vstd::prelude::*;

use crate::osr;
use crate::osr::OsrFrame;

verus! {

/// The product of two extents, held at the greatest `usize`.
pub open spec fn saturated_product(a: int, b: int) -> int {
    if a * b <= usize::MAX {
        a * b
    } else {
        usize::MAX as int
    }
}

/// The source coordinate shown at the destination coordinate `at`, along an axis
/// on which `from` source pixels are spread over `to` destination pixels.
pub open spec fn source_coordinate(at: int, from: int, to: int) -> int {
    saturated_product(at, from) / to
}

/// The source pixel, counted row by row, shown by destination pixel `at`.
pub open spec fn source_pixel(
    at: int,
    src_width: int,
    src_height: int,
    dst_width: int,
    dst_height: int,
) -> int {
    source_coordinate(at / dst_width, src_height, dst_height) * src_width + source_coordinate(
        at % dst_width,
        src_width,
        dst_width,
    )
}

/// Channel `channel` of the pixel that `frame` shows at destination pixel `at`
/// of a `width` by `height` picture.
pub open spec fn scaled_channel(
    frame: &OsrFrame,
    width: int,
    height: int,
    at: int,
    channel: int,
) -> u8 {
    frame.bgra@[source_pixel(
        at,
        frame.paint_width as int,
        frame.paint_height as int,
        width,
        height,
    ) * 4 + channel]
}

/// The bytes of `frame` scaled to `width` by `height` pixels: all zero, fully
/// transparent, where the frame has nothing to show.
pub open spec fn scaled_bytes(frame: &OsrFrame, width: int, height: int) -> Seq<u8> {
    Seq::new(
        osr::bgra_len(width, height) as nat,
        |i: int|
            if frame.has_pixels() {
                scaled_channel(frame, width, height, i / 4, i % 4)
            } else {
                0
            },
    )
}

/// A pixel as one number: blue in the lowest byte, then green, red and alpha.
pub open spec fn packed(blue: int, green: int, red: int, alpha: int) -> int {
    blue + green * 0x100 + red * 0x1_0000 + alpha * 0x100_0000
}

/// The packed pixel that `frame` shows at destination pixel `at`.
pub open spec fn scaled_pixel(frame: &OsrFrame, width: int, height: int, at: int) -> int {
    packed(
        scaled_channel(frame, width, height, at, 0) as int,
        scaled_channel(frame, width, height, at, 1) as int,
        scaled_channel(frame, width, height, at, 2) as int,
        scaled_channel(frame, width, height, at, 3) as int,
    )
}

/// Every destination coordinate shows a coordinate of the source.
pub proof fn source_coordinate_in_range(at: int, from: int, to: int)
    requires
        0 <= at < to,
        0 < from,
    ensures
        0 <= source_coordinate(at, from, to) < from,
{
    let product = saturated_product(at, from);
    assert(0 <= at * from < from * to) by (nonlinear_arith)
        requires
            0 <= at < to,
            0 < from,
    ;
    assert(0 <= product / to < from) by (nonlinear_arith)
        requires
            0 <= product < from * to,
            0 < to,
    ;
}

/// Splitting a pixel number into its row and column gives both back.
proof fn lemma_row_column(row: int, column: int, width: int)
    requires
        0 <= row,
        0 <= column < width,
    ensures
        (row * width + column) / width == row,
        (row * width + column) % width == column,
{
    vstd::arithmetic::div_mod::lemma_fundamental_div_mod_converse(
        row * width + column,
        width,
        row,
        column,
    );
}

/// A pixel in range lies within the bytes of its picture.
proof fn lemma_pixel_in_bytes(row: int, column: int, width: int, height: int)
    requires
        0 <= row < height,
        0 <= column < width,
    ensures
        0 <= row * width <= row * width + column < width * height,
        row * width + column < (row + 1) * width <= width * height,
{
    assert(0 <= row * width && (row + 1) * width <= width * height && (row + 1) * width == row
        * width + width) by (nonlinear_arith)
        requires
            0 <= row < height,
            0 < width,
    ;
}

/// The source coordinate shown at destination coordinate `at`.
fn sample(at: usize, from: usize, to: usize) -> (r: usize)
    requires
        to > 0,
    ensures
        r == source_coordinate(at as int, from as int, to as int),
{
    let product: usize = match at.checked_mul(from) {
        Some(product) => product,
        None => usize::MAX,
    };
    product / to
}

impl OsrFrame {
    /// Whether there is a picture to draw.
    pub fn drawable(&self) -> (r: bool)
        ensures
            r == self.has_pixels(),
    {
        if self.paint_width <= 0 || self.paint_height <= 0 {
            return false;
        }
        let available = self.bgra.len();
        match (self.paint_width as usize).checked_mul(self.paint_height as usize) {
            Some(pixels) => match pixels.checked_mul(4) {
                Some(len) => available >= len,
                None => false,
            },
            None => {
                assert(self.paint_width * self.paint_height * 4 > usize::MAX) by (nonlinear_arith)
                    requires
                        self.paint_width * self.paint_height > usize::MAX,
                ;
                false
            },
        }
    }

    /// The first byte of the pixel shown at a row and column of the destination.
    fn source_offset(
        &self,
        row: usize,
        column: usize,
        dst_width: usize,
        dst_height: usize,
    ) -> (offset: usize)
        requires
            self.has_pixels(),
            row < dst_height,
            column < dst_width,
        ensures
            offset == source_pixel(
                row * dst_width + column,
                self.paint_width as int,
                self.paint_height as int,
                dst_width as int,
                dst_height as int,
            ) * 4,
            offset + 4 <= self.bgra@.len(),
    {
        let src_width = self.paint_width as usize;
        let src_height = self.paint_height as usize;
        assert(osr::bgra_len(src_width as int, src_height as int) <= self.bgra.len());
        let src_y = sample(row, src_height, dst_height);
        let src_x = sample(column, src_width, dst_width);
        proof {
            lemma_row_column(row as int, column as int, dst_width as int);
            source_coordinate_in_range(row as int, src_height as int, dst_height as int);
            source_coordinate_in_range(column as int, src_width as int, dst_width as int);
            lemma_pixel_in_bytes(src_y as int, src_x as int, src_width as int, src_height as int);
        }
        (src_y * src_width + src_x) * 4
    }

    /// Writes the frame, scaled to `width` by `height` pixels, over `dst`.
    pub fn copy_scaled(&self, dst: &mut [u8], width: usize, height: usize)
        requires
            old(dst)@.len() == osr::bgra_len(width as int, height as int),
        ensures
            final(dst)@ == scaled_bytes(self, width as int, height as int),
    {
        let ghost len = osr::bgra_len(width as int, height as int);
        assert(len == dst.len());
        if !self.drawable() {
            let mut i: usize = 0;
            while i < dst.len()
                invariant
                    i <= dst@.len(),
                    dst@.len() == len,
                    forall|k: int| 0 <= k < i ==> dst@[k] == 0,
                decreases dst@.len() - i,
            {
                dst[i] = 0;
                i += 1;
            }
            assert(dst@ =~= scaled_bytes(self, width as int, height as int));
            return;
        }
        let mut row: usize = 0;
        assert(row * width * 4 == 0) by (nonlinear_arith)
            requires
                row == 0,
        ;
        while row < height
            invariant
                self.has_pixels(),
                row <= height,
                len == osr::bgra_len(width as int, height as int) <= usize::MAX,
                dst@.len() == len,
                forall|k: int|
                    0 <= k < row * width * 4 ==> dst@[k] == #[trigger] scaled_channel(
                        self,
                        width as int,
                        height as int,
                        k / 4,
                        k % 4,
                    ),
            decreases height - row,
        {
            let mut column: usize = 0;
            while column < width
                invariant
                    self.has_pixels(),
                    row < height,
                    column <= width,
                    len == osr::bgra_len(width as int, height as int) <= usize::MAX,
                    dst@.len() == len,
                    forall|k: int|
                        0 <= k < (row * width + column) * 4 ==> dst@[k] == #[trigger] scaled_channel(
                            self,
                            width as int,
                            height as int,
                            k / 4,
                            k % 4,
                        ),
                decreases width - column,
            {
                let src = self.source_offset(row, column, width, height);
                proof {
                    lemma_pixel_in_bytes(row as int, column as int, width as int, height as int);
                }
                let at = (row * width + column) * 4;
                let ghost before = dst@;
                dst[at] = self.bgra[src];
                dst[at + 1] = self.bgra[src + 1];
                dst[at + 2] = self.bgra[src + 2];
                dst[at + 3] = self.bgra[src + 3];
                assert forall|k: int|
                    0 <= k < (row * width + column + 1) * 4 implies dst@[k]
                    == #[trigger] scaled_channel(
                    self,
                    width as int,
                    height as int,
                    k / 4,
                    k % 4,
                ) by {
                    if k < at {
                        assert(dst@[k] == before[k]);
                    } else {
                        assert(k / 4 == row * width + column);
                    }
                }
                column += 1;
            }
            assert((row + 1) * width * 4 == (row * width + width) * 4) by (nonlinear_arith);
            row += 1;
        }
        assert(width * height * 4 == height * width * 4) by (nonlinear_arith);
        assert(dst@ =~= scaled_bytes(self, width as int, height as int)) by {
            let bytes = scaled_bytes(self, width as int, height as int);
            assert forall|k: int| 0 <= k < len implies dst@[k] == bytes[k] by {
                assert(dst@[k] == scaled_channel(self, width as int, height as int, k / 4, k % 4));
            }
        }
    }
}

/// A pixel as one number, from its four channels.
pub fn pack(blue: u8, green: u8, red: u8, alpha: u8) -> (pixel: u32)
    ensures
        pixel == packed(blue as int, green as int, red as int, alpha as int),
{
    let b = blue as u32;
    let g = green as u32;
    let r = red as u32;
    let a = alpha as u32;
    assert((b | (g << 8) | (r << 16) | (a << 24)) == b + g * 0x100 + r * 0x1_0000 + a * 0x100_0000)
        by (bit_vector)
        requires
            b < 0x100,
            g < 0x100,
            r < 0x100,
            a < 0x100,
    ;
    b | (g << 8) | (r << 16) | (a << 24)
}

/// Whether there is a frame with a picture to show.
pub open spec fn shows_frame(frame: Option<&OsrFrame>) -> bool {
    frame is Some && frame->0.has_pixels()
}

/// Sets every pixel of a window buffer.
fn fill(buffer: &mut [u32], pixel: u32)
    ensures
        final(buffer)@ == Seq::new(old(buffer)@.len(), |i: int| pixel),
{
    let ghost len = buffer@.len();
    let mut i: usize = 0;
    while i < buffer.len()
        invariant
            i <= buffer@.len(),
            buffer@.len() == len,
            forall|k: int| 0 <= k < i ==> buffer@[k] == pixel,
        decreases buffer@.len() - i,
    {
        buffer[i] = pixel;
        i += 1;
    }
    assert(buffer@ =~= Seq::new(len, |i: int| pixel));
}

/// Paints a `width` by `height` window buffer, with the frame scaled to it or, for
/// a window without one, with `color`, and answers whether it is to be presented.
///
/// A frame without a picture leaves the buffer as it is: the background of such a
/// window is not painted this way.
pub fn paint_background(
    buffer: &mut [u32],
    width: u32,
    height: u32,
    color: u32,
    frame: Option<&OsrFrame>,
) -> (present: bool)
    requires
        shows_frame(frame) ==> old(buffer)@.len() >= width * height,
    ensures
        present == (frame is None || shows_frame(frame)),
        final(buffer)@.len() == old(buffer)@.len(),
        !present ==> final(buffer)@ == old(buffer)@,
        frame is None ==> final(buffer)@ == Seq::new(old(buffer)@.len(), |i: int| color),
        shows_frame(frame) ==> {
            &&& forall|at: int|
                0 <= at < width * height ==> #[trigger] final(buffer)@[at] == scaled_pixel(
                    frame->0,
                    width as int,
                    height as int,
                    at,
                )
            &&& forall|at: int|
                width * height <= at < old(buffer)@.len() ==> #[trigger] final(buffer)@[at]
                    == old(buffer)@[at]
        },
{
    let frame = match frame {
        Some(frame) => frame,
        None => {
            fill(buffer, color);
            return true;
        },
    };
    if !frame.drawable() {
        return false;
    }
    let dst_width = width as usize;
    let dst_height = height as usize;
    let ghost start = buffer@;
    let ghost len = width * height;
    assert(len <= buffer.len());
    let mut row: usize = 0;
    assert(row * dst_width == 0) by (nonlinear_arith)
        requires
            row == 0,
    ;
    while row < dst_height
        invariant
            frame.has_pixels(),
            row <= dst_height,
            dst_width == width,
            dst_height == height,
            len == width * height <= usize::MAX,
            len <= buffer@.len(),
            buffer@.len() == start.len(),
            forall|at: int|
                0 <= at < row * dst_width ==> #[trigger] buffer@[at] == scaled_pixel(
                    frame,
                    width as int,
                    height as int,
                    at,
                ),
            forall|at: int|
                row * dst_width <= at < start.len() ==> #[trigger] buffer@[at] == start[at],
        decreases dst_height - row,
    {
        let mut column: usize = 0;
        while column < dst_width
            invariant
                frame.has_pixels(),
                row < dst_height,
                column <= dst_width,
                dst_width == width,
                dst_height == height,
                len == width * height <= usize::MAX,
                len <= buffer@.len(),
                buffer@.len() == start.len(),
                forall|at: int|
                    0 <= at < row * dst_width + column ==> #[trigger] buffer@[at] == scaled_pixel(
                        frame,
                        width as int,
                        height as int,
                        at,
                    ),
                forall|at: int|
                    row * dst_width + column <= at < start.len() ==> #[trigger] buffer@[at]
                        == start[at],
            decreases dst_width - column,
        {
            let src = frame.source_offset(row, column, dst_width, dst_height);
            proof {
                lemma_pixel_in_bytes(
                    row as int,
                    column as int,
                    dst_width as int,
                    dst_height as int,
                );
            }
            buffer[row * dst_width + column] = pack(
                frame.bgra[src],
                frame.bgra[src + 1],
                frame.bgra[src + 2],
                frame.bgra[src + 3],
            );
            column += 1;
        }
        assert((row + 1) * dst_width == row * dst_width + dst_width) by (nonlinear_arith);
        row += 1;
    }
    assert(width * height == height * width) by (nonlinear_arith);
    true
}

/// A picture shown at its own size is shown pixel for pixel.
///
/// The two bounds say that no product along an axis leaves `usize`; with 64-bit
/// addresses they hold of every frame.
pub proof fn own_size_keeps_every_pixel(at: int, width: int, height: int)
    requires
        0 <= at < width * height,
        0 < width,
        0 < height,
        (width - 1) * width <= usize::MAX,
        (height - 1) * height <= usize::MAX,
    ensures
        source_pixel(at, width, height, width, height) == at,
{
    let row = at / width;
    let column = at % width;
    vstd::arithmetic::div_mod::lemma_fundamental_div_mod(at, width);
    assert(row * width == width * row) by (nonlinear_arith);
    assert(0 <= row < height) by (nonlinear_arith)
        requires
            0 <= at < width * height,
            0 < width,
            row == at / width,
    ;
    own_extent_keeps_coordinate(row, height);
    own_extent_keeps_coordinate(column, width);
}

/// Along an axis shown at its own extent every coordinate shows itself.
pub proof fn own_extent_keeps_coordinate(at: int, extent: int)
    requires
        0 <= at < extent,
        (extent - 1) * extent <= usize::MAX,
    ensures
        source_coordinate(at, extent, extent) == at,
{
    assert(at * extent <= (extent - 1) * extent) by (nonlinear_arith)
        requires
            0 <= at <= extent - 1,
    ;
    vstd::arithmetic::div_mod::lemma_div_multiples_vanish(at, extent);
    assert(at * extent == extent * at) by (nonlinear_arith);
}

/// With 64-bit addresses no product of window coordinates is ever held back: the
/// coordinate shown is the exact quotient.
pub proof fn wide_addresses_scale_exactly(at: int, from: int, to: int)
    requires
        usize::BITS == 64,
        0 <= at < to <= u32::MAX,
        0 < from <= i32::MAX,
    ensures
        source_coordinate(at, from, to) == at * from / to,
{
    assert(at * from <= 0xffff_ffff * 0x7fff_ffff) by (nonlinear_arith)
        requires
            0 <= at <= 0xffff_ffff,
            0 < from <= 0x7fff_ffff,
    ;
}

/// A picture is never mirrored: a later coordinate shows the same source
/// coordinate or a later one, and the first shows the first.
pub proof fn scaling_keeps_order(a: int, b: int, from: int, to: int)
    requires
        0 <= a <= b < to,
        0 < from,
    ensures
        source_coordinate(0, from, to) == 0,
        source_coordinate(a, from, to) <= source_coordinate(b, from, to),
{
    assert(a * from <= b * from) by (nonlinear_arith)
        requires
            a <= b,
            0 < from,
    ;
    vstd::arithmetic::div_mod::lemma_div_is_ordered(
        saturated_product(a, from),
        saturated_product(b, from),
        to,
    );
}

/// An enlarged picture shows every coordinate of its source.
pub proof fn enlarging_shows_everything(shown: int, from: int, to: int) -> (at: int)
    requires
        0 <= shown < from <= to,
        (to - 1) * from <= usize::MAX,
    ensures
        0 <= at < to,
        source_coordinate(at, from, to) == shown,
{
    let at = (shown * to + from - 1) / from;
    let rest = (shown * to + from - 1) % from;
    vstd::arithmetic::div_mod::lemma_fundamental_div_mod(shown * to + from - 1, from);
    assert(0 <= shown * to) by (nonlinear_arith)
        requires
            0 <= shown,
            0 <= to,
    ;
    assert(at * from == from * at) by (nonlinear_arith);
    assert(0 <= at) by (nonlinear_arith)
        requires
            0 <= shown * to + from - 1,
            from > 0,
            at == (shown * to + from - 1) / from,
    ;
    assert((shown + 1) * to == shown * to + to) by (nonlinear_arith);
    assert((shown + 1) * to <= from * to) by (nonlinear_arith)
        requires
            shown + 1 <= from,
            0 < to,
    ;
    assert(at < to) by (nonlinear_arith)
        requires
            at * from <= from * to - to + from - 1,
            from <= to,
            from > 0,
    ;
    assert(at * from <= (to - 1) * from) by (nonlinear_arith)
        requires
            at <= to - 1,
            from > 0,
    ;
    vstd::arithmetic::div_mod::lemma_fundamental_div_mod_converse(
        at * from,
        to,
        shown,
        at * from - shown * to,
    );
    at
}

/// A frame copied to a buffer of its own size arrives byte for byte, its alpha
/// included.
pub proof fn own_size_copies_every_byte(frame: &OsrFrame)
    requires
        frame.has_pixels(),
        (frame.paint_width - 1) * frame.paint_width <= usize::MAX,
        (frame.paint_height - 1) * frame.paint_height <= usize::MAX,
    ensures
        scaled_bytes(frame, frame.paint_width as int, frame.paint_height as int)
            == frame.bgra@.take(osr::bgra_len(frame.paint_width as int, frame.paint_height as int)),
{
    let width = frame.paint_width as int;
    let height = frame.paint_height as int;
    let bytes = scaled_bytes(frame, width, height);
    assert(0 <= width * height) by (nonlinear_arith)
        requires
            0 < width,
            0 < height,
    ;
    assert forall|i: int| 0 <= i < osr::bgra_len(width, height) implies bytes[i] == frame.bgra@[i] by {
        own_size_keeps_every_pixel(i / 4, width, height);
    }
    assert(bytes =~= frame.bgra@.take(osr::bgra_len(width, height)));
}

/// What was painted is what is shown: a picture taken over from a paint callback
/// arrives unchanged in a buffer of its size.
pub proof fn painted_picture_arrives(
    frame: &OsrFrame,
    pixels: Seq<u8>,
    width: i32,
    height: i32,
)
    requires
        osr::accepts_paint(
            osr::PaintElementType::View,
            true,
            width as int,
            height as int,
        ),
        pixels.len() >= osr::bgra_len(width as int, height as int),
        frame.holds(pixels, width, height),
        (width - 1) * width <= usize::MAX,
        (height - 1) * height <= usize::MAX,
    ensures
        scaled_bytes(frame, width as int, height as int) == pixels.take(
            osr::bgra_len(width as int, height as int),
        ),
{
    assert(0 <= osr::bgra_len(width as int, height as int)) by (nonlinear_arith)
        requires
            width > 0,
            height > 0,
            osr::bgra_len(width as int, height as int) == width * height * 4,
    ;
    own_size_copies_every_byte(frame);
    assert(frame.bgra@.take(frame.bgra@.len() as int) =~= frame.bgra@);
}

/// Both ways of reaching a window show the same picture: a packed pixel is made
/// of the four bytes that the byte buffer holds for it.
pub proof fn packed_and_bytes_agree(frame: &OsrFrame, width: int, height: int, at: int)
    requires
        frame.has_pixels(),
        0 <= at < width * height,
    ensures
        scaled_pixel(frame, width, height, at) == packed(
            scaled_bytes(frame, width, height)[at * 4] as int,
            scaled_bytes(frame, width, height)[at * 4 + 1] as int,
            scaled_bytes(frame, width, height)[at * 4 + 2] as int,
            scaled_bytes(frame, width, height)[at * 4 + 3] as int,
        ),
{
}

/// Every pixel of a scaled picture is taken from its own place, along both axes
/// alike and to whatever extent the picture is scaled: row `y` of `height` shows
/// the source row that lies as far down, column `x` of `width` the source column
/// that lies as far to the right, both rounded down. All four channels come along.
///
/// The products are taken in `usize` and held at the greatest there is.
pub proof fn every_pixel_is_taken_from_its_place(
    frame: &OsrFrame,
    width: int,
    height: int,
    x: int,
    y: int,
)
    requires
        frame.paint_width >= 1,
        frame.paint_height >= 1,
        frame.paint_width * frame.paint_height * 4 <= frame.bgra@.len(),
        0 <= x < width,
        0 <= y < height,
    ensures
        ({
            let down = y * frame.paint_height;
            let right = x * frame.paint_width;
            let row = (if down <= usize::MAX {
                down
            } else {
                usize::MAX as int
            }) / height;
            let column = (if right <= usize::MAX {
                right
            } else {
                usize::MAX as int
            }) / width;
            let from = (row * frame.paint_width + column) * 4;
            let to = (y * width + x) * 4;
            let bytes = scaled_bytes(frame, width, height);
            &&& 0 <= row < frame.paint_height
            &&& 0 <= column < frame.paint_width
            &&& 0 <= from && from + 3 < frame.bgra@.len()
            &&& bytes.len() == width * height * 4
            &&& 0 <= to && to + 3 < bytes.len()
            &&& bytes[to] == frame.bgra@[from]
            &&& bytes[to + 1] == frame.bgra@[from + 1]
            &&& bytes[to + 2] == frame.bgra@[from + 2]
            &&& bytes[to + 3] == frame.bgra@[from + 3]
            &&& scaled_pixel(frame, width, height, y * width + x) == frame.bgra@[from]
                + frame.bgra@[from + 1] * 0x100 + frame.bgra@[from + 2] * 0x1_0000
                + frame.bgra@[from + 3] * 0x100_0000
        }),
{
    let src_width = frame.paint_width as int;
    let src_height = frame.paint_height as int;
    let row = source_coordinate(y, src_height, height);
    let column = source_coordinate(x, src_width, width);
    lemma_row_column(y, x, width);
    source_coordinate_in_range(y, src_height, height);
    source_coordinate_in_range(x, src_width, width);
    lemma_pixel_in_bytes(row, column, src_width, src_height);
    lemma_pixel_in_bytes(y, x, width, height);
}

/// A frame of which there is no picture, or not all of it, leaves a buffer clear:
/// every byte is zero, so every pixel is transparent.
pub proof fn missing_picture_clears_the_buffer(frame: &OsrFrame, width: int, height: int)
    requires
        frame.paint_width <= 0 || frame.paint_height <= 0 || frame.bgra@.len() < frame.paint_width
            * frame.paint_height * 4,
        0 <= width,
        0 <= height,
    ensures
        scaled_bytes(frame, width, height).len() == width * height * 4,
        forall|i: int|
            0 <= i < width * height * 4 ==> #[trigger] scaled_bytes(frame, width, height)[i] == 0,
        !shows_frame(Some(frame)),
        !shows_frame(None),
{
    assert(0 <= width * height) by (nonlinear_arith)
        requires
            0 <= width,
            0 <= height,
    ;
}

/// A frame with all of its picture is shown.
pub proof fn whole_picture_is_shown(frame: &OsrFrame)
    requires
        frame.paint_width >= 1,
        frame.paint_height >= 1,
        frame.paint_width * frame.paint_height * 4 <= frame.bgra@.len(),
    ensures
        shows_frame(Some(frame)),
{
}

/// The channels of a packed pixel can be read back from its bytes: blue from the
/// lowest, then green, red and, from the highest, alpha.
pub proof fn packed_channels_can_be_read_back(blue: u8, green: u8, red: u8, alpha: u8)
    ensures
        ({
            let pixel = packed(blue as int, green as int, red as int, alpha as int);
            &&& 0 <= pixel <= u32::MAX
            &&& pixel % 0x100 == blue
            &&& pixel / 0x100 % 0x100 == green
            &&& pixel / 0x1_0000 % 0x100 == red
            &&& pixel / 0x100_0000 == alpha
        }),
{
    let pixel = packed(blue as int, green as int, red as int, alpha as int);
    let above_blue = green + red * 0x100 + alpha * 0x1_0000;
    let above_green = red + alpha * 0x100;
    let below_red = blue + green * 0x100;
    let below_alpha = below_red + red * 0x1_0000;
    assert(pixel == above_blue * 0x100 + blue);
    assert(pixel == above_green * 0x1_0000 + below_red);
    assert(pixel == alpha * 0x100_0000 + below_alpha);
    lemma_row_column(above_blue, blue as int, 0x100);
    lemma_row_column(above_green, green as int, 0x100);
    lemma_row_column(alpha as int, red as int, 0x100);
    lemma_row_column(above_green, below_red, 0x1_0000);
    lemma_row_column(alpha as int, below_alpha, 0x100_0000);
}

} // verus!
