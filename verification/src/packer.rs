//! The bitmap-to-device-buffer transform.
//!
//! A logical image is a row-major grid of `WIDTH x HEIGHT` luminance bytes,
//! one per pixel, black exactly when the byte is zero.  The panel instead
//! scans column by column, rotated a quarter turn, one bit per pixel, most
//! significant bit first.  [`img_2_display_buf`] performs that rotation and
//! packing; its contract pins down every bit of the result.

use vstd::arithmetic::div_mod::lemma_fundamental_div_mod_converse;
use vstd::prelude::*;

use crate::error::PaperError;

verus! {

/// Logical width of the panel, in pixels.
pub const WIDTH: u32 = 128;

/// Logical height of the panel, in pixels.
pub const HEIGHT: u32 = 80;

/// Number of pixels of a logical image: `WIDTH * HEIGHT`.
pub const PIXEL_COUNT: usize = 10240;

/// Length in bytes of a full-frame device buffer: one bit per pixel.
pub const BUF_LEN: usize = 1280;

/// Luminance of a black pixel.
pub const BLACK_PIXEL: u8 = 0;

/// Luminance of a white pixel.
pub const WHITE_PIXEL: u8 = 255;

/// A 1-bit-per-pixel logical bitmap of the panel's fixed dimensions,
/// stored row-major with one luminance byte per pixel.  A pixel is black
/// exactly when its luminance is zero; any other value is white.
#[derive(Debug)]
pub struct LogicalImage {
    px: Vec<u8>,
}

impl View for LogicalImage {
    type V = Seq<u8>;

    closed spec fn view(&self) -> Seq<u8> {
        self.px@
    }
}

/// True when the logical pixel at column `x`, row `y` of `img` is black.
pub open spec fn pixel_black(img: Seq<u8>, x: int, y: int) -> bool {
    img[y * 128 + x] == 0
}

/// The logical column whose pixels are shown by the bits of device byte `i`.
pub open spec fn src_x(i: int) -> int {
    127 - i / 10
}

/// The logical row shown by bit `b` (counted from the most significant bit)
/// of device byte `i`.
pub open spec fn src_y(i: int, b: int) -> int {
    (i % 10) * 8 + b
}

/// The single-bit mask selecting bit `b`, counted from the most significant
/// bit of a byte.
pub open spec fn mask_of(b: int) -> u8 {
    if b == 0 {
        0x80
    } else if b == 1 {
        0x40
    } else if b == 2 {
        0x20
    } else if b == 3 {
        0x10
    } else if b == 4 {
        0x08
    } else if b == 5 {
        0x04
    } else if b == 6 {
        0x02
    } else {
        0x01
    }
}

/// True when bit `b` (from the most significant bit) of `v` is set.
pub open spec fn bit_of(v: u8, b: int) -> bool {
    v & mask_of(b) != 0
}

/// True when bit `b` of device byte `i` must be set for image `img`: a set
/// bit shows a white pixel, a cleared bit a black one.
pub open spec fn bit_set_for(img: Seq<u8>, i: int, b: int) -> bool {
    !pixel_black(img, src_x(i), src_y(i, b))
}

/// The device-buffer contract: `buf` is the rotated, bit-packed form of
/// `img`.  Together with [`lemma_pack_deterministic`] this determines `buf`
/// completely.
pub open spec fn is_packed(img: Seq<u8>, buf: Seq<u8>) -> bool {
    &&& buf.len() == BUF_LEN
    &&& forall|i: int, b: int|
        0 <= i < BUF_LEN && 0 <= b < 8 ==> #[trigger] bit_of(buf[i], b) == bit_set_for(img, i, b)
}

impl LogicalImage {
    /// A logical image always holds exactly one luminance byte per pixel.
    pub open spec fn wf(&self) -> bool {
        self@.len() == PIXEL_COUNT
    }

    /// Creates an image of the given dimensions with every pixel set to
    /// luminance `fill`, rejecting dimensions other than the panel's own.
    pub fn new(width: u32, height: u32, fill: u8) -> (r: Result<LogicalImage, PaperError>)
        ensures
            r is Ok <==> (width == WIDTH && height == HEIGHT),
            (r matches Ok(img) ==> img.wf() && img@ == Seq::new(PIXEL_COUNT as nat, |i: int| fill)),
            (r matches Err(e) ==> e == PaperError::SizeMismatch),
    {
        if width == WIDTH && height == HEIGHT {
            let mut px: Vec<u8> = Vec::new();
            let mut k: usize = 0;
            while k < PIXEL_COUNT
                invariant
                    k <= PIXEL_COUNT,
                    px@.len() == k,
                    forall|j: int| 0 <= j < k ==> px@[j] == fill,
                decreases PIXEL_COUNT - k,
            {
                px.push(fill);
                k += 1;
            }
            assert(px@ =~= Seq::new(PIXEL_COUNT as nat, |i: int| fill));
            Ok(LogicalImage { px })
        } else {
            Err(PaperError::SizeMismatch)
        }
    }

    /// Wraps caller-supplied pixels, rejecting dimensions other than the
    /// panel's own or a buffer whose length does not match them.
    pub fn from_pixels(px: Vec<u8>, width: u32, height: u32) -> (r: Result<
        LogicalImage,
        PaperError,
    >)
        ensures
            r is Ok <==> (width == WIDTH && height == HEIGHT && px@.len() == PIXEL_COUNT),
            (r matches Ok(img) ==> img.wf() && img@ == px@),
            (r matches Err(e) ==> e == PaperError::SizeMismatch),
    {
        if width == WIDTH && height == HEIGHT && px.len() == PIXEL_COUNT {
            Ok(LogicalImage { px })
        } else {
            Err(PaperError::SizeMismatch)
        }
    }

    /// The luminance of the pixel at logical column `x`, row `y`.
    pub fn pixel(&self, x: u32, y: u32) -> (r: u8)
        requires
            self.wf(),
            x < WIDTH,
            y < HEIGHT,
        ensures
            r == self@[y as int * 128 + x as int],
    {
        self.px[(y as usize) * 128 + (x as usize)]
    }

    /// Overwrites the pixel at logical column `x`, row `y` with luminance
    /// `value`.
    pub fn set_pixel(&mut self, x: u32, y: u32, value: u8)
        requires
            old(self).wf(),
            x < WIDTH,
            y < HEIGHT,
        ensures
            final(self).wf(),
            final(self)@ == old(self)@.update(y as int * 128 + x as int, value),
    {
        let i: usize = (y as usize) * 128 + (x as usize);
        self.px[i] = value;
    }
}

/// Relates a logical coordinate to the device byte and bit that show it.
pub proof fn lemma_coord_to_index(x: int, y: int)
    requires
        0 <= x < 128,
        0 <= y < 80,
    ensures
        ((127 - x) * 80 + y) / 8 == (127 - x) * 10 + y / 8,
        0 <= (127 - x) * 10 + y / 8 < 1280,
        0 <= y % 8 < 8,
        src_x((127 - x) * 10 + y / 8) == x,
        src_y((127 - x) * 10 + y / 8, y % 8) == y,
{
    let q = y / 8;
    let r = y % 8;
    assert(y == q * 8 + r && 0 <= r < 8) by {
        lemma_row_split(y);
    };
    let i = (127 - x) * 10 + q;
    lemma_fundamental_div_mod_converse((127 - x) * 80 + y, 8, i, r);
    lemma_fundamental_div_mod_converse(i, 10, 127 - x, q);
}

/// The division and remainder of a row index by eight recompose to it.
proof fn lemma_row_split(y: int)
    requires
        0 <= y < 80,
    ensures
        y == (y / 8) * 8 + y % 8,
        0 <= y % 8 < 8,
        0 <= y / 8 < 10,
{
    vstd::arithmetic::div_mod::lemma_fundamental_div_mod(y, 8);
}

/// Every device byte and bit position shows a logical coordinate in range,
/// and the correspondence is one to one.
pub proof fn lemma_index_to_coord(i: int, b: int)
    requires
        0 <= i < 1280,
        0 <= b < 8,
    ensures
        0 <= src_x(i) < 128,
        0 <= src_y(i, b) < 80,
        (127 - src_x(i)) * 10 + src_y(i, b) / 8 == i,
        src_y(i, b) % 8 == b,
{
    vstd::arithmetic::div_mod::lemma_fundamental_div_mod(i, 10);
    let q = i / 10;
    let r = i % 10;
    lemma_fundamental_div_mod_converse(r * 8 + b, 8, r, b);
}

/// The eight possible values of a bit mask.
proof fn lemma_mask_options(b: int)
    requires
        0 <= b < 8,
    ensures
        mask_of(b) == 0x80 || mask_of(b) == 0x40 || mask_of(b) == 0x20 || mask_of(b) == 0x10
            || mask_of(b) == 0x08 || mask_of(b) == 0x04 || mask_of(b) == 0x02 || mask_of(b)
            == 0x01,
{
}

/// Distinct bit positions have distinct masks.
proof fn lemma_mask_injective(s: int, b: int)
    requires
        0 <= s < 8,
        0 <= b < 8,
    ensures
        (mask_of(s) == mask_of(b)) <==> (s == b),
{
}

/// Clearing one bit of a byte leaves exactly the other bits unchanged.
proof fn lemma_clear_bit(v: u8, s: int, b: int)
    requires
        0 <= s < 8,
        0 <= b < 8,
    ensures
        bit_of(v & !mask_of(s), b) == (b != s && bit_of(v, b)),
{
    let ms = mask_of(s);
    let mb = mask_of(b);
    lemma_mask_options(s);
    lemma_mask_options(b);
    lemma_mask_injective(s, b);
    assert(((ms == 0x80 || ms == 0x40 || ms == 0x20 || ms == 0x10 || ms == 0x08 || ms == 0x04
        || ms == 0x02 || ms == 0x01) && (mb == 0x80 || mb == 0x40 || mb == 0x20 || mb == 0x10
        || mb == 0x08 || mb == 0x04 || mb == 0x02 || mb == 0x01)) ==> (((v & !ms) & mb != 0) == (
    ms != mb && (v & mb != 0)))) by (bit_vector);
}

/// Every bit of 0xff is set and every bit of 0x00 is clear.
proof fn lemma_full_byte_bits(b: int)
    requires
        0 <= b < 8,
    ensures
        bit_of(0xff, b),
        !bit_of(0x00, b),
{
    let mb = mask_of(b);
    lemma_mask_options(b);
    assert((mb == 0x80 || mb == 0x40 || mb == 0x20 || mb == 0x10 || mb == 0x08 || mb == 0x04
        || mb == 0x02 || mb == 0x01) ==> (0xffu8 & mb != 0 && 0x00u8 & mb == 0)) by (bit_vector);
}

/// The complement of a single-bit mask has exactly the other bits set.
proof fn lemma_not_mask_bits(s: int, b: int)
    requires
        0 <= s < 8,
        0 <= b < 8,
    ensures
        bit_of(!mask_of(s), b) == (b != s),
{
    let ms = mask_of(s);
    let mb = mask_of(b);
    lemma_mask_options(s);
    lemma_mask_options(b);
    lemma_mask_injective(s, b);
    assert(((ms == 0x80 || ms == 0x40 || ms == 0x20 || ms == 0x10 || ms == 0x08 || ms == 0x04
        || ms == 0x02 || ms == 0x01) && (mb == 0x80 || mb == 0x40 || mb == 0x20 || mb == 0x10
        || mb == 0x08 || mb == 0x04 || mb == 0x02 || mb == 0x01)) ==> ((!ms & mb != 0) == (ms
        != mb))) by (bit_vector);
}

/// A byte with all eight bits set is 0xff.
proof fn lemma_set_bits_full(v: u8)
    requires
        forall|b: int| 0 <= b < 8 ==> bit_of(v, b),
    ensures
        v == 0xff,
{
    assert(bit_of(v, 0) && bit_of(v, 1) && bit_of(v, 2) && bit_of(v, 3) && bit_of(v, 4) && bit_of(
        v,
        5,
    ) && bit_of(v, 6) && bit_of(v, 7));
    assert((v & 0x80 != 0 && v & 0x40 != 0 && v & 0x20 != 0 && v & 0x10 != 0 && v & 0x08 != 0 && v
        & 0x04 != 0 && v & 0x02 != 0 && v & 0x01 != 0) ==> v == 0xff) by (bit_vector);
}

/// A byte with all eight bits clear is 0x00.
proof fn lemma_clear_bits_full(v: u8)
    requires
        forall|b: int| 0 <= b < 8 ==> !bit_of(v, b),
    ensures
        v == 0x00,
{
    assert(!bit_of(v, 0) && !bit_of(v, 1) && !bit_of(v, 2) && !bit_of(v, 3) && !bit_of(v, 4)
        && !bit_of(v, 5) && !bit_of(v, 6) && !bit_of(v, 7));
    assert((v & 0x80 == 0 && v & 0x40 == 0 && v & 0x20 == 0 && v & 0x10 == 0 && v & 0x08 == 0 && v
        & 0x04 == 0 && v & 0x02 == 0 && v & 0x01 == 0) ==> v == 0x00) by (bit_vector);
}

/// Two bytes that agree on all eight bits are equal.
proof fn lemma_byte_from_bits(v: u8, w: u8)
    requires
        forall|b: int| 0 <= b < 8 ==> bit_of(v, b) == bit_of(w, b),
    ensures
        v == w,
{
    assert(bit_of(v, 0) == bit_of(w, 0) && bit_of(v, 1) == bit_of(w, 1) && bit_of(v, 2) == bit_of(
        w,
        2,
    ) && bit_of(v, 3) == bit_of(w, 3) && bit_of(v, 4) == bit_of(w, 4) && bit_of(v, 5) == bit_of(
        w,
        5,
    ) && bit_of(v, 6) == bit_of(w, 6) && bit_of(v, 7) == bit_of(w, 7));
    assert(((v & 0x80 != 0) == (w & 0x80 != 0) && (v & 0x40 != 0) == (w & 0x40 != 0) && (v & 0x20
        != 0) == (w & 0x20 != 0) && (v & 0x10 != 0) == (w & 0x10 != 0) && (v & 0x08 != 0) == (w
        & 0x08 != 0) && (v & 0x04 != 0) == (w & 0x04 != 0) && (v & 0x02 != 0) == (w & 0x02 != 0)
        && (v & 0x01 != 0) == (w & 0x01 != 0)) ==> v == w) by (bit_vector);
}

/// The right shift the packing loop performs yields the bit mask of the
/// shifted position.
proof fn lemma_shift_mask(sh: u8)
    requires
        sh < 8,
    ensures
        0x80u8 >> sh == mask_of(sh as int),
{
    assert(0x80u8 >> sh == (if sh == 0 {
        0x80u8
    } else if sh == 1 {
        0x40u8
    } else if sh == 2 {
        0x20u8
    } else if sh == 3 {
        0x10u8
    } else if sh == 4 {
        0x08u8
    } else if sh == 5 {
        0x04u8
    } else if sh == 6 {
        0x02u8
    } else {
        0x01u8
    })) by (bit_vector)
        requires
            sh < 8,
    ;
}

/// True when the packing pass, standing at column `x` of row `y`, has
/// already visited the logical pixel at `(px, py)`.
spec fn visited(px: int, py: int, x: int, y: int) -> bool {
    py < y || (py == y && px < x)
}

/// Converts a logical image to the device buffer the panel scans out:
/// length `BUF_LEN`, one bit per pixel, rotated a quarter turn, cleared
/// bits showing black pixels.
pub fn img_2_display_buf(img: &LogicalImage) -> (r: Vec<u8>)
    requires
        img.wf(),
    ensures
        is_packed(img@, r@),
        r@ == pack_spec(img@),
{
    let mut buf: Vec<u8> = Vec::new();
    let mut k: usize = 0;
    while k < BUF_LEN
        invariant
            k <= BUF_LEN,
            buf@.len() == k,
            forall|j: int| 0 <= j < k ==> buf@[j] == 0xffu8,
        decreases BUF_LEN - k,
    {
        buf.push(0xff);
        k += 1;
    }
    proof {
        assert forall|i: int, b: int| 0 <= i < 1280 && 0 <= b < 8 implies #[trigger] bit_of(
            buf@[i],
            b,
        ) == !(visited(src_x(i), src_y(i, b), 0, 0) && pixel_black(
            img@,
            src_x(i),
            src_y(i, b),
        )) by {
            lemma_index_to_coord(i, b);
            lemma_full_byte_bits(b);
        };
    }
    let mut y: usize = 0;
    while y < 80
        invariant
            img.wf(),
            y <= 80,
            buf@.len() == 1280,
            forall|i: int, b: int|
                0 <= i < 1280 && 0 <= b < 8 ==> #[trigger] bit_of(buf@[i], b) == !(visited(
                    src_x(i),
                    src_y(i, b),
                    0,
                    y as int,
                ) && pixel_black(img@, src_x(i), src_y(i, b))),
        decreases 80 - y,
    {
        let mut x: usize = 0;
        while x < 128
            invariant
                img.wf(),
                y < 80,
                x <= 128,
                buf@.len() == 1280,
                forall|i: int, b: int|
                    0 <= i < 1280 && 0 <= b < 8 ==> #[trigger] bit_of(buf@[i], b) == !(visited(
                        src_x(i),
                        src_y(i, b),
                        x as int,
                        y as int,
                    ) && pixel_black(img@, src_x(i), src_y(i, b))),
            decreases 128 - x,
        {
            let black = img.pixel(x as u32, y as u32) == 0;
            proof {
                lemma_coord_to_index(x as int, y as int);
            }
            if black {
                let idx: usize = ((127 - x) * 80 + y) / 8;
                let sh: u8 = (y % 8) as u8;
                let mask: u8 = 0x80u8 >> sh;
                proof {
                    lemma_shift_mask(sh);
                }
                let ghost oldbuf = buf@;
                let b0 = buf[idx];
                buf[idx] = b0 & !mask;
                proof {
                    assert forall|i: int, b: int| 0 <= i < 1280 && 0 <= b < 8 implies #[trigger] bit_of(
                        buf@[i],
                        b,
                    ) == !(visited(src_x(i), src_y(i, b), x as int + 1, y as int) && pixel_black(
                        img@,
                        src_x(i),
                        src_y(i, b),
                    )) by {
                        lemma_index_to_coord(i, b);
                        if i == idx as int {
                            lemma_clear_bit(b0, sh as int, b);
                        }
                    };
                }
            } else {
                proof {
                    assert forall|i: int, b: int| 0 <= i < 1280 && 0 <= b < 8 implies #[trigger] bit_of(
                        buf@[i],
                        b,
                    ) == !(visited(src_x(i), src_y(i, b), x as int + 1, y as int) && pixel_black(
                        img@,
                        src_x(i),
                        src_y(i, b),
                    )) by {
                        lemma_index_to_coord(i, b);
                    };
                }
            }
            x += 1;
        }
        y += 1;
    }
    proof {
        assert forall|i: int, b: int| 0 <= i < 1280 && 0 <= b < 8 implies #[trigger] bit_of(
            buf@[i],
            b,
        ) == bit_set_for(img@, i, b) by {
            lemma_index_to_coord(i, b);
        };
        lemma_pack_spec_is(img@, buf@);
    }
    buf
}

/// Law: an all-white image packs to a buffer with every bit set, that is,
/// every byte equal to 0xff.
pub proof fn lemma_pack_all_white(img: Seq<u8>, buf: Seq<u8>)
    requires
        img.len() == PIXEL_COUNT,
        forall|x: int, y: int| 0 <= x < 128 && 0 <= y < 80 ==> !(#[trigger] pixel_black(img, x, y)),
        is_packed(img, buf),
    ensures
        buf.len() == BUF_LEN,
        forall|i: int| 0 <= i < BUF_LEN ==> buf[i] == 0xff,
{
    assert forall|i: int| 0 <= i < BUF_LEN implies buf[i] == 0xffu8 by {
        assert forall|b: int| 0 <= b < 8 implies bit_of(buf[i], b) by {
            lemma_index_to_coord(i, b);
        };
        lemma_set_bits_full(buf[i]);
    };
}

/// Law: an all-black image packs to a buffer of the same length with every
/// bit clear, that is, every byte equal to 0x00.
pub proof fn lemma_pack_all_black(img: Seq<u8>, buf: Seq<u8>)
    requires
        img.len() == PIXEL_COUNT,
        forall|x: int, y: int| 0 <= x < 128 && 0 <= y < 80 ==> #[trigger] pixel_black(img, x, y),
        is_packed(img, buf),
    ensures
        buf.len() == BUF_LEN,
        forall|i: int| 0 <= i < BUF_LEN ==> buf[i] == 0x00,
{
    assert forall|i: int| 0 <= i < BUF_LEN implies buf[i] == 0x00u8 by {
        assert forall|b: int| 0 <= b < 8 implies !bit_of(buf[i], b) by {
            lemma_index_to_coord(i, b);
        };
        lemma_clear_bits_full(buf[i]);
    };
}

/// Law: for an image whose only black pixel is at `(x, y)`, exactly one bit
/// of the packed buffer is cleared: bit `y % 8` from the most significant
/// bit of byte `((WIDTH - x - 1) * HEIGHT + y) / 8`; every other byte holds
/// all bits set.
pub proof fn lemma_pack_single_black(img: Seq<u8>, buf: Seq<u8>, x: int, y: int)
    requires
        img.len() == PIXEL_COUNT,
        0 <= x < 128,
        0 <= y < 80,
        pixel_black(img, x, y),
        forall|px: int, py: int|
            0 <= px < 128 && 0 <= py < 80 && !(px == x && py == y) ==> !(#[trigger] pixel_black(
                img,
                px,
                py,
            )),
        is_packed(img, buf),
    ensures
        buf[((128 - x - 1) * 80 + y) / 8] == !mask_of(y % 8),
        forall|i: int|
            0 <= i < BUF_LEN && i != ((128 - x - 1) * 80 + y) / 8 ==> buf[i] == 0xff,
{
    lemma_coord_to_index(x, y);
    let idx = (127 - x) * 10 + y / 8;
    let s = y % 8;
    assert forall|b: int| 0 <= b < 8 implies bit_of(buf[idx], b) == (b != s) by {
        lemma_index_to_coord(idx, b);
    };
    assert forall|b: int| 0 <= b < 8 implies bit_of(!mask_of(s), b) == (b != s) by {
        lemma_not_mask_bits(s, b);
    };
    lemma_byte_from_bits(buf[idx], !mask_of(s));
    assert forall|i: int| 0 <= i < BUF_LEN && i != idx implies buf[i] == 0xffu8 by {
        assert forall|b: int| 0 <= b < 8 implies bit_of(buf[i], b) by {
            lemma_index_to_coord(i, b);
        };
        lemma_set_bits_full(buf[i]);
    };
}

/// The packed form of an image, as a function: the one buffer that
/// satisfies [`is_packed`].  [`lemma_pack_spec_is`] connects it to any
/// buffer a packing pass produced.
pub open spec fn pack_spec(img: Seq<u8>) -> Seq<u8> {
    choose|buf: Seq<u8>| is_packed(img, buf)
}

/// Any buffer that satisfies [`is_packed`] is the packed form.
pub proof fn lemma_pack_spec_is(img: Seq<u8>, buf: Seq<u8>)
    requires
        is_packed(img, buf),
    ensures
        pack_spec(img) == buf,
        is_packed(img, pack_spec(img)),
{
    assert(exists|b: Seq<u8>| is_packed(img, b));
    lemma_pack_deterministic(img, pack_spec(img), buf);
}

/// Law: packing is pure and deterministic — the packed form of an image is
/// unique, so packing the same image twice yields identical buffers.
pub proof fn lemma_pack_deterministic(img: Seq<u8>, buf1: Seq<u8>, buf2: Seq<u8>)
    requires
        is_packed(img, buf1),
        is_packed(img, buf2),
    ensures
        buf1 == buf2,
{
    assert forall|i: int| 0 <= i < BUF_LEN implies buf1[i] == buf2[i] by {
        assert forall|b: int| 0 <= b < 8 implies bit_of(buf1[i], b) == bit_of(buf2[i], b) by {};
        lemma_byte_from_bits(buf1[i], buf2[i]);
    };
    assert(buf1 =~= buf2);
}

} // verus!
