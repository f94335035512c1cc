//! Conversion of premultiplied RGBA images to the bottom-up, straight-alpha
//! BGRA layout of a 32 bit device independent bitmap.
use vstd::prelude::*;

verus! {

/// An RGBA image with premultiplied alpha, rows top to bottom.
pub struct ImageData {
    pub width: i32,
    pub height: i32,
    pub bytes_per_row: i32,
    pub data: Vec<u8>,
}

/// Header of a 32 bit top-down-flipped device independent bitmap.
pub struct BitmapInfoHeader {
    pub size: u32,
    pub width: i32,
    pub height: i32,
    pub planes: u16,
    pub bit_count: u16,
    pub compression: u32,
    pub size_image: u32,
    pub x_pels_per_meter: i32,
    pub y_pels_per_meter: i32,
    pub clr_used: u32,
    pub clr_important: u32,
}

/// Size in bytes of a bitmap info header.
pub const BITMAP_INFO_HEADER_SIZE: u32 = 40;

/// Uncompressed RGB bitmap.
pub const BI_RGB: u32 = 0;

/// The image can be read as described by its dimensions.
pub open spec fn image_valid(image: &ImageData) -> bool {
    &&& image.width >= 0
    &&& image.height >= 0
    &&& image.bytes_per_row >= 4 * image.width
    &&& image.height * image.bytes_per_row <= image.data@.len()
    &&& image.width * image.height * 4 <= i32::MAX
}

/// A colour channel with the premultiplication by alpha undone, kept to 8 bits.
pub open spec fn unpremultiply(c: u8, a: u8) -> u8 {
    if a == 0 {
        0
    } else {
        ((c * 255 / (a as int)) % 256) as u8
    }
}

/// Byte `i` of bitmap row `y`: row `y` of the bitmap is image row `height - 1 - y`,
/// with red and blue swapped and alpha divided out.
pub open spec fn bitmap_byte(image: &ImageData, y: int, i: int) -> u8 {
    let src = (image.height - 1 - y) * image.bytes_per_row + (i - i % 4);
    let d = image.data@;
    let a = d[src + 3];
    if i % 4 == 0 {
        unpremultiply(d[src + 2], a)
    } else if i % 4 == 1 {
        unpremultiply(d[src + 1], a)
    } else if i % 4 == 2 {
        unpremultiply(d[src], a)
    } else {
        a
    }
}

/// Row `y` of the bitmap.
pub open spec fn bitmap_row(image: &ImageData, y: int) -> Seq<u8> {
    Seq::new((4 * image.width) as nat, |i: int| bitmap_byte(image, y, i))
}

/// The first `rows` rows of the bitmap, one after the other.
pub open spec fn bitmap_rows(image: &ImageData, rows: nat) -> Seq<u8>
    decreases rows,
{
    if rows == 0 {
        Seq::empty()
    } else {
        bitmap_rows(image, (rows - 1) as nat) + bitmap_row(image, rows - 1)
    }
}

/// The whole bitmap.
pub open spec fn bitmap_data(image: &ImageData) -> Seq<u8> {
    bitmap_rows(image, image.height as nat)
}

proof fn lemma_row_offset(h: int, y: int, bpr: int, x: int, w: int, len: int)
    by (nonlinear_arith)
    requires
        0 <= y < h,
        0 <= x < w,
        bpr >= 4 * w,
        h * bpr <= len,
    ensures
        0 <= (h - 1 - y) * bpr,
        (h - 1 - y) * bpr + 4 * x + 3 < len,
{
}

/// Straight-alpha value of a premultiplied channel.
fn unpremultiply_channel(c: u8, a: u8) -> (r: u8)
    ensures
        r == unpremultiply(c, a),
{
    if a == 0 {
        0
    } else {
        let v: u32 = (c as u32) * 255 / (a as u32);
        assert(v as u8 == (v % 256) as u8) by (bit_vector);
        v as u8
    }
}

/// The pixel bytes of the bitmap made from `image`: rows bottom-up, BGRA,
/// alpha divided out of the colour channels.
pub fn bitmap_bits(image: &ImageData) -> (bits: Vec<u8>)
    requires
        image_valid(image),
    ensures
        bits@ == bitmap_data(image),
{
    let w = image.width as usize;
    let h = image.height as usize;
    let bpr = image.bytes_per_row as usize;
    let mut out: Vec<u8> = Vec::new();
    let mut y: usize = 0;
    while y < h
        invariant
            image_valid(image),
            w == image.width,
            h == image.height,
            bpr == image.bytes_per_row,
            0 <= y <= h,
            out@ == bitmap_rows(image, y as nat),
        decreases h - y,
    {
        let ghost start = out@;
        let mut x: usize = 0;
        while x < w
            invariant
                image_valid(image),
                w == image.width,
                h == image.height,
                bpr == image.bytes_per_row,
                0 <= y < h,
                0 <= x <= w,
                start == bitmap_rows(image, y as nat),
                out@ == start + bitmap_row(image, y as int).take(4 * x as int),
            decreases w - x,
        {
            let len = image.data.len();
            proof {
                lemma_row_offset(h as int, y as int, bpr as int, x as int, w as int, len as int);
            }
            let row_start = h - 1 - y;
            assert(row_start * bpr + 4 * x + 3 < len);
            let src = row_start * bpr + 4 * x;
            let r = image.data[src];
            let g = image.data[src + 1];
            let b = image.data[src + 2];
            let a = image.data[src + 3];
            out.push(unpremultiply_channel(b, a));
            out.push(unpremultiply_channel(g, a));
            out.push(unpremultiply_channel(r, a));
            out.push(a);
            proof {
                let row = bitmap_row(image, y as int);
                let i = 4 * x as int;
                assert(row[i] == unpremultiply(b, a));
                assert(row[i + 1] == unpremultiply(g, a));
                assert(row[i + 2] == unpremultiply(r, a));
                assert(row[i + 3] == a);
                assert(row.take(i + 4) =~= row.take(i).push(row[i]).push(row[i + 1]).push(
                    row[i + 2]).push(row[i + 3]));
            }
            x = x + 1;
        }
        proof {
            let row = bitmap_row(image, y as int);
            assert(row.take(4 * w as int) =~= row);
        }
        y = y + 1;
    }
    out
}

/// Header describing the bitmap that `bitmap_bits` fills.
pub fn bitmap_info_header(image: &ImageData) -> (header: BitmapInfoHeader)
    requires
        image_valid(image),
    ensures
        header.size == BITMAP_INFO_HEADER_SIZE,
        header.width == image.width,
        header.height == image.height,
        header.planes == 1,
        header.bit_count == 32,
        header.compression == BI_RGB,
        header.size_image == image.width * image.height * 4,
        header.x_pels_per_meter == 0,
        header.y_pels_per_meter == 0,
        header.clr_used == 0,
        header.clr_important == 0,
{
    proof {
        assert(image.width * image.height >= 0) by (nonlinear_arith)
            requires image.width >= 0, image.height >= 0;
    }
    BitmapInfoHeader {
        size: BITMAP_INFO_HEADER_SIZE,
        width: image.width,
        height: image.height,
        planes: 1,
        bit_count: 32,
        compression: BI_RGB,
        size_image: (image.width * image.height * 4) as u32,
        x_pels_per_meter: 0,
        y_pels_per_meter: 0,
        clr_used: 0,
        clr_important: 0,
    }
}

/// A pixel without transparency keeps its colours, swapped from RGBA to BGRA.
pub proof fn lemma_opaque_pixel_unchanged(c: u8)
    ensures
        unpremultiply(c, 255) == c,
{
}

} // verus!
