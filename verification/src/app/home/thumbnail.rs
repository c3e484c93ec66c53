//! One-bit thumbnails of pictures for the launcher's lists.
//!
//! A one-bit plane stores its pixels row by row, eight to a byte, the most
//! significant bit first; a set bit is white. Grey levels are turned into
//! black and white after their contrast is raised by 30% around the middle.
use vstd::prelude::*;
use crate::image_viewer::ImageData;
use crate::palm::shell::div_trunc;
use vstd::arithmetic::div_mod::{lemma_fundamental_div_mod_converse, lemma_multiply_divide_lt};
use vstd::arithmetic::mul::{lemma_mul_inequality, lemma_mul_strict_inequality};

verus! {

/// Grey level `lum` with its contrast raised by 30% around the middle grey
/// (Rust's truncating division), kept in `0..=255`.
pub open spec fn luma_spec(lum: u8) -> u8 {
    let v = div_trunc((lum as int - 128) * 13, 10) + 128;
    if v < 0 {
        0
    } else if v > 255 {
        255
    } else {
        v as u8
    }
}

/// Raises the contrast of a grey level; see [`luma_spec`].
pub fn adjust_thumbnail_luma(lum: u8) -> (r: u8)
    ensures
        r == luma_spec(lum),
{
    let t: i32 = (lum as i32 - 128) * 13;
    let q: i32 = if t >= 0 { t / 10 } else { 0 - (0 - t) / 10 };
    let mut value: i32 = q + 128;
    if value < 0 {
        value = 0;
    } else if value > 255 {
        value = 255;
    }
    value as u8
}

/// Whether pixel `idx` of a one-bit plane is set.
pub open spec fn bit_of(bits: Seq<u8>, idx: int) -> bool {
    (bits[idx / 8] >> ((7 - idx % 8) as u8)) & 1 == 1
}

/// `bits` is a one-bit plane of `n` pixels, pixel `i` set exactly when
/// `light(i)`, with the unused bits of its last byte set.
pub open spec fn plane_holds(bits: Seq<u8>, n: int, light: spec_fn(int) -> bool) -> bool {
    &&& bits.len() == (n + 7) / 8
    &&& forall|i: int| 0 <= i < bits.len() * 8 ==> #[trigger] bit_of(bits, i) == (if i < n { light(i) } else { true })
}

/// The width and height of a picture.
pub open spec fn dims(image: ImageData) -> (u32, u32) {
    match image {
        ImageData::Mono1 { width, height, .. } => (width, height),
        ImageData::Gray8 { width, height, .. } => (width, height),
        ImageData::Gray2 { width, height, .. } => (width, height),
        ImageData::Gray2Stream { width, height, .. } => (width, height),
    }
}

/// Bytes in one plane of a `w` by `h` picture.
pub open spec fn plane_len(w: u32, h: u32) -> int {
    (w * h + 7) / 8
}

/// Grey level of pixel `idx` of an 8-bit picture; white past its data.
pub open spec fn gray8_level(pixels: Seq<u8>, idx: int) -> u8 {
    if 0 <= idx < pixels.len() {
        pixels[idx]
    } else {
        255
    }
}

/// Grey level of pixel `idx` of a two-bit picture stored as three planes
/// (base, low bit, high bit) of `plane` bytes each.
pub open spec fn gray2_level(data: Seq<u8>, plane: int, idx: int) -> u8 {
    let byte = idx / 8;
    let bit = (7 - idx % 8) as u8;
    let bw = (data[byte] >> bit) & 1;
    let l = (data[plane + byte] >> bit) & 1;
    let m = (data[2 * plane + byte] >> bit) & 1;
    if m == 0 && l == 0 && bw == 1 {
        255
    } else if m == 0 && l == 1 && bw == 1 {
        192
    } else if m == 1 && l == 0 && bw == 0 {
        128
    } else if m == 1 && l == 1 && bw == 0 {
        64
    } else {
        0
    }
}

/// Grey level of pixel `idx` of a picture; pictures kept in storage, and
/// two-bit pictures too short for their planes, read as white.
pub open spec fn source_level(image: ImageData, idx: int) -> u8 {
    match image {
        ImageData::Mono1 { bits, .. } => if bit_of(bits@, idx) { 255 } else { 0 },
        ImageData::Gray8 { pixels, .. } => gray8_level(pixels@, idx),
        ImageData::Gray2 { width, height, data } => if data@.len() < plane_len(width, height) * 3 {
            255
        } else {
            gray2_level(data@, plane_len(width, height), idx)
        },
        ImageData::Gray2Stream { .. } => 255,
    }
}

/// The source column (or row) that thumbnail column `p` samples.
pub open spec fn sample(p: int, src: int, size: int) -> int {
    (p * src) / size
}

/// The source pixel that thumbnail pixel `(x, y)` samples.
pub open spec fn sample_index(w: int, h: int, size: int, x: int, y: int) -> int {
    sample(y, h, size) * w + sample(x, w, size)
}

/// Whether pixel `i` of a `size` by `size` thumbnail of `image` is white.
pub open spec fn thumb_light(image: ImageData, size: int, i: int) -> bool {
    let (w, h) = dims(image);
    luma_spec(source_level(image, sample_index(w as int, h as int, size, i % size, i / size))) >= 128
}

/// Whether pixel `i` of a picture turned into one bit is white.
pub open spec fn mono_light(image: ImageData, i: int) -> bool {
    luma_spec(source_level(image, i)) >= 128
}

/// The sizes for which making a thumbnail neither overflows nor reads past
/// the picture's data.
pub open spec fn thumb_ok(image: ImageData, size: u32) -> bool {
    let (w, h) = dims(image);
    (w > 0 && h > 0 && size > 0) ==> {
        &&& size * size + 7 <= usize::MAX
        &&& size * size <= u32::MAX + 1
        &&& (size - 1) * w <= u32::MAX
        &&& (size - 1) * h <= u32::MAX
        &&& !(image is Gray2Stream) ==> forall|x: int, y: int|
            0 <= x < size && 0 <= y < size ==> #[trigger] sample_index(w as int, h as int, size as int, x, y) <= u32::MAX
        &&& image matches ImageData::Mono1 { bits, .. } ==> forall|x: int, y: int|
            0 <= x < size && 0 <= y < size ==> #[trigger] sample_index(w as int, h as int, size as int, x, y) / 8
                < bits@.len()
        &&& image is Gray2 ==> w * h + 7 <= usize::MAX && plane_len(w, h) * 3 <= usize::MAX
    }
}

/// The sizes for which turning a picture into one bit does not overflow.
pub open spec fn mono_ok(image: ImageData) -> bool {
    let (w, h) = dims(image);
    &&& (image is Gray8 || image is Gray2) ==> w * h + 7 <= usize::MAX
    &&& image is Gray2 ==> plane_len(w, h) * 3 <= usize::MAX
}

proof fn lemma_bit_update(v: u8, b: u8, c: u8)
    by (bit_vector)
    requires
        b < 8,
        c < 8,
    ensures
        ((v | (1u8 << b)) >> c) & 1 == (if c == b { 1u8 } else { (v >> c) & 1 }),
        ((v & !(1u8 << b)) >> c) & 1 == (if c == b { 0u8 } else { (v >> c) & 1 }),
        (0xFFu8 >> c) & 1 == 1,
{
}

/// A plane of `len` bytes with every bit set.
fn white_plane(len: usize) -> (bits: Vec<u8>)
    ensures
        bits@.len() == len,
        forall|i: int| 0 <= i < len * 8 ==> #[trigger] bit_of(bits@, i),
{
    let mut bits: Vec<u8> = Vec::new();
    let mut k: usize = 0;
    while k < len
        invariant
            k <= len,
            bits@.len() == k,
            forall|j: int| 0 <= j < k ==> bits@[j] == 0xFFu8,
        decreases len - k,
    {
        bits.push(0xFF);
        k += 1;
    }
    proof {
        assert forall|i: int| 0 <= i < len * 8 implies #[trigger] bit_of(bits@, i) by {
            lemma_bit_update(0, 0, (7 - i % 8) as u8);
        }
    }
    bits
}

/// Sets (white) or clears pixel `idx` of a plane, leaving the others alone.
fn put_pixel(bits: &mut Vec<u8>, idx: usize, white: bool)
    requires
        idx / 8 < old(bits)@.len(),
    ensures
        final(bits)@.len() == old(bits)@.len(),
        bit_of(final(bits)@, idx as int) == white,
        forall|i: int| 0 <= i < old(bits)@.len() * 8 && i != idx ==> #[trigger] bit_of(final(bits)@, i) == bit_of(old(bits)@, i),
{
    let byte = idx / 8;
    let bit = (7 - (idx % 8)) as u8;
    let mask: u8 = 1u8 << bit;
    let cur = bits[byte];
    let next = if white { cur | mask } else { cur & !mask };
    bits.set(byte, next);
    proof {
        assert forall|i: int| 0 <= i < old(bits)@.len() * 8 && i != idx implies #[trigger] bit_of(bits@, i) == bit_of(
            old(bits)@,
            i,
        ) by {
            let c = (7 - i % 8) as u8;
            lemma_bit_update(cur, bit, c);
            if i / 8 == byte as int {
                assert(c != bit);
            }
        }
        lemma_bit_update(cur, bit, bit);
    }
}

/// Grey level of pixel `idx` of an 8-bit picture; see [`gray8_level`].
fn gray8_at(pixels: &Vec<u8>, idx: usize) -> (v: u8)
    ensures
        v == gray8_level(pixels@, idx as int),
{
    if idx < pixels.len() {
        pixels[idx]
    } else {
        255
    }
}

/// Grey level of pixel `idx` of a two-bit picture; see [`gray2_level`].
fn gray2_at(data: &Vec<u8>, plane: usize, idx: usize) -> (v: u8)
    requires
        idx / 8 < plane,
        plane * 3 <= data@.len(),
    ensures
        v == gray2_level(data@, plane as int, idx as int),
{
    let n = data.len();
    assert(plane * 3 <= n);
    let byte = idx / 8;
    let bit = (7 - (idx % 8)) as u8;
    let bw = (data[byte] >> bit) & 1;
    let l = (data[plane + byte] >> bit) & 1;
    let m = (data[plane * 2 + byte] >> bit) & 1;
    if m == 0 && l == 0 && bw == 1 {
        255
    } else if m == 0 && l == 1 && bw == 1 {
        192
    } else if m == 1 && l == 0 && bw == 0 {
        128
    } else if m == 1 && l == 1 && bw == 0 {
        64
    } else {
        0
    }
}

/// Grey level of source pixel `(sx, sy)`; see [`source_level`].
fn sampled_level(image: &ImageData, sx: u32, sy: u32) -> (v: u8)
    requires
        sx < dims(*image).0,
        sy < dims(*image).1,
        !(*image is Gray2Stream) ==> sy * dims(*image).0 + sx <= u32::MAX,
        *image matches ImageData::Mono1 { bits, .. } ==> (sy * dims(*image).0 + sx) / 8 < bits@.len(),
        *image is Gray2 ==> dims(*image).0 * dims(*image).1 + 7 <= usize::MAX && plane_len(dims(*image).0, dims(*image).1) * 3
            <= usize::MAX,
    ensures
        v == source_level(*image, sy * dims(*image).0 + sx),
{
    match image {
        ImageData::Mono1 { width, bits, .. } => {
            let idx = (sy * *width + sx) as usize;
            let byte = bits[idx / 8];
            let bit = (7 - (idx % 8)) as u8;
            if (byte >> bit) & 1 == 1 {
                255
            } else {
                0
            }
        },
        ImageData::Gray8 { width, pixels, .. } => gray8_at(pixels, (sy * *width + sx) as usize),
        ImageData::Gray2 { width, height, data } => {
            let idx = (sy * *width + sx) as usize;
            let plane = ((*width as usize * *height as usize) + 7) / 8;
            if data.len() < plane * 3 {
                255
            } else {
                assert(sy * *width + sx < *width * *height) by (nonlinear_arith)
                    requires
                        sy < *height,
                        sx < *width,
                ;
                gray2_at(data, plane, idx)
            }
        },
        ImageData::Gray2Stream { .. } => 255,
    }
}

/// A picture turned into one bit per pixel, pixel `i` white exactly when
/// [`mono_light`] says so. One-bit pictures come back as they are; pictures
/// kept in storage, and two-bit pictures too short for their three planes,
/// give nothing.
pub fn thumbnail_to_mono(image: &ImageData) -> (r: Option<ImageData>)
    requires
        mono_ok(*image),
    ensures
        (match *image {
            ImageData::Mono1 { width, height, bits } => r matches Some(ImageData::Mono1 { width: w, height: h, bits: b })
                && w == width && h == height && b@ == bits@,
            ImageData::Gray8 { width, height, .. } => r matches Some(ImageData::Mono1 { width: w, height: h, bits: b })
                && w == width && h == height && plane_holds(b@, width * height, |i: int| mono_light(*image, i)),
            ImageData::Gray2 { width, height, data } => if data@.len() < plane_len(width, height) * 3 {
                r is None
            } else {
                r matches Some(ImageData::Mono1 { width: w, height: h, bits: b }) && w == width && h == height
                    && plane_holds(b@, width * height, |i: int| mono_light(*image, i))
            },
            ImageData::Gray2Stream { .. } => r is None,
        }),
{
    match image {
        ImageData::Mono1 { width, height, bits } => Some(
            ImageData::Mono1 { width: *width, height: *height, bits: vstd::slice::slice_to_vec(bits.as_slice()) },
        ),
        ImageData::Gray8 { width, height, pixels } => {
            let n = *width as usize * *height as usize;
            let plane = (n + 7) / 8;
            let mut bits = white_plane(plane);
            let mut idx: usize = 0;
            while idx < n
                invariant
                    *image == (ImageData::Gray8 { width: *width, height: *height, pixels: *pixels }),
                    n == *width * *height,
                    plane == (n + 7) / 8,
                    idx <= n,
                    bits@.len() == plane,
                    forall|i: int| 0 <= i < plane * 8 ==> #[trigger] bit_of(bits@, i) == (if i < idx { mono_light(*image, i) } else { true }),
                decreases n - idx,
            {
                let lum = adjust_thumbnail_luma(gray8_at(pixels, idx));
                put_pixel(&mut bits, idx, lum >= 128);
                idx += 1;
            }
            Some(ImageData::Mono1 { width: *width, height: *height, bits })
        },
        ImageData::Gray2 { width, height, data } => {
            let n = *width as usize * *height as usize;
            let plane = (n + 7) / 8;
            if data.len() < plane * 3 {
                return None;
            }
            let mut bits = white_plane(plane);
            let mut idx: usize = 0;
            while idx < n
                invariant
                    *image == (ImageData::Gray2 { width: *width, height: *height, data: *data }),
                    n == *width * *height,
                    plane == (n + 7) / 8,
                    plane == plane_len(*width, *height),
                    plane * 3 <= data@.len(),
                    idx <= n,
                    bits@.len() == plane,
                    forall|i: int| 0 <= i < plane * 8 ==> #[trigger] bit_of(bits@, i) == (if i < idx { mono_light(*image, i) } else { true }),
                decreases n - idx,
            {
                let lum = adjust_thumbnail_luma(gray2_at(data, plane, idx));
                put_pixel(&mut bits, idx, lum >= 128);
                idx += 1;
            }
            Some(ImageData::Mono1 { width: *width, height: *height, bits })
        },
        ImageData::Gray2Stream { .. } => None,
    }
}

/// A `size` by `size` one-bit thumbnail of a picture: thumbnail pixel
/// `(x, y)` samples source pixel `(x * width / size, y * height / size)`
/// and is white exactly when [`thumb_light`] says so. A picture with no
/// pixels gives nothing.
pub fn thumbnail_from_image(image: &ImageData, size: u32) -> (r: Option<ImageData>)
    requires
        thumb_ok(*image, size),
    ensures
        r is None <==> (dims(*image).0 == 0 || dims(*image).1 == 0),
        r is Some ==> (r matches Some(ImageData::Mono1 { width, height, bits }) && width == size && height == size
            && plane_holds(bits@, size * size, |i: int| thumb_light(*image, size as int, i))),
{
    let (src_w, src_h) = match image {
        ImageData::Mono1 { width, height, .. } => (*width, *height),
        ImageData::Gray8 { width, height, .. } => (*width, *height),
        ImageData::Gray2 { width, height, .. } => (*width, *height),
        ImageData::Gray2Stream { width, height, .. } => (*width, *height),
    };
    if src_w == 0 || src_h == 0 {
        return None;
    }
    let dst_w = size;
    let dst_h = size;
    proof {
        if size == 0 {
            assert(size * size == 0) by (nonlinear_arith) requires size == 0;
        }
    }
    let dst_len = ((dst_w as usize * dst_h as usize) + 7) / 8;
    let mut bits = white_plane(dst_len);
    let ghost n: int = size * size;
    let mut y: u32 = 0;
    while y < dst_h
        invariant
            thumb_ok(*image, size),
            (src_w, src_h) == dims(*image),
            src_w > 0 && src_h > 0,
            dst_w == size && dst_h == size,
            n == size * size,
            dst_len == (n + 7) / 8,
            y <= size,
            bits@.len() == dst_len,
            forall|i: int| 0 <= i < dst_len * 8 ==> #[trigger] bit_of(bits@, i) == (if i < y * size {
                thumb_light(*image, size as int, i)
            } else {
                true
            }),
        decreases size - y,
    {
        let mut x: u32 = 0;
        while x < dst_w
            invariant
                thumb_ok(*image, size),
                (src_w, src_h) == dims(*image),
                src_w > 0 && src_h > 0,
                dst_w == size && dst_h == size,
                n == size * size,
                dst_len == (n + 7) / 8,
                y < size,
                x <= size,
                bits@.len() == dst_len,
                forall|i: int| 0 <= i < dst_len * 8 ==> #[trigger] bit_of(bits@, i) == (if i < y * size + x {
                    thumb_light(*image, size as int, i)
                } else {
                    true
                }),
            decreases size - x,
        {
            proof {
                lemma_mul_inequality(x as int, (size - 1) as int, src_w as int);
                lemma_mul_inequality(y as int, (size - 1) as int, src_h as int);
                lemma_mul_strict_inequality(x as int, size as int, src_w as int);
                lemma_mul_strict_inequality(y as int, size as int, src_h as int);
                lemma_multiply_divide_lt(x * src_w, size as int, src_w as int);
                lemma_multiply_divide_lt(y * src_h, size as int, src_h as int);
                lemma_mul_inequality(y as int, (size - 1) as int, size as int);
                assert((size - 1) * size == size * size - size) by (nonlinear_arith);
                assert(x * src_w == src_w * x) by (nonlinear_arith);
                assert(y * src_h == src_h * y) by (nonlinear_arith);
            }
            let sx = (x * src_w) / dst_w;
            let sy = (y * src_h) / dst_h;
            proof {
                assert(sample_index(src_w as int, src_h as int, size as int, x as int, y as int) == sy * src_w + sx);
            }
            let lum = sampled_level(image, sx, sy);
            let dst_idx = (y * dst_w + x) as usize;
            proof {
                lemma_fundamental_div_mod_converse(dst_idx as int, size as int, y as int, x as int);
            }
            put_pixel(&mut bits, dst_idx, adjust_thumbnail_luma(lum) >= 128);
            x += 1;
        }
        assert((y + 1) * size == y * size + size) by (nonlinear_arith);
        y += 1;
    }
    Some(ImageData::Mono1 { width: dst_w, height: dst_h, bits })
}

/// White stays white and black stays black when the contrast is raised.
pub proof fn lemma_luma_keeps_extremes()
    ensures
        luma_spec(255) == 255,
        luma_spec(0) == 0,
        luma_spec(128) == 128,
{
}

/// A thumbnail of a square one-bit picture at the picture's own size is the
/// picture itself.
pub proof fn lemma_same_size_thumbnail_copies_mono(image: ImageData, size: u32, i: int)
    requires
        image matches ImageData::Mono1 { width, height, .. } && width == size && height == size,
        size > 0,
        0 <= i < size * size,
    ensures
        thumb_light(image, size as int, i) == bit_of(image->Mono1_bits@, i),
{
    let s = size as int;
    let x = i % s;
    let y = i / s;
    vstd::arithmetic::div_mod::lemma_fundamental_div_mod(i, s);
    assert((x * s) / s == x) by (nonlinear_arith) requires s > 0, 0 <= x;
    assert((y * s) / s == y) by (nonlinear_arith) requires s > 0, 0 <= y;
    assert(sample_index(s, s, s, x, y) == y * s + x);
    assert(y * s + x == i) by (nonlinear_arith) requires i == s * (i / s) + (i % s), x == i % s, y == i / s;
}

} // verus!
