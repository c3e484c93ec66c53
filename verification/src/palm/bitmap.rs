//! Palm `Tbmp`/`tAIB` bitmap resources: the header, and the scan-line,
//! run-length and PackBits compressions of 1-bit images.
use vstd::prelude::*;
use crate::palm::prc::{be16, parse_prc, prc_count, prc_entry, prc_well_formed, PrcResource};
use crate::palm::runtime::ResourceBlob;

verus! {

/// Resource type `'Tbmp'`.
pub const KIND_TBMP: u32 = 0x5462_6D70;
/// Resource type `'tAIB'` (application icon).
pub const KIND_TAIB: u32 = 0x7441_4942;

/// A decoded 1-bit bitmap: `height` rows of `row_bytes` bytes, most
/// significant bit first.
#[derive(Clone, Debug)]
pub struct PrcBitmap {
    pub resource_id: u16,
    pub width: u16,
    pub height: u16,
    pub row_bytes: u16,
    pub bits: Vec<u8>,
}

/// A bitmap as mathematical values.
#[verifier::ext_equal]
pub struct BitmapSpec {
    pub resource_id: u16,
    pub width: u16,
    pub height: u16,
    pub row_bytes: u16,
    pub bits: Seq<u8>,
}

impl View for PrcBitmap {
    type V = BitmapSpec;

    open spec fn view(&self) -> BitmapSpec {
        BitmapSpec {
            resource_id: self.resource_id,
            width: self.width,
            height: self.height,
            row_bytes: self.row_bytes,
            bits: self.bits@,
        }
    }
}

pub open spec fn opt_bytes(r: Option<Vec<u8>>) -> Option<Seq<u8>> {
    match r {
        Some(v) => Some(v@),
        None => None,
    }
}

pub open spec fn opt_bitmap(r: Option<PrcBitmap>) -> Option<BitmapSpec> {
    match r {
        Some(b) => Some(b@),
        None => None,
    }
}

/// `n` copies of `b`.
pub open spec fn repeat(n: int, b: u8) -> Seq<u8> {
    Seq::new(n as nat, |_i: int| b)
}

pub open spec fn min_int(a: int, b: int) -> int {
    if a <= b { a } else { b }
}

/// Run-length decoding: pairs of (count, byte) from `src[si..]` appended to
/// `out` until it holds `total` bytes; a run is cut at `total`, and a stream
/// that ends first gives `None`.
pub open spec fn rle_decode(src: Seq<u8>, si: int, out: Seq<u8>, total: int) -> Option<Seq<u8>>
    decreases src.len() - si,
{
    if out.len() >= total {
        Some(out)
    } else if si < 0 || si + 1 >= src.len() {
        None
    } else {
        let n = min_int(src[si] as int, total - out.len());
        rle_decode(src, si + 2, out + repeat(n, src[si + 1]), total)
    }
}

/// The count byte of PackBits read as a signed number.
pub open spec fn signed8(b: u8) -> int {
    if b < 0x80 { b as int } else { b as int - 0x100 }
}

/// PackBits decoding: a count `c` in `-127..=-1` repeats the next byte
/// `1 - c` times, a count in `0..=127` copies the next `c + 1` bytes, and
/// `-128` is skipped; runs are cut at `total`, and a stream that ends first
/// gives `None`.
pub open spec fn packbits_decode(src: Seq<u8>, si: int, out: Seq<u8>, total: int) -> Option<Seq<u8>>
    decreases src.len() - si,
{
    if out.len() >= total {
        Some(out)
    } else if si < 0 || si >= src.len() {
        None
    } else {
        let c = signed8(src[si]);
        let room = total - out.len();
        if -127 <= c <= -1 {
            if si + 1 >= src.len() {
                None
            } else {
                packbits_decode(src, si + 2, out + repeat(min_int(1 - c, room), src[si + 1]), total)
            }
        } else if c >= 0 {
            let n = min_int(c + 1, room);
            if si + 1 + n > src.len() {
                None
            } else {
                packbits_decode(src, si + 1 + n, out + src.subrange(si + 1, si + 1 + n), total)
            }
        } else {
            packbits_decode(src, si + 1, out, total)
        }
    }
}

/// Scan-line decoding of `height` rows of `rb` bytes, at byte `col` of row
/// `row`. Every group of eight bytes of a row starts with a flag byte (kept
/// in `diff` for the group); a byte whose flag bit is set, and every byte of
/// the first row, is read from the stream, and any other byte repeats the
/// byte above it.
pub open spec fn scanline_decode(
    src: Seq<u8>,
    si: int,
    out: Seq<u8>,
    rb: int,
    height: int,
    row: int,
    col: int,
    diff: u8,
) -> Option<Seq<u8>>
    decreases height - row, rb - col,
{
    if row >= height || rb <= 0 {
        Some(out)
    } else if col >= rb {
        scanline_decode(src, si, out, rb, height, row + 1, 0, diff)
    } else {
        let k = col % 8;
        if k == 0 && (si < 0 || si >= src.len()) {
            None
        } else {
            let d = if k == 0 { src[si] } else { diff };
            let s1 = if k == 0 { si + 1 } else { si };
            if row == 0 || (d & (1u8 << ((7 - k) as u8))) != 0 {
                if s1 < 0 || s1 >= src.len() {
                    None
                } else {
                    scanline_decode(src, s1 + 1, out.push(src[s1]), rb, height, row, col + 1, d)
                }
            } else {
                scanline_decode(src, s1, out.push(out[out.len() - rb]), rb, height, row, col + 1, d)
            }
        }
    }
}

/// Size of the bitmap header: 24 bytes from version 3 on, 16 before.
pub open spec fn header_size(version: u8) -> int {
    if version >= 3 { 24 } else { 16 }
}

/// The compressed pixel data of a bitmap decoded into `row_bytes * height`
/// bytes: the stream starts after the header and a size field (two bytes
/// up to version 2, four in version 3, none after); `compression` is 0 for
/// scan-line, 1 for run-length and 2 for PackBits.
pub open spec fn decompress_spec(data: Seq<u8>, version: u8, compression: u8, row_bytes: u16, height: u16) -> Option<Seq<u8>> {
    let total = row_bytes as int * height as int;
    let hs = header_size(version);
    let skip = if version <= 2 { 2int } else if version == 3 { 4int } else { 0int };
    if total == 0 || data.len() < hs || data.len() - hs < skip {
        None
    } else {
        let src = data.subrange(hs + skip, data.len() as int);
        if compression == 0 {
            scanline_decode(src, 0, Seq::empty(), row_bytes as int, height as int, 0, 0, 0)
        } else if compression == 1 {
            rle_decode(src, 0, Seq::empty(), total)
        } else if compression == 2 {
            packbits_decode(src, 0, Seq::empty(), total)
        } else {
            None
        }
    }
}

/// A bitmap resource decoded: `None` for a header shorter than 16 bytes, a
/// zero width, height or row size, a depth other than one bit, or pixel
/// data that is missing or fails to decode.
pub open spec fn bitmap_blob_spec(resource_id: u16, data: Seq<u8>) -> Option<BitmapSpec> {
    if data.len() < 16 {
        None
    } else {
        let width = be16(data, 0);
        let height = be16(data, 2);
        let row_bytes = be16(data, 4) & 0x3FFF;
        let flags = be16(data, 6);
        let pixel_size = data[8];
        let version = data[9];
        let compressed = (flags & 0x8000) != 0;
        let compression: u8 = if compressed {
            if version <= 1 { 0 } else { data[13] }
        } else {
            0xFF
        };
        let bits_len = row_bytes as int * height as int;
        let hs = header_size(version);
        if width == 0 || height == 0 || row_bytes == 0 || pixel_size != 1 {
            None
        } else {
            let bits = if !compressed {
                if hs + bits_len <= data.len() {
                    Some(data.subrange(hs, hs + bits_len))
                } else if 16 + bits_len <= data.len() {
                    Some(data.subrange(16, 16 + bits_len))
                } else {
                    None
                }
            } else {
                decompress_spec(data, version, compression, row_bytes, height)
            };
            match bits {
                None => None,
                Some(b) => Some(BitmapSpec { resource_id, width, height, row_bytes, bits: b }),
            }
        }
    }
}

fn read_u16_be(data: &[u8], off: usize) -> (r: Option<u16>)
    ensures
        r == (if off + 2 <= data@.len() { Some(be16(data@, off as int)) } else { None::<u16> }),
{
    if off >= data.len() || data.len() - off < 2 {
        return None;
    }
    let b0 = data[off];
    let b1 = data[off + 1];
    Some((b0 as u16) * 0x100 + (b1 as u16))
}

fn decode_rle(src: &[u8], total: usize) -> (r: Option<Vec<u8>>)
    ensures
        opt_bytes(r) == rle_decode(src@, 0, Seq::empty(), total as int),
        r matches Some(v) ==> v@.len() == total,
{
    let ghost target = rle_decode(src@, 0, Seq::empty(), total as int);
    let mut out: Vec<u8> = Vec::new();
    let mut si: usize = 0;
    while out.len() < total
        invariant
            si <= src@.len(),
            out@.len() <= total,
            rle_decode(src@, si as int, out@, total as int) == target,
            target == rle_decode(src@, 0, Seq::empty(), total as int),
        decreases src@.len() - si,
    {
        if si >= src.len() || si + 1 >= src.len() {
            return None;
        }
        let len = src[si] as usize;
        let b = src[si + 1];
        si += 2;
        let room = total - out.len();
        let n = if len < room { len } else { room };
        let ghost before = out@;
        let mut i: usize = 0;
        while i < n
            invariant
                i <= n,
                n <= room,
                room == total - before.len(),
                before.len() < total,
                out@ == before + repeat(i as int, b),
            decreases n - i,
        {
            assert(before + repeat(i as int + 1, b) =~= (before + repeat(i as int, b)).push(b));
            out.push(b);
            i += 1;
        }
    }
    Some(out)
}

fn decode_packbits(src: &[u8], total: usize) -> (r: Option<Vec<u8>>)
    ensures
        opt_bytes(r) == packbits_decode(src@, 0, Seq::empty(), total as int),
        r matches Some(v) ==> v@.len() == total,
{
    let ghost target = packbits_decode(src@, 0, Seq::empty(), total as int);
    let mut out: Vec<u8> = Vec::new();
    let mut si: usize = 0;
    while out.len() < total
        invariant
            si <= src@.len(),
            out@.len() <= total,
            packbits_decode(src@, si as int, out@, total as int) == target,
            target == packbits_decode(src@, 0, Seq::empty(), total as int),
        decreases src@.len() - si,
    {
        if si >= src.len() {
            return None;
        }
        let count = src[si];
        si += 1;
        let room = total - out.len();
        let ghost before = out@;
        if count >= 0x81 {
            // -127..=-1: repeat the next byte 1 - count times.
            if si >= src.len() {
                return None;
            }
            let len = (0x101 - count as usize) as usize;
            let b = src[si];
            si += 1;
            let n = if len < room { len } else { room };
            let mut i: usize = 0;
            while i < n
                invariant
                    i <= n,
                    n <= room,
                    room == total - before.len(),
                    before.len() < total,
                    out@ == before + repeat(i as int, b),
                decreases n - i,
            {
                assert(before + repeat(i as int + 1, b) =~= (before + repeat(i as int, b)).push(b));
                out.push(b);
                i += 1;
            }
        } else if count <= 0x7F {
            // 0..=127: copy the next count + 1 bytes.
            let len = count as usize + 1;
            let n = if len < room { len } else { room };
            if n > src.len() - si {
                return None;
            }
            let start = si;
            let mut i: usize = 0;
            while i < n
                invariant
                    i <= n,
                    n <= room,
                    room == total - before.len(),
                    before.len() < total,
                    start + n <= src@.len(),
                    src@.len() == src.len(),
                    out@ == before + src@.subrange(start as int, start + i),
                decreases n - i,
            {
                assert(before + src@.subrange(start as int, start + i + 1) =~= (before
                    + src@.subrange(start as int, start + i)).push(src@[start + i]));
                out.push(src[start + i]);
                i += 1;
            }
            si = start + n;
        }
        // -128 is a no-op.
    }
    Some(out)
}

fn decode_scanline(src: &[u8], row_bytes: usize, height: usize) -> (r: Option<Vec<u8>>)
    requires
        row_bytes > 0,
        row_bytes * height <= 0xFFFE_0001,
    ensures
        opt_bytes(r) == scanline_decode(src@, 0, Seq::empty(), row_bytes as int, height as int, 0, 0, 0),
        r matches Some(v) ==> v@.len() == row_bytes * height,
{
    let ghost target = scanline_decode(src@, 0, Seq::empty(), row_bytes as int, height as int, 0, 0, 0);
    let mut out: Vec<u8> = Vec::new();
    let mut si: usize = 0;
    let mut row: usize = 0;
    let mut col: usize = 0;
    let mut diff: u8 = 0;
    while row < height
        invariant
            row_bytes > 0,
            row_bytes * height <= 0xFFFE_0001,
            si <= src@.len(),
            row <= height,
            col <= row_bytes,
            row < height ==> out@.len() == row * row_bytes + col,
            row == height ==> out@.len() == row_bytes * height,
            scanline_decode(src@, si as int, out@, row_bytes as int, height as int, row as int, col as int, diff)
                == target,
            target == scanline_decode(src@, 0, Seq::empty(), row_bytes as int, height as int, 0, 0, 0),
        decreases height - row, row_bytes - col,
    {
        if col >= row_bytes {
            assert((row + 1) * row_bytes == row * row_bytes + row_bytes) by (nonlinear_arith);
            assert(row_bytes * (row + 1) == row * row_bytes + row_bytes) by (nonlinear_arith);
            row += 1;
            col = 0;
            continue;
        }
        assert(row * row_bytes + col < row_bytes * height) by (nonlinear_arith)
            requires
                row < height,
                col < row_bytes;
        let k = col % 8;
        if k == 0 {
            if si >= src.len() {
                return None;
            }
            diff = src[si];
            si += 1;
        }
        let shift = (7 - k) as u8;
        if row == 0 || (diff & (1u8 << shift)) != 0 {
            if si >= src.len() {
                return None;
            }
            out.push(src[si]);
            si += 1;
        } else {
            assert(row * row_bytes >= row_bytes) by (nonlinear_arith) requires row >= 1;
            let v = out[out.len() - row_bytes];
            out.push(v);
        }
        col += 1;
    }
    Some(out)
}

fn decompress_bitmap_blob(
    data: &[u8],
    version: u8,
    compression: u8,
    row_bytes: u16,
    _width: u16,
    height: u16,
) -> (r: Option<Vec<u8>>)
    ensures
        opt_bytes(r) == decompress_spec(data@, version, compression, row_bytes, height),
        r matches Some(v) ==> v@.len() == row_bytes as int * height as int,
{
    assert(row_bytes as int * height as int <= 0xFFFF * 0xFFFF) by (nonlinear_arith);
    let expected_len = row_bytes as usize * height as usize;
    if expected_len == 0 {
        return None;
    }
    let header_size: usize = if version >= 3 { 24 } else { 16 };
    if data.len() < header_size {
        return None;
    }
    // Compressed payloads start with a size field before version 4.
    let skip: usize = if version <= 2 { 2 } else if version == 3 { 4 } else { 0 };
    if data.len() - header_size < skip {
        return None;
    }
    let src = vstd::slice::slice_subrange(data, header_size + skip, data.len());
    if compression == 0 {
        decode_scanline(src, row_bytes as usize, height as usize)
    } else if compression == 1 {
        decode_rle(src, expected_len)
    } else if compression == 2 {
        decode_packbits(src, expected_len)
    } else {
        None
    }
}


fn parse_bitmap_blob(resource_id: u16, data: &[u8]) -> (r: Option<PrcBitmap>)
    ensures
        opt_bitmap(r) == bitmap_blob_spec(resource_id, data@),
        r matches Some(b) ==> b.bits@.len() == b.row_bytes as int * b.height as int,
{
    if data.len() < 16 {
        return None;
    }
    let width = read_u16_be(data, 0)?;
    let height = read_u16_be(data, 2)?;
    let row_bytes_raw = read_u16_be(data, 4)?;
    let flags = match read_u16_be(data, 6) {
        Some(f) => f,
        None => 0,
    };
    let row_bytes = row_bytes_raw & 0x3FFF;
    let pixel_size = data[8];
    let version = data[9];
    let compressed = (flags & 0x8000) != 0;
    let compression: u8 = if compressed {
        if version <= 1 {
            0 // scan-line
        } else {
            data[13]
        }
    } else {
        0xFF // none
    };
    if width == 0 || height == 0 || row_bytes == 0 {
        return None;
    }
    if pixel_size != 1 {
        return None;
    }
    assert(row_bytes as int * height as int <= 0xFFFF * 0xFFFF) by (nonlinear_arith);
    let bits_len = row_bytes as usize * height as usize;
    // Version 3 headers are 24 bytes long, earlier ones 16; uncompressed
    // data that does not fit after a 24-byte header is looked for after 16.
    let header_size: usize = if version >= 3 { 24 } else { 16 };
    let bits = if !compressed {
        if header_size <= data.len() && bits_len <= data.len() - header_size {
            vstd::slice::slice_to_vec(vstd::slice::slice_subrange(data, header_size, header_size + bits_len))
        } else if bits_len <= data.len() - 16 {
            vstd::slice::slice_to_vec(vstd::slice::slice_subrange(data, 16, 16 + bits_len))
        } else {
            return None;
        }
    } else {
        decompress_bitmap_blob(data, version, compression, row_bytes, width, height)?
    };
    Some(PrcBitmap { resource_id, width, height, row_bytes, bits })
}

/// The bitmap that a resource of the map decodes to: only `Tbmp` and
/// `tAIB` resources whose data lies inside the file count.
pub open spec fn resource_bitmap(raw: Seq<u8>, r: PrcResource) -> Option<BitmapSpec> {
    let start = r.offset as int;
    let end = start + r.size as int;
    if r.kind != KIND_TBMP && r.kind != KIND_TAIB {
        None
    } else if end > raw.len() {
        None
    } else {
        bitmap_blob_spec(r.id, raw.subrange(start, end))
    }
}

/// The bitmaps of the first `n` resources of `res`, in order.
pub open spec fn bitmaps_of(raw: Seq<u8>, res: Seq<PrcResource>, n: int) -> Seq<BitmapSpec>
    decreases n,
{
    if n <= 0 {
        Seq::empty()
    } else {
        let prev = bitmaps_of(raw, res, n - 1);
        match resource_bitmap(raw, res[n - 1]) {
            Some(b) => prev.push(b),
            None => prev,
        }
    }
}

/// Every bitmap of a resource database, in the order of its resource map;
/// nothing when the map cannot be read.
pub open spec fn prc_bitmaps_spec(raw: Seq<u8>) -> Seq<BitmapSpec> {
    if !prc_well_formed(raw) {
        Seq::empty()
    } else {
        bitmaps_of(raw, Seq::new(prc_count(raw) as nat, |i: int| prc_entry(raw, i)), prc_count(raw))
    }
}

/// Decodes every `Tbmp` and `tAIB` resource of a resource database; a
/// resource that does not decode is left out.
pub fn parse_prc_bitmaps(raw: &[u8]) -> (out: Vec<PrcBitmap>)
    ensures
        out@.len() == prc_bitmaps_spec(raw@).len(),
        forall|i: int| 0 <= i < out@.len() ==> #[trigger] out@[i]@ == prc_bitmaps_spec(raw@)[i],
{
    let info = match parse_prc(raw) {
        Some(info) => info,
        None => {
            return Vec::new();
        },
    };
    let ghost entries = Seq::new(prc_count(raw@) as nat, |i: int| prc_entry(raw@, i));
    assert(info.resources@ =~= entries);
    let mut out: Vec<PrcBitmap> = Vec::new();
    let mut i: usize = 0;
    while i < info.resources.len()
        invariant
            info.resources@ == entries,
            entries.len() == prc_count(raw@),
            prc_well_formed(raw@),
            i <= info.resources@.len(),
            out@.len() == bitmaps_of(raw@, entries, i as int).len(),
            forall|j: int| 0 <= j < out@.len() ==> #[trigger] out@[j]@ == bitmaps_of(raw@, entries, i as int)[j],
        decreases info.resources@.len() - i,
    {
        let res = info.resources[i];
        let ghost prev = bitmaps_of(raw@, entries, i as int);
        if res.kind == KIND_TBMP || res.kind == KIND_TAIB {
            let start = res.offset as usize;
            let size = res.size as usize;
            if size <= raw.len() && start <= raw.len() - size {
                let blob = vstd::slice::slice_subrange(raw, start, start + size);
                match parse_bitmap_blob(res.id, blob) {
                    Some(parsed) => {
                        out.push(parsed);
                    },
                    None => {},
                }
            }
        }
        i += 1;
    }
    out
}

/// The bitmap of one loaded resource, when it is a `Tbmp` or `tAIB` that decodes.
pub open spec fn blob_bitmap(b: ResourceBlob) -> Option<BitmapSpec> {
    if b.kind != KIND_TBMP && b.kind != KIND_TAIB {
        None
    } else {
        bitmap_blob_spec(b.id, b.data@)
    }
}

/// The bitmaps of the first `n` loaded resources, in order.
pub open spec fn blob_bitmaps(res: Seq<ResourceBlob>, n: int) -> Seq<BitmapSpec>
    decreases n,
{
    if n <= 0 {
        Seq::empty()
    } else {
        let prev = blob_bitmaps(res, n - 1);
        match blob_bitmap(res[n - 1]) {
            Some(b) => prev.push(b),
            None => prev,
        }
    }
}

/// Decodes every `Tbmp` and `tAIB` among loaded resources; a resource that
/// does not decode is left out.
pub fn parse_prc_bitmaps_from_resource_blobs(resources: &[ResourceBlob]) -> (out: Vec<PrcBitmap>)
    ensures
        out@.len() == blob_bitmaps(resources@, resources@.len() as int).len(),
        forall|i: int| 0 <= i < out@.len() ==> #[trigger] out@[i]@ == blob_bitmaps(resources@, resources@.len() as int)[i],
{
    let mut out: Vec<PrcBitmap> = Vec::new();
    let mut i: usize = 0;
    while i < resources.len()
        invariant
            i <= resources@.len(),
            out@.len() == blob_bitmaps(resources@, i as int).len(),
            forall|j: int| 0 <= j < out@.len() ==> #[trigger] out@[j]@ == blob_bitmaps(resources@, i as int)[j],
        decreases resources@.len() - i,
    {
        let res = &resources[i];
        if res.kind == KIND_TBMP || res.kind == KIND_TAIB {
            match parse_bitmap_blob(res.id, res.data.as_slice()) {
                Some(parsed) => {
                    out.push(parsed);
                },
                None => {},
            }
        }
        i += 1;
    }
    out
}


proof fn lemma_rle_len(src: Seq<u8>, si: int, out: Seq<u8>, total: int)
    requires
        out.len() <= total,
    ensures
        rle_decode(src, si, out, total) matches Some(r) ==> r.len() == total,
    decreases src.len() - si,
{
    if out.len() < total && !(si < 0 || si + 1 >= src.len()) {
        let n = min_int(src[si] as int, total - out.len());
        lemma_rle_len(src, si + 2, out + repeat(n, src[si + 1]), total);
    }
}

proof fn lemma_packbits_len(src: Seq<u8>, si: int, out: Seq<u8>, total: int)
    requires
        out.len() <= total,
    ensures
        packbits_decode(src, si, out, total) matches Some(r) ==> r.len() == total,
    decreases src.len() - si,
{
    if out.len() < total && !(si < 0 || si >= src.len()) {
        let c = signed8(src[si]);
        let room = total - out.len();
        if -127 <= c <= -1 {
            if si + 1 < src.len() {
                lemma_packbits_len(src, si + 2, out + repeat(min_int(1 - c, room), src[si + 1]), total);
            }
        } else if c >= 0 {
            let n = min_int(c + 1, room);
            if si + 1 + n <= src.len() {
                lemma_packbits_len(src, si + 1 + n, out + src.subrange(si + 1, si + 1 + n), total);
            }
        } else {
            lemma_packbits_len(src, si + 1, out, total);
        }
    }
}

proof fn lemma_scanline_len(src: Seq<u8>, si: int, out: Seq<u8>, rb: int, height: int, row: int, col: int, diff: u8)
    requires
        rb > 0,
        0 <= row <= height,
        0 <= col <= rb,
        out.len() == row * rb + col,
        row == height ==> col == 0,
    ensures
        scanline_decode(src, si, out, rb, height, row, col, diff) matches Some(r) ==> r.len() == height * rb,
    decreases height - row, rb - col,
{
    if row < height {
        if col >= rb {
            assert((row + 1) * rb == row * rb + rb) by (nonlinear_arith);
            lemma_scanline_len(src, si, out, rb, height, row + 1, 0, diff);
        } else {
            let k = col % 8;
            if !(k == 0 && (si < 0 || si >= src.len())) {
                let d = if k == 0 { src[si] } else { diff };
                let s1 = if k == 0 { si + 1 } else { si };
                if row == 0 || (d & (1u8 << ((7 - k) as u8))) != 0 {
                    if !(s1 < 0 || s1 >= src.len()) {
                        lemma_scanline_len(src, s1 + 1, out.push(src[s1]), rb, height, row, col + 1, d);
                    }
                } else {
                    lemma_scanline_len(src, s1, out.push(out[out.len() - rb]), rb, height, row, col + 1, d);
                }
            }
        }
    } else {
        assert(height * rb == row * rb);
    }
}

/// Every decoded bitmap has a positive size and holds exactly `height` rows
/// of `row_bytes` bytes.
pub proof fn lemma_bitmap_size(resource_id: u16, data: Seq<u8>)
    ensures
        bitmap_blob_spec(resource_id, data) matches Some(b) ==> {
            &&& b.width > 0
            &&& b.height > 0
            &&& b.row_bytes > 0
            &&& b.bits.len() == b.row_bytes as int * b.height as int
        },
{
    if data.len() >= 16 {
        let height = be16(data, 2);
        let row_bytes = be16(data, 4) & 0x3FFF;
        let version = data[9];
        let total = row_bytes as int * height as int;
        let hs = header_size(version);
        let skip = if version <= 2 { 2int } else if version == 3 { 4int } else { 0int };
        if data.len() >= hs && data.len() - hs >= skip {
            let src = data.subrange(hs + skip, data.len() as int);
            lemma_rle_len(src, 0, Seq::empty(), total);
            lemma_packbits_len(src, 0, Seq::empty(), total);
            if row_bytes > 0 {
                assert(0 * (row_bytes as int) + 0 == 0);
                lemma_scanline_len(src, 0, Seq::empty(), row_bytes as int, height as int, 0, 0, 0);
                assert(height as int * row_bytes as int == row_bytes as int * height as int) by (nonlinear_arith);
            }
        }
    }
}

proof fn lemma_bitmaps_of_sized(raw: Seq<u8>, res: Seq<PrcResource>, n: int)
    requires
        n <= res.len(),
    ensures
        forall|i: int| 0 <= i < bitmaps_of(raw, res, n).len() ==> {
            let b = #[trigger] bitmaps_of(raw, res, n)[i];
            b.bits.len() == b.row_bytes as int * b.height as int && b.row_bytes > 0 && b.height > 0 && b.width > 0
        },
    decreases n,
{
    if n > 0 {
        lemma_bitmaps_of_sized(raw, res, n - 1);
        let prev = bitmaps_of(raw, res, n - 1);
        let r = res[n - 1];
        let start = r.offset as int;
        let end = start + r.size as int;
        if end <= raw.len() {
            lemma_bitmap_size(r.id, raw.subrange(start, end));
        }
        let cur = bitmaps_of(raw, res, n);
        assert forall|i: int| 0 <= i < cur.len() implies {
            let b = #[trigger] cur[i];
            b.bits.len() == b.row_bytes as int * b.height as int && b.row_bytes > 0 && b.height > 0 && b.width > 0
        } by {
            if i < prev.len() {
                assert(cur[i] == prev[i]);
            }
        }
    }
}

/// Every bitmap recovered from a resource database has a positive size and
/// holds exactly `height` rows of `row_bytes` bytes.
pub proof fn lemma_prc_bitmaps_sized(raw: Seq<u8>)
    ensures
        forall|i: int| 0 <= i < prc_bitmaps_spec(raw).len() ==> {
            let b = #[trigger] prc_bitmaps_spec(raw)[i];
            b.bits.len() == b.row_bytes as int * b.height as int && b.row_bytes > 0 && b.height > 0 && b.width > 0
        },
{
    if prc_well_formed(raw) {
        lemma_bitmaps_of_sized(raw, Seq::new(prc_count(raw) as nat, |i: int| prc_entry(raw, i)), prc_count(raw));
    }
}

/// A version-3 bitmap's pixel stream starts after its 24-byte header and
/// 4-byte size field: it decodes as the same stream would after the 16-byte
/// header and 2-byte size field of a version-2 (or older) bitmap, whatever
/// the headers and size fields hold.
pub proof fn lemma_v3_stream_follows_four_byte_size(
    data3: Seq<u8>,
    data2: Seq<u8>,
    old_version: u8,
    compression: u8,
    row_bytes: u16,
    height: u16,
)
    requires
        old_version <= 2,
        data3.len() >= 28,
        data2.len() >= 18,
        data3.subrange(28, data3.len() as int) == data2.subrange(18, data2.len() as int),
    ensures
        decompress_spec(data3, 3, compression, row_bytes, height) == decompress_spec(
            data2,
            old_version,
            compression,
            row_bytes,
            height,
        ),
{
}

/// Versions after 3 carry no size field: the stream starts right after the
/// 24-byte header, so it decodes as in a version-3 bitmap whose size field
/// is put in front of it.
pub proof fn lemma_v4_stream_has_no_size_field(
    data4: Seq<u8>,
    data3: Seq<u8>,
    version: u8,
    compression: u8,
    row_bytes: u16,
    height: u16,
)
    requires
        version >= 4,
        data4.len() >= 24,
        data3.len() >= 28,
        data4.subrange(24, data4.len() as int) == data3.subrange(28, data3.len() as int),
    ensures
        decompress_spec(data4, version, compression, row_bytes, height) == decompress_spec(
            data3,
            3,
            compression,
            row_bytes,
            height,
        ),
{
}

/// Where the pixel stream starts: byte 18 up to version 2, byte 28 in
/// version 3, byte 24 after. A one-byte run-length bitmap whose first run
/// (count at least one) starts there decodes to the run's byte.
pub proof fn lemma_stream_start(data: Seq<u8>, version: u8)
    ensures
        ({
            let start: int = if version <= 2 { 18 } else if version == 3 { 28 } else { 24 };
            data.len() >= start + 2 && data[start] >= 1 ==> decompress_spec(data, version, 1, 1, 1) == Some(
                seq![data[start + 1]],
            )
        }),
{
    let start: int = if version <= 2 { 18 } else if version == 3 { 28 } else { 24 };
    if data.len() >= start + 2 && data[start] >= 1 {
        let src = data.subrange(start, data.len() as int);
        assert(src[0] == data[start] && src[1] == data[start + 1]);
        let out = Seq::<u8>::empty() + repeat(min_int(src[0] as int, 1), src[1]);
        assert(out =~= seq![data[start + 1]]);
        assert(rle_decode(src, 2, out, 1) == Some(out));
    }
}

} // verus!
