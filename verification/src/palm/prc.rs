//! The resource map of a Palm resource database (a `.prc` file).
//!
//! A database starts with a 78-byte header whose last field, at offset 76,
//! is the big-endian number of entries. The resource map follows: one
//! 10-byte entry per resource holding its four-character type, its 16-bit id
//! and the 32-bit offset of its data in the file. A resource runs up to the
//! next one's offset; the last one runs to the end of the file.
use vstd::prelude::*;

verus! {

/// Size of the database header that precedes the resource map.
pub const PRC_HEADER_LEN: usize = 78;
/// Size of one resource-map entry.
pub const PRC_ENTRY_LEN: usize = 10;

/// Big-endian 16-bit value at `off`.
pub open spec fn be16(s: Seq<u8>, off: int) -> u16 {
    (s[off] as int * 0x100 + s[off + 1] as int) as u16
}

/// Big-endian 32-bit value at `off`.
pub open spec fn be32(s: Seq<u8>, off: int) -> u32 {
    (s[off] as int * 0x100_0000 + s[off + 1] as int * 0x1_0000 + s[off + 2] as int * 0x100
        + s[off + 3] as int) as u32
}

/// One entry of the resource map, with the size of its data.
#[derive(Clone, Copy, Debug, PartialEq, Eq, Structural)]
pub struct PrcResource {
    /// Four-character type code, big-endian (`'Tbmp'` is `0x5462_6D70`).
    pub kind: u32,
    pub id: u16,
    pub offset: u32,
    pub size: u32,
}

/// The resource map of a database.
#[derive(Clone, Debug)]
pub struct PrcInfo {
    pub resources: Vec<PrcResource>,
}

/// Number of entries in the resource map.
pub open spec fn prc_count(raw: Seq<u8>) -> int {
    be16(raw, 76) as int
}

/// Whether the header and the whole resource map lie inside the file.
pub open spec fn prc_well_formed(raw: Seq<u8>) -> bool {
    &&& raw.len() >= PRC_HEADER_LEN
    &&& PRC_HEADER_LEN + prc_count(raw) * PRC_ENTRY_LEN <= raw.len()
}

pub open spec fn prc_entry_offset(raw: Seq<u8>, i: int) -> u32 {
    be32(raw, PRC_HEADER_LEN + i * PRC_ENTRY_LEN + 6)
}

/// Where the last resource ends: the end of the file, as far as a 32-bit
/// offset reaches.
pub open spec fn prc_file_end(raw: Seq<u8>) -> int {
    if raw.len() > 0xFFFF_FFFF { 0xFFFF_FFFF } else { raw.len() as int }
}

/// The size of resource `i`: up to the next resource's offset (nothing when
/// that lies before it), or to the end of the file for the last one.
pub open spec fn prc_entry_size(raw: Seq<u8>, i: int) -> u32 {
    let start = prc_entry_offset(raw, i) as int;
    let end = if i + 1 < prc_count(raw) { prc_entry_offset(raw, i + 1) as int } else { prc_file_end(raw) };
    if end > start { (end - start) as u32 } else { 0 }
}

/// Resource `i` of the map.
pub open spec fn prc_entry(raw: Seq<u8>, i: int) -> PrcResource {
    let base = PRC_HEADER_LEN + i * PRC_ENTRY_LEN;
    PrcResource {
        kind: be32(raw, base),
        id: be16(raw, base + 4),
        offset: prc_entry_offset(raw, i),
        size: prc_entry_size(raw, i),
    }
}

fn read_be16(data: &[u8], off: usize) -> (v: u16)
    requires
        off + 2 <= data@.len(),
    ensures
        v == be16(data@, off as int),
{
    (data[off] as u16) * 0x100 + (data[off + 1] as u16)
}

fn read_be32(data: &[u8], off: usize) -> (v: u32)
    requires
        off + 4 <= data@.len(),
    ensures
        v == be32(data@, off as int),
{
    (data[off] as u32) * 0x100_0000 + (data[off + 1] as u32) * 0x1_0000 + (data[off + 2] as u32) * 0x100
        + (data[off + 3] as u32)
}

fn entry_offset(raw: &[u8], i: usize) -> (v: u32)
    requires
        prc_well_formed(raw@),
        i < prc_count(raw@),
    ensures
        v == prc_entry_offset(raw@, i as int),
{
    assert(PRC_HEADER_LEN + i * PRC_ENTRY_LEN + 10 <= raw@.len()) by (nonlinear_arith)
        requires
            PRC_HEADER_LEN + prc_count(raw@) * PRC_ENTRY_LEN <= raw@.len(),
            i < prc_count(raw@);
    read_be32(raw, PRC_HEADER_LEN + i * PRC_ENTRY_LEN + 6)
}

/// Reads the resource map; `None` when the file is too short for its header
/// or for the map it announces.
pub fn parse_prc(raw: &[u8]) -> (info: Option<PrcInfo>)
    ensures
        info.is_some() == prc_well_formed(raw@),
        info matches Some(p) ==> {
            &&& p.resources@.len() == prc_count(raw@)
            &&& forall|i: int| 0 <= i < p.resources@.len() ==> #[trigger] p.resources@[i] == prc_entry(raw@, i)
        },
{
    if raw.len() < PRC_HEADER_LEN {
        return None;
    }
    let count = read_be16(raw, 76) as usize;
    if count * PRC_ENTRY_LEN > raw.len() - PRC_HEADER_LEN {
        return None;
    }
    let mut resources: Vec<PrcResource> = Vec::new();
    let mut i: usize = 0;
    while i < count
        invariant
            prc_well_formed(raw@),
            count == prc_count(raw@),
            i <= count,
            resources@.len() == i,
            forall|j: int| 0 <= j < i ==> #[trigger] resources@[j] == prc_entry(raw@, j),
        decreases count - i,
    {
        let base = PRC_HEADER_LEN + i * PRC_ENTRY_LEN;
        assert(base + 10 <= raw@.len()) by (nonlinear_arith)
            requires
                base == PRC_HEADER_LEN + i * PRC_ENTRY_LEN,
                PRC_HEADER_LEN + count * PRC_ENTRY_LEN <= raw@.len(),
                i < count;
        let kind = read_be32(raw, base);
        let id = read_be16(raw, base + 4);
        let offset = entry_offset(raw, i);
        let end: u32 = if i + 1 < count {
            entry_offset(raw, i + 1)
        } else {
            if raw.len() > 0xFFFF_FFFF { 0xFFFF_FFFF } else { raw.len() as u32 }
        };
        let size = if end > offset { end - offset } else { 0 };
        let res = PrcResource { kind, id, offset, size };
        resources.push(res);
        i += 1;
    }
    Some(PrcInfo { resources })
}

} // verus!
