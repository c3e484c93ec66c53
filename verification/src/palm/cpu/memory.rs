use vstd::prelude::*;

verus! {

/// The mathematical contents of a [`MemoryMap`]: a run of bytes that starts
/// at the address `base`.
pub struct MemView {
    pub base: u32,
    pub bytes: Seq<u8>,
}

impl MemView {
    /// Offset of `addr` inside the mapped run, when `n` bytes from it are mapped.
    pub open spec fn mapped(self, addr: u32, n: int) -> bool {
        &&& self.base <= addr
        &&& addr - self.base + n <= self.bytes.len()
    }

    pub open spec fn at(self, addr: u32, i: int) -> u8 {
        self.bytes[addr - self.base + i]
    }

    pub open spec fn read8(self, addr: u32) -> Option<u8> {
        if self.mapped(addr, 1) {
            Some(self.at(addr, 0))
        } else {
            None
        }
    }

    pub open spec fn read16(self, addr: u32) -> Option<u16> {
        if self.mapped(addr, 2) {
            Some((self.at(addr, 0) as int * 0x100 + self.at(addr, 1) as int) as u16)
        } else {
            None
        }
    }

    pub open spec fn read32(self, addr: u32) -> Option<u32> {
        if self.mapped(addr, 4) {
            Some(
                (self.at(addr, 0) as int * 0x100_0000 + self.at(addr, 1) as int * 0x1_0000
                    + self.at(addr, 2) as int * 0x100 + self.at(addr, 3) as int) as u32,
            )
        } else {
            None
        }
    }

    /// Reads `bytes` (1, 2 or 4) bytes as an unsigned big-endian number.
    pub open spec fn read_sized(self, addr: u32, bytes: u32) -> Option<u32> {
        if bytes == 1 {
            match self.read8(addr) {
                Some(v) => Some(v as u32),
                None => None,
            }
        } else if bytes == 2 {
            match self.read16(addr) {
                Some(v) => Some(v as u32),
                None => None,
            }
        } else if bytes == 4 {
            self.read32(addr)
        } else {
            None
        }
    }

    pub open spec fn set(self, addr: u32, i: int, v: u8) -> MemView {
        MemView { base: self.base, bytes: self.bytes.update(addr - self.base + i, v) }
    }

    /// The memory after a byte store; a store outside the map changes nothing.
    pub open spec fn write8(self, addr: u32, v: u8) -> MemView {
        if self.mapped(addr, 1) {
            self.set(addr, 0, v)
        } else {
            self
        }
    }

    pub open spec fn write16(self, addr: u32, v: u16) -> MemView {
        if self.mapped(addr, 2) {
            self.set(addr, 0, (v / 0x100) as u8).set(addr, 1, (v % 0x100) as u8)
        } else {
            self
        }
    }

    pub open spec fn write32(self, addr: u32, v: u32) -> MemView {
        if self.mapped(addr, 4) {
            self.set(addr, 0, (v / 0x100_0000) as u8).set(addr, 1, ((v / 0x1_0000) % 0x100) as u8)
                .set(addr, 2, ((v / 0x100) % 0x100) as u8).set(addr, 3, (v % 0x100) as u8)
        } else {
            self
        }
    }

    /// Stores the low `bytes` (1, 2 or 4) bytes of `v`, big-endian.
    pub open spec fn write_sized(self, addr: u32, bytes: u32, v: u32) -> MemView {
        if bytes == 1 {
            self.write8(addr, v as u8)
        } else if bytes == 2 {
            self.write16(addr, v as u16)
        } else if bytes == 4 {
            self.write32(addr, v)
        } else {
            self
        }
    }
}

/// A flat, byte-addressed, big-endian memory holding one mapped run.
pub struct MemoryMap {
    base: u32,
    bytes: Vec<u8>,
}

impl View for MemoryMap {
    type V = MemView;

    closed spec fn view(&self) -> MemView {
        MemView { base: self.base, bytes: self.bytes@ }
    }
}

impl MemoryMap {
    /// Maps `bytes` starting at address `base`.
    pub fn new(base: u32, bytes: Vec<u8>) -> (m: MemoryMap)
        ensures
            m@.base == base,
            m@.bytes == bytes@,
    {
        MemoryMap { base, bytes }
    }

    /// Byte offset of `addr` when `n` bytes from it are mapped.
    fn offset(&self, addr: u32, n: usize) -> (r: Option<usize>)
        ensures
            r is Some <==> self@.mapped(addr, n as int),
            r matches Some(o) ==> o == addr - self@.base && o + n <= self.bytes@.len()
                && self.bytes@.len() == self.bytes.len(),
    {
        if addr < self.base {
            return None;
        }
        let off = (addr - self.base) as usize;
        if off < self.bytes.len() && self.bytes.len() - off >= n {
            Some(off)
        } else if n == 0 && off == self.bytes.len() {
            Some(off)
        } else {
            None
        }
    }

    pub fn read_u8(&self, addr: u32) -> (r: Option<u8>)
        ensures
            r == self@.read8(addr),
    {
        match self.offset(addr, 1) {
            Some(o) => Some(self.bytes[o]),
            None => None,
        }
    }

    pub fn read_u16_be(&self, addr: u32) -> (r: Option<u16>)
        ensures
            r == self@.read16(addr),
    {
        match self.offset(addr, 2) {
            Some(o) => {
                let hi = self.bytes[o] as u16;
                let lo = self.bytes[o + 1] as u16;
                Some(hi * 0x100 + lo)
            },
            None => None,
        }
    }

    pub fn read_u32_be(&self, addr: u32) -> (r: Option<u32>)
        ensures
            r == self@.read32(addr),
    {
        match self.offset(addr, 4) {
            Some(o) => {
                let b0 = self.bytes[o] as u32;
                let b1 = self.bytes[o + 1] as u32;
                let b2 = self.bytes[o + 2] as u32;
                let b3 = self.bytes[o + 3] as u32;
                Some(b0 * 0x100_0000 + b1 * 0x1_0000 + b2 * 0x100 + b3)
            },
            None => None,
        }
    }

    /// Stores a byte; returns whether the address was mapped.
    pub fn write_u8(&mut self, addr: u32, v: u8) -> (ok: bool)
        ensures
            ok == old(self)@.mapped(addr, 1),
            final(self)@ == old(self)@.write8(addr, v),
    {
        match self.offset(addr, 1) {
            Some(o) => {
                self.bytes.set(o, v);
                true
            },
            None => false,
        }
    }

    pub fn write_u16_be(&mut self, addr: u32, v: u16) -> (ok: bool)
        ensures
            ok == old(self)@.mapped(addr, 2),
            final(self)@ == old(self)@.write16(addr, v),
    {
        match self.offset(addr, 2) {
            Some(o) => {
                self.bytes.set(o, (v / 0x100) as u8);
                self.bytes.set(o + 1, (v % 0x100) as u8);
                true
            },
            None => false,
        }
    }

    pub fn write_u32_be(&mut self, addr: u32, v: u32) -> (ok: bool)
        ensures
            ok == old(self)@.mapped(addr, 4),
            final(self)@ == old(self)@.write32(addr, v),
    {
        match self.offset(addr, 4) {
            Some(o) => {
                self.bytes.set(o, (v / 0x100_0000) as u8);
                self.bytes.set(o + 1, ((v / 0x1_0000) % 0x100) as u8);
                self.bytes.set(o + 2, ((v / 0x100) % 0x100) as u8);
                self.bytes.set(o + 3, (v % 0x100) as u8);
                true
            },
            None => false,
        }
    }
}

/// A byte stored in mapped memory reads back unchanged.
pub proof fn lemma_write8_read8(m: MemView, addr: u32, v: u8)
    requires
        m.mapped(addr, 1),
    ensures
        m.write8(addr, v).read8(addr) == Some(v),
{
}

/// A big-endian word stored in mapped memory reads back unchanged.
pub proof fn lemma_write16_read16(m: MemView, addr: u32, v: u16)
    requires
        m.mapped(addr, 2),
    ensures
        m.write16(addr, v).read16(addr) == Some(v),
{
    let hi = (v / 0x100) as u8;
    let lo = (v % 0x100) as u8;
    assert(hi as int * 0x100 + lo as int == v as int);
}

/// A big-endian long word stored in mapped memory reads back unchanged.
pub proof fn lemma_write32_read32(m: MemView, addr: u32, v: u32)
    requires
        m.mapped(addr, 4),
    ensures
        m.write32(addr, v).read32(addr) == Some(v),
{
    let b0 = (v / 0x100_0000) as u8;
    let b1 = ((v / 0x1_0000) % 0x100) as u8;
    let b2 = ((v / 0x100) % 0x100) as u8;
    let b3 = (v % 0x100) as u8;
    assert(b0 as int * 0x100_0000 + b1 as int * 0x1_0000 + b2 as int * 0x100 + b3 as int == v as int);
}

/// A store of `bytes` bytes leaves every byte outside them as it was, and a
/// store outside the mapped run changes nothing.
pub proof fn lemma_write_elsewhere(m: MemView, addr: u32, bytes: u32, v: u32, other: u32)
    requires
        bytes == 1 || bytes == 2 || bytes == 4,
        other < addr || other >= addr + bytes,
    ensures
        m.write_sized(addr, bytes, v).read8(other) == m.read8(other),
        !m.mapped(addr, bytes as int) ==> m.write_sized(addr, bytes, v) == m,
{
}

} // verus!
