use vstd::prelude::*;

verus! {

/// A window of physical memory: the byte at physical address `base + i` is `bytes[i]`.
///
/// Firmware tables and page tables are read out of such a window, one little-endian
/// field at a time, in place of dereferencing raw physical addresses.
pub struct PhysMem {
    pub base: u64,
    pub bytes: Vec<u8>,
}

impl PhysMem {
    /// Every address of the window fits in a `u64`.
    pub open spec fn wf(&self) -> bool {
        self.base + self.bytes@.len() <= u64::MAX + 1
    }

    /// The `len` bytes starting at physical address `addr` all lie in the window.
    pub open spec fn contains(&self, addr: int, len: int) -> bool {
        &&& self.base <= addr
        &&& 0 <= len
        &&& addr + len <= self.base + self.bytes@.len()
    }

    /// The byte at physical address `addr`.
    pub open spec fn byte(&self, addr: int) -> u8 {
        self.bytes@[addr - self.base]
    }

    /// The little-endian 16-bit value at `addr`.
    pub open spec fn le_u16(&self, addr: int) -> int {
        self.byte(addr) + 0x100 * self.byte(addr + 1)
    }

    /// The little-endian 32-bit value at `addr`.
    pub open spec fn le_u32(&self, addr: int) -> int {
        self.le_u16(addr) + 0x1_0000 * self.le_u16(addr + 2)
    }

    /// The little-endian 64-bit value at `addr`.
    pub open spec fn le_u64(&self, addr: int) -> int {
        self.le_u32(addr) + 0x1_0000_0000 * self.le_u32(addr + 4)
    }

    /// Whether every address of the window fits in a `u64`.
    pub fn is_wf(&self) -> (r: bool)
        ensures
            r == self.wf(),
    {
        let len = self.bytes.len() as u64;
        len == 0 || len - 1 <= u64::MAX - self.base
    }

    /// Whether the `len` bytes starting at `addr` all lie in the window.
    pub fn holds(&self, addr: u64, len: u64) -> (r: bool)
        ensures
            r == self.contains(addr as int, len as int),
    {
        let size = self.bytes.len() as u64;
        self.base <= addr && addr - self.base <= size && len <= size - (addr - self.base)
    }

    /// Little-endian order: in the 16-bit value at `addr` the byte at `addr` is the low byte
    /// and the byte at `addr + 1` the high byte; a 32-bit value is the 16-bit value at `addr`
    /// below the one at `addr + 2`; a 64-bit value is the 32-bit value at `addr` below the
    /// one at `addr + 4`. Each value fits its width.
    pub proof fn lemma_little_endian(&self, addr: int)
        ensures
            0 <= self.le_u16(addr) < 0x1_0000,
            self.le_u16(addr) % 0x100 == self.byte(addr),
            self.le_u16(addr) / 0x100 == self.byte(addr + 1),
            0 <= self.le_u32(addr) < 0x1_0000_0000,
            self.le_u32(addr) % 0x1_0000 == self.le_u16(addr),
            self.le_u32(addr) / 0x1_0000 == self.le_u16(addr + 2),
            0 <= self.le_u64(addr) < 0x1_0000_0000_0000_0000,
            self.le_u64(addr) % 0x1_0000_0000 == self.le_u32(addr),
            self.le_u64(addr) / 0x1_0000_0000 == self.le_u32(addr + 4),
    {
        let a = addr;
        assert(0 <= self.le_u16(a + 2) < 0x1_0000);
        assert(0 <= self.le_u16(a + 4) < 0x1_0000);
        assert(0 <= self.le_u16(a + 6) < 0x1_0000);
        assert(0 <= self.le_u32(a + 4) < 0x1_0000_0000);
        vstd::arithmetic::div_mod::lemma_fundamental_div_mod_converse(
            self.le_u16(a),
            0x100,
            self.byte(a + 1) as int,
            self.byte(a) as int,
        );
        vstd::arithmetic::div_mod::lemma_fundamental_div_mod_converse(
            self.le_u32(a),
            0x1_0000,
            self.le_u16(a + 2),
            self.le_u16(a),
        );
        vstd::arithmetic::div_mod::lemma_fundamental_div_mod_converse(
            self.le_u64(a),
            0x1_0000_0000,
            self.le_u32(a + 4),
            self.le_u32(a),
        );
    }

    /// Reads the byte at `addr`.
    pub fn read_u8(&self, addr: u64) -> (r: u8)
        requires
            self.contains(addr as int, 1),
        ensures
            r == self.byte(addr as int),
    {
        let off: u64 = addr - self.base;
        assert(off < self.bytes.len());
        self.bytes[off as usize]
    }

    /// Reads the little-endian `u16` at `addr`.
    pub fn read_u16(&self, addr: u64) -> (r: u16)
        requires
            self.wf(),
            self.contains(addr as int, 2),
        ensures
            r == self.le_u16(addr as int),
    {
        let lo = self.read_u8(addr) as u16;
        let hi = self.read_u8(addr + 1) as u16;
        lo + 0x100 * hi
    }

    /// Reads the little-endian `u32` at `addr`.
    pub fn read_u32(&self, addr: u64) -> (r: u32)
        requires
            self.wf(),
            self.contains(addr as int, 4),
        ensures
            r == self.le_u32(addr as int),
    {
        let lo = self.read_u16(addr) as u32;
        let hi = self.read_u16(addr + 2) as u32;
        lo + 0x1_0000 * hi
    }

    /// Reads the little-endian `u64` at `addr`.
    pub fn read_u64(&self, addr: u64) -> (r: u64)
        requires
            self.wf(),
            self.contains(addr as int, 8),
        ensures
            r == self.le_u64(addr as int),
    {
        let lo = self.read_u32(addr) as u64;
        let hi = self.read_u32(addr + 4) as u64;
        lo + 0x1_0000_0000 * hi
    }
}

} // verus!
