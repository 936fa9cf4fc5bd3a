use vstd::prelude::*;
use crate::memory::PhysMem;

verus! {

/// The size of a system description table header, and of the fixed part of the XSDT.
pub const HEADER_SIZE: usize = 36;

/// The size of an HPET description table.
pub const HPET_TABLE_SIZE: u64 = 56;

/// The four signature bytes at `addr`.
pub open spec fn sig_at(mem: &PhysMem, addr: int) -> Seq<u8> {
    seq![mem.byte(addr), mem.byte(addr + 1), mem.byte(addr + 2), mem.byte(addr + 3)]
}

/// The signature of the HPET description table.
pub open spec fn hpet_signature() -> Seq<u8> {
    seq![0x48u8, 0x50u8, 0x45u8, 0x54u8]
}

/// A signature is the four bytes at its address, in address order; the HPET table's is the
/// ASCII text `HPET`.
pub proof fn lemma_signatures(mem: &PhysMem, addr: int)
    ensures
        sig_at(mem, addr).len() == 4,
        forall|i: int| 0 <= i < 4 ==> #[trigger] sig_at(mem, addr)[i] == mem.byte(addr + i),
        hpet_signature() == seq!['H' as u8, 'P' as u8, 'E' as u8, 'T' as u8],
{
    assert(seq!['H' as u8, 'P' as u8, 'E' as u8, 'T' as u8] =~= seq![0x48u8, 0x50u8, 0x45u8, 0x54u8]);
}

/// Whether the two signatures are the same.
pub fn same_signature(a: &[u8; 4], b: &[u8; 4]) -> (r: bool)
    ensures
        r == (a@ == b@),
{
    let r = a[0] == b[0] && a[1] == b[1] && a[2] == b[2] && a[3] == b[3];
    if r {
        assert(a@ =~= b@);
    } else {
        assert(a@ != b@) by {
            if a@ == b@ {
                assert(a@[0] == b@[0] && a@[1] == b@[1] && a@[2] == b@[2] && a@[3] == b@[3]);
            }
        }
    }
    r
}

/// The header that every system description table starts with, together with the
/// physical address where it was found.
#[derive(Clone, Copy, Debug)]
pub struct SystemDescriptionTableHeader {
    pub signature: [u8; 4],
    pub length: u32,
    pub addr: u64,
}

impl SystemDescriptionTableHeader {
    /// `self` is the header found at `addr`.
    pub open spec fn is_at(&self, mem: &PhysMem, addr: int) -> bool {
        &&& self.signature@ == sig_at(mem, addr)
        &&& self.length == mem.le_u32(addr + 4)
        &&& self.addr == addr
    }

    /// The header at physical address `addr`.
    pub fn read(mem: &PhysMem, addr: u64) -> (h: Self)
        requires
            mem.wf(),
            mem.contains(addr as int, HEADER_SIZE as int),
        ensures
            h.is_at(mem, addr as int),
    {
        let signature = [
            mem.read_u8(addr),
            mem.read_u8(addr + 1),
            mem.read_u8(addr + 2),
            mem.read_u8(addr + 3),
        ];
        let h = SystemDescriptionTableHeader { signature, length: mem.read_u32(addr + 4), addr };
        assert(h.signature@ =~= sig_at(mem, addr as int));
        h
    }

    /// Checks that the table carries the signature `sig`; callers must only pass a header
    /// that does.
    pub fn expect_signature(&self, sig: &[u8; 4])
        requires
            self.signature@ == sig@,
    {
    }

    pub fn signature(&self) -> (r: &[u8; 4])
        ensures
            *r == self.signature,
    {
        &self.signature
    }
}

/// The number of 64-bit entries in an XSDT whose header gives `length` bytes.
pub open spec fn entry_count(length: u32) -> int {
    (length - HEADER_SIZE) / 8
}

/// Entry `i` of the XSDT at `addr`: the physical address of a table header.
pub open spec fn entry_at(mem: &PhysMem, addr: int, i: int) -> int {
    mem.le_u64(addr + HEADER_SIZE + 8 * i)
}

/// The XSDT holds exactly as many entries as fit in its length after the header: `n`
/// entries fit and `n + 1` do not.
pub proof fn lemma_entry_count_exact(length: u32)
    requires
        length >= 36,
    ensures
        entry_count(length) >= 0,
        36 + 8 * entry_count(length) <= length,
        length < 36 + 8 * (entry_count(length) + 1),
{
}

/// Every entry that `num_of_entries` counts lies wholly inside the table's `length` bytes.
pub proof fn lemma_entries_within_table(length: u32, i: int)
    requires
        length >= HEADER_SIZE,
        0 <= i < entry_count(length),
    ensures
        HEADER_SIZE + 8 * i + 8 <= length,
{
}

/// The XSDT whose header is `header` lies in memory, and so does the header of every
/// table that it lists.
pub open spec fn xsdt_in_memory(mem: &PhysMem, header: SystemDescriptionTableHeader) -> bool {
    &&& mem.wf()
    &&& header.length >= HEADER_SIZE
    &&& mem.contains(header.addr as int, header.length as int)
    &&& forall|i: int|
        0 <= i < entry_count(header.length) ==> #[trigger] mem.contains(
            entry_at(mem, header.addr as int, i),
            HEADER_SIZE as int,
        )
}

/// The Extended System Description Table: a header followed by 64-bit physical addresses
/// of other tables.
pub struct Xsdt {
    pub header: SystemDescriptionTableHeader,
}

impl Xsdt {
    /// The XSDT at physical address `addr`.
    pub fn read(mem: &PhysMem, addr: u64) -> (x: Self)
        requires
            mem.wf(),
            mem.contains(addr as int, HEADER_SIZE as int),
        ensures
            x.header.is_at(mem, addr as int),
    {
        Xsdt { header: SystemDescriptionTableHeader::read(mem, addr) }
    }

    pub fn header_size(&self) -> (r: usize)
        ensures
            r == HEADER_SIZE,
    {
        HEADER_SIZE
    }

    /// The number of entries that follow the header.
    pub fn num_of_entries(&self) -> (r: usize)
        requires
            self.header.length >= HEADER_SIZE,
        ensures
            r == entry_count(self.header.length),
    {
        (self.header.length as usize - self.header_size()) / 8
    }

    /// Entry `index`: the physical address of a table header.
    pub fn entry(&self, mem: &PhysMem, index: usize) -> (r: u64)
        requires
            mem.wf(),
            self.header.length >= HEADER_SIZE,
            index < entry_count(self.header.length),
            mem.contains(self.header.addr + HEADER_SIZE + 8 * index, 8),
        ensures
            r == entry_at(mem, self.header.addr as int, index as int),
    {
        let addr = self.header.addr + self.header_size() as u64 + 8 * index as u64;
        mem.read_u64(addr)
    }

    pub fn iter(&self) -> (it: XsdtIterator<'_>)
        ensures
            it.table == self,
            it.index == 0,
    {
        XsdtIterator::new(self)
    }

    /// The header of the first listed table with signature `sig`, or `None` where no listed
    /// table has it.
    pub fn find_table(&self, mem: &PhysMem, sig: &[u8; 4]) -> (r: Option<
        SystemDescriptionTableHeader,
    >)
        requires
            xsdt_in_memory(mem, self.header),
        ensures
            match r {
                Some(h) => exists|i: int|
                    0 <= i < entry_count(self.header.length) && h.is_at(
                        mem,
                        entry_at(mem, self.header.addr as int, i),
                    ) && h.signature@ == sig@ && forall|j: int|
                        0 <= j < i ==> #[trigger] sig_at(
                            mem,
                            entry_at(mem, self.header.addr as int, j),
                        ) != sig@,
                None => forall|i: int|
                    0 <= i < entry_count(self.header.length) ==> #[trigger] sig_at(
                        mem,
                        entry_at(mem, self.header.addr as int, i),
                    ) != sig@,
            },
    {
        let mut it = self.iter();
        loop
            invariant
                xsdt_in_memory(mem, self.header),
                it.table == self,
                it.index <= entry_count(self.header.length),
                forall|j: int|
                    0 <= j < it.index ==> #[trigger] sig_at(
                        mem,
                        entry_at(mem, self.header.addr as int, j),
                    ) != sig@,
            decreases entry_count(self.header.length) - it.index,
        {
            match it.next(mem) {
                None => {
                    return None;
                },
                Some(e) => {
                    if same_signature(e.signature(), sig) {
                        return Some(e);
                    }
                },
            }
        }
    }
}

/// Walks the entries of an XSDT, yielding the header of each listed table in order.
pub struct XsdtIterator<'a> {
    pub table: &'a Xsdt,
    pub index: usize,
}

impl<'a> XsdtIterator<'a> {
    pub fn new(table: &'a Xsdt) -> (it: Self)
        ensures
            it.table == table,
            it.index == 0,
    {
        XsdtIterator { table, index: 0 }
    }

    /// The header of the next listed table, or `None` once all have been yielded.
    pub fn next(&mut self, mem: &PhysMem) -> (r: Option<SystemDescriptionTableHeader>)
        requires
            mem.wf(),
            old(self).table.header.length >= HEADER_SIZE,
            old(self).index < entry_count(old(self).table.header.length) ==> {
                &&& mem.contains(
                    old(self).table.header.addr + HEADER_SIZE + 8 * old(self).index,
                    8,
                )
                &&& mem.contains(
                    entry_at(mem, old(self).table.header.addr as int, old(self).index as int),
                    HEADER_SIZE as int,
                )
            },
        ensures
            final(self).table == old(self).table,
            final(self).index == walk_next_index(old(self).table.header, old(self).index as int),
            r is Some <==> walk_step(mem, old(self).table.header, old(self).index as int) is Some,
            r matches Some(h) ==> walk_step(mem, old(self).table.header, old(self).index as int)
                == Some(h.addr as int) && h.is_at(mem, h.addr as int),
    {
        if self.index >= self.table.num_of_entries() {
            None
        } else {
            self.index += 1;
            let addr = self.table.entry(mem, self.index - 1);
            Some(SystemDescriptionTableHeader::read(mem, addr))
        }
    }
}

/// What one call of `XsdtIterator::next` at `index` yields over the XSDT with header
/// `header`: the physical address of the header of entry `index`, or `None` past the last
/// entry.
pub open spec fn walk_step(mem: &PhysMem, header: SystemDescriptionTableHeader, index: int) -> Option<int> {
    if 0 <= index < entry_count(header.length) {
        Some(entry_at(mem, header.addr as int, index))
    } else {
        None
    }
}

/// The iterator's index after one call of `next` at `index`.
pub open spec fn walk_next_index(header: SystemDescriptionTableHeader, index: int) -> int {
    if index < entry_count(header.length) {
        index + 1
    } else {
        index
    }
}

/// What `k` successive calls of `next`, starting at `index`, yield.
pub open spec fn walk(mem: &PhysMem, header: SystemDescriptionTableHeader, index: int, k: nat) -> Seq<Option<int>>
    decreases k,
{
    if k == 0 {
        Seq::empty()
    } else {
        seq![walk_step(mem, header, index)] + walk(
            mem,
            header,
            walk_next_index(header, index),
            (k - 1) as nat,
        )
    }
}

/// The iterator's index after `k` successive calls of `next`, starting at `index`.
pub open spec fn walk_index(header: SystemDescriptionTableHeader, index: int, k: nat) -> int
    decreases k,
{
    if k == 0 {
        index
    } else {
        walk_index(header, walk_next_index(header, index), (k - 1) as nat)
    }
}

/// Call `j` of a walk from `index` yields what a single step at `index + j` yields, and the
/// index ends at `index + k` capped at the entry count (or stays put if it already passed it).
pub proof fn lemma_walk_closed_form(mem: &PhysMem, header: SystemDescriptionTableHeader, index: int, k: nat)
    requires
        0 <= index,
    ensures
        walk(mem, header, index, k).len() == k,
        forall|j: int| 0 <= j < k ==> #[trigger] walk(mem, header, index, k)[j] == walk_step(mem, header, index + j),
        walk_index(header, index, k) == if index >= entry_count(header.length) {
            index
        } else if index + k <= entry_count(header.length) {
            index + k
        } else {
            entry_count(header.length)
        },
    decreases k,
{
    if k > 0 {
        let next = walk_next_index(header, index);
        lemma_walk_closed_form(mem, header, next, (k - 1) as nat);
        let rest = walk(mem, header, next, (k - 1) as nat);
        assert forall|j: int| 0 <= j < k implies #[trigger] walk(mem, header, index, k)[j] == walk_step(mem, header, index + j) by {
            if j > 0 {
                assert(walk(mem, header, index, k)[j] == rest[j - 1]);
            }
        }
    }
}

/// A full walk over an XSDT: `n + 1` calls of `next` on a fresh iterator yield the header
/// address of every entry exactly once, in table order, and then `None`.
pub proof fn lemma_full_walk(mem: &PhysMem, header: SystemDescriptionTableHeader)
    requires
        header.length >= HEADER_SIZE,
    ensures
        walk(mem, header, 0, (entry_count(header.length) + 1) as nat) == Seq::new(
            entry_count(header.length) as nat,
            |j: int| Some(entry_at(mem, header.addr as int, j)),
        ).push(None),
        walk_index(header, 0, (entry_count(header.length) + 1) as nat) == entry_count(header.length),
{
    let n = entry_count(header.length);
    lemma_walk_closed_form(mem, header, 0, (n + 1) as nat);
    assert(walk(mem, header, 0, (n + 1) as nat) =~= Seq::new(
        n as nat,
        |j: int| Some(entry_at(mem, header.addr as int, j)),
    ).push(None));
}

/// However many calls of `next` are made from index `i0`: only the first `n - i0` can yield a
/// header, once one yields `None` every later one does, and the index never passes the
/// larger of `i0` and the entry count `n`.
pub proof fn lemma_walk_exhausts(mem: &PhysMem, header: SystemDescriptionTableHeader, i0: int, k: nat)
    requires
        0 <= i0,
    ensures
        forall|j: int|
            0 <= j < k && (#[trigger] walk(mem, header, i0, k)[j]) is Some ==> j < entry_count(header.length) - i0,
        forall|j: int, l: int|
            0 <= j < l < k && (#[trigger] walk(mem, header, i0, k)[j]) is None ==> (
            #[trigger] walk(mem, header, i0, k)[l]) is None,
        walk_index(header, i0, k) <= if i0 < entry_count(header.length) {
            entry_count(header.length)
        } else {
            i0
        },
{
    lemma_walk_closed_form(mem, header, i0, k);
}

/// The message of the error that `GenericAddress::address_in_memory_space` returns.
pub open spec fn not_in_memory_space_message() -> Seq<char> {
    "ACPI generic Address is not in system memory space"@
}

/// An ACPI Generic Address Structure: an address in one of several address spaces.
#[derive(Clone, Copy, Debug)]
pub struct GenericAddress {
    pub address_space_id: u8,
    pub _unused: [u8; 3],
    pub address: u64,
}

impl GenericAddress {
    /// `self` is the structure found at `addr`.
    pub open spec fn is_at(&self, mem: &PhysMem, addr: int) -> bool {
        &&& self.address_space_id == mem.byte(addr)
        &&& self._unused@ == seq![mem.byte(addr + 1), mem.byte(addr + 2), mem.byte(addr + 3)]
        &&& self.address == mem.le_u64(addr + 4)
    }

    /// The 12-byte structure at physical address `addr`.
    pub fn read(mem: &PhysMem, addr: u64) -> (g: Self)
        requires
            mem.wf(),
            mem.contains(addr as int, 12),
        ensures
            g.is_at(mem, addr as int),
    {
        let g = GenericAddress {
            address_space_id: mem.read_u8(addr),
            _unused: [mem.read_u8(addr + 1), mem.read_u8(addr + 2), mem.read_u8(addr + 3)],
            address: mem.read_u64(addr + 4),
        };
        assert(g._unused@ =~= seq![
            mem.byte(addr + 1),
            mem.byte(addr + 2),
            mem.byte(addr + 3),
        ]);
        g
    }

    /// The address, where it lies in system memory space (space id 0); an error otherwise.
    pub fn address_in_memory_space(&self) -> (r: Result<usize, &'static str>)
        ensures
            self.address_space_id == 0 ==> r == Ok::<usize, &'static str>(self.address as usize),
            self.address_space_id != 0 ==> (r matches Err(e) && e@
                == not_in_memory_space_message()),
    {
        if self.address_space_id == 0 {
            Ok(self.address as usize)
        } else {
            Err("ACPI generic Address is not in system memory space")
        }
    }
}

/// The HPET description table: where the High Precision Event Timer's registers are.
#[derive(Clone, Copy, Debug)]
pub struct AcpiHpetDescriptor {
    pub _header: SystemDescriptionTableHeader,
    pub _reserved0: u32,
    pub address: GenericAddress,
    pub _reserved1: u32,
}

impl AcpiHpetDescriptor {
    pub const SIGNATURE: [u8; 4] = [0x48, 0x50, 0x45, 0x54];

    /// `self` is the HPET table whose header is `header`.
    pub open spec fn is_table_of(&self, mem: &PhysMem, header: SystemDescriptionTableHeader) -> bool {
        let a = header.addr as int;
        &&& self._header == header
        &&& self._reserved0 == mem.le_u32(a + 36)
        &&& self.address.is_at(mem, a + 40)
        &&& self._reserved1 == mem.le_u32(a + 52)
    }

    /// The HPET table that starts with `header`.
    pub fn new(mem: &PhysMem, header: &SystemDescriptionTableHeader) -> (t: Self)
        requires
            mem.wf(),
            header.signature@ == hpet_signature(),
            mem.contains(header.addr as int, HPET_TABLE_SIZE as int),
        ensures
            t.is_table_of(mem, *header),
    {
        let sig = Self::SIGNATURE;
        assert(sig@ =~= hpet_signature());
        header.expect_signature(&sig);
        let a = header.addr;
        AcpiHpetDescriptor {
            _header: *header,
            _reserved0: mem.read_u32(a + 36),
            address: GenericAddress::read(mem, a + 40),
            _reserved1: mem.read_u32(a + 52),
        }
    }

    /// The physical base address of the HPET registers: that of its generic address.
    pub fn base_address(&self) -> (r: Result<usize, &'static str>)
        ensures
            self.address.address_space_id == 0 ==> r == Ok::<usize, &'static str>(
                self.address.address as usize,
            ),
            self.address.address_space_id != 0 ==> (r matches Err(e) && e@
                == not_in_memory_space_message()),
    {
        self.address.address_in_memory_space()
    }
}

/// The tables that `AcpiRsdpStruct::hpet` reads all lie in memory: the XSDT, every table
/// header it lists, and every table with the HPET signature in whole.
pub open spec fn acpi_tables_in_memory(mem: &PhysMem, xsdt_addr: int) -> bool {
    &&& mem.wf()
    &&& mem.contains(xsdt_addr, HEADER_SIZE as int)
    &&& {
        let length = mem.le_u32(xsdt_addr + 4);
        &&& length >= HEADER_SIZE
        &&& mem.contains(xsdt_addr, length)
        &&& forall|i: int|
            0 <= i < entry_count(length as u32) ==> {
                let e = #[trigger] entry_at(mem, xsdt_addr, i);
                &&& mem.contains(e, HEADER_SIZE as int)
                &&& sig_at(mem, e) == hpet_signature() ==> mem.contains(
                    e,
                    HPET_TABLE_SIZE as int,
                )
            }
    }
}

/// The Root System Description Pointer, as the firmware hands it over.
#[derive(Clone, Copy, Debug)]
pub struct AcpiRsdpStruct {
    pub signature: [u8; 8],
    pub checksum: u8,
    pub oem_id: [u8; 6],
    pub revision: u8,
    pub rsdt_address: u32,
    pub length: u32,
    pub xsdt: u64,
}

impl AcpiRsdpStruct {
    /// `self` is the structure found at `addr`.
    pub open spec fn is_at(&self, mem: &PhysMem, addr: int) -> bool {
        &&& self.signature@ == Seq::new(8, |i: int| mem.byte(addr + i))
        &&& self.checksum == mem.byte(addr + 8)
        &&& self.oem_id@ == Seq::new(6, |i: int| mem.byte(addr + 9 + i))
        &&& self.revision == mem.byte(addr + 15)
        &&& self.rsdt_address == mem.le_u32(addr + 16)
        &&& self.length == mem.le_u32(addr + 20)
        &&& self.xsdt == mem.le_u64(addr + 24)
    }

    /// The 32-byte structure at physical address `addr`.
    pub fn read(mem: &PhysMem, addr: u64) -> (r: Self)
        requires
            mem.wf(),
            mem.contains(addr as int, 32),
        ensures
            r.is_at(mem, addr as int),
    {
        let r = AcpiRsdpStruct {
            signature: [
                mem.read_u8(addr),
                mem.read_u8(addr + 1),
                mem.read_u8(addr + 2),
                mem.read_u8(addr + 3),
                mem.read_u8(addr + 4),
                mem.read_u8(addr + 5),
                mem.read_u8(addr + 6),
                mem.read_u8(addr + 7),
            ],
            checksum: mem.read_u8(addr + 8),
            oem_id: [
                mem.read_u8(addr + 9),
                mem.read_u8(addr + 10),
                mem.read_u8(addr + 11),
                mem.read_u8(addr + 12),
                mem.read_u8(addr + 13),
                mem.read_u8(addr + 14),
            ],
            revision: mem.read_u8(addr + 15),
            rsdt_address: mem.read_u32(addr + 16),
            length: mem.read_u32(addr + 20),
            xsdt: mem.read_u64(addr + 24),
        };
        assert(r.signature@ =~= Seq::new(8, |i: int| mem.byte(addr + i)));
        assert(r.oem_id@ =~= Seq::new(6, |i: int| mem.byte(addr + 9 + i)));
        r
    }

    /// Whether the tables that `hpet` reads all lie in `mem`.
    pub fn tables_in_memory(&self, mem: &PhysMem) -> (r: bool)
        ensures
            r == acpi_tables_in_memory(mem, self.xsdt as int),
    {
        if !mem.is_wf() || !mem.holds(self.xsdt, HEADER_SIZE as u64) {
            return false;
        }
        let xsdt = self.xsdt(mem);
        let length = xsdt.header.length;
        if length < HEADER_SIZE as u32 || !mem.holds(self.xsdt, length as u64) {
            return false;
        }
        let n = xsdt.num_of_entries();
        let sig = AcpiHpetDescriptor::SIGNATURE;
        assert(sig@ =~= hpet_signature());
        let mut i: usize = 0;
        while i < n
            invariant
                mem.wf(),
                xsdt.header.is_at(mem, self.xsdt as int),
                length == xsdt.header.length,
                length >= HEADER_SIZE,
                mem.contains(self.xsdt as int, length as int),
                n == entry_count(length),
                i <= n,
                sig@ == hpet_signature(),
                forall|j: int|
                    0 <= j < i ==> {
                        let e = #[trigger] entry_at(mem, self.xsdt as int, j);
                        &&& mem.contains(e, HEADER_SIZE as int)
                        &&& sig_at(mem, e) == hpet_signature() ==> mem.contains(
                            e,
                            HPET_TABLE_SIZE as int,
                        )
                    },
            decreases n - i,
        {
            let e = mem.read_u64(self.xsdt + HEADER_SIZE as u64 + 8 * i as u64);
            assert(e == entry_at(mem, self.xsdt as int, i as int));
            if !mem.holds(e, HEADER_SIZE as u64) {
                return false;
            }
            let h = SystemDescriptionTableHeader::read(mem, e);
            if same_signature(h.signature(), &sig) && !mem.holds(e, HPET_TABLE_SIZE) {
                return false;
            }
            i = i + 1;
        }
        true
    }

    /// The XSDT that this pointer points to.
    pub fn xsdt(&self, mem: &PhysMem) -> (x: Xsdt)
        requires
            mem.wf(),
            mem.contains(self.xsdt as int, HEADER_SIZE as int),
        ensures
            x.header.is_at(mem, self.xsdt as int),
    {
        Xsdt::read(mem, self.xsdt)
    }

    /// The HPET table: the first table with the HPET signature that the XSDT lists, or
    /// `None` where it lists none.
    pub fn hpet(&self, mem: &PhysMem) -> (r: Option<AcpiHpetDescriptor>)
        requires
            acpi_tables_in_memory(mem, self.xsdt as int),
        ensures
            match r {
                Some(t) => exists|i: int|
                    0 <= i < entry_count(mem.le_u32(self.xsdt + 4) as u32) && sig_at(
                        mem,
                        entry_at(mem, self.xsdt as int, i),
                    ) == hpet_signature() && t._header.is_at(
                        mem,
                        entry_at(mem, self.xsdt as int, i),
                    ) && t.is_table_of(mem, t._header) && forall|j: int|
                        0 <= j < i ==> #[trigger] sig_at(mem, entry_at(mem, self.xsdt as int, j))
                            != hpet_signature(),
                None => forall|i: int|
                    0 <= i < entry_count(mem.le_u32(self.xsdt + 4) as u32) ==> #[trigger] sig_at(
                        mem,
                        entry_at(mem, self.xsdt as int, i),
                    ) != hpet_signature(),
            },
    {
        let xsdt = self.xsdt(mem);
        assert(xsdt_in_memory(mem, xsdt.header)) by {
            assert forall|i: int| 0 <= i < entry_count(xsdt.header.length) implies #[trigger] mem.contains(
                entry_at(mem, xsdt.header.addr as int, i),
                HEADER_SIZE as int,
            ) by {}
        }
        let sig = AcpiHpetDescriptor::SIGNATURE;
        assert(sig@ =~= hpet_signature());
        match xsdt.find_table(mem, &sig) {
            Some(h) => {
                let ghost i = choose|i: int|
                    0 <= i < entry_count(xsdt.header.length) && h.is_at(
                        mem,
                        entry_at(mem, xsdt.header.addr as int, i),
                    ) && h.signature@ == sig@ && forall|j: int|
                        0 <= j < i ==> #[trigger] sig_at(
                            mem,
                            entry_at(mem, xsdt.header.addr as int, j),
                        ) != sig@;
                assert(entry_at(mem, self.xsdt as int, i) == h.addr);
                Some(AcpiHpetDescriptor::new(mem, &h))
            },
            None => None,
        }
    }
}

} // verus!
