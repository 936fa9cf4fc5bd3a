use vstd::prelude::*;
use vstd::string::*;
use core::marker::PhantomData;
use crate::memory::PhysMem;
use crate::text::{dec, dec_right, hex_prefixed, push_dec, push_hex_prefixed};

verus! {

pub const PAGE_SIZE: usize = 4096;

/// The low bits of an entry that hold attributes rather than the next table's address.
const ATTR_MASK: u64 = 0xFFF;

const ATTR_PRESENT: u64 = 0x1;

const ATTR_WRITABLE: u64 = 0x2;

const ATTR_WRITE_THROUGH: u64 = 0x8;

const ATTR_CACHE_DISABLE: u64 = 0x10;

/// The attribute bits that a mapping can be created with.
#[derive(Debug, Copy, Clone, PartialEq, Eq, Structural)]
pub enum PageAttr {
    NotPresent,
    ReadWriteKernel,
    ReadWriteIo,
}

/// The attribute bits of `attr`, as they stand in a page table entry.
pub open spec fn page_attr_bits(attr: PageAttr) -> u64 {
    match attr {
        PageAttr::NotPresent => 0,
        PageAttr::ReadWriteKernel => 0x3,
        PageAttr::ReadWriteIo => 0x1b,
    }
}

impl PageAttr {
    /// The attribute bits of this attribute: none for `NotPresent`; present and
    /// writable for `ReadWriteKernel`; present, writable, write-through and
    /// cache-disabled for `ReadWriteIo`.
    pub fn bits(&self) -> (r: u64)
        ensures
            r == page_attr_bits(*self),
    {
        match self {
            PageAttr::NotPresent => 0,
            PageAttr::ReadWriteKernel => {
                assert(ATTR_PRESENT | ATTR_WRITABLE == 0x3) by (bit_vector);
                ATTR_PRESENT | ATTR_WRITABLE
            },
            PageAttr::ReadWriteIo => {
                let r = ATTR_PRESENT | ATTR_WRITABLE | ATTR_WRITE_THROUGH | ATTR_CACHE_DISABLE;
                assert(ATTR_PRESENT | ATTR_WRITABLE | ATTR_WRITE_THROUGH | ATTR_CACHE_DISABLE
                    == 0x1b) by (bit_vector);
                r
            },
        }
    }
}

/// Where a virtual address was found to be mapped, by page size.
#[derive(Debug, PartialEq, Eq, Structural)]
pub enum TranslationResult {
    PageMapped4K { phys: u64 },
    PageMapped2M { phys: u64 },
    PageMapped1G { phys: u64 },
}

/// Bit 0 of an entry: the entry maps a page or references a table.
pub open spec fn spec_present(v: u64) -> bool {
    v % 2 == 1
}

/// Bit 1 of an entry: writes are allowed.
pub open spec fn spec_writable(v: u64) -> bool {
    (v / 2) % 2 == 1
}

/// Bit 2 of an entry: user-mode accesses are allowed.
pub open spec fn spec_user(v: u64) -> bool {
    (v / 4) % 2 == 1
}

/// The physical address an entry points to: the entry with its low 12 bits cleared.
pub open spec fn spec_table_addr(v: u64) -> u64 {
    (v - v % 4096) as u64
}

/// Each flag of an entry is one bit of its value, whatever the other bits are: present is
/// bit 0, writable bit 1, user-accessible bit 2; and the address it points to is its value
/// with bits 0 to 11 cleared.
pub proof fn lemma_entry_bits(v: u64)
    ensures
        spec_present(v) == ((v & 1) != 0),
        spec_writable(v) == ((v & 2) != 0),
        spec_user(v) == ((v & 4) != 0),
        spec_table_addr(v) == v & 0xFFFF_FFFF_FFFF_F000,
{
    assert(((v & 1) != 0) == (v % 2 == 1)) by (bit_vector);
    assert(((v & 2) != 0) == ((v / 2) % 2 == 1)) by (bit_vector);
    assert(((v & 4) != 0) == ((v / 4) % 2 == 1)) by (bit_vector);
    assert(v & 0xFFFF_FFFF_FFFF_F000 == v - v % 4096) by (bit_vector);
}

/// The text of an entry ends with its three flag letters, each read off one bit of the
/// value (`P`/`N` bit 0, `W`/`R` bit 1, `U`/`S` bit 2), and a closing brace.
pub proof fn lemma_entry_text_flags(level: nat, addr: u64, v: u64)
    ensures
        ({
            let s = entry_text(level, addr, v);
            &&& s.len() >= 4
            &&& s[s.len() - 1] == '}'
            &&& s[s.len() - 4] == if (v & 1) != 0 {
                'P'
            } else {
                'N'
            }
            &&& s[s.len() - 3] == if (v & 2) != 0 {
                'W'
            } else {
                'R'
            }
            &&& s[s.len() - 2] == if (v & 4) != 0 {
                'U'
            } else {
                'S'
            }
        }),
{
    lemma_entry_bits(v);
    reveal_strlit("}");
}

/// The address an entry points to is 4 KiB-aligned and is the entry's value with only
/// its low 12 attribute bits cleared.
pub proof fn lemma_table_addr(v: u64)
    ensures
        spec_table_addr(v) % 4096 == 0,
        spec_table_addr(v) <= v,
        v - spec_table_addr(v) < 4096,
{
}

/// An entry written as a 4 KiB-aligned physical address `phys` combined with the bits of
/// `attr` is present and writable exactly when `attr` is not `NotPresent`, is never
/// user-accessible, and where present points back at `phys`.
pub proof fn lemma_mapping_entry(phys: u64, attr: PageAttr)
    requires
        phys % 4096 == 0,
    ensures
        spec_present(phys | page_attr_bits(attr)) == (attr != PageAttr::NotPresent),
        spec_writable(phys | page_attr_bits(attr)) == (attr != PageAttr::NotPresent),
        !spec_user(phys | page_attr_bits(attr)),
        spec_table_addr(phys | page_attr_bits(attr)) == phys,
{
    let b = page_attr_bits(attr);
    assert(b == 0 || b == 3 || b == 0x1b);
    assert(phys % 4096 == 0 && (b == 0 || b == 3 || b == 0x1b) ==> {
        &&& (phys | b) % 2 == b % 2
        &&& ((phys | b) / 2) % 2 == (b / 2) % 2
        &&& ((phys | b) / 4) % 2 == (b / 4) % 2
        &&& (phys | b) % 4096 == b
        &&& (phys | b) == phys + b
    }) by (bit_vector);
}

/// An entry of a level-`LEVEL` paging structure; `NEXT` is the kind of structure that
/// a present entry points to.
pub struct Entry<const LEVEL: usize, const SHIFT: usize, NEXT> {
    value: u64,
    next_type: PhantomData<NEXT>,
}

impl<const LEVEL: usize, const SHIFT: usize, NEXT> View for Entry<LEVEL, SHIFT, NEXT> {
    type V = u64;

    closed spec fn view(&self) -> u64 {
        self.value
    }
}

/// What an entry holding `v` at physical address `addr` prints as:
/// `L<level>Entry @ <addr> { <v> <flags>}`.
pub open spec fn entry_text(level: nat, addr: u64, v: u64) -> Seq<char> {
    "L"@ + dec(level) + "Entry @ "@ + hex_prefixed(addr as nat, 16, false) + " { "@
        + hex_prefixed(v as nat, 16, true) + " "@ + seq![
        if spec_present(v) {
            'P'
        } else {
            'N'
        },
        if spec_writable(v) {
            'W'
        } else {
            'R'
        },
        if spec_user(v) {
            'U'
        } else {
            'S'
        },
    ] + "}"@
}

impl<const LEVEL: usize, const SHIFT: usize, NEXT> Entry<LEVEL, SHIFT, NEXT> {
    /// The entry whose raw 64-bit value is `value`.
    pub fn from_value(value: u64) -> (e: Self)
        ensures
            e@ == value,
    {
        Entry { value, next_type: PhantomData }
    }

    /// The raw 64-bit value of the entry.
    pub fn read_value(&self) -> (r: u64)
        ensures
            r == self@,
    {
        self.value
    }

    pub fn is_writable(&self) -> (r: bool)
        ensures
            r == spec_writable(self@),
    {
        let v = self.read_value();
        assert((v & (1u64 << 1)) != 0 <==> (v / 2) % 2 == 1) by (bit_vector);
        (v & (1u64 << 1)) != 0
    }

    pub fn is_present(&self) -> (r: bool)
        ensures
            r == spec_present(self@),
    {
        let v = self.read_value();
        assert((v & (1u64 << 0)) != 0 <==> v % 2 == 1) by (bit_vector);
        (v & (1u64 << 0)) != 0
    }

    pub fn is_user(&self) -> (r: bool)
        ensures
            r == spec_user(self@),
    {
        let v = self.read_value();
        assert((v & (1u64 << 2)) != 0 <==> (v / 4) % 2 == 1) by (bit_vector);
        (v & (1u64 << 2)) != 0
    }

    /// The text of this entry, found at physical address `addr`.
    pub fn format(&self, addr: u64) -> (s: String)
        ensures
            s@ == entry_text(LEVEL as nat, addr, self@),
    {
        let mut s = String::new();
        s.append("L");
        push_dec(&mut s, LEVEL as u64);
        s.append("Entry @ ");
        push_hex_prefixed(&mut s, addr, 16, false);
        s.append(" { ");
        push_hex_prefixed(&mut s, self.read_value(), 16, true);
        s.append(" ");
        s.append(if self.is_present() { "P" } else { "N" });
        s.append(if self.is_writable() { "W" } else { "R" });
        s.append(if self.is_user() { "U" } else { "S" });
        s.append("}");
        proof {
            reveal_strlit("P");
            reveal_strlit("N");
            reveal_strlit("W");
            reveal_strlit("R");
            reveal_strlit("U");
            reveal_strlit("S");
        }
        assert(s@ =~= entry_text(LEVEL as nat, addr, self@));
        s
    }

    /// The physical address of the structure this entry points to, if it is present.
    pub fn table(&self) -> (r: Result<u64, &'static str>)
        ensures
            spec_present(self@) ==> r == Ok::<u64, &'static str>(spec_table_addr(self@)),
            !spec_present(self@) ==> (r matches Err(e) && e@ == "Page not fornd"@),
    {
        if self.is_present() {
            let v = self.value;
            assert(v & !0xFFFu64 == v - v % 4096) by (bit_vector);
            Ok(self.value & !ATTR_MASK)
        } else {
            Err("Page not fornd")
        }
    }
}

/// One line of a table's text: `entry[<index>] = <entry text>`.
pub open spec fn table_line(level: nat, addr: u64, index: nat, v: u64) -> Seq<char> {
    "entry["@ + dec_right(index, 3) + "] = "@ + entry_text(level, (addr + 8 * index) as u64, v)
        + "\n"@
}

/// The lines for the present entries among the first `k` of `entries`.
pub open spec fn table_lines(level: nat, addr: u64, entries: Seq<u64>, k: nat) -> Seq<char>
    decreases k,
{
    if k == 0 {
        Seq::empty()
    } else {
        let i = (k - 1) as nat;
        let rest = table_lines(level, addr, entries, i);
        if spec_present(entries[i as int]) {
            rest + table_line(level, addr, i, entries[i as int])
        } else {
            rest
        }
    }
}

/// What a table holding `entries` at physical address `addr` prints as: a header line,
/// one line for each present entry, and a closing brace.
pub open spec fn table_text(level: nat, addr: u64, entries: Seq<u64>) -> Seq<char> {
    "L"@ + dec(level) + "Table @ "@ + hex_prefixed(addr as nat, 16, false) + " {\n"@
        + table_lines(level, addr, entries, entries.len()) + "}\n"@
}

/// A level-`LEVEL` paging structure: 512 entries.
pub struct Table<const LEVEL: usize, const SHIFT: usize, NEXT> {
    entry: Vec<Entry<LEVEL, SHIFT, NEXT>>,
}

impl<const LEVEL: usize, const SHIFT: usize, NEXT> View for Table<LEVEL, SHIFT, NEXT> {
    type V = Seq<u64>;

    /// The raw values of the entries, in order.
    closed spec fn view(&self) -> Seq<u64> {
        self.entry@.map_values(|e: Entry<LEVEL, SHIFT, NEXT>| e@)
    }
}

impl<const LEVEL: usize, const SHIFT: usize, NEXT> Table<LEVEL, SHIFT, NEXT> {
    #[verifier::type_invariant]
    spec fn has_all_entries(&self) -> bool {
        self.entry@.len() == 512
    }

    /// The table whose 512 entries are the little-endian words at `addr`, `addr + 8`, ...
    pub fn read(mem: &PhysMem, addr: u64) -> (t: Self)
        requires
            mem.wf(),
            mem.contains(addr as int, 4096),
        ensures
            t@.len() == 512,
            forall|i: int| 0 <= i < 512 ==> t@[i] == mem.le_u64(addr + 8 * i),
    {
        let mut entry: Vec<Entry<LEVEL, SHIFT, NEXT>> = Vec::new();
        let mut i: u64 = 0;
        while i < 512
            invariant
                mem.wf(),
                mem.contains(addr as int, 4096),
                i <= 512,
                entry@.len() == i,
                forall|j: int| 0 <= j < i ==> entry@[j]@ == mem.le_u64(addr + 8 * j),
            decreases 512 - i,
        {
            let e = Entry::from_value(mem.read_u64(addr + 8 * i));
            entry.push(e);
            i = i + 1;
        }
        let t = Table { entry };
        assert forall|j: int| 0 <= j < 512 implies t@[j] == mem.le_u64(addr + 8 * j) by {
            assert(t@[j] == t.entry@[j]@);
        }
        t
    }

    /// The text of this table, found at physical address `addr`.
    pub fn format(&self, addr: u64) -> (s: String)
        requires
            addr + 4096 <= u64::MAX + 1,
        ensures
            self@.len() == 512,
            s@ == table_text(LEVEL as nat, addr, self@),
    {
        proof {
            use_type_invariant(self);
        }
        let mut s = String::new();
        s.append("L");
        push_dec(&mut s, LEVEL as u64);
        s.append("Table @ ");
        push_hex_prefixed(&mut s, addr, 16, false);
        s.append(" {\n");
        let ghost head = s@;
        let mut i: usize = 0;
        while i < 512
            invariant
                self.entry@.len() == 512,
                addr + 4096 <= u64::MAX + 1,
                i <= 512,
                s@ == head + table_lines(LEVEL as nat, addr, self@, i as nat),
            decreases 512 - i,
        {
            let e = &self.entry[i];
            assert(e@ == self@[i as int]);
            if e.is_present() {
                s.append("entry[");
                push_dec_right3(&mut s, i as u64);
                s.append("] = ");
                s.append(&e.format(addr + 8 * i as u64).as_str());
                s.append("\n");
            }
            i = i + 1;
        }
        s.append("}\n");
        assert(s@ =~= table_text(LEVEL as nat, addr, self@));
        s
    }

    /// The physical address of the structure that entry `index` points to: `None` where
    /// `index` is past the last entry or the entry is not present.
    pub fn next_level(&self, index: usize) -> (r: Option<u64>)
        ensures
            self@.len() == 512,
            r == (if index < self@.len() && spec_present(self@[index as int]) {
                Some(spec_table_addr(self@[index as int]))
            } else {
                None
            }),
    {
        proof {
            use_type_invariant(self);
        }
        if index < self.entry.len() {
            let e = &self.entry[index];
            assert(e@ == self@[index as int]);
            e.table().ok()
        } else {
            None
        }
    }
}

/// Appends `v` in decimal, right-aligned in a field of 3 characters.
fn push_dec_right3(s: &mut String, v: u64)
    ensures
        final(s)@ == old(s)@ + dec_right(v as nat, 3),
{
    if v < 10 {
        s.append("  ");
    } else if v < 100 {
        s.append(" ");
    }
    push_dec(s, v);
    proof {
        reveal_with_fuel(dec, 3);
        reveal_strlit("  ");
        reveal_strlit(" ");
    }
    assert(final(s)@ =~= old(s)@ + dec_right(v as nat, 3));
}

pub type PT = Table<1, 12, [u8; PAGE_SIZE]>;

pub type PD = Table<2, 21, PT>;

pub type PDPT = Table<3, 30, PD>;

pub type PML4 = Table<4, 39, PDPT>;

} // verus!
