use vstd::prelude::*;
use vstd::string::*;
use crate::text::{dec, push_dec};

verus! {

/// The UEFI memory type of memory that is free for the operating system to use.
pub const CONVENTIONAL_MEMORY: u32 = 7;

/// The size of a UEFI page in bytes.
pub const UEFI_PAGE_SIZE: u64 = 4096;

/// The parts of a UEFI memory descriptor that the boot summary reads.
#[derive(Clone, Copy, Debug)]
pub struct MemoryDescriptor {
    pub memory_type: u32,
    pub number_of_pages: u64,
}

/// The number of pages of conventional memory among the first `k` descriptors of `map`.
pub open spec fn conventional_pages(map: Seq<MemoryDescriptor>, k: nat) -> nat
    decreases k,
{
    if k == 0 {
        0
    } else {
        let d = map[k - 1];
        conventional_pages(map, (k - 1) as nat) + if d.memory_type == CONVENTIONAL_MEMORY {
            d.number_of_pages as nat
        } else {
            0
        }
    }
}

/// Counting a prefix does not look past it: descriptors added at the end change nothing.
pub proof fn lemma_conventional_pages_prefix(map: Seq<MemoryDescriptor>, d: MemoryDescriptor, k: nat)
    requires
        k <= map.len(),
    ensures
        conventional_pages(map.push(d), k) == conventional_pages(map, k),
    decreases k,
{
    if k > 0 {
        lemma_conventional_pages_prefix(map, d, (k - 1) as nat);
    }
}

/// The total of an empty map is 0, and appending a descriptor adds its pages when its type
/// is conventional memory (UEFI type 7) and nothing otherwise.
pub proof fn lemma_conventional_pages_push(map: Seq<MemoryDescriptor>, d: MemoryDescriptor)
    ensures
        conventional_pages(map, 0) == 0,
        conventional_pages(map.push(d), map.len() + 1) == conventional_pages(map, map.len()) + if d.memory_type == 7 {
            d.number_of_pages as nat
        } else {
            0
        },
{
    lemma_conventional_pages_prefix(map, d, map.len());
    assert(map.push(d)[map.len() as int] == d);
}

/// Counting over more descriptors never gives fewer pages.
pub proof fn lemma_conventional_pages_monotone(map: Seq<MemoryDescriptor>, i: nat, k: nat)
    requires
        i <= k,
    ensures
        conventional_pages(map, i) <= conventional_pages(map, k),
    decreases k,
{
    if i < k {
        lemma_conventional_pages_monotone(map, i, (k - 1) as nat);
    }
}

/// Whether the conventional memory of `map`, in bytes, fits in a `u64`: the condition under
/// which `conventional_memory_total` can add it up.
pub fn conventional_total_fits(map: &[MemoryDescriptor]) -> (r: bool)
    ensures
        r == (conventional_pages(map@, map@.len()) * UEFI_PAGE_SIZE <= u64::MAX),
{
    let mut total: u64 = 0;
    let mut i: usize = 0;
    while i < map.len()
        invariant
            i <= map@.len(),
            total == conventional_pages(map@, i as nat),
        decreases map@.len() - i,
    {
        let e = map[i];
        if e.memory_type == CONVENTIONAL_MEMORY {
            if e.number_of_pages > u64::MAX - total {
                proof {
                    lemma_conventional_pages_monotone(map@, (i + 1) as nat, map@.len());
                }
                return false;
            }
            total = total + e.number_of_pages;
        }
        i = i + 1;
    }
    total <= u64::MAX / UEFI_PAGE_SIZE
}

/// The total amount of conventional memory: the number of pages and the same in whole MiB.
pub fn conventional_memory_total(map: &[MemoryDescriptor]) -> (r: (u64, u64))
    requires
        conventional_pages(map@, map@.len()) * UEFI_PAGE_SIZE <= u64::MAX,
    ensures
        r.0 == conventional_pages(map@, map@.len()),
        r.1 == r.0 * UEFI_PAGE_SIZE / 1024 / 1024,
        r.1 == r.0 / 256,
{
    let mut total_memory_pages: u64 = 0;
    let mut i: usize = 0;
    while i < map.len()
        invariant
            i <= map@.len(),
            total_memory_pages == conventional_pages(map@, i as nat),
            conventional_pages(map@, map@.len()) * UEFI_PAGE_SIZE <= u64::MAX,
        decreases map@.len() - i,
    {
        let e = map[i];
        proof {
            lemma_conventional_pages_monotone(map@, (i + 1) as nat, map@.len());
        }
        if e.memory_type == CONVENTIONAL_MEMORY {
            total_memory_pages += e.number_of_pages;
        }
        i = i + 1;
    }
    let total_memory_size_mib = total_memory_pages * UEFI_PAGE_SIZE / 1024 / 1024;
    assert(total_memory_pages * 4096 / 1024 / 1024 == total_memory_pages / 256) by (nonlinear_arith);
    (total_memory_pages, total_memory_size_mib)
}

/// The line that reports the total: `Total: <pages> pages = <mib> MIB`.
pub open spec fn total_text(pages: u64, mib: u64) -> Seq<char> {
    "Total: "@ + dec(pages as nat) + " pages = "@ + dec(mib as nat) + " MIB"@
}

/// The line that reports the total.
pub fn total_line(pages: u64, mib: u64) -> (s: String)
    ensures
        s@ == total_text(pages, mib),
{
    let mut s = String::from_str("Total: ");
    push_dec(&mut s, pages);
    s.append(" pages = ");
    push_dec(&mut s, mib);
    s.append(" MIB");
    s
}

} // verus!
