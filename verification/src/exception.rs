use vstd::prelude::*;
use vstd::string::*;
use crate::text::{hex_fixed, hex_prefixed, push_hex_fixed, push_hex_prefixed};

verus! {

/// The general purpose registers that the interrupt entry code saves (all but `rsp`).
#[derive(Clone, Copy, Debug)]
pub struct GeneralRegisterContext {
    pub rax: u64,
    pub rdx: u64,
    pub rbx: u64,
    pub rbp: u64,
    pub rsi: u64,
    pub rdi: u64,
    pub r8: u64,
    pub r9: u64,
    pub r10: u64,
    pub r11: u64,
    pub r12: u64,
    pub r13: u64,
    pub r14: u64,
    pub r15: u64,
    pub rcx: u64,
}

/// The frame that the processor pushes on an interrupt.
#[derive(Clone, Copy, Debug)]
pub struct InterruptContext {
    pub rip: u64,
    pub cs: u64,
    pub rflags: u64,
    pub rsp: u64,
    pub ss: u64,
}

/// The saved state of the interrupted code, as the interrupt handler reports it.
#[derive(Clone, Copy, Debug)]
pub struct InterruptInfo {
    pub greg: GeneralRegisterContext,
    pub error_code: u64,
    pub ctx: InterruptContext,
}

/// A register value as `{:#018X}` prints it.
pub open spec fn reg(v: u64) -> Seq<char> {
    hex_prefixed(v as nat, 16, true)
}

/// A segment selector as `{:#06X}` prints it.
pub open spec fn sel(v: u64) -> Seq<char> {
    hex_prefixed(v as nat, 4, true)
}

/// The report of the saved state: every register, in a fixed layout.
pub open spec fn interrupt_info_text(info: InterruptInfo) -> Seq<char> {
    let c = info.ctx;
    let g = info.greg;
    " {\n            rip: "@ + reg(c.rip) + " , CS: "@ + sel(c.cs) + " ,\n            rsp: "@
        + reg(c.rsp) + " , SS: "@ + sel(c.ss) + " , \n            rbp: "@ + reg(g.rbp)
        + " ,\n\n            rflags: "@ + reg(c.rflags) + ",\n            error_code:   "@
        + reg(info.error_code) + ", \n\n             rax: "@ + reg(g.rax) + " , rcx: "@ + reg(
        g.rcx,
    ) + " , \n              rdx: "@ + reg(g.rdx) + " , rbx: "@ + reg(g.rbx)
        + " , \n               rsi: "@ + reg(g.rsi) + " , rdi: "@ + reg(g.rdi)
        + " , \n                r8: "@ + reg(g.r8) + " , r9: "@ + reg(g.r9)
        + " , \n                 r10: "@ + reg(g.r10) + " , r11: "@ + reg(g.r11)
        + " , \n                  r12: "@ + reg(g.r12) + " , r13: "@ + reg(g.r13)
        + " , \n                   r14: "@ + reg(g.r14) + " , r15: "@ + reg(g.r15)
        + " ,\n        }\n            "@
}

impl InterruptInfo {
    /// The report of the saved state.
    pub fn format(&self) -> (s: String)
        ensures
            s@ == interrupt_info_text(*self),
    {
        let c = &self.ctx;
        let g = &self.greg;
        let mut s = String::from_str(" {\n            rip: ");
        push_hex_prefixed(&mut s, c.rip, 16, true);
        s.append(" , CS: ");
        push_hex_prefixed(&mut s, c.cs, 4, true);
        s.append(" ,\n            rsp: ");
        push_hex_prefixed(&mut s, c.rsp, 16, true);
        s.append(" , SS: ");
        push_hex_prefixed(&mut s, c.ss, 4, true);
        s.append(" , \n            rbp: ");
        push_hex_prefixed(&mut s, g.rbp, 16, true);
        s.append(" ,\n\n            rflags: ");
        push_hex_prefixed(&mut s, c.rflags, 16, true);
        s.append(",\n            error_code:   ");
        push_hex_prefixed(&mut s, self.error_code, 16, true);
        s.append(", \n\n             rax: ");
        push_hex_prefixed(&mut s, g.rax, 16, true);
        s.append(" , rcx: ");
        push_hex_prefixed(&mut s, g.rcx, 16, true);
        s.append(" , \n              rdx: ");
        push_hex_prefixed(&mut s, g.rdx, 16, true);
        s.append(" , rbx: ");
        push_hex_prefixed(&mut s, g.rbx, 16, true);
        s.append(" , \n               rsi: ");
        push_hex_prefixed(&mut s, g.rsi, 16, true);
        s.append(" , rdi: ");
        push_hex_prefixed(&mut s, g.rdi, 16, true);
        s.append(" , \n                r8: ");
        push_hex_prefixed(&mut s, g.r8, 16, true);
        s.append(" , r9: ");
        push_hex_prefixed(&mut s, g.r9, 16, true);
        s.append(" , \n                 r10: ");
        push_hex_prefixed(&mut s, g.r10, 16, true);
        s.append(" , r11: ");
        push_hex_prefixed(&mut s, g.r11, 16, true);
        s.append(" , \n                  r12: ");
        push_hex_prefixed(&mut s, g.r12, 16, true);
        s.append(" , r13: ");
        push_hex_prefixed(&mut s, g.r13, 16, true);
        s.append(" , \n                   r14: ");
        push_hex_prefixed(&mut s, g.r14, 16, true);
        s.append(" , r15: ");
        push_hex_prefixed(&mut s, g.r15, 16, true);
        s.append(" ,\n        }\n            ");
        s
    }
}

/// The name under which the handler reports exception vector `index`.
pub open spec fn exception_name_text(index: nat) -> Seq<char> {
    if index == 3 {
        "Breakpoint"@
    } else if index == 6 {
        "Invalid Opcode"@
    } else if index == 8 {
        "Double Fault"@
    } else if index == 13 {
        "GEneral Protection Fault"@
    } else if index == 14 {
        "Page Fault"@
    } else {
        "Not handeled"@
    }
}

/// The name under which the handler reports exception vector `index`.
pub fn exception_name(index: usize) -> (r: &'static str)
    ensures
        r@ == exception_name_text(index as nat),
{
    match index {
        3 => "Breakpoint",
        6 => "Invalid Opcode",
        8 => "Double Fault",
        13 => "GEneral Protection Fault",
        14 => "Page Fault",
        _ => "Not handeled",
    }
}

/// The kind of access that caused a page fault.
#[derive(Clone, Copy, Debug, PartialEq, Eq, Structural)]
pub enum AccessKind {
    InstructionFetch,
    DataWrite,
    DataRead,
}

/// What a page fault's error code says about the fault.
#[derive(Clone, Copy, Debug, PartialEq, Eq, Structural)]
pub struct PageFaultCause {
    /// The access came from user mode (bit 2); otherwise from supervisor mode.
    pub user: bool,
    pub access: AccessKind,
    /// The page was present (bit 0): a protection violation, not a missing page.
    pub present: bool,
    /// A reserved bit was set in a paging structure (bit 3).
    pub reserved_bit: bool,
}

/// The cause that the error code `e` of a page fault encodes.
pub open spec fn spec_page_fault_cause(e: u64) -> PageFaultCause {
    PageFaultCause {
        user: (e / 4) % 2 == 1,
        access: if (e / 16) % 2 == 1 {
            AccessKind::InstructionFetch
        } else if (e / 2) % 2 == 1 {
            AccessKind::DataWrite
        } else {
            AccessKind::DataRead
        },
        present: e % 2 == 1,
        reserved_bit: (e / 8) % 2 == 1,
    }
}

/// Each part of a page fault's cause is read off the error code's bits, whatever the other
/// bits are: user is bit 2, present bit 0, reserved-bit violation bit 3; the access is an
/// instruction fetch when bit 4 is set, otherwise a write when bit 1 is set, otherwise a read.
pub proof fn lemma_page_fault_bits(e: u64)
    ensures
        spec_page_fault_cause(e).user == ((e & 4) != 0),
        spec_page_fault_cause(e).present == ((e & 1) != 0),
        spec_page_fault_cause(e).reserved_bit == ((e & 8) != 0),
        (spec_page_fault_cause(e).access == AccessKind::InstructionFetch) == ((e & 16) != 0),
        (spec_page_fault_cause(e).access == AccessKind::DataWrite) == ((e & 16) == 0 && (e & 2)
            != 0),
        (spec_page_fault_cause(e).access == AccessKind::DataRead) == ((e & 16) == 0 && (e & 2)
            == 0),
{
    assert(((e & 1) != 0) == (e % 2 == 1)) by (bit_vector);
    assert(((e & 2) != 0) == ((e / 2) % 2 == 1)) by (bit_vector);
    assert(((e & 4) != 0) == ((e / 4) % 2 == 1)) by (bit_vector);
    assert(((e & 8) != 0) == ((e / 8) % 2 == 1)) by (bit_vector);
    assert(((e & 16) != 0) == ((e / 16) % 2 == 1)) by (bit_vector);
}

/// The line that reports a page fault's cause.
pub open spec fn cause_text(c: PageFaultCause) -> Seq<char> {
    "Caused by: "@ + (if c.user {
        "user"@
    } else {
        "supervisor"@
    }) + " A "@ + (match c.access {
        AccessKind::InstructionFetch => "instruction fetch"@,
        AccessKind::DataWrite => "data write"@,
        AccessKind::DataRead => "data read"@,
    }) + " mode on a "@ + (if c.present {
        "present"@
    } else {
        "non_present"@
    }) + " page , pge structures are "@ + (if c.reserved_bit {
        "Invalid"@
    } else {
        "valid"@
    })
}

/// Decodes the error code of a page fault.
pub fn page_fault_cause(error_code: u64) -> (c: PageFaultCause)
    ensures
        c == spec_page_fault_cause(error_code),
{
    let e = error_code;
    assert((e & 0b0000_0100 != 0) == ((e / 4) % 2 == 1)) by (bit_vector);
    assert((e & 0b0001_0000 != 0) == ((e / 16) % 2 == 1)) by (bit_vector);
    assert((e & 0b0010 != 0) == ((e / 2) % 2 == 1)) by (bit_vector);
    assert((e & 0b0001 != 0) == (e % 2 == 1)) by (bit_vector);
    assert((e & 0b1000 != 0) == ((e / 8) % 2 == 1)) by (bit_vector);
    PageFaultCause {
        user: e & 0b0000_0100 != 0,
        access: if e & 0b0001_0000 != 0 {
            AccessKind::InstructionFetch
        } else if e & 0b0010 != 0 {
            AccessKind::DataWrite
        } else {
            AccessKind::DataRead
        },
        present: e & 0b0001 != 0,
        reserved_bit: e & 0b1000 != 0,
    }
}

impl PageFaultCause {
    /// The line that reports this cause.
    pub fn text(&self) -> (s: String)
        ensures
            s@ == cause_text(*self),
    {
        let mut s = String::from_str("Caused by: ");
        s.append(if self.user { "user" } else { "supervisor" });
        s.append(" A ");
        s.append(
            match self.access {
                AccessKind::InstructionFetch => "instruction fetch",
                AccessKind::DataWrite => "data write",
                AccessKind::DataRead => "data read",
            },
        );
        s.append(" mode on a ");
        s.append(if self.present { "present" } else { "non_present" });
        s.append(" page , pge structures are ");
        s.append(if self.reserved_bit { "Invalid" } else { "valid" });
        s
    }
}

/// The first `k` bytes of `b`, each as two upper-case hexadecimal digits, separated by `, `.
pub open spec fn joined_bytes(b: Seq<u8>, k: nat) -> Seq<char>
    decreases k,
{
    if k == 0 {
        Seq::empty()
    } else if k == 1 {
        hex_fixed(b[0] as nat, 2, true)
    } else {
        joined_bytes(b, (k - 1) as nat) + ", "@ + hex_fixed(b[k - 1] as nat, 2, true)
    }
}

/// The bytes `b` as `{:02X?}` prints a byte slice: `[0F, 0B, ...]`.
pub open spec fn bytes_text(b: Seq<u8>) -> Seq<char> {
    "["@ + joined_bytes(b, b.len()) + "]"@
}

/// The bytes `b` as `{:02X?}` prints a byte slice.
pub fn format_bytes(b: &[u8]) -> (s: String)
    ensures
        s@ == bytes_text(b@),
{
    let mut s = String::from_str("[");
    let mut i: usize = 0;
    while i < b.len()
        invariant
            i <= b@.len(),
            s@ == "["@ + joined_bytes(b@, i as nat),
        decreases b@.len() - i,
    {
        if i > 0 {
            s.append(", ");
        }
        push_hex_fixed(&mut s, b[i] as u64, 2, true);
        proof {
            if i == 0 {
                assert(joined_bytes(b@, 0) =~= Seq::<char>::empty());
            }
        }
        assert(s@ =~= "["@ + joined_bytes(b@, (i + 1) as nat));
        i = i + 1;
    }
    s.append("]");
    assert(b@.len() == i);
    s
}

/// The lines that the handler of exception vector `index` reports, in order: the saved
/// state, the vector number, the exception's name, and for a general protection fault the
/// 16 bytes at the faulting instruction (`rip_bytes`), for a page fault the faulting
/// address (`cr2`) and the cause.
pub open spec fn report_lines(info: InterruptInfo, index: nat, cr2: u64, rip_bytes: Seq<u8>) -> Seq<
    Seq<char>,
> {
    let head = seq![
        "Interrupt Info : "@ + interrupt_info_text(info),
        "Exception "@ + hex_prefixed(index, 2, true) + ":"@,
        exception_name_text(index),
    ];
    if index == 13 {
        head + seq!["Bytes@ RIP {rip:#018X}:"@, " = "@ + bytes_text(rip_bytes)]
    } else if index == 14 {
        head + seq!["CR = "@ + reg(cr2), cause_text(spec_page_fault_cause(info.error_code))]
    } else {
        head
    }
}

/// The lines that the handler of exception vector `index` reports. `cr2` is read only for a
/// page fault (vector 14), `rip_bytes` only for a general protection fault (vector 13).
pub fn exception_report(info: &InterruptInfo, index: usize, cr2: u64, rip_bytes: &[u8; 16]) -> (r:
    Vec<String>)
    ensures
        r@.map_values(|l: String| l@) == report_lines(*info, index as nat, cr2, rip_bytes@),
{
    let ghost lines = report_lines(*info, index as nat, cr2, rip_bytes@);
    let mut r: Vec<String> = Vec::new();
    let mut l = String::from_str("Interrupt Info : ");
    l.append(info.format().as_str());
    assert(l@ == lines[0]);
    r.push(l);
    let mut l = String::from_str("Exception ");
    push_hex_prefixed(&mut l, index as u64, 2, true);
    l.append(":");
    assert(l@ == lines[1]);
    r.push(l);
    let name = String::from_str(exception_name(index));
    assert(name@ == lines[2]);
    r.push(name);
    assert(r@.len() == 3 && r@[0]@ == lines[0] && r@[1]@ == lines[1] && r@[2]@ == lines[2]);
    if index == 13 {
        let l = String::from_str("Bytes@ RIP {rip:#018X}:");
        assert(l@ == lines[3]);
        r.push(l);
        let mut l = String::from_str(" = ");
        l.append(format_bytes(rip_bytes.as_slice()).as_str());
        assert(l@ == lines[4]);
        r.push(l);
        assert(lines.len() == 5 && r@.len() == 5);
    } else if index == 14 {
        let mut l = String::from_str("CR = ");
        push_hex_prefixed(&mut l, cr2, 16, true);
        assert(l@ == lines[3]);
        r.push(l);
        let l = page_fault_cause(info.error_code).text();
        assert(l@ == lines[4]);
        r.push(l);
        assert(lines.len() == 5 && r@.len() == 5);
    } else {
        assert(lines.len() == 3);
    }
    assert forall|k: int| 0 <= k < r@.len() implies r@[k]@ == lines[k] by {}
    assert(r@.map_values(|l: String| l@) =~= report_lines(*info, index as nat, cr2, rip_bytes@));
    r
}

} // verus!
