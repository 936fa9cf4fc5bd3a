# wasabi

Verified pieces of a small x86-64 UEFI kernel.

- `src/memory.rs`: a window of physical memory and little-endian reads from it.
- `src/acpi.rs`: the RSDP, the XSDT and its entries, table lookup by signature, and the
  HPET description table with its generic address.
- `src/x86.rs`: 4-level page table entries and tables: flag bits, the next-level table
  address, and their text.
- `src/exception.rs`: the report that the exception handler prints: saved registers,
  exception names and page-fault causes.
- `src/memory_map.rs`: the conventional-memory total printed at boot.
- `src/text.rs`: hexadecimal and decimal formatting into `String`s.

`app/` holds what only the machine can do (inline assembly, the exception handler,
reading a memory image from disk) and drives the library over a dump of physical memory.
