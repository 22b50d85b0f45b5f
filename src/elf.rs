//! What the library reads from ELF files, through goblin: the machine of an
//! executable header, and the symbol tables of a shared library.

use crate::payloads::Arch;
use crate::proc::{ProcClass, ProcLib, ProcSym, VirtAddr};
use crate::tiny_asm::same_label;
use vstd::prelude::*;

verus! {

/// `EM_386`
pub const EM_386: u16 = 3;

/// `EM_ARM`
pub const EM_ARM: u16 = 40;

/// `EM_X86_64`
pub const EM_X86_64: u16 = 62;

/// `EM_AARCH64`
pub const EM_AARCH64: u16 = 183;

/// Whether the bytes start with an ELF header that goblin accepts: the magic,
/// a class of 1 (32-bit) or 2 (64-bit), a data encoding of 1 (little-endian)
/// or 2 (big-endian), and the 52 or 64 bytes of that class's header.
pub open spec fn header_ok(b: Seq<u8>) -> bool {
    &&& b.len() >= 16
    &&& b[0] == 0x7f && b[1] == 0x45 && b[2] == 0x4c && b[3] == 0x46
    &&& b[4] == 1 || b[4] == 2
    &&& b[5] == 1 || b[5] == 2
    &&& b.len() >= if b[4] == 1 {
        52int
    } else {
        64int
    }
}

/// The `e_machine` field: the 16 bits at offset 18 in the header's byte order.
pub open spec fn machine_field(b: Seq<u8>) -> u16 {
    if b[5] == 1 {
        (b[18] + 0x100 * b[19]) as u16
    } else {
        (b[19] + 0x100 * b[18]) as u16
    }
}

/// Relies on goblin's `Elf::parse_header`: it succeeds exactly on a header
/// that `header_ok` describes, and its `e_machine` is `machine_field`.
#[verifier::external_body]
fn elf_machine(header: &[u8]) -> (r: Option<u16>)
    ensures
        r is Some <==> header_ok(header@),
        r is Some ==> r->0 == machine_field(header@),
{
    goblin::elf::Elf::parse_header(header).ok().map(|h| h.e_machine)
}

/// The class of a process whose executable has machine `machine`, among the
/// machines a host of architecture `host` runs: `EM_386` and `EM_X86_64` on
/// x86-64 (only `EM_386` on x86), `EM_ARM` and `EM_AARCH64` on AArch64 (only
/// `EM_ARM` on ARM).
pub open spec fn spec_class(machine: u16, host: Arch) -> Option<ProcClass> {
    if machine == EM_386 && (host == Arch::X86 || host == Arch::X86_64) {
        Some(ProcClass::ThirtyTwo)
    } else if machine == EM_X86_64 && host == Arch::X86_64 {
        Some(ProcClass::SixtyFour)
    } else if machine == EM_ARM && (host == Arch::Arm || host == Arch::Aarch64) {
        Some(ProcClass::ThirtyTwo)
    } else if machine == EM_AARCH64 && host == Arch::Aarch64 {
        Some(ProcClass::SixtyFour)
    } else {
        None
    }
}

impl ProcClass {
    /// The class for the machine `machine` on `host`; `None` when unsupported.
    pub fn from_machine(machine: u16, host: Arch) -> (r: Option<ProcClass>)
        ensures
            r == spec_class(machine, host),
    {
        match host {
            Arch::X86 => if machine == EM_386 {
                Some(ProcClass::ThirtyTwo)
            } else {
                None
            },
            Arch::X86_64 => if machine == EM_386 {
                Some(ProcClass::ThirtyTwo)
            } else if machine == EM_X86_64 {
                Some(ProcClass::SixtyFour)
            } else {
                None
            },
            Arch::Arm => if machine == EM_ARM {
                Some(ProcClass::ThirtyTwo)
            } else {
                None
            },
            Arch::Aarch64 => if machine == EM_ARM {
                Some(ProcClass::ThirtyTwo)
            } else if machine == EM_AARCH64 {
                Some(ProcClass::SixtyFour)
            } else {
                None
            },
        }
    }

    /// The class of a process from the first bytes of its executable;
    /// `None` when they are no ELF header or the machine is unsupported.
    pub fn from_header(header: &[u8], host: Arch) -> (r: Option<ProcClass>)
        ensures
            !header_ok(header@) ==> r is None,
            header_ok(header@) ==> r == spec_class(machine_field(header@), host),
    {
        match elf_machine(header) {
            Some(m) => ProcClass::from_machine(m, host),
            None => None,
        }
    }
}

/// A symbol of an ELF symbol table: its name (`None` when the string table
/// has none at its offset) and its value.
#[derive(Clone, Debug)]
pub struct ElfSym {
    pub name: Option<String>,
    pub value: u64,
}

/// The symbol as plain values.
pub open spec fn sym_view(s: ElfSym) -> (Option<Seq<char>>, u64) {
    (
        match s.name {
            Some(n) => Some(n@),
            None => None,
        },
        s.value,
    )
}

/// The symbols of a table as plain values.
pub open spec fn table_view(t: Seq<ElfSym>) -> Seq<(Option<Seq<char>>, u64)> {
    t.map_values(|s: ElfSym| sym_view(s))
}

/// What goblin's `Elf::parse` reads of an ELF file: `None` when it refuses the
/// file, else the regular symbol table (`.symtab` with `.strtab`) and the
/// dynamic one (`.dynsym` with `.dynstr`).
pub uninterp spec fn elf_symbols(bytes: Seq<u8>) -> Option<
    (Seq<(Option<Seq<char>>, u64)>, Seq<(Option<Seq<char>>, u64)>),
>;

/// Relies on goblin's `Elf::parse`, `Symtab::iter` and `Strtab::get_at`: the
/// two symbol tables of the file, each symbol with the name at its `st_name`
/// offset and its `st_value`, in table order. Only on 64-bit hosts: on a
/// 32-bit host `Elf::parse` can overflow `usize` while sizing a GNU hash table.
#[verifier::external_body]
fn symbol_tables(bytes: &[u8]) -> (r: Option<(Vec<ElfSym>, Vec<ElfSym>)>)
    requires
        usize::BITS == 64,
    ensures
        r is Some <==> elf_symbols(bytes@) is Some,
        r is Some ==> table_view((r->0).0@) == (elf_symbols(bytes@)->0).0 && table_view(
            (r->0).1@,
        ) == (elf_symbols(bytes@)->0).1,
{
    let elf = goblin::elf::Elf::parse(bytes).ok()?;
    let table = |syms: &goblin::elf::Symtab, strtab: &goblin::strtab::Strtab| -> Vec<ElfSym> {
        syms.iter().map(|s| ElfSym { name: strtab.get_at(s.st_name).map(|n| n.to_string()), value: s.st_value }).collect()
    };
    Some((table(&elf.syms, &elf.strtab), table(&elf.dynsyms, &elf.dynstrtab)))
}

/// The value of the first symbol of a table named `name`.
pub open spec fn find_in(t: Seq<(Option<Seq<char>>, u64)>, name: Seq<char>) -> Option<u64>
    decreases t.len(),
{
    if t.len() == 0 {
        None
    } else if t[0].0 == Some(name) {
        Some(t[0].1)
    } else {
        find_in(t.subrange(1, t.len() as int), name)
    }
}

/// The value of a symbol named `name`: the first in the regular table, else
/// the first in the dynamic table.
pub open spec fn find_sym(
    syms: Seq<(Option<Seq<char>>, u64)>,
    dynsyms: Seq<(Option<Seq<char>>, u64)>,
    name: Seq<char>,
) -> Option<u64> {
    match find_in(syms, name) {
        Some(v) => Some(v),
        None => find_in(dynsyms, name),
    }
}

/// The value of the first of `names` that has a symbol.
pub open spec fn find_any(
    syms: Seq<(Option<Seq<char>>, u64)>,
    dynsyms: Seq<(Option<Seq<char>>, u64)>,
    names: Seq<Seq<char>>,
) -> Option<u64>
    decreases names.len(),
{
    if names.len() == 0 {
        None
    } else {
        match find_sym(syms, dynsyms, names[0]) {
            Some(v) => Some(v),
            None => find_any(syms, dynsyms, names.subrange(1, names.len() as int)),
        }
    }
}

/// The value of the first symbol of `t` named `name`.
fn find_in_table(t: &Vec<ElfSym>, name: &str) -> (r: Option<u64>)
    ensures
        r == find_in(table_view(t@), name@),
{
    let ghost tv = table_view(t@);
    let mut i: usize = 0;
    assert(tv.subrange(0, tv.len() as int) =~= tv);
    while i < t.len()
        invariant
            0 <= i <= t@.len(),
            tv == table_view(t@),
            find_in(tv, name@) == find_in(tv.subrange(i as int, tv.len() as int), name@),
        decreases t@.len() - i,
    {
        let ghost rest = tv.subrange(i as int, tv.len() as int);
        assert(rest[0] == sym_view(t@[i as int]));
        assert(rest.subrange(1, rest.len() as int) =~= tv.subrange(i + 1, tv.len() as int));
        match &t[i].name {
            Some(n) => {
                if same_label(n.as_str(), name) {
                    return Some(t[i].value);
                }
            },
            None => {},
        }
        i = i + 1;
    }
    None
}

/// The loader symbol among the symbol tables of a library loaded at
/// `lib.base_addr`: the first of `names` that either table holds (the regular
/// table first), at `base_addr + st_value` (modulo 2^64).
pub fn find_sym_in_tables(lib: &ProcLib, syms: &Vec<ElfSym>, dynsyms: &Vec<ElfSym>, names: &[&str]) -> (r:
    Option<ProcSym>)
    ensures
        match find_any(
            table_view(syms@),
            table_view(dynsyms@),
            names@.map_values(|n: &str| n@),
        ) {
            None => r is None,
            Some(v) => r == Some(
                ProcSym { addr: ((lib.base_addr as int + v as int) % 0x1_0000_0000_0000_0000) as VirtAddr },
            ),
        },
{
    let ghost all = names@.map_values(|n: &str| n@);
    let ghost sv = table_view(syms@);
    let ghost dv = table_view(dynsyms@);
    let mut i: usize = 0;
    assert(all.subrange(0, all.len() as int) =~= all);
    while i < names.len()
        invariant
            0 <= i <= names@.len(),
            all == names@.map_values(|n: &str| n@),
            sv == table_view(syms@),
            dv == table_view(dynsyms@),
            find_any(sv, dv, all) == find_any(sv, dv, all.subrange(i as int, all.len() as int)),
        decreases names@.len() - i,
    {
        let ghost rest = all.subrange(i as int, all.len() as int);
        assert(rest[0] == names@[i as int]@);
        assert(rest.subrange(1, rest.len() as int) =~= all.subrange(i + 1, all.len() as int));
        let found = match find_in_table(syms, names[i]) {
            Some(v) => Some(v),
            None => find_in_table(dynsyms, names[i]),
        };
        match found {
            Some(v) => {
                return Some(ProcSym::new(lib.base_addr.wrapping_add(v)));
            },
            None => {},
        }
        i = i + 1;
    }
    None
}

/// Finds the first of `names` in the symbol tables of the ELF file `bytes`,
/// the file of `lib`; `None` when goblin refuses the file or no name is there.
/// The tables are read on 64-bit hosts only: `None` on a 32-bit host.
pub fn find_sym_addr(lib: &ProcLib, bytes: &[u8], names: &[&str]) -> (r: Option<ProcSym>)
    ensures
        usize::BITS != 64 ==> r is None,
        usize::BITS == 64 ==> match elf_symbols(bytes@) {
            None => r is None,
            Some((s, d)) => match find_any(s, d, names@.map_values(|n: &str| n@)) {
                None => r is None,
                Some(v) => r == Some(
                    ProcSym { addr: ((lib.base_addr as int + v as int) % 0x1_0000_0000_0000_0000) as VirtAddr },
                ),
            },
        },
{
    if usize::BITS != 64 {
        return None;
    }
    match symbol_tables(bytes) {
        None => None,
        Some((syms, dynsyms)) => find_sym_in_tables(lib, &syms, &dynsyms, names),
    }
}

} // verus!
