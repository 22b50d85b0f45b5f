//! The two payloads: stage one, written over the target's code at its
//! instruction pointer, and stage two, the file stage one maps and runs.

use crate::proc::{ProcClass, ProcSym, VirtAddr};
use crate::tiny_asm::pad_len;
use vstd::prelude::*;
use vstd::string::StringSliceAdditionalSpecFns;

verus! {

/// The path `/proc/self/mem`, NUL-terminated.
pub open spec fn mem_path() -> Seq<u8> {
    seq![
        0x2fu8, 0x70u8, 0x72u8, 0x6fu8, 0x63u8, 0x2fu8, 0x73u8, 0x65u8, 0x6cu8, 0x66u8, 0x2fu8,
        0x6du8, 0x65u8, 0x6du8, 0x00u8,
    ]
}

/// The path `/proc/self/mem`, NUL-terminated.
pub fn mem_path_bytes() -> (r: [u8; 15])
    ensures
        r@ == mem_path(),
{
    let r: [u8; 15] = [
        0x2f, 0x70, 0x72, 0x6f, 0x63, 0x2f, 0x73, 0x65, 0x6c, 0x66, 0x2f, 0x6d, 0x65, 0x6d, 0x00,
    ];
    assert(r@ =~= mem_path());
    r
}

/// The architecture family the library runs on.
#[derive(Clone, Copy, PartialEq, Eq, Debug)]
pub enum Arch {
    X86,
    X86_64,
    Arm,
    Aarch64,
}

/// The instruction set of a payload.
#[derive(Clone, Copy, PartialEq, Eq, Debug)]
pub enum Isa {
    X86,
    X86_64,
    Arm,
    Aarch64,
}

/// The instruction set of the payloads for a process of class `class` on a
/// host of architecture `host`: the 32-bit or 64-bit member of the host's family;
/// none for a 64-bit process on a 32-bit host.
pub open spec fn spec_payload_isa(class: ProcClass, host: Arch) -> Option<Isa> {
    match (class, host) {
        (ProcClass::ThirtyTwo, Arch::X86) | (ProcClass::ThirtyTwo, Arch::X86_64) => Some(Isa::X86),
        (ProcClass::SixtyFour, Arch::X86_64) => Some(Isa::X86_64),
        (ProcClass::ThirtyTwo, Arch::Arm) | (ProcClass::ThirtyTwo, Arch::Aarch64) => Some(Isa::Arm),
        (ProcClass::SixtyFour, Arch::Aarch64) => Some(Isa::Aarch64),
        _ => None,
    }
}

/// The instruction set of the payloads for a process of class `class` on `host`.
pub fn payload_isa(class: ProcClass, host: Arch) -> (r: Option<Isa>)
    ensures
        r == spec_payload_isa(class, host),
{
    match (class, host) {
        (ProcClass::ThirtyTwo, Arch::X86) | (ProcClass::ThirtyTwo, Arch::X86_64) => Some(Isa::X86),
        (ProcClass::SixtyFour, Arch::X86_64) => Some(Isa::X86_64),
        (ProcClass::ThirtyTwo, Arch::Arm) | (ProcClass::ThirtyTwo, Arch::Aarch64) => Some(Isa::Arm),
        (ProcClass::SixtyFour, Arch::Aarch64) => Some(Isa::Aarch64),
        _ => None,
    }
}

/// Where the stage-two path starts in stage one: right after the code.
pub open spec fn first_path_at(isa: Isa) -> int {
    match isa {
        Isa::X86 => crate::payload_x86::FIRST_CODE_LEN as int,
        Isa::X86_64 => crate::payload_x86_64::FIRST_CODE_LEN as int,
        Isa::Arm => crate::payload_arm::FIRST_CODE_LEN as int,
        Isa::Aarch64 => crate::payload_arm64::FIRST_CODE_LEN as int,
    }
}

/// Builds stage one for `isa`: it opens and maps the stage-two file at
/// `second_payload_path`, whose NUL-terminated path follows the code.
pub fn gen_first(isa: Isa, second_payload_path: &str) -> (r: Vec<u8>)
    requires
        second_payload_path.spec_bytes().len() + 256 <= usize::MAX,
    ensures
        isa == Isa::X86 ==> r@ == crate::payload_x86::first_image(second_payload_path.spec_bytes()),
        isa == Isa::X86_64 ==> r@ == crate::payload_x86_64::first_image(second_payload_path.spec_bytes()),
        isa == Isa::Arm ==> r@ == crate::payload_arm::first_image(second_payload_path.spec_bytes()),
        isa == Isa::Aarch64 ==> r@ == crate::payload_arm64::first_image(second_payload_path.spec_bytes()),
        ({
            let s = second_payload_path.spec_bytes().len() as int;
            let k = first_path_at(isa);
            &&& r@.len() == k + s + 1 + (if isa == Isa::Arm || isa == Isa::Aarch64 {
                pad_len(k + s + 1, 4) as int
            } else {
                0
            })
            &&& r@.subrange(k, k + s) == second_payload_path.spec_bytes()
            &&& r@[k + s] == 0
        }),
{
    let ghost s = second_payload_path.spec_bytes().len() as int;
    match isa {
        Isa::X86 => {
            let r = crate::payload_x86::gen_first(second_payload_path);
            assert(r@.subrange(114, 114 + s) == r@.subrange(114, r@.len() as int).subrange(0, s));
            assert(r@[114 + s] == r@.subrange(114, r@.len() as int)[s]);
            r
        },
        Isa::X86_64 => {
            let r = crate::payload_x86_64::gen_first(second_payload_path);
            assert(r@.subrange(137, 137 + s) == r@.subrange(137, r@.len() as int).subrange(0, s));
            assert(r@[137 + s] == r@.subrange(137, r@.len() as int)[s]);
            r
        },
        Isa::Arm => crate::payload_arm::gen_first(second_payload_path),
        Isa::Aarch64 => crate::payload_arm64::gen_first(second_payload_path),
    }
}

/// Whether stage two for `isa` can hold `l` original bytes, a library path of
/// `p` bytes, the instruction pointer `ip` and the loader address `addr`
/// within the reach of its references and the width of its fields.
pub open spec fn second_fits(isa: Isa, l: int, p: int, ip: VirtAddr, addr: VirtAddr) -> bool {
    match isa {
        Isa::X86 | Isa::X86_64 => l + p <= 0x7000_0000,
        Isa::Arm => l <= 984 && p <= 2900 && ip < 0x1_0000_0000 && addr < 0x1_0000_0000,
        Isa::Aarch64 => l < 0x10000 && p <= 0x80000,
    }
}

/// Whether stage two for `isa` can hold what `second_fits` describes.
pub fn fits_second(isa: Isa, l: usize, p: usize, ip: VirtAddr, addr: VirtAddr) -> (r: bool)
    ensures
        r == second_fits(isa, l as int, p as int, ip, addr),
{
    match isa {
        Isa::X86 | Isa::X86_64 => l <= 0x7000_0000 && p <= 0x7000_0000 - l,
        Isa::Arm => l <= 984 && p <= 2900 && ip < 0x1_0000_0000 && addr < 0x1_0000_0000,
        Isa::Aarch64 => l < 0x10000 && p <= 0x80000,
    }
}

/// Where stage two holds `/proc/self/mem`, right after the code.
pub open spec fn second_mem_at(isa: Isa) -> int {
    match isa {
        Isa::X86 => 131,
        Isa::X86_64 => 137,
        Isa::Arm => 88,
        Isa::Aarch64 => 152,
    }
}

/// Where stage two holds the original bytes.
pub open spec fn second_code_at(isa: Isa) -> int {
    match isa {
        Isa::X86 => 146,
        Isa::X86_64 => 152,
        Isa::Arm => 104,
        Isa::Aarch64 => 168,
    }
}

/// Where stage two holds the library path, after `l` original bytes.
pub open spec fn second_lib_at(isa: Isa, l: int) -> int {
    match isa {
        Isa::X86 => 146 + l,
        Isa::X86_64 => 168 + l,
        Isa::Arm => crate::payload_arm::ip_at(l) + 4,
        Isa::Aarch64 => crate::payload_arm64::ip_at(l) + 8,
    }
}

/// Builds stage two for `isa`: it writes `original_code` back at
/// `original_ip`, calls the loader at `dlopen.addr` with `(lib_path, 1)` and
/// resumes at `original_ip`. It holds `/proc/self/mem`, the original bytes and
/// the NUL-terminated library path.
pub fn gen_second(
    isa: Isa,
    original_code: &[u8],
    original_ip: VirtAddr,
    lib_path: &str,
    dlopen: &ProcSym,
) -> (r: Vec<u8>)
    requires
        second_fits(
            isa,
            original_code@.len() as int,
            lib_path.spec_bytes().len() as int,
            original_ip,
            dlopen.addr,
        ),
    ensures
        isa == Isa::X86 ==> r@ == crate::payload_x86::second_image(
            original_code@,
            original_ip,
            lib_path.spec_bytes(),
            dlopen.addr,
        ),
        isa == Isa::X86_64 ==> r@ == crate::payload_x86_64::second_image(
            original_code@,
            original_ip,
            lib_path.spec_bytes(),
            dlopen.addr,
        ),
        isa == Isa::Arm ==> r@ == crate::payload_arm::second_image(
            original_code@,
            original_ip,
            lib_path.spec_bytes(),
            dlopen.addr,
        ),
        isa == Isa::Aarch64 ==> r@ == crate::payload_arm64::second_image(
            original_code@,
            original_ip,
            lib_path.spec_bytes(),
            dlopen.addr,
        ),
        ({
            let l = original_code@.len() as int;
            let p = lib_path.spec_bytes().len() as int;
            let m = second_mem_at(isa);
            let c = second_code_at(isa);
            let b = second_lib_at(isa, l);
            &&& r@.subrange(m, m + 15) == mem_path()
            &&& r@.subrange(c, c + l) == original_code@
            &&& r@.subrange(b, b + p) == lib_path.spec_bytes()
            &&& r@[b + p] == 0
        }),
{
    match isa {
        Isa::X86 => crate::payload_x86::gen_second(original_code, original_ip, lib_path, dlopen),
        Isa::X86_64 => crate::payload_x86_64::gen_second(original_code, original_ip, lib_path, dlopen),
        Isa::Arm => crate::payload_arm::gen_second(original_code, original_ip, lib_path, dlopen),
        Isa::Aarch64 => crate::payload_arm64::gen_second(original_code, original_ip, lib_path, dlopen),
    }
}

} // verus!
