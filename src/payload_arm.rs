//! The payloads for ARM (32-bit) targets.

use crate::arm::{adr_effect, ldr_word, multiple_word, word, AddrMode, AddrMode2, Op, Reg, TinyAsm};
use crate::payloads::{mem_path, mem_path_bytes};
use crate::proc::{ProcSym, VirtAddr};
use crate::tiny_asm::{assemble, le32, le_value, lemma_same_range, pad_len, zeros, Encodable};
use vstd::prelude::*;
use vstd::string::StringSliceAdditionalSpecFns;

verus! {

/// The length of the stage-one code, which the stage-two path follows.
pub const FIRST_CODE_LEN: usize = 80;

/// Stage one: saves `r0`-`r12` and the link register, opens the stage-two file at
/// `second_payload_path`, maps 512 bytes of it read+exec+private, closes it
/// and jumps to the mapping. The path follows the code, NUL-terminated and
/// padded to a multiple of 4 bytes.
#[verifier::rlimit(100)]
pub fn gen_first(second_payload_path: &str) -> (r: Vec<u8>)
    requires
        second_payload_path.spec_bytes().len() + FIRST_CODE_LEN + 4 <= usize::MAX,
    ensures
        r@ == first_image(second_payload_path.spec_bytes()),
        ({
            let s = second_payload_path.spec_bytes().len() as int;
            &&& r@.len() == FIRST_CODE_LEN + s + 1 + pad_len(FIRST_CODE_LEN + s + 1, 4)
            &&& r@.subrange(FIRST_CODE_LEN as int, FIRST_CODE_LEN + s) == second_payload_path.spec_bytes()
            &&& r@[FIRST_CODE_LEN + s] == 0
            // the argument of `open` is the path
            &&& adr_effect(le_value(r@.subrange(8, 12)) as u32, 8) == Some((0u32, FIRST_CODE_LEN as int))
            // the system calls: open (5), mmap (192), close (6)
            &&& r@.subrange(4, 8) == le32(word(&Op::Movw(Reg::R7, 5), 0, 0) as int)
            &&& r@.subrange(28, 32) == le32(word(&Op::Movw(Reg::R7, 192), 0, 0) as int)
            &&& r@.subrange(64, 68) == le32(word(&Op::Movw(Reg::R7, 6), 0, 0) as int)
        }),
{
    let ghost s = second_payload_path.spec_bytes().len() as int;
    proof {
        reveal_strlit("second_payload_path");
    }
    let a = TinyAsm::new()
        // Push every general purpose register, plus the link register (r14).
        .push([Reg::R0, Reg::R1, Reg::R2, Reg::R3, Reg::R4, Reg::R5, Reg::R6, Reg::R7, Reg::R8, Reg::R9, Reg::R10, Reg::R11, Reg::R12, Reg::LR])
        // Open second payload file.
        .movw(Reg::R7, 5)
        .adrl(Reg::R0, "second_payload_path")
        .movw(Reg::R1, 0)
        .movw(Reg::R2, 0)
        .svc(0)
        // Second payload file descriptor.
        .movr(Reg::R11, Reg::R0)
        // Map the Second payload file to memory.
        .movw(Reg::R7, 192)
        .movw(Reg::R0, 0)
        .movw(Reg::R1, 512)
        // PROT_READ | PROT_EXEC
        .movw(Reg::R2, 5)
        .movw(Reg::R3, 2)
        .movr(Reg::R4, Reg::R11)
        .movw(Reg::R5, 0)
        .svc(0)
        // Second payload code virtual address.
        .movr(Reg::R12, Reg::R0)
        // Close Second payload file.
        .movw(Reg::R7, 6)
        .movr(Reg::R0, Reg::R11)
        .svc(0)
        // Execute second payload code.
        .movr(Reg::PC, Reg::R12)
        // Data
        .label("second_payload_path")
        .asciiz(second_payload_path)
        .align::<4>();
    let ghost code = a.code();
    proof {
        assert(a.relocs() =~= seq![(8usize, Op::Adrl(Reg::R0, "second_payload_path"))]);
        assert(a.labels() =~= Map::<Seq<char>, nat>::empty().insert("second_payload_path"@, 80nat));
    }
    proof {
        assert(a.relocs()[0] == (8usize, Op::Adrl(Reg::R0, "second_payload_path")));
        assert(a.labels()["second_payload_path"@] == FIRST_CODE_LEN);
    }
    let r = a.build();
    proof {
        assert(r@.subrange(8, 12) == Op::Adrl(Reg::R0, "second_payload_path").spec_enc(8, FIRST_CODE_LEN as int));
        crate::arm::lemma_adr_reaches_label(Reg::R0, "second_payload_path", 0, 8, FIRST_CODE_LEN as int);
        assert(a.slots_end() == 12);
        lemma_same_range(r@, code, FIRST_CODE_LEN as int, FIRST_CODE_LEN + s);
        assert(code.subrange(FIRST_CODE_LEN as int, FIRST_CODE_LEN + s) =~= second_payload_path.spec_bytes());
        assert(r@[FIRST_CODE_LEN + s] == code[FIRST_CODE_LEN + s]);
        assert(forall|i: int| 4 <= i < 8 ==> !a.in_slot(i));
        assert(r@.subrange(4, 8) =~= code.subrange(4, 8));
        assert(code.subrange(4, 8) =~= le32(word(&Op::Movw(Reg::R7, 5), 0, 0) as int));
        assert(forall|i: int| 28 <= i < 32 ==> !a.in_slot(i));
        assert(r@.subrange(28, 32) =~= code.subrange(28, 32));
        assert(code.subrange(28, 32) =~= le32(word(&Op::Movw(Reg::R7, 192), 0, 0) as int));
        assert(forall|i: int| 64 <= i < 68 ==> !a.in_slot(i));
        assert(r@.subrange(64, 68) =~= code.subrange(64, 68));
        assert(code.subrange(64, 68) =~= le32(word(&Op::Movw(Reg::R7, 6), 0, 0) as int));
    }
    r
}

/// The length of the stage-two code, which the data follows.
pub const SECOND_CODE_LEN: usize = 88;

/// Where stage two holds the instruction pointer, after the original bytes.
pub open spec fn ip_at(l: int) -> int {
    104 + l + pad_len(104 + l, 4)
}

/// Where stage two holds the loader address, after the library path.
pub open spec fn addr_at(l: int, p: int) -> int {
    ip_at(l) + 5 + p + pad_len(ip_at(l) + 5 + p, 4)
}

/// The stage-one code, instruction by instruction; each label reference is a
/// four-byte slot of zeros that `build` fills.
pub open spec fn first_code() -> Seq<u8> {
    Seq::<u8>::empty()
        // Push every general purpose register, plus the link register (r14).
        + le32(multiple_word(0xe8000000u32, AddrMode::DecrBefore, Reg::SP, true, [Reg::R0, Reg::R1, Reg::R2, Reg::R3, Reg::R4, Reg::R5, Reg::R6, Reg::R7, Reg::R8, Reg::R9, Reg::R10, Reg::R11, Reg::R12, Reg::LR]@) as int)
        // Open second payload file.
        + le32(word(&Op::Movw(Reg::R7, (5) as u32), 0, 0) as int)
        + zeros(4)
        + le32(word(&Op::Movw(Reg::R1, (0) as u32), 0, 0) as int)
        + le32(word(&Op::Movw(Reg::R2, (0) as u32), 0, 0) as int)
        + le32(word(&Op::Svc(0), 0, 0) as int)
        // Second payload file descriptor.
        + le32(word(&Op::Movr(Reg::R11, Reg::R0), 0, 0) as int)
        // Map the Second payload file to memory.
        + le32(word(&Op::Movw(Reg::R7, (192) as u32), 0, 0) as int)
        + le32(word(&Op::Movw(Reg::R0, (0) as u32), 0, 0) as int)
        + le32(word(&Op::Movw(Reg::R1, (512) as u32), 0, 0) as int)
        // PROT_READ | PROT_EXEC
        + le32(word(&Op::Movw(Reg::R2, (5) as u32), 0, 0) as int)
        + le32(word(&Op::Movw(Reg::R3, (2) as u32), 0, 0) as int)
        + le32(word(&Op::Movr(Reg::R4, Reg::R11), 0, 0) as int)
        + le32(word(&Op::Movw(Reg::R5, (0) as u32), 0, 0) as int)
        + le32(word(&Op::Svc(0), 0, 0) as int)
        // Second payload code virtual address.
        + le32(word(&Op::Movr(Reg::R12, Reg::R0), 0, 0) as int)
        // Close Second payload file.
        + le32(word(&Op::Movw(Reg::R7, (6) as u32), 0, 0) as int)
        + le32(word(&Op::Movr(Reg::R0, Reg::R11), 0, 0) as int)
        + le32(word(&Op::Svc(0), 0, 0) as int)
        // Execute second payload code.
        + le32(word(&Op::Movr(Reg::PC, Reg::R12), 0, 0) as int)
}

/// Stage one for the stage-two file at `path`: the code followed by the
/// NUL-terminated path, padded to 4 bytes, the reference to the path resolved.
pub open spec fn first_image(path: Seq<u8>) -> Seq<u8> {
    assemble(
        first_code() + path + seq![0u8] + zeros(pad_len(80 + path.len() as int + 1, 4)),
        seq![(8usize, Op::Adrl(Reg::R0, "second_payload_path"))],
        Map::<Seq<char>, nat>::empty().insert("second_payload_path"@, 80nat),
    )
}

/// The stage-two code for `l` original bytes, instruction by instruction; each
/// label reference is a four-byte slot of zeros that `build` fills.
#[verifier::opaque]
pub open spec fn second_code_listing(l: int) -> Seq<u8> {
    Seq::<u8>::empty()
        // Open memory file (/proc/self/mem).
        + le32(word(&Op::Movw(Reg::R7, (5) as u32), 0, 0) as int)
        + zeros(4)
        + le32(word(&Op::Movw(Reg::R1, (2) as u32), 0, 0) as int)
        + le32(word(&Op::Movw(Reg::R2, (0) as u32), 0, 0) as int)
        + le32(word(&Op::Svc(0), 0, 0) as int)
        // Memory file descriptor.
        + le32(word(&Op::Movr(Reg::R12, Reg::R0), 0, 0) as int)
        // Restore the original code.
        + le32(word(&Op::Movw(Reg::R7, (181) as u32), 0, 0) as int)
        + le32(word(&Op::Movr(Reg::R0, Reg::R12), 0, 0) as int)
        + zeros(4)
        + le32(word(&Op::Movw(Reg::R2, (l as u16) as u32), 0, 0) as int)
        + zeros(4)
        + zeros(4)
        + le32(word(&Op::Svc(0), 0, 0) as int)
        // Close memory file.
        + le32(word(&Op::Movw(Reg::R7, (6) as u32), 0, 0) as int)
        + le32(word(&Op::Movr(Reg::R0, Reg::R12), 0, 0) as int)
        + le32(word(&Op::Svc(0), 0, 0) as int)
        // Call dlopen.
        + zeros(4)
        + le32(word(&Op::Movw(Reg::R1, (1) as u32), 0, 0) as int)
        + le32(word(&Op::Movr(Reg::LR, Reg::PC), 0, 0) as int)
        + zeros(4)
        // Pop every previously pushed register
        + le32(multiple_word(0xe8100000u32, AddrMode::IncrAfter, Reg::SP, true, [Reg::R0, Reg::R1, Reg::R2, Reg::R3, Reg::R4, Reg::R5, Reg::R6, Reg::R7, Reg::R8, Reg::R9, Reg::R10, Reg::R11, Reg::R12, Reg::LR]@) as int)
        // Restore the original execution flow
        + zeros(4)
}

/// The stage-two data after the code, each block 4-aligned.
#[verifier::opaque]
pub open spec fn second_data_listing(original_code: Seq<u8>, original_ip: VirtAddr, lib_path: Seq<u8>, dlopen_addr: VirtAddr) -> Seq<u8> {
    let l = original_code.len() as int;
    let p = lib_path.len() as int;
    mem_path() + zeros(pad_len(103, 4)) + original_code + zeros(pad_len(104 + l, 4)) + le32((original_ip as u32) as int) + zeros(pad_len(ip_at(l) + 4, 4)) + lib_path + seq![0u8] + zeros(pad_len(ip_at(l) + 5 + p, 4)) + le32((dlopen_addr as u32) as int) + zeros(pad_len(addr_at(l, p) + 4, 4))
}

/// Stage two for `original_code` taken from `original_ip`, the library at
/// `lib_path` and the loader at `dlopen_addr`: the code followed by its data,
/// every reference resolved.
pub open spec fn second_image(original_code: Seq<u8>, original_ip: VirtAddr, lib_path: Seq<u8>, dlopen_addr: VirtAddr) -> Seq<u8> {
    let l = original_code.len() as int;
    let p = lib_path.len() as int;
    assemble(
        second_code_listing(l) + second_data_listing(original_code, original_ip, lib_path, dlopen_addr),
        seq![
            (4usize, Op::Adrl(Reg::R0, "mem_path")),
            (32usize, Op::Adrl(Reg::R1, "original_code")),
            (40usize, Op::Ldrl(Reg::R3, "original_ip")),
            (44usize, Op::Ldrl(Reg::R4, "original_ip")),
            (64usize, Op::Adrl(Reg::R0, "lib_path")),
            (76usize, Op::Ldrl(Reg::PC, "dlopen_addr")),
            (84usize, Op::Ldrl(Reg::PC, "original_ip")),
        ],
        Map::<Seq<char>, nat>::empty().insert("mem_path"@, 88nat).insert(
            "original_code"@,
            104nat,
        ).insert("original_ip"@, ip_at(l) as nat).insert("lib_path"@, (ip_at(l) + 4) as nat).insert(
            "dlopen_addr"@,
            addr_at(l, p) as nat,
        ),
    )
}

/// The stage-two code, its label references pending.
fn second_code(original_code: &[u8]) -> (a: TinyAsm)
    requires
        original_code@.len() < 0x10000,
    ensures
        a.code() == second_code_listing(original_code@.len() as int),
        a.wf(),
        a.code().len() == SECOND_CODE_LEN,
        a.labels() == Map::<Seq<char>, nat>::empty(),
        a.relocs() == seq![
            (4usize, Op::Adrl(Reg::R0, "mem_path")),
            (32usize, Op::Adrl(Reg::R1, "original_code")),
            (40usize, Op::Ldrl(Reg::R3, "original_ip")),
            (44usize, Op::Ldrl(Reg::R4, "original_ip")),
            (64usize, Op::Adrl(Reg::R0, "lib_path")),
            (76usize, Op::Ldrl(Reg::PC, "dlopen_addr")),
            (84usize, Op::Ldrl(Reg::PC, "original_ip")),
        ],
        // the system calls: open (5), pwrite (181), close (6)
        a.code().subrange(0, 4) == le32(word(&Op::Movw(Reg::R7, 5), 0, 0) as int),
        a.code().subrange(24, 28) == le32(word(&Op::Movw(Reg::R7, 181), 0, 0) as int),
        a.code().subrange(52, 56) == le32(word(&Op::Movw(Reg::R7, 6), 0, 0) as int),
{
    proof {
        reveal(second_code_listing);
    }
    let a = TinyAsm::new()
        // Open memory file (/proc/self/mem).
        .movw(Reg::R7, 5)
        .adrl(Reg::R0, "mem_path")
        .movw(Reg::R1, 2)
        .movw(Reg::R2, 0)
        .svc(0)
        // Memory file descriptor.
        .movr(Reg::R12, Reg::R0)
        // Restore the original code.
        .movw(Reg::R7, 181)
        .movr(Reg::R0, Reg::R12)
        .adrl(Reg::R1, "original_code")
        .movw(Reg::R2, original_code.len() as u16)
        .ldrl(Reg::R3, "original_ip")
        .ldrl(Reg::R4, "original_ip")
        .svc(0)
        // Close memory file.
        .movw(Reg::R7, 6)
        .movr(Reg::R0, Reg::R12)
        .svc(0)
        // Call dlopen.
        .adrl(Reg::R0, "lib_path")
        .movw(Reg::R1, 1)
        .movr(Reg::LR, Reg::PC)
        .ldrl(Reg::PC, "dlopen_addr")
        // Pop every previously pushed register
        .pop([Reg::R0, Reg::R1, Reg::R2, Reg::R3, Reg::R4, Reg::R5, Reg::R6, Reg::R7, Reg::R8, Reg::R9, Reg::R10, Reg::R11, Reg::R12, Reg::LR])
        // Restore the original execution flow
        .ldrl(Reg::PC, "original_ip");
    assert(a.relocs() =~= seq![
            (4usize, Op::Adrl(Reg::R0, "mem_path")),
            (32usize, Op::Adrl(Reg::R1, "original_code")),
            (40usize, Op::Ldrl(Reg::R3, "original_ip")),
            (44usize, Op::Ldrl(Reg::R4, "original_ip")),
            (64usize, Op::Adrl(Reg::R0, "lib_path")),
            (76usize, Op::Ldrl(Reg::PC, "dlopen_addr")),
            (84usize, Op::Ldrl(Reg::PC, "original_ip")),
        ]);
    assert(a.code().subrange(0, 4) =~= le32(word(&Op::Movw(Reg::R7, 5), 0, 0) as int));
    assert(a.code().subrange(24, 28) =~= le32(word(&Op::Movw(Reg::R7, 181), 0, 0) as int));
    assert(a.code().subrange(52, 56) =~= le32(word(&Op::Movw(Reg::R7, 6), 0, 0) as int));
    a
}

/// The stage-two data, each datum under its label, each block 4-aligned.
fn second_data(a: TinyAsm, original_code: &[u8], original_ip: VirtAddr, lib_path: &str, dlopen: &ProcSym) -> (r: TinyAsm)
    requires
        a.wf(),
        a.labels() == Map::<Seq<char>, nat>::empty(),
        a.code().len() == SECOND_CODE_LEN,
        original_code@.len() + lib_path.spec_bytes().len() <= 0x100000,
    ensures
        r.code() == a.code() + second_data_listing(original_code@, original_ip, lib_path.spec_bytes(), dlopen.addr),
        r.wf(),
        r.relocs() == a.relocs(),
        r.code().subrange(0, SECOND_CODE_LEN as int) == a.code(),
        ({
            let l = original_code@.len() as int;
            let p = lib_path.spec_bytes().len() as int;
            &&& r.code().len() == addr_at(l, p) + 4
            &&& r.code().subrange(88, 103) == mem_path()
            &&& r.code().subrange(104, 104 + l) == original_code@
            &&& r.code().subrange(ip_at(l), ip_at(l) + 4) == le32((original_ip as u32) as int)
            &&& r.code().subrange(ip_at(l) + 4, ip_at(l) + 4 + p) == lib_path.spec_bytes()
            &&& r.code()[ip_at(l) + 4 + p] == 0
            &&& r.code().subrange(addr_at(l, p), addr_at(l, p) + 4) == le32((dlopen.addr as u32) as int)
            &&& r.labels() == Map::<Seq<char>, nat>::empty().insert("mem_path"@, 88nat).insert(
                "original_code"@,
                104nat,
            ).insert("original_ip"@, ip_at(l) as nat).insert("lib_path"@, (ip_at(l) + 4) as nat).insert(
                "dlopen_addr"@,
                addr_at(l, p) as nat,
            )
        }),
{
    proof {
        reveal(second_data_listing);
    }
    proof {
        reveal_strlit("mem_path");
        reveal_strlit("original_code");
        reveal_strlit("original_ip");
        reveal_strlit("lib_path");
        reveal_strlit("dlopen_addr");
        assert("mem_path"@.len() != "original_code"@.len());
        assert("mem_path"@ != "original_code"@);
        assert("mem_path"@.len() != "original_ip"@.len());
        assert("mem_path"@ != "original_ip"@);
        assert("mem_path"@[0] != "lib_path"@[0]);
        assert("mem_path"@ != "lib_path"@);
        assert("mem_path"@.len() != "dlopen_addr"@.len());
        assert("mem_path"@ != "dlopen_addr"@);
        assert("original_code"@.len() != "original_ip"@.len());
        assert("original_code"@ != "original_ip"@);
        assert("original_code"@.len() != "lib_path"@.len());
        assert("original_code"@ != "lib_path"@);
        assert("original_code"@.len() != "dlopen_addr"@.len());
        assert("original_code"@ != "dlopen_addr"@);
        assert("original_ip"@.len() != "lib_path"@.len());
        assert("original_ip"@ != "lib_path"@);
        assert("original_ip"@[0] != "dlopen_addr"@[0]);
        assert("original_ip"@ != "dlopen_addr"@);
        assert("lib_path"@.len() != "dlopen_addr"@.len());
        assert("lib_path"@ != "dlopen_addr"@);
    }
    let r = a
        .label("mem_path")
        .bytes(&mem_path_bytes())
        .align::<4>()
        .label("original_code")
        .bytes(original_code)
        .align::<4>()
        .label("original_ip")
        .dword(original_ip as u32)
        .align::<4>()
        .label("lib_path")
        .asciiz(lib_path)
        .align::<4>()
        .label("dlopen_addr")
        .dword(dlopen.addr as u32)
        .align::<4>();
    r
}

/// Stage two: opens `/proc/self/mem` read+write, writes `original_code` back
/// at `original_ip` with `pwrite`, closes it, calls the loader at `dlopen.addr` with `(lib_path, 1)` through the link
/// register, restores the registers stage one saved and loads `original_ip` into the PC.
/// The data after the code, each block 4-aligned: `/proc/self/mem`, the
/// original bytes, the instruction pointer, the library path and the loader address.
/// The ADR to the library path reaches 1020 bytes, the literal loads 4095:
/// the original bytes and the library path are bounded accordingly; the
/// instruction pointer and the loader address are 32-bit.
#[verifier::rlimit(100)]
pub fn gen_second(original_code: &[u8], original_ip: VirtAddr, lib_path: &str, dlopen: &ProcSym) -> (r: Vec<u8>)
    requires
        original_code@.len() <= 984,
        lib_path.spec_bytes().len() <= 2900,
        original_ip < 0x1_0000_0000,
        dlopen.addr < 0x1_0000_0000,
    ensures
        r@ == second_image(original_code@, original_ip, lib_path.spec_bytes(), dlopen.addr),
        ({
            let l = original_code@.len() as int;
            let p = lib_path.spec_bytes().len() as int;
            &&& r@.len() == addr_at(l, p) + 4
            &&& r@.subrange(88, 103) == mem_path()
            &&& r@.subrange(104, 104 + l) == original_code@
            &&& r@.subrange(ip_at(l), ip_at(l) + 4) == le32(original_ip as int)
            &&& r@.subrange(ip_at(l) + 4, ip_at(l) + 4 + p) == lib_path.spec_bytes()
            &&& r@[ip_at(l) + 4 + p] == 0
            &&& r@.subrange(addr_at(l, p), addr_at(l, p) + 4) == le32(dlopen.addr as int)
            // each reference reaches its datum
            &&& adr_effect(le_value(r@.subrange(4, 8)) as u32, 4) == Some((0u32, 88int))
            &&& adr_effect(le_value(r@.subrange(32, 36)) as u32, 32) == Some((1u32, 104int))
            &&& r@.subrange(40, 44) == le32(ldr_word(AddrMode2::Offset, Reg::R3, Reg::PC, ip_at(l) - 40 - 8) as int)
            &&& r@.subrange(44, 48) == le32(ldr_word(AddrMode2::Offset, Reg::R4, Reg::PC, ip_at(l) - 44 - 8) as int)
            &&& adr_effect(le_value(r@.subrange(64, 68)) as u32, 64) == Some((0u32, ip_at(l) + 4))
            &&& r@.subrange(76, 80) == le32(ldr_word(AddrMode2::Offset, Reg::PC, Reg::PC, addr_at(l, p) - 76 - 8) as int)
            &&& r@.subrange(84, 88) == le32(ldr_word(AddrMode2::Offset, Reg::PC, Reg::PC, ip_at(l) - 84 - 8) as int)
            // the system calls: open (5), pwrite (181), close (6)
            &&& r@.subrange(0, 4) == le32(word(&Op::Movw(Reg::R7, 5), 0, 0) as int)
            &&& r@.subrange(24, 28) == le32(word(&Op::Movw(Reg::R7, 181), 0, 0) as int)
            &&& r@.subrange(52, 56) == le32(word(&Op::Movw(Reg::R7, 6), 0, 0) as int)
        }),
{
    let ghost l = original_code@.len() as int;
    let ghost p = lib_path.spec_bytes().len() as int;
    let c = second_code(original_code);
    let ghost cc = c.code();
    let a = second_data(c, original_code, original_ip, lib_path, dlopen);
    let ghost code = a.code();
    proof {
        reveal_strlit("mem_path");
        reveal_strlit("original_code");
        reveal_strlit("original_ip");
        reveal_strlit("lib_path");
        reveal_strlit("dlopen_addr");
        assert("mem_path"@.len() != "original_code"@.len());
        assert("mem_path"@ != "original_code"@);
        assert("mem_path"@.len() != "original_ip"@.len());
        assert("mem_path"@ != "original_ip"@);
        assert("mem_path"@[0] != "lib_path"@[0]);
        assert("mem_path"@ != "lib_path"@);
        assert("mem_path"@.len() != "dlopen_addr"@.len());
        assert("mem_path"@ != "dlopen_addr"@);
        assert("original_code"@.len() != "original_ip"@.len());
        assert("original_code"@ != "original_ip"@);
        assert("original_code"@.len() != "lib_path"@.len());
        assert("original_code"@ != "lib_path"@);
        assert("original_code"@.len() != "dlopen_addr"@.len());
        assert("original_code"@ != "dlopen_addr"@);
        assert("original_ip"@.len() != "lib_path"@.len());
        assert("original_ip"@ != "lib_path"@);
        assert("original_ip"@[0] != "dlopen_addr"@[0]);
        assert("original_ip"@ != "dlopen_addr"@);
        assert("lib_path"@.len() != "dlopen_addr"@.len());
        assert("lib_path"@ != "dlopen_addr"@);
        assert(ip_at(l) % 4 == 0);
        assert(addr_at(l, p) % 4 == 0);
        assert(a.resolvable());
    }
    let r = a.build();
    proof {
        assert(a.relocs()[0] == (4usize, Op::Adrl(Reg::R0, "mem_path")));
        assert(r@.subrange(4, 8) == Op::Adrl(Reg::R0, "mem_path").spec_enc(4, 88));
        crate::arm::lemma_adr_reaches_label(Reg::R0, "mem_path", 0, 4, 88);
        assert(a.relocs()[1] == (32usize, Op::Adrl(Reg::R1, "original_code")));
        assert(r@.subrange(32, 36) == Op::Adrl(Reg::R1, "original_code").spec_enc(32, 104));
        crate::arm::lemma_adr_reaches_label(Reg::R1, "original_code", 0, 32, 104);
        assert(a.relocs()[2] == (40usize, Op::Ldrl(Reg::R3, "original_ip")));
        assert(r@.subrange(40, 44) == Op::Ldrl(Reg::R3, "original_ip").spec_enc(40, ip_at(l)));
        assert(a.relocs()[3] == (44usize, Op::Ldrl(Reg::R4, "original_ip")));
        assert(r@.subrange(44, 48) == Op::Ldrl(Reg::R4, "original_ip").spec_enc(44, ip_at(l)));
        assert(a.relocs()[4] == (64usize, Op::Adrl(Reg::R0, "lib_path")));
        assert(r@.subrange(64, 68) == Op::Adrl(Reg::R0, "lib_path").spec_enc(64, ip_at(l) + 4));
        crate::arm::lemma_adr_reaches_label(Reg::R0, "lib_path", 0, 64, ip_at(l) + 4);
        assert(a.relocs()[5] == (76usize, Op::Ldrl(Reg::PC, "dlopen_addr")));
        assert(r@.subrange(76, 80) == Op::Ldrl(Reg::PC, "dlopen_addr").spec_enc(76, addr_at(l, p)));
        assert(a.relocs()[6] == (84usize, Op::Ldrl(Reg::PC, "original_ip")));
        assert(r@.subrange(84, 88) == Op::Ldrl(Reg::PC, "original_ip").spec_enc(84, ip_at(l)));
        assert(a.slots_end() <= 88);
        lemma_same_range(r@, code, 88, 103);
        lemma_same_range(r@, code, 104, 104 + l);
        lemma_same_range(r@, code, ip_at(l), ip_at(l) + 4);
        lemma_same_range(r@, code, ip_at(l) + 4, ip_at(l) + 4 + p);
        lemma_same_range(r@, code, addr_at(l, p), addr_at(l, p) + 4);
        assert(r@[ip_at(l) + 4 + p] == code[ip_at(l) + 4 + p]);
        assert(forall|i: int| 0 <= i < 4 ==> !a.in_slot(i));
        assert(code.subrange(0, 4) =~= cc.subrange(0, 4)) by {
            assert(code.subrange(0, 88) == cc);
        }
        assert(r@.subrange(0, 4) =~= code.subrange(0, 4));
        assert(forall|i: int| 24 <= i < 28 ==> !a.in_slot(i));
        assert(code.subrange(24, 28) =~= cc.subrange(24, 28)) by {
            assert(code.subrange(0, 88) == cc);
        }
        assert(r@.subrange(24, 28) =~= code.subrange(24, 28));
        assert(forall|i: int| 52 <= i < 56 ==> !a.in_slot(i));
        assert(code.subrange(52, 56) =~= cc.subrange(52, 56)) by {
            assert(code.subrange(0, 88) == cc);
        }
        assert(r@.subrange(52, 56) =~= code.subrange(52, 56));
    }
    r
}

} // verus!
