//! The payloads for AArch64 targets.

use crate::arm64::{adr_effect, ldr_literal_word, word, AddrMode2, Op, Reg, Shift, TinyAsm};
use crate::payloads::{mem_path, mem_path_bytes};
use crate::proc::{ProcSym, VirtAddr};
use crate::tiny_asm::{assemble, le32, le64, le_value, lemma_same_range, pad_len, zeros, Encodable};
use vstd::prelude::*;
use vstd::string::StringSliceAdditionalSpecFns;

verus! {

/// Saves `x0`-`x30` on the stack, pair by pair.
#[verifier::rlimit(100)]
fn save_registers(a: TinyAsm) -> (r: TinyAsm)
    requires
        a.wf(),
    ensures
        r.code() == save_listing(a.code()),
        r.wf(),
        r.code().len() == a.code().len() + 64,
        r.relocs() == a.relocs(),
        r.labels() == a.labels(),
{
    proof {
        reveal(save_listing);
    }
    let a = save_low(a);
    a
        .stp(AddrMode2::PreIndexed, Reg::X16, Reg::X17, Reg::SP, -16)
        .stp(AddrMode2::PreIndexed, Reg::X18, Reg::X19, Reg::SP, -16)
        .stp(AddrMode2::PreIndexed, Reg::X20, Reg::X21, Reg::SP, -16)
        .stp(AddrMode2::PreIndexed, Reg::X22, Reg::X23, Reg::SP, -16)
        .stp(AddrMode2::PreIndexed, Reg::X24, Reg::X25, Reg::SP, -16)
        .stp(AddrMode2::PreIndexed, Reg::X26, Reg::X27, Reg::SP, -16)
        .stp(AddrMode2::PreIndexed, Reg::X28, Reg::X29, Reg::SP, -16)
        .stri(AddrMode2::PreIndexed, Reg::X30, Reg::SP, -16)
}

/// Saves `x0`-`x15` on the stack, pair by pair.
#[verifier::rlimit(100)]
fn save_low(a: TinyAsm) -> (r: TinyAsm)
    requires
        a.wf(),
    ensures
        r.code() == save_low_listing(a.code()),
        r.wf(),
        r.code().len() == a.code().len() + 32,
        r.relocs() == a.relocs(),
        r.labels() == a.labels(),
{
    proof {
        reveal(save_low_listing);
    }
    a
        .stp(AddrMode2::PreIndexed, Reg::X0, Reg::X1, Reg::SP, -16)
        .stp(AddrMode2::PreIndexed, Reg::X2, Reg::X3, Reg::SP, -16)
        .stp(AddrMode2::PreIndexed, Reg::X4, Reg::X5, Reg::SP, -16)
        .stp(AddrMode2::PreIndexed, Reg::X6, Reg::X7, Reg::SP, -16)
        .stp(AddrMode2::PreIndexed, Reg::X8, Reg::X9, Reg::SP, -16)
        .stp(AddrMode2::PreIndexed, Reg::X10, Reg::X11, Reg::SP, -16)
        .stp(AddrMode2::PreIndexed, Reg::X12, Reg::X13, Reg::SP, -16)
        .stp(AddrMode2::PreIndexed, Reg::X14, Reg::X15, Reg::SP, -16)
}

/// Restores `x0`-`x30` from the stack, in the reverse order of `save_registers`.
#[verifier::rlimit(100)]
fn restore_registers(a: TinyAsm) -> (r: TinyAsm)
    requires
        a.wf(),
    ensures
        r.code() == restore_listing(a.code()),
        r.wf(),
        r.code().len() == a.code().len() + 64,
        r.relocs() == a.relocs(),
        r.labels() == a.labels(),
{
    proof {
        reveal(restore_listing);
    }
    let a = a
        .ldri(AddrMode2::PostIndexed, Reg::X30, Reg::SP, 16)
        .ldp(AddrMode2::PostIndexed, Reg::X28, Reg::X29, Reg::SP, 16)
        .ldp(AddrMode2::PostIndexed, Reg::X26, Reg::X27, Reg::SP, 16)
        .ldp(AddrMode2::PostIndexed, Reg::X24, Reg::X25, Reg::SP, 16)
        .ldp(AddrMode2::PostIndexed, Reg::X22, Reg::X23, Reg::SP, 16)
        .ldp(AddrMode2::PostIndexed, Reg::X20, Reg::X21, Reg::SP, 16)
        .ldp(AddrMode2::PostIndexed, Reg::X18, Reg::X19, Reg::SP, 16)
        .ldp(AddrMode2::PostIndexed, Reg::X16, Reg::X17, Reg::SP, 16);
    restore_low(a)
}

/// Restores `x0`-`x15` from the stack.
#[verifier::rlimit(100)]
fn restore_low(a: TinyAsm) -> (r: TinyAsm)
    requires
        a.wf(),
    ensures
        r.code() == restore_low_listing(a.code()),
        r.wf(),
        r.code().len() == a.code().len() + 32,
        r.relocs() == a.relocs(),
        r.labels() == a.labels(),
{
    proof {
        reveal(restore_low_listing);
    }
    a
        .ldp(AddrMode2::PostIndexed, Reg::X14, Reg::X15, Reg::SP, 16)
        .ldp(AddrMode2::PostIndexed, Reg::X12, Reg::X13, Reg::SP, 16)
        .ldp(AddrMode2::PostIndexed, Reg::X10, Reg::X11, Reg::SP, 16)
        .ldp(AddrMode2::PostIndexed, Reg::X8, Reg::X9, Reg::SP, 16)
        .ldp(AddrMode2::PostIndexed, Reg::X6, Reg::X7, Reg::SP, 16)
        .ldp(AddrMode2::PostIndexed, Reg::X4, Reg::X5, Reg::SP, 16)
        .ldp(AddrMode2::PostIndexed, Reg::X2, Reg::X3, Reg::SP, 16)
        .ldp(AddrMode2::PostIndexed, Reg::X0, Reg::X1, Reg::SP, 16)
}

/// The length of the stage-one code, which the stage-two path follows.
pub const FIRST_CODE_LEN: usize = 144;

/// Stage one: saves `x0`-`x30`, opens the stage-two file at
/// `second_payload_path`, maps 512 bytes of it read+exec+private, closes it
/// and jumps to the mapping. The path follows the code, NUL-terminated and
/// padded to a multiple of 4 bytes.
#[verifier::rlimit(100)]
pub fn gen_first(second_payload_path: &str) -> (r: Vec<u8>)
    requires
        second_payload_path.spec_bytes().len() + FIRST_CODE_LEN + 4 <= usize::MAX,
    ensures
        r@ == first_image(second_payload_path.spec_bytes()),
        ({
            let s = second_payload_path.spec_bytes().len() as int;
            &&& r@.len() == FIRST_CODE_LEN + s + 1 + pad_len(FIRST_CODE_LEN + s + 1, 4)
            &&& r@.subrange(FIRST_CODE_LEN as int, FIRST_CODE_LEN + s) == second_payload_path.spec_bytes()
            &&& r@[FIRST_CODE_LEN + s] == 0
            // the argument of `open` is the path
            &&& adr_effect(le_value(r@.subrange(72, 76)) as u32, 72) == Some((1u32, FIRST_CODE_LEN as int))
            // the system calls: open (56), mmap (222), close (57)
            &&& r@.subrange(64, 68) == le32(word(&Op::Movi(Reg::X8, 56), 0, 0) as int)
            &&& r@.subrange(92, 96) == le32(word(&Op::Movi(Reg::X8, 222), 0, 0) as int)
            &&& r@.subrange(128, 132) == le32(word(&Op::Movi(Reg::X8, 57), 0, 0) as int)
        }),
{
    let ghost s = second_payload_path.spec_bytes().len() as int;
    proof {
        reveal_strlit("second_payload_path");
    }
    let a = save_registers(TinyAsm::new())
        // Open second payload file
        .movi(Reg::X8, 56)
        .movi(Reg::X0, 0)
        .adr(Reg::X1, "second_payload_path")
        .movi(Reg::X2, 0)
        .movi(Reg::X3, 0)
        .svc(0)
        // Second payload file descriptor
        .movr(Reg::X14, Reg::X0)
        // Map the Second payload file to memory
        .movi(Reg::X8, 222)
        .movi(Reg::X0, 0)
        .movi(Reg::X1, 512)
        // PROT_READ | PROT_EXEC
        .movi(Reg::X2, 5)
        .movi(Reg::X3, 2)
        .movr(Reg::X4, Reg::X14)
        .movi(Reg::X5, 0)
        .svc(0)
        // Second payload code virtual address
        .movr(Reg::X15, Reg::X0)
        // Close Second payload file.
        .movi(Reg::X8, 57)
        .movr(Reg::X0, Reg::X14)
        .svc(0)
        // Execute second payload code
        .br(Reg::X15)
        // Data
        .label("second_payload_path")
        .asciiz(second_payload_path)
        .align::<4>();
    let ghost code = a.code();
    proof {
        assert(a.relocs() =~= seq![(72usize, Op::Adrl(Reg::X1, "second_payload_path"))]);
        assert(a.labels() =~= Map::<Seq<char>, nat>::empty().insert("second_payload_path"@, 144nat));
    }
    proof {
        assert(a.relocs()[0] == (72usize, Op::Adrl(Reg::X1, "second_payload_path")));
        assert(a.labels()["second_payload_path"@] == FIRST_CODE_LEN);
    }
    let r = a.build();
    proof {
        assert(r@.subrange(72, 76) == Op::Adrl(Reg::X1, "second_payload_path").spec_enc(72, FIRST_CODE_LEN as int));
        crate::arm64::lemma_adr_reaches_label(Reg::X1, "second_payload_path", 0, 72, FIRST_CODE_LEN as int);
        assert(a.slots_end() == 76);
        lemma_same_range(r@, code, FIRST_CODE_LEN as int, FIRST_CODE_LEN + s);
        assert(code.subrange(FIRST_CODE_LEN as int, FIRST_CODE_LEN + s) =~= second_payload_path.spec_bytes());
        assert(r@[FIRST_CODE_LEN + s] == code[FIRST_CODE_LEN + s]);
        assert(forall|i: int| 64 <= i < 68 ==> !a.in_slot(i));
        assert(r@.subrange(64, 68) =~= code.subrange(64, 68));
        assert(code.subrange(64, 68) =~= le32(word(&Op::Movi(Reg::X8, 56), 0, 0) as int));
        assert(forall|i: int| 92 <= i < 96 ==> !a.in_slot(i));
        assert(r@.subrange(92, 96) =~= code.subrange(92, 96));
        assert(code.subrange(92, 96) =~= le32(word(&Op::Movi(Reg::X8, 222), 0, 0) as int));
        assert(forall|i: int| 128 <= i < 132 ==> !a.in_slot(i));
        assert(r@.subrange(128, 132) =~= code.subrange(128, 132));
        assert(code.subrange(128, 132) =~= le32(word(&Op::Movi(Reg::X8, 57), 0, 0) as int));
    }
    r
}

/// The length of the stage-two code, which the data follows.
pub const SECOND_CODE_LEN: usize = 152;

/// Where stage two holds the instruction pointer, after the original bytes.
pub open spec fn ip_at(l: int) -> int {
    168 + l + pad_len(168 + l, 4)
}

/// Where stage two holds the loader address, after the library path.
pub open spec fn addr_at(l: int, p: int) -> int {
    ip_at(l) + 9 + p + pad_len(ip_at(l) + 9 + p, 4)
}

/// `x0`-`x15` saved on the stack, pair by pair, after `c`.
#[verifier::opaque]
pub open spec fn save_low_listing(c: Seq<u8>) -> Seq<u8> {
    c
        + le32(word(&Op::Stp(AddrMode2::PreIndexed, Reg::X0, Reg::X1, Reg::SP, -16i16), 0, 0) as int)
        + le32(word(&Op::Stp(AddrMode2::PreIndexed, Reg::X2, Reg::X3, Reg::SP, -16i16), 0, 0) as int)
        + le32(word(&Op::Stp(AddrMode2::PreIndexed, Reg::X4, Reg::X5, Reg::SP, -16i16), 0, 0) as int)
        + le32(word(&Op::Stp(AddrMode2::PreIndexed, Reg::X6, Reg::X7, Reg::SP, -16i16), 0, 0) as int)
        + le32(word(&Op::Stp(AddrMode2::PreIndexed, Reg::X8, Reg::X9, Reg::SP, -16i16), 0, 0) as int)
        + le32(word(&Op::Stp(AddrMode2::PreIndexed, Reg::X10, Reg::X11, Reg::SP, -16i16), 0, 0) as int)
        + le32(word(&Op::Stp(AddrMode2::PreIndexed, Reg::X12, Reg::X13, Reg::SP, -16i16), 0, 0) as int)
        + le32(word(&Op::Stp(AddrMode2::PreIndexed, Reg::X14, Reg::X15, Reg::SP, -16i16), 0, 0) as int)
}

/// `x0`-`x30` saved on the stack, pair by pair, after `c`.
#[verifier::opaque]
pub open spec fn save_listing(c: Seq<u8>) -> Seq<u8> {
    save_low_listing(c)
        + le32(word(&Op::Stp(AddrMode2::PreIndexed, Reg::X16, Reg::X17, Reg::SP, -16i16), 0, 0) as int)
        + le32(word(&Op::Stp(AddrMode2::PreIndexed, Reg::X18, Reg::X19, Reg::SP, -16i16), 0, 0) as int)
        + le32(word(&Op::Stp(AddrMode2::PreIndexed, Reg::X20, Reg::X21, Reg::SP, -16i16), 0, 0) as int)
        + le32(word(&Op::Stp(AddrMode2::PreIndexed, Reg::X22, Reg::X23, Reg::SP, -16i16), 0, 0) as int)
        + le32(word(&Op::Stp(AddrMode2::PreIndexed, Reg::X24, Reg::X25, Reg::SP, -16i16), 0, 0) as int)
        + le32(word(&Op::Stp(AddrMode2::PreIndexed, Reg::X26, Reg::X27, Reg::SP, -16i16), 0, 0) as int)
        + le32(word(&Op::Stp(AddrMode2::PreIndexed, Reg::X28, Reg::X29, Reg::SP, -16i16), 0, 0) as int)
        + le32(word(&Op::Stri(AddrMode2::PreIndexed, Reg::X30, Reg::SP, -16i32), 0, 0) as int)
}

/// `x0`-`x15` restored from the stack, after `c`.
#[verifier::opaque]
pub open spec fn restore_low_listing(c: Seq<u8>) -> Seq<u8> {
    c
        + le32(word(&Op::Ldp(AddrMode2::PostIndexed, Reg::X14, Reg::X15, Reg::SP, 16i16), 0, 0) as int)
        + le32(word(&Op::Ldp(AddrMode2::PostIndexed, Reg::X12, Reg::X13, Reg::SP, 16i16), 0, 0) as int)
        + le32(word(&Op::Ldp(AddrMode2::PostIndexed, Reg::X10, Reg::X11, Reg::SP, 16i16), 0, 0) as int)
        + le32(word(&Op::Ldp(AddrMode2::PostIndexed, Reg::X8, Reg::X9, Reg::SP, 16i16), 0, 0) as int)
        + le32(word(&Op::Ldp(AddrMode2::PostIndexed, Reg::X6, Reg::X7, Reg::SP, 16i16), 0, 0) as int)
        + le32(word(&Op::Ldp(AddrMode2::PostIndexed, Reg::X4, Reg::X5, Reg::SP, 16i16), 0, 0) as int)
        + le32(word(&Op::Ldp(AddrMode2::PostIndexed, Reg::X2, Reg::X3, Reg::SP, 16i16), 0, 0) as int)
        + le32(word(&Op::Ldp(AddrMode2::PostIndexed, Reg::X0, Reg::X1, Reg::SP, 16i16), 0, 0) as int)
}

/// `x0`-`x30` restored from the stack, in the reverse order of `save_listing`, after `c`.
#[verifier::opaque]
pub open spec fn restore_listing(c: Seq<u8>) -> Seq<u8> {
    restore_low_listing(
        c
            + le32(word(&Op::Ldri(AddrMode2::PostIndexed, Reg::X30, Reg::SP, 16i32), 0, 0) as int)
            + le32(word(&Op::Ldp(AddrMode2::PostIndexed, Reg::X28, Reg::X29, Reg::SP, 16i16), 0, 0) as int)
            + le32(word(&Op::Ldp(AddrMode2::PostIndexed, Reg::X26, Reg::X27, Reg::SP, 16i16), 0, 0) as int)
            + le32(word(&Op::Ldp(AddrMode2::PostIndexed, Reg::X24, Reg::X25, Reg::SP, 16i16), 0, 0) as int)
            + le32(word(&Op::Ldp(AddrMode2::PostIndexed, Reg::X22, Reg::X23, Reg::SP, 16i16), 0, 0) as int)
            + le32(word(&Op::Ldp(AddrMode2::PostIndexed, Reg::X20, Reg::X21, Reg::SP, 16i16), 0, 0) as int)
            + le32(word(&Op::Ldp(AddrMode2::PostIndexed, Reg::X18, Reg::X19, Reg::SP, 16i16), 0, 0) as int)
            + le32(word(&Op::Ldp(AddrMode2::PostIndexed, Reg::X16, Reg::X17, Reg::SP, 16i16), 0, 0) as int)
    )
}

/// The stage-one code, instruction by instruction; each label reference is a
/// four-byte slot of zeros that `build` fills.
pub open spec fn first_code() -> Seq<u8> {
    save_listing(Seq::<u8>::empty())
        // Open second payload file
        + le32(word(&Op::Movi(Reg::X8, 56), 0, 0) as int)
        + le32(word(&Op::Movi(Reg::X0, 0), 0, 0) as int)
        + zeros(4)
        + le32(word(&Op::Movi(Reg::X2, 0), 0, 0) as int)
        + le32(word(&Op::Movi(Reg::X3, 0), 0, 0) as int)
        + le32(word(&Op::Svc(0), 0, 0) as int)
        // Second payload file descriptor
        + le32(word(&Op::Orrsr(Reg::X14, Reg::XZR, Reg::X0, (Shift::Lsl, 0u8)), 0, 0) as int)
        // Map the Second payload file to memory
        + le32(word(&Op::Movi(Reg::X8, 222), 0, 0) as int)
        + le32(word(&Op::Movi(Reg::X0, 0), 0, 0) as int)
        + le32(word(&Op::Movi(Reg::X1, 512), 0, 0) as int)
        // PROT_READ | PROT_EXEC
        + le32(word(&Op::Movi(Reg::X2, 5), 0, 0) as int)
        + le32(word(&Op::Movi(Reg::X3, 2), 0, 0) as int)
        + le32(word(&Op::Orrsr(Reg::X4, Reg::XZR, Reg::X14, (Shift::Lsl, 0u8)), 0, 0) as int)
        + le32(word(&Op::Movi(Reg::X5, 0), 0, 0) as int)
        + le32(word(&Op::Svc(0), 0, 0) as int)
        // Second payload code virtual address
        + le32(word(&Op::Orrsr(Reg::X15, Reg::XZR, Reg::X0, (Shift::Lsl, 0u8)), 0, 0) as int)
        // Close Second payload file.
        + le32(word(&Op::Movi(Reg::X8, 57), 0, 0) as int)
        + le32(word(&Op::Orrsr(Reg::X0, Reg::XZR, Reg::X14, (Shift::Lsl, 0u8)), 0, 0) as int)
        + le32(word(&Op::Svc(0), 0, 0) as int)
        // Execute second payload code
        + le32(word(&Op::Br(Reg::X15), 0, 0) as int)
}

/// Stage one for the stage-two file at `path`: the code followed by the
/// NUL-terminated path, padded to 4 bytes, the reference to the path resolved.
pub open spec fn first_image(path: Seq<u8>) -> Seq<u8> {
    assemble(
        first_code() + path + seq![0u8] + zeros(pad_len(144 + path.len() as int + 1, 4)),
        seq![(72usize, Op::Adrl(Reg::X1, "second_payload_path"))],
        Map::<Seq<char>, nat>::empty().insert("second_payload_path"@, 144nat),
    )
}

/// The stage-two code for `l` original bytes, instruction by instruction; each
/// label reference is a four-byte slot of zeros that `build` fills.
#[verifier::opaque]
pub open spec fn second_code_listing(l: int) -> Seq<u8> {
    restore_listing(
        Seq::<u8>::empty()
            // Open memory file (/proc/self/mem).
            + le32(word(&Op::Movi(Reg::X8, 56), 0, 0) as int)
            + le32(word(&Op::Movi(Reg::X0, 0), 0, 0) as int)
            + zeros(4)
            + le32(word(&Op::Movi(Reg::X2, 2), 0, 0) as int)
            + le32(word(&Op::Movi(Reg::X3, 0), 0, 0) as int)
            + le32(word(&Op::Svc(0), 0, 0) as int)
            // Memory file descriptor.
            + le32(word(&Op::Orrsr(Reg::X15, Reg::XZR, Reg::X0, (Shift::Lsl, 0u8)), 0, 0) as int)
            // Restore the original code.
            + le32(word(&Op::Movi(Reg::X8, 68), 0, 0) as int)
            + le32(word(&Op::Orrsr(Reg::X0, Reg::XZR, Reg::X15, (Shift::Lsl, 0u8)), 0, 0) as int)
            + zeros(4)
            + le32(word(&Op::Movi(Reg::X2, l as i32), 0, 0) as int)
            + zeros(4)
            + le32(word(&Op::Svc(0), 0, 0) as int)
            // Close memory file.
            + le32(word(&Op::Movi(Reg::X8, 57), 0, 0) as int)
            + le32(word(&Op::Orrsr(Reg::X0, Reg::XZR, Reg::X15, (Shift::Lsl, 0u8)), 0, 0) as int)
            + le32(word(&Op::Svc(0), 0, 0) as int)
            // Call dlopen
            + zeros(4)
            + le32(word(&Op::Movi(Reg::X1, 1), 0, 0) as int)
            + zeros(4)
            + le32(word(&Op::Blr(Reg::X28), 0, 0) as int)
    )
        // Restore the original execution flow
        + zeros(4)
        + le32(word(&Op::Br(Reg::X28), 0, 0) as int)
}

/// The stage-two data after the code, each block 4-aligned.
#[verifier::opaque]
pub open spec fn second_data_listing(original_code: Seq<u8>, original_ip: VirtAddr, lib_path: Seq<u8>, dlopen_addr: VirtAddr) -> Seq<u8> {
    let l = original_code.len() as int;
    let p = lib_path.len() as int;
    mem_path() + zeros(pad_len(167, 4)) + original_code + zeros(pad_len(168 + l, 4)) + le64(original_ip as int) + zeros(pad_len(ip_at(l) + 8, 4)) + lib_path + seq![0u8] + zeros(pad_len(ip_at(l) + 9 + p, 4)) + le64(dlopen_addr as int) + zeros(pad_len(addr_at(l, p) + 8, 4))
}

/// Stage two for `original_code` taken from `original_ip`, the library at
/// `lib_path` and the loader at `dlopen_addr`: the code followed by its data,
/// every reference resolved.
pub open spec fn second_image(original_code: Seq<u8>, original_ip: VirtAddr, lib_path: Seq<u8>, dlopen_addr: VirtAddr) -> Seq<u8> {
    let l = original_code.len() as int;
    let p = lib_path.len() as int;
    assemble(
        second_code_listing(l) + second_data_listing(original_code, original_ip, lib_path, dlopen_addr),
        seq![
            (8usize, Op::Adrl(Reg::X1, "mem_path")),
            (36usize, Op::Adrl(Reg::X1, "original_code")),
            (44usize, Op::Ldrl(Reg::X3, "original_ip")),
            (64usize, Op::Adrl(Reg::X0, "lib_path")),
            (72usize, Op::Ldrl(Reg::X28, "dlopen_addr")),
            (144usize, Op::Ldrl(Reg::X28, "original_ip")),
        ],
        Map::<Seq<char>, nat>::empty().insert("mem_path"@, 152nat).insert(
            "original_code"@,
            168nat,
        ).insert("original_ip"@, ip_at(l) as nat).insert("lib_path"@, (ip_at(l) + 8) as nat).insert(
            "dlopen_addr"@,
            addr_at(l, p) as nat,
        ),
    )
}

/// The stage-two code, its label references pending.
#[verifier::rlimit(100)]
fn second_code(original_code: &[u8]) -> (a: TinyAsm)
    requires
        original_code@.len() < 0x10000,
    ensures
        a.code() == second_code_listing(original_code@.len() as int),
        a.wf(),
        a.code().len() == SECOND_CODE_LEN,
        a.labels() == Map::<Seq<char>, nat>::empty(),
        a.relocs() == seq![
            (8usize, Op::Adrl(Reg::X1, "mem_path")),
            (36usize, Op::Adrl(Reg::X1, "original_code")),
            (44usize, Op::Ldrl(Reg::X3, "original_ip")),
            (64usize, Op::Adrl(Reg::X0, "lib_path")),
            (72usize, Op::Ldrl(Reg::X28, "dlopen_addr")),
            (144usize, Op::Ldrl(Reg::X28, "original_ip")),
        ],
{
    proof {
        reveal(second_code_listing);
    }
    let a = TinyAsm::new()
        // Open memory file (/proc/self/mem).
        .movi(Reg::X8, 56)
        .movi(Reg::X0, 0)
        .adr(Reg::X1, "mem_path")
        .movi(Reg::X2, 2)
        .movi(Reg::X3, 0)
        .svc(0)
        // Memory file descriptor.
        .movr(Reg::X15, Reg::X0)
        // Restore the original code.
        .movi(Reg::X8, 68)
        .movr(Reg::X0, Reg::X15)
        .adr(Reg::X1, "original_code")
        .movi(Reg::X2, original_code.len() as i32)
        .ldrl(Reg::X3, "original_ip")
        .svc(0)
        // Close memory file.
        .movi(Reg::X8, 57)
        .movr(Reg::X0, Reg::X15)
        .svc(0)
        // Call dlopen
        .adr(Reg::X0, "lib_path")
        .movi(Reg::X1, 1)
        .ldrl(Reg::X28, "dlopen_addr")
        .blr(Reg::X28);
    let a = restore_registers(a)
        // Restore the original execution flow
        .ldrl(Reg::X28, "original_ip")
        .br(Reg::X28);
    assert(a.relocs() =~= seq![
            (8usize, Op::Adrl(Reg::X1, "mem_path")),
            (36usize, Op::Adrl(Reg::X1, "original_code")),
            (44usize, Op::Ldrl(Reg::X3, "original_ip")),
            (64usize, Op::Adrl(Reg::X0, "lib_path")),
            (72usize, Op::Ldrl(Reg::X28, "dlopen_addr")),
            (144usize, Op::Ldrl(Reg::X28, "original_ip")),
        ]);
    a
}

/// The stage-two data, each datum under its label, each block 4-aligned.
#[verifier::rlimit(100)]
fn second_data(a: TinyAsm, original_code: &[u8], original_ip: VirtAddr, lib_path: &str, dlopen: &ProcSym) -> (r: TinyAsm)
    requires
        a.wf(),
        a.labels() == Map::<Seq<char>, nat>::empty(),
        a.code().len() == SECOND_CODE_LEN,
        original_code@.len() + lib_path.spec_bytes().len() <= 0x100000,
    ensures
        r.code() == a.code() + second_data_listing(original_code@, original_ip, lib_path.spec_bytes(), dlopen.addr),
        r.wf(),
        r.relocs() == a.relocs(),
        ({
            let l = original_code@.len() as int;
            let p = lib_path.spec_bytes().len() as int;
            &&& r.code().len() == addr_at(l, p) + 8
            &&& r.code().subrange(152, 167) == mem_path()
            &&& r.code().subrange(168, 168 + l) == original_code@
            &&& r.code().subrange(ip_at(l), ip_at(l) + 8) == le64(original_ip as int)
            &&& r.code().subrange(ip_at(l) + 8, ip_at(l) + 8 + p) == lib_path.spec_bytes()
            &&& r.code()[ip_at(l) + 8 + p] == 0
            &&& r.code().subrange(addr_at(l, p), addr_at(l, p) + 8) == le64(dlopen.addr as int)
            &&& r.labels() == Map::<Seq<char>, nat>::empty().insert("mem_path"@, 152nat).insert(
                "original_code"@,
                168nat,
            ).insert("original_ip"@, ip_at(l) as nat).insert("lib_path"@, (ip_at(l) + 8) as nat).insert(
                "dlopen_addr"@,
                addr_at(l, p) as nat,
            )
        }),
{
    proof {
        reveal(second_data_listing);
    }
    proof {
        reveal_strlit("mem_path");
        reveal_strlit("original_code");
        reveal_strlit("original_ip");
        reveal_strlit("lib_path");
        reveal_strlit("dlopen_addr");
        assert("mem_path"@.len() != "original_code"@.len());
        assert("mem_path"@ != "original_code"@);
        assert("mem_path"@.len() != "original_ip"@.len());
        assert("mem_path"@ != "original_ip"@);
        assert("mem_path"@[0] != "lib_path"@[0]);
        assert("mem_path"@ != "lib_path"@);
        assert("mem_path"@.len() != "dlopen_addr"@.len());
        assert("mem_path"@ != "dlopen_addr"@);
        assert("original_code"@.len() != "original_ip"@.len());
        assert("original_code"@ != "original_ip"@);
        assert("original_code"@.len() != "lib_path"@.len());
        assert("original_code"@ != "lib_path"@);
        assert("original_code"@.len() != "dlopen_addr"@.len());
        assert("original_code"@ != "dlopen_addr"@);
        assert("original_ip"@.len() != "lib_path"@.len());
        assert("original_ip"@ != "lib_path"@);
        assert("original_ip"@[0] != "dlopen_addr"@[0]);
        assert("original_ip"@ != "dlopen_addr"@);
        assert("lib_path"@.len() != "dlopen_addr"@.len());
        assert("lib_path"@ != "dlopen_addr"@);
    }
    let r = a
        .label("mem_path")
        .bytes(&mem_path_bytes())
        .align::<4>()
        .label("original_code")
        .bytes(original_code)
        .align::<4>()
        .label("original_ip")
        .qword(original_ip)
        .align::<4>()
        .label("lib_path")
        .asciiz(lib_path)
        .align::<4>()
        .label("dlopen_addr")
        .qword(dlopen.addr)
        .align::<4>();
    r
}

/// Stage two: opens `/proc/self/mem` read+write, writes `original_code` back
/// at `original_ip` with `pwrite`, closes it, calls the loader at `dlopen.addr` with `(lib_path, 1)` through BLR,
/// restores the registers stage one saved and branches to `original_ip`.
/// The data after the code, each block 4-aligned: `/proc/self/mem`, the
/// original bytes, the instruction pointer, the library path and the loader address.
/// The length of the original bytes is a 16-bit MOV immediate; the library
/// path is bounded so that every PC-relative reference stays within 1 MiB.
#[verifier::rlimit(100)]
pub fn gen_second(original_code: &[u8], original_ip: VirtAddr, lib_path: &str, dlopen: &ProcSym) -> (r: Vec<u8>)
    requires
        original_code@.len() < 0x10000,
        lib_path.spec_bytes().len() <= 0x80000,
    ensures
        r@ == second_image(original_code@, original_ip, lib_path.spec_bytes(), dlopen.addr),
        ({
            let l = original_code@.len() as int;
            let p = lib_path.spec_bytes().len() as int;
            &&& r@.len() == addr_at(l, p) + 8
            &&& r@.subrange(152, 167) == mem_path()
            &&& r@.subrange(168, 168 + l) == original_code@
            &&& r@.subrange(ip_at(l), ip_at(l) + 8) == le64(original_ip as int)
            &&& r@.subrange(ip_at(l) + 8, ip_at(l) + 8 + p) == lib_path.spec_bytes()
            &&& r@[ip_at(l) + 8 + p] == 0
            &&& r@.subrange(addr_at(l, p), addr_at(l, p) + 8) == le64(dlopen.addr as int)
            // each reference reaches its datum
            &&& adr_effect(le_value(r@.subrange(8, 12)) as u32, 8) == Some((1u32, 152int))
            &&& adr_effect(le_value(r@.subrange(36, 40)) as u32, 36) == Some((1u32, 168int))
            &&& r@.subrange(44, 48) == le32(ldr_literal_word(Reg::X3, ip_at(l) - 44) as int)
            &&& adr_effect(le_value(r@.subrange(64, 68)) as u32, 64) == Some((0u32, ip_at(l) + 8))
            &&& r@.subrange(72, 76) == le32(ldr_literal_word(Reg::X28, addr_at(l, p) - 72) as int)
            &&& r@.subrange(144, 148) == le32(ldr_literal_word(Reg::X28, ip_at(l) - 144) as int)
        }),
{
    let ghost l = original_code@.len() as int;
    let ghost p = lib_path.spec_bytes().len() as int;
    let a = second_data(second_code(original_code), original_code, original_ip, lib_path, dlopen);
    let ghost code = a.code();
    proof {
        reveal_strlit("mem_path");
        reveal_strlit("original_code");
        reveal_strlit("original_ip");
        reveal_strlit("lib_path");
        reveal_strlit("dlopen_addr");
        assert("mem_path"@.len() != "original_code"@.len());
        assert("mem_path"@ != "original_code"@);
        assert("mem_path"@.len() != "original_ip"@.len());
        assert("mem_path"@ != "original_ip"@);
        assert("mem_path"@[0] != "lib_path"@[0]);
        assert("mem_path"@ != "lib_path"@);
        assert("mem_path"@.len() != "dlopen_addr"@.len());
        assert("mem_path"@ != "dlopen_addr"@);
        assert("original_code"@.len() != "original_ip"@.len());
        assert("original_code"@ != "original_ip"@);
        assert("original_code"@.len() != "lib_path"@.len());
        assert("original_code"@ != "lib_path"@);
        assert("original_code"@.len() != "dlopen_addr"@.len());
        assert("original_code"@ != "dlopen_addr"@);
        assert("original_ip"@.len() != "lib_path"@.len());
        assert("original_ip"@ != "lib_path"@);
        assert("original_ip"@[0] != "dlopen_addr"@[0]);
        assert("original_ip"@ != "dlopen_addr"@);
        assert("lib_path"@.len() != "dlopen_addr"@.len());
        assert("lib_path"@ != "dlopen_addr"@);
        assert(ip_at(l) % 4 == 0);
        assert(addr_at(l, p) % 4 == 0);
        assert(a.resolvable());
    }
    let r = a.build();
    proof {
        assert(a.relocs()[0] == (8usize, Op::Adrl(Reg::X1, "mem_path")));
        assert(r@.subrange(8, 12) == Op::Adrl(Reg::X1, "mem_path").spec_enc(8, 152));
        crate::arm64::lemma_adr_reaches_label(Reg::X1, "mem_path", 0, 8, 152);
        assert(a.relocs()[1] == (36usize, Op::Adrl(Reg::X1, "original_code")));
        assert(r@.subrange(36, 40) == Op::Adrl(Reg::X1, "original_code").spec_enc(36, 168));
        crate::arm64::lemma_adr_reaches_label(Reg::X1, "original_code", 0, 36, 168);
        assert(a.relocs()[2] == (44usize, Op::Ldrl(Reg::X3, "original_ip")));
        assert(r@.subrange(44, 48) == Op::Ldrl(Reg::X3, "original_ip").spec_enc(44, ip_at(l)));
        assert(a.relocs()[3] == (64usize, Op::Adrl(Reg::X0, "lib_path")));
        assert(r@.subrange(64, 68) == Op::Adrl(Reg::X0, "lib_path").spec_enc(64, ip_at(l) + 8));
        crate::arm64::lemma_adr_reaches_label(Reg::X0, "lib_path", 0, 64, ip_at(l) + 8);
        assert(a.relocs()[4] == (72usize, Op::Ldrl(Reg::X28, "dlopen_addr")));
        assert(r@.subrange(72, 76) == Op::Ldrl(Reg::X28, "dlopen_addr").spec_enc(72, addr_at(l, p)));
        assert(a.relocs()[5] == (144usize, Op::Ldrl(Reg::X28, "original_ip")));
        assert(r@.subrange(144, 148) == Op::Ldrl(Reg::X28, "original_ip").spec_enc(144, ip_at(l)));
        assert(a.slots_end() <= 152);
        lemma_same_range(r@, code, 152, 167);
        lemma_same_range(r@, code, 168, 168 + l);
        lemma_same_range(r@, code, ip_at(l), ip_at(l) + 8);
        lemma_same_range(r@, code, ip_at(l) + 8, ip_at(l) + 8 + p);
        lemma_same_range(r@, code, addr_at(l, p), addr_at(l, p) + 8);
        assert(r@[ip_at(l) + 8 + p] == code[ip_at(l) + 8 + p]);
    }
    r
}

} // verus!
