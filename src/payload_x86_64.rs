//! The payloads for x86-64 targets.

use crate::payloads::{mem_path, mem_path_bytes};
use crate::proc::{ProcSym, VirtAddr};
use crate::tiny_asm::{assemble, le32, le64, lemma_same_range, zeros, Encodable};
use crate::x86_64::{rip_relative_target, Op, TinyAsm};
use vstd::prelude::*;
use vstd::string::StringSliceAdditionalSpecFns;

verus! {

/// The length of the stage-one code, which the stage-two path follows.
pub const FIRST_CODE_LEN: usize = 137;

/// The stage-one code, instruction by instruction; each label reference is a
/// four-byte slot of zeros that `build` fills.
pub open spec fn first_code() -> Seq<u8> {
    Seq::<u8>::empty()
        // push rax
        + [0x50u8]@
        // push rbx
        + [0x53u8]@
        // push rcx
        + [0x51u8]@
        // push rdx
        + [0x52u8]@
        // push rbp
        + [0x55u8]@
        // push rsi
        + [0x56u8]@
        // push rdi
        + [0x57u8]@
        // push r8
        + [0x41u8, 0x50u8]@
        // push r9
        + [0x41u8, 0x51u8]@
        // push r10
        + [0x41u8, 0x52u8]@
        // push r11
        + [0x41u8, 0x53u8]@
        // push r12
        + [0x41u8, 0x54u8]@
        // push r13
        + [0x41u8, 0x55u8]@
        // push r14
        + [0x41u8, 0x56u8]@
        // push r15
        + [0x41u8, 0x57u8]@
        // mov rax, 2
        + [0x48u8, 0xc7u8, 0xc0u8, 0x02u8, 0x00u8, 0x00u8, 0x00u8]@
        // lea rdi, [rip + second_payload_path]
        + [0x48u8, 0x8du8, 0x3du8]@
        + zeros(4)
        // mov rsi, 0
        + [0x48u8, 0xc7u8, 0xc6u8, 0x00u8, 0x00u8, 0x00u8, 0x00u8]@
        // mov rdx, 0
        + [0x48u8, 0xc7u8, 0xc2u8, 0x00u8, 0x00u8, 0x00u8, 0x00u8]@
        // syscall
        + [0x0fu8, 0x05u8]@
        // mov r14, rax
        + [0x49u8, 0x89u8, 0xc6u8]@
        // mov rax, 9
        + [0x48u8, 0xc7u8, 0xc0u8, 0x09u8, 0x00u8, 0x00u8, 0x00u8]@
        // mov rdi, 0
        + [0x48u8, 0xc7u8, 0xc7u8, 0x00u8, 0x00u8, 0x00u8, 0x00u8]@
        // mov rsi, 512
        + [0x48u8, 0xc7u8, 0xc6u8, 0x00u8, 0x02u8, 0x00u8, 0x00u8]@
        // mov rdx, 1 | 4
        + [0x48u8, 0xc7u8, 0xc2u8, 0x05u8, 0x00u8, 0x00u8, 0x00u8]@
        // mov r10, 2
        + [0x49u8, 0xc7u8, 0xc2u8, 0x02u8, 0x00u8, 0x00u8, 0x00u8]@
        // mov r8, r14
        + [0x4du8, 0x89u8, 0xf0u8]@
        // mov r9, 0
        + [0x49u8, 0xc7u8, 0xc1u8, 0x00u8, 0x00u8, 0x00u8, 0x00u8]@
        // syscall
        + [0x0fu8, 0x05u8]@
        // mov r15, rax
        + [0x49u8, 0x89u8, 0xc7u8]@
        // mov rax, 3
        + [0x48u8, 0xc7u8, 0xc0u8, 0x03u8, 0x00u8, 0x00u8, 0x00u8]@
        // mov rdi, r14
        + [0x4cu8, 0x89u8, 0xf7u8]@
        // syscall
        + [0x0fu8, 0x05u8]@
        // mov rax, 87
        + [0x48u8, 0xc7u8, 0xc0u8, 0x57u8, 0x00u8, 0x00u8, 0x00u8]@
        // lea rdi, [rip + second_payload_path]
        + [0x48u8, 0x8du8, 0x3du8]@
        + zeros(4)
        // syscall
        + [0x0fu8, 0x05u8]@
        // jmp r15
        + [0x41u8, 0xffu8, 0xe7u8]@
}

/// Stage one for the stage-two file at `path`: the code followed by the
/// NUL-terminated path, both references to the path resolved.
pub open spec fn first_image(path: Seq<u8>) -> Seq<u8> {
    assemble(
        first_code() + path + seq![0u8],
        seq![
            (33usize, Op::Refl("second_payload_path")),
            (128usize, Op::Refl("second_payload_path")),
        ],
        Map::<Seq<char>, nat>::empty().insert("second_payload_path"@, FIRST_CODE_LEN as nat),
    )
}

/// Stage one: saves the general-purpose registers, opens the stage-two file at
/// `second_payload_path`, maps 512 bytes of it read+exec+private, closes and
/// unlinks it, and jumps to the mapping. The path follows the code, NUL-terminated.
pub fn gen_first(second_payload_path: &str) -> (r: Vec<u8>)
    requires
        second_payload_path.spec_bytes().len() + FIRST_CODE_LEN + 1 <= usize::MAX,
    ensures
        r@ == first_image(second_payload_path.spec_bytes()),
        r@.len() == FIRST_CODE_LEN + second_payload_path.spec_bytes().len() + 1,
        r@.subrange(FIRST_CODE_LEN as int, r@.len() as int) == second_payload_path.spec_bytes()
            + seq![0u8],
        // the operands of `open` and `unlink` refer to the path
        rip_relative_target(r@.subrange(33, 37), 33) == FIRST_CODE_LEN,
        rip_relative_target(r@.subrange(128, 132), 128) == FIRST_CODE_LEN,
        // the system calls: open (2), mmap (9), close (3), unlink (87)
        r@.subrange(23, 30) == seq![0x48u8, 0xc7u8, 0xc0u8, 0x02u8, 0x00u8, 0x00u8, 0x00u8],
        r@.subrange(56, 63) == seq![0x48u8, 0xc7u8, 0xc0u8, 0x09u8, 0x00u8, 0x00u8, 0x00u8],
        r@.subrange(106, 113) == seq![0x48u8, 0xc7u8, 0xc0u8, 0x03u8, 0x00u8, 0x00u8, 0x00u8],
        r@.subrange(118, 125) == seq![0x48u8, 0xc7u8, 0xc0u8, 0x57u8, 0x00u8, 0x00u8, 0x00u8],
{
    let a = TinyAsm::new()
        //
        // Push every general purpose register.
        //
        // push rax
        .instr([0x50])
        // push rbx
        .instr([0x53])
        // push rcx
        .instr([0x51])
        // push rdx
        .instr([0x52])
        // push rbp
        .instr([0x55])
        // push rsi
        .instr([0x56])
        // push rdi
        .instr([0x57])
        // push r8
        .instr([0x41, 0x50])
        // push r9
        .instr([0x41, 0x51])
        // push r10
        .instr([0x41, 0x52])
        // push r11
        .instr([0x41, 0x53])
        // push r12
        .instr([0x41, 0x54])
        // push r13
        .instr([0x41, 0x55])
        // push r14
        .instr([0x41, 0x56])
        // push r15
        .instr([0x41, 0x57])
        //
        // Open second payload file
        //
        // mov rax, 2
        .instr([0x48, 0xc7, 0xc0, 0x02, 0x00, 0x00, 0x00])
        // lea rdi, [rip + second_payload_path]
        .instr_with_ref([0x48, 0x8d, 0x3d], "second_payload_path")
        // mov rsi, 0
        .instr([0x48, 0xc7, 0xc6, 0x00, 0x00, 0x00, 0x00])
        // mov rdx, 0
        .instr([0x48, 0xc7, 0xc2, 0x00, 0x00, 0x00, 0x00])
        // syscall
        .instr([0x0f, 0x05])
        //
        // Second payload file descriptor
        //
        // mov r14, rax
        .instr([0x49, 0x89, 0xc6])
        //
        // Map the Second payload file to memory
        //
        // mov rax, 9
        .instr([0x48, 0xc7, 0xc0, 0x09, 0x00, 0x00, 0x00])
        // mov rdi, 0
        .instr([0x48, 0xc7, 0xc7, 0x00, 0x00, 0x00, 0x00])
        // mov rsi, 512
        .instr([0x48, 0xc7, 0xc6, 0x00, 0x02, 0x00, 0x00])
        // mov rdx, 1 | 4
        .instr([0x48, 0xc7, 0xc2, 0x05, 0x00, 0x00, 0x00])
        // mov r10, 2
        .instr([0x49, 0xc7, 0xc2, 0x02, 0x00, 0x00, 0x00])
        // mov r8, r14
        .instr([0x4d, 0x89, 0xf0])
        // mov r9, 0
        .instr([0x49, 0xc7, 0xc1, 0x00, 0x00, 0x00, 0x00])
        // syscall
        .instr([0x0f, 0x05])
        //
        // Second payload code virtual address
        //
        // mov r15, rax
        .instr([0x49, 0x89, 0xc7])
        //
        // Close Second payload file
        //
        // mov rax, 3
        .instr([0x48, 0xc7, 0xc0, 0x03, 0x00, 0x00, 0x00])
        // mov rdi, r14
        .instr([0x4c, 0x89, 0xf7])
        // syscall
        .instr([0x0f, 0x05])
        //
        // Delete Second payload file.
        // Will fail on Android apps.
        //
        // mov rax, 87
        .instr([0x48, 0xc7, 0xc0, 0x57, 0x00, 0x00, 0x00])
        // lea rdi, [rip + second_payload_path]
        .instr_with_ref([0x48, 0x8d, 0x3d], "second_payload_path")
        // syscall
        .instr([0x0f, 0x05])
        //
        // Execute second payload code.
        //
        // jmp r15
        .instr([0x41, 0xff, 0xe7])
        //
        // Data
        //
        .label("second_payload_path")
        .asciiz(second_payload_path);
    let ghost code = a.code();
    proof {
        reveal_strlit("second_payload_path");
        assert(code == first_code() + second_payload_path.spec_bytes() + seq![0u8]);
        assert(a.relocs() =~= seq![
            (33usize, Op::Refl("second_payload_path")),
            (128usize, Op::Refl("second_payload_path")),
        ]);
        assert(a.labels() =~= Map::<Seq<char>, nat>::empty().insert("second_payload_path"@, FIRST_CODE_LEN as nat));
        assert(a.relocs()[0] == (33usize, Op::Refl("second_payload_path")));
        assert(a.relocs()[1] == (128usize, Op::Refl("second_payload_path")));
        assert(a.relocs().len() == 2);
    }
    let r = a.build();
    proof {
        crate::x86_64::lemma_ref_reaches_label("second_payload_path", 0, 33, 137);
        crate::x86_64::lemma_ref_reaches_label("second_payload_path", 0, 128, 137);
        assert forall|i: int| FIRST_CODE_LEN <= i < r@.len() implies r@[i] == code[i] by {
            assert(!a.in_slot(i));
        }
        assert(r@.subrange(FIRST_CODE_LEN as int, r@.len() as int) =~= second_payload_path.spec_bytes()
            + seq![0u8]);
        assert(forall|i: int| 23 <= i < 30 ==> !a.in_slot(i));
        assert(r@.subrange(23, 30) =~= code.subrange(23, 30));
        assert(code.subrange(23, 30) =~= seq![0x48u8, 0xc7u8, 0xc0u8, 0x02u8, 0x00u8, 0x00u8, 0x00u8]);
        assert(forall|i: int| 56 <= i < 63 ==> !a.in_slot(i));
        assert(r@.subrange(56, 63) =~= code.subrange(56, 63));
        assert(code.subrange(56, 63) =~= seq![0x48u8, 0xc7u8, 0xc0u8, 0x09u8, 0x00u8, 0x00u8, 0x00u8]);
        assert(forall|i: int| 106 <= i < 113 ==> !a.in_slot(i));
        assert(r@.subrange(106, 113) =~= code.subrange(106, 113));
        assert(code.subrange(106, 113) =~= seq![0x48u8, 0xc7u8, 0xc0u8, 0x03u8, 0x00u8, 0x00u8, 0x00u8]);
        assert(forall|i: int| 118 <= i < 125 ==> !a.in_slot(i));
        assert(r@.subrange(118, 125) =~= code.subrange(118, 125));
        assert(code.subrange(118, 125) =~= seq![0x48u8, 0xc7u8, 0xc0u8, 0x57u8, 0x00u8, 0x00u8, 0x00u8]);
    }
    r
}

/// The length of the stage-two code, which the data follows.
pub const SECOND_CODE_LEN: usize = 137;

/// The stage-two code, instruction by instruction; each label reference is a
/// four-byte slot of zeros that `build` fills.
pub open spec fn second_code_listing() -> Seq<u8> {
    Seq::<u8>::empty()
        // mov rax, 2
        + [0x48u8, 0xc7u8, 0xc0u8, 0x02u8, 0x00u8, 0x00u8, 0x00u8]@
        // lea rdi, [rip + proc_self_mem]
        + [0x48u8, 0x8du8, 0x3du8]@
        + zeros(4)
        // mov rsi, 2
        + [0x48u8, 0xc7u8, 0xc6u8, 0x02u8, 0x00u8, 0x00u8, 0x00u8]@
        // mov rdx, 0
        + [0x48u8, 0xc7u8, 0xc2u8, 0x00u8, 0x00u8, 0x00u8, 0x00u8]@
        // syscall
        + [0x0fu8, 0x05u8]@
        // mov r15, rax
        + [0x49u8, 0x89u8, 0xc7u8]@
        // mov rax, 18
        + [0x48u8, 0xc7u8, 0xc0u8, 0x12u8, 0x00u8, 0x00u8, 0x00u8]@
        // mov rdi, r15
        + [0x4cu8, 0x89u8, 0xffu8]@
        // lea rsi, [rip + original_code]
        + [0x48u8, 0x8du8, 0x35u8]@
        + zeros(4)
        // mov rdx, [rip + original_code_len]
        + [0x48u8, 0x8bu8, 0x15u8]@
        + zeros(4)
        // mov r10, [rip + original_ip]
        + [0x4cu8, 0x8bu8, 0x15u8]@
        + zeros(4)
        // syscall
        + [0x0fu8, 0x05u8]@
        // mov rax, 3
        + [0x48u8, 0xc7u8, 0xc0u8, 0x03u8, 0x00u8, 0x00u8, 0x00u8]@
        // mov rdi, r15
        + [0x4cu8, 0x89u8, 0xffu8]@
        // syscall
        + [0x0fu8, 0x05u8]@
        // mov rbp, rsp
        + [0x48u8, 0x89u8, 0xe5u8]@
        // and rsp, -16
        + [0x48u8, 0x83u8, 0xe4u8, 0xf0u8]@
        // lea rdi, [rip + lib_path])
        + [0x48u8, 0x8du8, 0x3du8]@
        + zeros(4)
        // mov rsi, 1
        + [0x48u8, 0xc7u8, 0xc6u8, 0x01u8, 0x00u8, 0x00u8, 0x00u8]@
        // call [rip + dlopen_addr]
        + [0xffu8, 0x15u8]@
        + zeros(4)
        // mov rsp, rbp
        + [0x48u8, 0x89u8, 0xecu8]@
        // pop r15
        + [0x41u8, 0x5fu8]@
        // pop r14
        + [0x41u8, 0x5eu8]@
        // pop r13
        + [0x41u8, 0x5du8]@
        // pop r12
        + [0x41u8, 0x5cu8]@
        // pop r11
        + [0x41u8, 0x5bu8]@
        // pop r10
        + [0x41u8, 0x5au8]@
        // pop r9
        + [0x41u8, 0x59u8]@
        // pop r8
        + [0x41u8, 0x58u8]@
        // pop rdi
        + [0x5fu8]@
        // pop rsi
        + [0x5eu8]@
        // pop rbp
        + [0x5du8]@
        // pop rdx
        + [0x5au8]@
        // pop rcx
        + [0x59u8]@
        // pop rbx
        + [0x5bu8]@
        // pop rax
        + [0x58u8]@
        // jmp [rip + original_ip]
        + [0xffu8, 0x25u8]@
        + zeros(4)
}

/// The stage-two code, its label references pending.
fn second_code() -> (a: TinyAsm)
    ensures
        a.wf(),
        a.code() == second_code_listing(),
        a.code().len() == SECOND_CODE_LEN,
        a.labels() == Map::<Seq<char>, nat>::empty(),
        a.relocs() == seq![
            (10usize, Op::Refl("mem_path")),
            (46usize, Op::Refl("original_code")),
            (53usize, Op::Refl("original_code_len")),
            (60usize, Op::Refl("original_ip")),
            (88usize, Op::Refl("lib_path")),
            (101usize, Op::Refl("dlopen_addr")),
            (133usize, Op::Refl("original_ip")),
        ],
        // the system calls: open (2), pwrite (18), close (3)
        a.code().subrange(0, 7) == seq![0x48u8, 0xc7u8, 0xc0u8, 0x02u8, 0x00u8, 0x00u8, 0x00u8],
        a.code().subrange(33, 40) == seq![0x48u8, 0xc7u8, 0xc0u8, 0x12u8, 0x00u8, 0x00u8, 0x00u8],
        a.code().subrange(66, 73) == seq![0x48u8, 0xc7u8, 0xc0u8, 0x03u8, 0x00u8, 0x00u8, 0x00u8],
{
    let a = TinyAsm::new()
        //
        // Open memory file
        //
        // mov rax, 2
        .instr([0x48, 0xc7, 0xc0, 0x02, 0x00, 0x00, 0x00])
        // lea rdi, [rip + proc_self_mem]
        .instr_with_ref([0x48, 0x8d, 0x3d], "mem_path")
        // mov rsi, 2
        .instr([0x48, 0xc7, 0xc6, 0x02, 0x00, 0x00, 0x00])
        // mov rdx, 0
        .instr([0x48, 0xc7, 0xc2, 0x00, 0x00, 0x00, 0x00])
        // syscall
        .instr([0x0f, 0x05])
        //
        // Memory file descriptor
        //
        // mov r15, rax
        .instr([0x49, 0x89, 0xc7])
        //
        // Restore the original code
        //
        // mov rax, 18
        .instr([0x48, 0xc7, 0xc0, 0x12, 0x00, 0x00, 0x00])
        // mov rdi, r15
        .instr([0x4c, 0x89, 0xff])
        // lea rsi, [rip + original_code]
        .instr_with_ref([0x48, 0x8d, 0x35], "original_code")
        // mov rdx, [rip + original_code_len]
        .instr_with_ref([0x48, 0x8b, 0x15], "original_code_len")
        // mov r10, [rip + original_ip]
        .instr_with_ref([0x4c, 0x8b, 0x15], "original_ip")
        // syscall
        .instr([0x0f, 0x05])
        //
        // Close memory file.
        //
        // mov rax, 3
        .instr([0x48, 0xc7, 0xc0, 0x03, 0x00, 0x00, 0x00])
        // mov rdi, r15
        .instr([0x4c, 0x89, 0xff])
        // syscall
        .instr([0x0f, 0x05])
        //
        // Align the stack to a 16 byte boundary
        //
        // mov rbp, rsp
        .instr([0x48, 0x89, 0xe5])
        // and rsp, -16
        .instr([0x48, 0x83, 0xe4, 0xf0])
        //
        // Call dlopen
        //
        // lea rdi, [rip + lib_path])
        .instr_with_ref([0x48, 0x8d, 0x3d], "lib_path")
        // mov rsi, 1
        .instr([0x48, 0xc7, 0xc6, 0x01, 0x00, 0x00, 0x00])
        // call [rip + dlopen_addr]
        .instr_with_ref([0xff, 0x15], "dlopen_addr")
        //
        // Restore the stack
        //
        // mov rsp, rbp
        .instr([0x48, 0x89, 0xec])
        //
        // Pop every previously pushed register
        //
        // pop r15
        .instr([0x41, 0x5f])
        // pop r14
        .instr([0x41, 0x5e])
        // pop r13
        .instr([0x41, 0x5d])
        // pop r12
        .instr([0x41, 0x5c])
        // pop r11
        .instr([0x41, 0x5b])
        // pop r10
        .instr([0x41, 0x5a])
        // pop r9
        .instr([0x41, 0x59])
        // pop r8
        .instr([0x41, 0x58])
        // pop rdi
        .instr([0x5f])
        // pop rsi
        .instr([0x5e])
        // pop rbp
        .instr([0x5d])
        // pop rdx
        .instr([0x5a])
        // pop rcx
        .instr([0x59])
        // pop rbx
        .instr([0x5b])
        // pop rax
        .instr([0x58])
        //
        // Restore the original execution flow
        //
        // jmp [rip + original_ip]
        .instr_with_ref([0xff, 0x25], "original_ip");
    assert(a.relocs() =~= seq![
        (10usize, Op::Refl("mem_path")),
        (46usize, Op::Refl("original_code")),
        (53usize, Op::Refl("original_code_len")),
        (60usize, Op::Refl("original_ip")),
        (88usize, Op::Refl("lib_path")),
        (101usize, Op::Refl("dlopen_addr")),
        (133usize, Op::Refl("original_ip")),
    ]);
    assert(a.code().subrange(0, 7) =~= seq![0x48u8, 0xc7u8, 0xc0u8, 0x02u8, 0x00u8, 0x00u8, 0x00u8]);
    assert(a.code().subrange(33, 40) =~= seq![0x48u8, 0xc7u8, 0xc0u8, 0x12u8, 0x00u8, 0x00u8, 0x00u8]);
    assert(a.code().subrange(66, 73) =~= seq![0x48u8, 0xc7u8, 0xc0u8, 0x03u8, 0x00u8, 0x00u8, 0x00u8]);
    a
}

/// The stage-two data, each datum under its label.
fn second_data(
    a: TinyAsm,
    original_code: &[u8],
    original_ip: VirtAddr,
    lib_path: &str,
    dlopen: &ProcSym,
) -> (r: TinyAsm)
    requires
        a.wf(),
        a.labels() == Map::<Seq<char>, nat>::empty(),
    ensures
        r.wf(),
        r.relocs() == a.relocs(),
        r.code() == a.code() + mem_path() + original_code@ + le64(original_code@.len() as int) + le64(
            original_ip as int,
        ) + lib_path.spec_bytes() + seq![0u8] + le64(dlopen.addr as int),
        ({
            let n = a.code().len() as int;
            let l = original_code@.len() as int;
            let p = lib_path.spec_bytes().len() as int;
            &&& r.code().len() == n + 40 + l + p
            &&& r.code().subrange(0, n) == a.code()
            &&& r.code().subrange(n, n + 15) == mem_path()
            &&& r.code().subrange(n + 15, n + 15 + l) == original_code@
            &&& r.code().subrange(n + 15 + l, n + 23 + l) == le64(l)
            &&& r.code().subrange(n + 23 + l, n + 31 + l) == le64(original_ip as int)
            &&& r.code().subrange(n + 31 + l, n + 31 + l + p) == lib_path.spec_bytes()
            &&& r.code()[n + 31 + l + p] == 0
            &&& r.code().subrange(n + 32 + l + p, n + 40 + l + p) == le64(dlopen.addr as int)
        }),
        ({
            let n = a.code().len() as int;
            let l = original_code@.len() as int;
            let p = lib_path.spec_bytes().len() as int;
            r.labels() == Map::<Seq<char>, nat>::empty().insert("mem_path"@, n as nat).insert(
                "original_code"@,
                (n + 15) as nat,
            ).insert("original_code_len"@, (n + 15 + l) as nat).insert(
                "original_ip"@,
                (n + 23 + l) as nat,
            ).insert("lib_path"@, (n + 31 + l) as nat).insert("dlopen_addr"@, (n + 32 + l + p) as nat)
        }),
{
    proof {
        reveal_strlit("mem_path");
        reveal_strlit("original_code");
        reveal_strlit("original_code_len");
        reveal_strlit("original_ip");
        reveal_strlit("lib_path");
        reveal_strlit("dlopen_addr");
        assert("mem_path"@.len() != "original_code"@.len());
        assert("mem_path"@ != "original_code"@);
        assert("mem_path"@.len() != "original_code_len"@.len());
        assert("mem_path"@ != "original_code_len"@);
        assert("mem_path"@.len() != "original_ip"@.len());
        assert("mem_path"@ != "original_ip"@);
        assert("mem_path"@[0] != "lib_path"@[0]);
        assert("mem_path"@ != "lib_path"@);
        assert("mem_path"@.len() != "dlopen_addr"@.len());
        assert("mem_path"@ != "dlopen_addr"@);
        assert("original_code"@.len() != "original_code_len"@.len());
        assert("original_code"@ != "original_code_len"@);
        assert("original_code"@.len() != "original_ip"@.len());
        assert("original_code"@ != "original_ip"@);
        assert("original_code"@.len() != "lib_path"@.len());
        assert("original_code"@ != "lib_path"@);
        assert("original_code"@.len() != "dlopen_addr"@.len());
        assert("original_code"@ != "dlopen_addr"@);
        assert("original_code_len"@.len() != "original_ip"@.len());
        assert("original_code_len"@ != "original_ip"@);
        assert("original_code_len"@.len() != "lib_path"@.len());
        assert("original_code_len"@ != "lib_path"@);
        assert("original_code_len"@.len() != "dlopen_addr"@.len());
        assert("original_code_len"@ != "dlopen_addr"@);
        assert("original_ip"@.len() != "lib_path"@.len());
        assert("original_ip"@ != "lib_path"@);
        assert("original_ip"@[0] != "dlopen_addr"@[0]);
        assert("original_ip"@ != "dlopen_addr"@);
        assert("lib_path"@.len() != "dlopen_addr"@.len());
        assert("lib_path"@ != "dlopen_addr"@);
    }
    let ghost n = a.code().len() as int;
    let ghost l = original_code@.len() as int;
    let ghost p = lib_path.spec_bytes().len() as int;
    let r = a
        .label("mem_path")
        .bytes(&mem_path_bytes())
        .label("original_code")
        .bytes(original_code)
        .label("original_code_len")
        .qword(original_code.len() as u64)
        .label("original_ip")
        .qword(original_ip)
        .label("lib_path")
        .asciiz(lib_path)
        .label("dlopen_addr")
        .qword(dlopen.addr);
    r
}

/// Stage two for `original_code` taken from `original_ip`, the library at
/// `lib_path` and the loader at `dlopen_addr`: the code followed by its data,
/// every reference resolved.
pub open spec fn second_image(original_code: Seq<u8>, original_ip: VirtAddr, lib_path: Seq<u8>, dlopen_addr: VirtAddr) -> Seq<u8> {
    let l = original_code.len() as int;
    let p = lib_path.len() as int;
    assemble(
        second_code_listing() + mem_path() + original_code + le64(l) + le64(original_ip as int) + lib_path
            + seq![0u8] + le64(dlopen_addr as int),
        seq![
        (10usize, Op::Refl("mem_path")),
        (46usize, Op::Refl("original_code")),
        (53usize, Op::Refl("original_code_len")),
        (60usize, Op::Refl("original_ip")),
        (88usize, Op::Refl("lib_path")),
        (101usize, Op::Refl("dlopen_addr")),
        (133usize, Op::Refl("original_ip")),
        ],
        Map::<Seq<char>, nat>::empty().insert("mem_path"@, 137nat).insert("original_code"@, 152nat).insert(
            "original_code_len"@,
            (152 + l) as nat,
        ).insert("original_ip"@, (160 + l) as nat).insert("lib_path"@, (168 + l) as nat).insert(
            "dlopen_addr"@,
            (169 + l + p) as nat,
        ),
    )
}

/// Stage two: opens `/proc/self/mem` read+write, writes `original_code` back
/// at `original_ip` with `pwrite`, closes it, aligns the stack to 16 bytes,
/// calls the loader at `dlopen.addr` with `(lib_path, 1)`, restores the
/// registers stage one saved and jumps back to `original_ip`. The data after
/// the code: `/proc/self/mem`, the original bytes, their length, the
/// instruction pointer, the library path and the loader address.
#[verifier::rlimit(100)]
pub fn gen_second(original_code: &[u8], original_ip: VirtAddr, lib_path: &str, dlopen: &ProcSym) -> (r:
    Vec<u8>)
    requires
        original_code@.len() + lib_path.spec_bytes().len() <= 0x7000_0000,
    ensures
        r@ == second_image(original_code@, original_ip, lib_path.spec_bytes(), dlopen.addr),
        ({
            let l = original_code@.len() as int;
            let p = lib_path.spec_bytes().len() as int;
            &&& r@.len() == 177 + l + p
            &&& r@.subrange(137, 152) == mem_path()
            &&& r@.subrange(152, 152 + l) == original_code@
            &&& r@.subrange(152 + l, 160 + l) == le64(l)
            &&& r@.subrange(160 + l, 168 + l) == le64(original_ip as int)
            &&& r@.subrange(168 + l, 168 + l + p) == lib_path.spec_bytes()
            &&& r@[168 + l + p] == 0
            &&& r@.subrange(169 + l + p, 177 + l + p) == le64(dlopen.addr as int)
            // each operand refers to its datum
            &&& rip_relative_target(r@.subrange(10, 14), 10) == 137
            &&& rip_relative_target(r@.subrange(46, 50), 46) == 152
            &&& rip_relative_target(r@.subrange(53, 57), 53) == 152 + l
            &&& rip_relative_target(r@.subrange(60, 64), 60) == 160 + l
            &&& rip_relative_target(r@.subrange(88, 92), 88) == 168 + l
            &&& rip_relative_target(r@.subrange(101, 105), 101) == 169 + l + p
            &&& rip_relative_target(r@.subrange(133, 137), 133) == 160 + l
            // the system calls: open (2), pwrite (18), close (3)
            &&& r@.subrange(0, 7) == seq![0x48u8, 0xc7u8, 0xc0u8, 0x02u8, 0x00u8, 0x00u8, 0x00u8]
            &&& r@.subrange(33, 40) == seq![0x48u8, 0xc7u8, 0xc0u8, 0x12u8, 0x00u8, 0x00u8, 0x00u8]
            &&& r@.subrange(66, 73) == seq![0x48u8, 0xc7u8, 0xc0u8, 0x03u8, 0x00u8, 0x00u8, 0x00u8]
        }),
{
    let ghost l = original_code@.len() as int;
    let ghost p = lib_path.spec_bytes().len() as int;
    let c = second_code();
    let ghost cc = c.code();
    let a = second_data(c, original_code, original_ip, lib_path, dlopen);
    let ghost code = a.code();
    proof {
        reveal_strlit("mem_path");
        reveal_strlit("original_code");
        reveal_strlit("original_code_len");
        reveal_strlit("original_ip");
        reveal_strlit("lib_path");
        reveal_strlit("dlopen_addr");
        assert("mem_path"@.len() != "original_code"@.len());
        assert("mem_path"@ != "original_code"@);
        assert("mem_path"@.len() != "original_code_len"@.len());
        assert("mem_path"@ != "original_code_len"@);
        assert("mem_path"@.len() != "original_ip"@.len());
        assert("mem_path"@ != "original_ip"@);
        assert("mem_path"@[0] != "lib_path"@[0]);
        assert("mem_path"@ != "lib_path"@);
        assert("mem_path"@.len() != "dlopen_addr"@.len());
        assert("mem_path"@ != "dlopen_addr"@);
        assert("original_code"@.len() != "original_code_len"@.len());
        assert("original_code"@ != "original_code_len"@);
        assert("original_code"@.len() != "original_ip"@.len());
        assert("original_code"@ != "original_ip"@);
        assert("original_code"@.len() != "lib_path"@.len());
        assert("original_code"@ != "lib_path"@);
        assert("original_code"@.len() != "dlopen_addr"@.len());
        assert("original_code"@ != "dlopen_addr"@);
        assert("original_code_len"@.len() != "original_ip"@.len());
        assert("original_code_len"@ != "original_ip"@);
        assert("original_code_len"@.len() != "lib_path"@.len());
        assert("original_code_len"@ != "lib_path"@);
        assert("original_code_len"@.len() != "dlopen_addr"@.len());
        assert("original_code_len"@ != "dlopen_addr"@);
        assert("original_ip"@.len() != "lib_path"@.len());
        assert("original_ip"@ != "lib_path"@);
        assert("original_ip"@[0] != "dlopen_addr"@[0]);
        assert("original_ip"@ != "dlopen_addr"@);
        assert("lib_path"@.len() != "dlopen_addr"@.len());
        assert("lib_path"@ != "dlopen_addr"@);
        assert(a.resolvable());
    }
    let r = a.build();
    proof {
        assert(a.relocs()[0] == (10usize, Op::Refl("mem_path")));
        assert(r@.subrange(10, 14) == Op::Refl("mem_path").spec_enc(10, 137));
        crate::x86_64::lemma_ref_reaches_label("mem_path", 0, 10, 137);
        assert(a.relocs()[1] == (46usize, Op::Refl("original_code")));
        assert(r@.subrange(46, 50) == Op::Refl("original_code").spec_enc(46, 152));
        crate::x86_64::lemma_ref_reaches_label("original_code", 0, 46, 152);
        assert(a.relocs()[2] == (53usize, Op::Refl("original_code_len")));
        assert(r@.subrange(53, 57) == Op::Refl("original_code_len").spec_enc(53, 152 + l));
        crate::x86_64::lemma_ref_reaches_label("original_code_len", 0, 53, 152 + l);
        assert(a.relocs()[3] == (60usize, Op::Refl("original_ip")));
        assert(r@.subrange(60, 64) == Op::Refl("original_ip").spec_enc(60, 160 + l));
        crate::x86_64::lemma_ref_reaches_label("original_ip", 0, 60, 160 + l);
        assert(a.relocs()[4] == (88usize, Op::Refl("lib_path")));
        assert(r@.subrange(88, 92) == Op::Refl("lib_path").spec_enc(88, 168 + l));
        crate::x86_64::lemma_ref_reaches_label("lib_path", 0, 88, 168 + l);
        assert(a.relocs()[5] == (101usize, Op::Refl("dlopen_addr")));
        assert(r@.subrange(101, 105) == Op::Refl("dlopen_addr").spec_enc(101, 169 + l + p));
        crate::x86_64::lemma_ref_reaches_label("dlopen_addr", 0, 101, 169 + l + p);
        assert(a.relocs()[6] == (133usize, Op::Refl("original_ip")));
        assert(r@.subrange(133, 137) == Op::Refl("original_ip").spec_enc(133, 160 + l));
        crate::x86_64::lemma_ref_reaches_label("original_ip", 0, 133, 160 + l);
        assert(a.slots_end() == 137);
        lemma_same_range(r@, code, 137, 152);
        lemma_same_range(r@, code, 152, 152 + l);
        lemma_same_range(r@, code, 152 + l, 160 + l);
        lemma_same_range(r@, code, 160 + l, 168 + l);
        lemma_same_range(r@, code, 168 + l, 168 + l + p);
        lemma_same_range(r@, code, 169 + l + p, 177 + l + p);
        assert(forall|i: int| 0 <= i < 7 ==> !a.in_slot(i));
        assert(code.subrange(0, 7) =~= cc.subrange(0, 7)) by {
            assert(code.subrange(0, 137) == cc);
        }
        assert(r@.subrange(0, 7) =~= code.subrange(0, 7));
        assert(forall|i: int| 33 <= i < 40 ==> !a.in_slot(i));
        assert(code.subrange(33, 40) =~= cc.subrange(33, 40)) by {
            assert(code.subrange(0, 137) == cc);
        }
        assert(r@.subrange(33, 40) =~= code.subrange(33, 40));
        assert(forall|i: int| 66 <= i < 73 ==> !a.in_slot(i));
        assert(code.subrange(66, 73) =~= cc.subrange(66, 73)) by {
            assert(code.subrange(0, 137) == cc);
        }
        assert(r@.subrange(66, 73) =~= code.subrange(66, 73));
    }
    r
}

} // verus!
