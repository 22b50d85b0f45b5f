//! The payloads for x86 targets. The code recovers its load address with a
//! call/pop pair; each label reference holds the label's offset in the payload.

use crate::payloads::{mem_path, mem_path_bytes};
use crate::proc::{ProcSym, VirtAddr};
use crate::tiny_asm::{assemble, le32, le_bytes, le_value, lemma_same_range, zeros, Encodable};
use crate::x86::{Op, TinyAsm};
use vstd::prelude::*;
use vstd::string::StringSliceAdditionalSpecFns;

verus! {

/// The length of the stage-one code, which the stage-two path follows.
pub const FIRST_CODE_LEN: usize = 114;

/// The stage-one code, instruction by instruction; each label reference is a
/// four-byte slot of zeros that `build` fills.
pub open spec fn first_code() -> Seq<u8> {
    Seq::<u8>::empty()
        // push eax
        + [0x50u8]@
        // push ebx
        + [0x53u8]@
        // push ecx
        + [0x51u8]@
        // push edx
        + [0x52u8]@
        // push ebp
        + [0x55u8]@
        // push esi
        + [0x56u8]@
        // push edi
        + [0x57u8]@
        // mov eax, 5
        + [0xb8u8, 0x05u8, 0x00u8, 0x00u8, 0x00u8]@
        // call 5
        + [0xe8u8, 0x00u8, 0x00u8, 0x00u8, 0x00u8]@
        // next1: pop ebx
        + [0x5bu8]@
        // sub ebx, next1
        + [0x81u8, 0xebu8]@
        + zeros(4)
        // add ebx, second_payload_path
        + [0x81u8, 0xc3u8]@
        + zeros(4)
        // mov ecx, 0
        + [0xb9u8, 0x00u8, 0x00u8, 0x00u8, 0x00u8]@
        // mov edx, 0
        + [0xbau8, 0x00u8, 0x00u8, 0x00u8, 0x00u8]@
        // int 0x80
        + [0xcdu8, 0x80u8]@
        // mov edi, eax
        + [0x89u8, 0xc7u8]@
        // mov eax, 192
        + [0xb8u8, 0xc0u8, 0x00u8, 0x00u8, 0x00u8]@
        // mov ebx, 0
        + [0xbbu8, 0x00u8, 0x00u8, 0x00u8, 0x00u8]@
        // mov ecx, 512
        + [0xb9u8, 0x00u8, 0x02u8, 0x00u8, 0x00u8]@
        // mov edx, 1 | 4
        + [0xbau8, 0x05u8, 0x00u8, 0x00u8, 0x00u8]@
        // mov esi, 2
        + [0xbeu8, 0x02u8, 0x00u8, 0x00u8, 0x00u8]@
        // mov ebp, 0
        + [0xbdu8, 0x00u8, 0x00u8, 0x00u8, 0x00u8]@
        // int 0x80
        + [0xcdu8, 0x80u8]@
        // mov ebp, eax
        + [0x89u8, 0xc5u8]@
        // mov eax, 6
        + [0xb8u8, 0x06u8, 0x00u8, 0x00u8, 0x00u8]@
        // mov ebx, edi
        + [0x89u8, 0xfbu8]@
        // int 0x80
        + [0xcdu8, 0x80u8]@
        // mov eax, 10
        + [0xb8u8, 0x0au8, 0x00u8, 0x00u8, 0x00u8]@
        // call 5
        + [0xe8u8, 0x00u8, 0x00u8, 0x00u8, 0x00u8]@
        // next2: pop ebx
        + [0x5bu8]@
        // sub ebx, next2
        + [0x81u8, 0xebu8]@
        + zeros(4)
        // add ebx, second_payload_path
        + [0x81u8, 0xc3u8]@
        + zeros(4)
        // int 0x80
        + [0xcdu8, 0x80u8]@
        // jmp ebp
        + [0xffu8, 0xe5u8]@
}

/// Stage one for the stage-two file at `path`: the code followed by the
/// NUL-terminated path, every reference resolved.
pub open spec fn first_image(path: Seq<u8>) -> Seq<u8> {
    assemble(
        first_code() + path + seq![0u8],
        seq![
            (20usize, Op::Ref("next1")),
            (26usize, Op::Ref("second_payload_path")),
            (100usize, Op::Ref("next2")),
            (106usize, Op::Ref("second_payload_path")),
        ],
        Map::<Seq<char>, nat>::empty().insert("next1"@, 17nat).insert("next2"@, 97nat).insert(
            "second_payload_path"@,
            114nat,
        ),
    )
}

/// Stage one: saves the general-purpose registers, opens the stage-two file at
/// `second_payload_path`, maps 512 bytes of it read+exec+private, closes and
/// unlinks it, and jumps to the mapping. The path follows the code, NUL-terminated.
#[verifier::rlimit(100)]
pub fn gen_first(second_payload_path: &str) -> (r: Vec<u8>)
    requires
        second_payload_path.spec_bytes().len() + FIRST_CODE_LEN + 1 <= usize::MAX,
    ensures
        r@ == first_image(second_payload_path.spec_bytes()),
        r@.len() == FIRST_CODE_LEN + second_payload_path.spec_bytes().len() + 1,
        r@.subrange(FIRST_CODE_LEN as int, r@.len() as int) == second_payload_path.spec_bytes()
            + seq![0u8],
        // the base-recovery labels and the path, for `open` and `unlink`
        le_value(r@.subrange(20, 24)) == 17,
        le_value(r@.subrange(26, 30)) == 114,
        le_value(r@.subrange(100, 104)) == 97,
        le_value(r@.subrange(106, 110)) == 114,
        // the system calls: open (5), mmap (192), close (6), unlink (10)
        r@.subrange(7, 12) == seq![0xb8u8, 0x05u8, 0x00u8, 0x00u8, 0x00u8],
        r@.subrange(44, 49) == seq![0xb8u8, 0xc0u8, 0x00u8, 0x00u8, 0x00u8],
        r@.subrange(78, 83) == seq![0xb8u8, 0x06u8, 0x00u8, 0x00u8, 0x00u8],
        r@.subrange(87, 92) == seq![0xb8u8, 0x0au8, 0x00u8, 0x00u8, 0x00u8],
{
    proof {
        reveal_strlit("next1");
        reveal_strlit("next2");
        reveal_strlit("second_payload_path");
        assert("next1"@[4] != "next2"@[4]);
        assert("next1"@ != "next2"@);
        assert("next1"@.len() != "second_payload_path"@.len());
        assert("next1"@ != "second_payload_path"@);
        assert("next2"@.len() != "second_payload_path"@.len());
        assert("next2"@ != "second_payload_path"@);
    }
    let a = TinyAsm::new()
        //
        // Push every general purpose register.
        //
        // push eax
        .instr([0x50])
        // push ebx
        .instr([0x53])
        // push ecx
        .instr([0x51])
        // push edx
        .instr([0x52])
        // push ebp
        .instr([0x55])
        // push esi
        .instr([0x56])
        // push edi
        .instr([0x57])
        //
        // Open second payload file.
        //
        // mov eax, 5
        .instr([0xb8, 0x05, 0x00, 0x00, 0x00])
        // call 5
        .instr([0xe8, 0x00, 0x00, 0x00, 0x00])
        // next1: pop ebx
        .label("next1")
        .instr([0x5b])
        // sub ebx, next1
        .instr_with_ref([0x81, 0xeb], "next1")
        // add ebx, second_payload_path
        .instr_with_ref([0x81, 0xc3], "second_payload_path")
        // mov ecx, 0
        .instr([0xb9, 0x00, 0x00, 0x00, 0x00])
        // mov edx, 0
        .instr([0xba, 0x00, 0x00, 0x00, 0x00])
        // int 0x80
        .instr([0xcd, 0x80])
        //
        // Second payload file descriptor.
        //
        // mov edi, eax
        .instr([0x89, 0xc7])
        //
        // Map the Second payload file to memory.
        //
        // mov eax, 192
        .instr([0xb8, 0xc0, 0x00, 0x00, 0x00])
        // mov ebx, 0
        .instr([0xbb, 0x00, 0x00, 0x00, 0x00])
        // mov ecx, 512
        .instr([0xb9, 0x00, 0x02, 0x00, 0x00])
        // mov edx, 1 | 4
        .instr([0xba, 0x05, 0x00, 0x00, 0x00])
        // mov esi, 2
        .instr([0xbe, 0x02, 0x00, 0x00, 0x00])
        // mov ebp, 0
        .instr([0xbd, 0x00, 0x00, 0x00, 0x00])
        // int 0x80
        .instr([0xcd, 0x80])
        //
        // Second payload code virtual address.
        //
        // mov ebp, eax
        .instr([0x89, 0xc5])
        //
        // Close Second payload file.
        //
        // mov eax, 6
        .instr([0xb8, 0x06, 0x00, 0x00, 0x00])
        // mov ebx, edi
        .instr([0x89, 0xfb])
        // int 0x80
        .instr([0xcd, 0x80])
        //
        // Delete Second payload file.
        // Will fail on Android apps.
        //
        // mov eax, 10
        .instr([0xb8, 0x0a, 0x00, 0x00, 0x00])
        // call 5
        .instr([0xe8, 0x00, 0x00, 0x00, 0x00])
        // next2: pop ebx
        .label("next2")
        .instr([0x5b])
        // sub ebx, next2
        .instr_with_ref([0x81, 0xeb], "next2")
        // add ebx, second_payload_path
        .instr_with_ref([0x81, 0xc3], "second_payload_path")
        // int 0x80
        .instr([0xcd, 0x80])
        //
        // Execute second payload code.
        //
        // jmp ebp
        .instr([0xff, 0xe5])
        //
        // Data
        //
        .label("second_payload_path")
        .asciiz(second_payload_path);
    let ghost code = a.code();
    proof {
        assert(a.relocs() =~= seq![
            (20usize, Op::Ref("next1")),
            (26usize, Op::Ref("second_payload_path")),
            (100usize, Op::Ref("next2")),
            (106usize, Op::Ref("second_payload_path")),
        ]);
        assert(a.labels() =~= Map::<Seq<char>, nat>::empty().insert("next1"@, 17nat).insert("next2"@, 97nat).insert(
            "second_payload_path"@,
            114nat,
        ));
    }
    let r = a.build();
    proof {
        assert(a.relocs()[0] == (20usize, Op::Ref("next1")));
        assert(r@.subrange(20, 24) == Op::Ref("next1").spec_enc(20, 17));
        crate::x86::lemma_ref_reaches_label("next1", 0, 20, 17);
        assert(a.relocs()[1] == (26usize, Op::Ref("second_payload_path")));
        assert(r@.subrange(26, 30) == Op::Ref("second_payload_path").spec_enc(26, 114));
        crate::x86::lemma_ref_reaches_label("second_payload_path", 0, 26, 114);
        assert(a.relocs()[2] == (100usize, Op::Ref("next2")));
        assert(r@.subrange(100, 104) == Op::Ref("next2").spec_enc(100, 97));
        crate::x86::lemma_ref_reaches_label("next2", 0, 100, 97);
        assert(a.relocs()[3] == (106usize, Op::Ref("second_payload_path")));
        assert(r@.subrange(106, 110) == Op::Ref("second_payload_path").spec_enc(106, 114));
        crate::x86::lemma_ref_reaches_label("second_payload_path", 0, 106, 114);
        assert(a.slots_end() == 110);
        lemma_same_range(r@, code, FIRST_CODE_LEN as int, r@.len() as int);
        assert(code.subrange(FIRST_CODE_LEN as int, r@.len() as int) =~= second_payload_path.spec_bytes()
            + seq![0u8]);
        assert(forall|i: int| 7 <= i < 12 ==> !a.in_slot(i));
        assert(r@.subrange(7, 12) =~= code.subrange(7, 12));
        assert(code.subrange(7, 12) =~= seq![0xb8u8, 0x05u8, 0x00u8, 0x00u8, 0x00u8]);
        assert(forall|i: int| 44 <= i < 49 ==> !a.in_slot(i));
        assert(r@.subrange(44, 49) =~= code.subrange(44, 49));
        assert(code.subrange(44, 49) =~= seq![0xb8u8, 0xc0u8, 0x00u8, 0x00u8, 0x00u8]);
        assert(forall|i: int| 78 <= i < 83 ==> !a.in_slot(i));
        assert(r@.subrange(78, 83) =~= code.subrange(78, 83));
        assert(code.subrange(78, 83) =~= seq![0xb8u8, 0x06u8, 0x00u8, 0x00u8, 0x00u8]);
        assert(forall|i: int| 87 <= i < 92 ==> !a.in_slot(i));
        assert(r@.subrange(87, 92) =~= code.subrange(87, 92));
        assert(code.subrange(87, 92) =~= seq![0xb8u8, 0x0au8, 0x00u8, 0x00u8, 0x00u8]);
    }
    r
}

/// The length of the stage-two code, which the data follows.
pub const SECOND_CODE_LEN: usize = 131;

/// The stage-two code for `l` original bytes, instruction by instruction; each
/// label reference is a four-byte slot of zeros that `build` fills.
pub open spec fn second_code_listing(l: int, original_ip: VirtAddr, dlopen_addr: VirtAddr) -> Seq<u8> {
    Seq::<u8>::empty()
        // mov eax, 5
        + [0xb8u8, 0x05u8, 0x00u8, 0x00u8, 0x00u8]@
        // call 5
        + [0xe8u8, 0x00u8, 0x00u8, 0x00u8, 0x00u8]@
        // next0: pop ebx
        + [0x5bu8]@
        // sub ebx, next0
        + [0x81u8, 0xebu8]@
        + zeros(4)
        // add ebx, proc_self_mem
        + [0x81u8, 0xc3u8]@
        + zeros(4)
        // mov ecx, 2
        + [0xb9u8, 0x02u8, 0x00u8, 0x00u8, 0x00u8]@
        // mov edx, 0
        + [0xbau8, 0x00u8, 0x00u8, 0x00u8, 0x00u8]@
        // int 0x80
        + [0xcdu8, 0x80u8]@
        // mov ebx, eax
        + [0x89u8, 0xc3u8]@
        // mov eax, 181
        + [0xb8u8, 0xb5u8, 0x00u8, 0x00u8, 0x00u8]@
        // call 5
        + [0xe8u8, 0x00u8, 0x00u8, 0x00u8, 0x00u8]@
        // next1: pop ecx
        + [0x59u8]@
        // sub ecx, next1
        + [0x81u8, 0xe9u8]@
        + zeros(4)
        // add ecx, original_code
        + [0x81u8, 0xc1u8]@
        + zeros(4)
        // mov edx, original_code_len
        + [0xbau8]@
        + le32((l as u32) as int)
        // mov esi, instruction_pointer
        + [0xbeu8]@
        + le32((original_ip as u32) as int)
        // mov edi, 0
        + [0xbfu8, 0x00u8, 0x00u8, 0x00u8, 0x00u8]@
        // int 0x80
        + [0xcdu8, 0x80u8]@
        // mov eax, 6
        + [0xb8u8, 0x06u8, 0x00u8, 0x00u8, 0x00u8]@
        // int 0x80
        + [0xcdu8, 0x80u8]@
        // push ebp
        + [0x55u8]@
        // mov ebp, esp
        + [0x89u8, 0xe5u8]@
        // mov eax, dlopen_addr
        + [0xb8u8]@
        + le32((dlopen_addr as u32) as int)
        // push 1
        + [0x6au8, 0x01u8]@
        // call 5
        + [0xe8u8, 0x00u8, 0x00u8, 0x00u8, 0x00u8]@
        // next2: pop ebx
        + [0x5bu8]@
        // sub ebx, next2
        + [0x81u8, 0xebu8]@
        + zeros(4)
        // add ebx, lib_path
        + [0x81u8, 0xc3u8]@
        + zeros(4)
        // push ebx
        + [0x53u8]@
        // call eax
        + [0xffu8, 0xd0u8]@
        // mov esp, ebp
        + [0x89u8, 0xecu8]@
        // pop ebp
        + [0x5du8]@
        // pop edi
        + [0x5fu8]@
        // pop esi
        + [0x5eu8]@
        // pop ebp
        + [0x5du8]@
        // pop edx
        + [0x5au8]@
        // pop ecx
        + [0x59u8]@
        // pop ebx
        + [0x5bu8]@
        // pop eax
        + [0x58u8]@
        // push original_ip
        + [0x68u8]@
        + le32((original_ip as u32) as int)
        // ret
        + [0xc3u8]@
}

/// The stage-two code, its label references pending.
#[verifier::rlimit(100)]
fn second_code(original_code: &[u8], original_ip: VirtAddr, dlopen: &ProcSym) -> (a: TinyAsm)
    ensures
        a.wf(),
        a.code() == second_code_listing(original_code@.len() as int, original_ip, dlopen.addr),
        a.code().len() == SECOND_CODE_LEN,
        a.labels() == Map::<Seq<char>, nat>::empty().insert("next0"@, 10).insert("next1"@, 47).insert(
            "next2"@,
            99,
        ),
        a.relocs() == seq![
            (13usize, Op::Ref("next0")),
            (19usize, Op::Ref("mem_path")),
            (50usize, Op::Ref("next1")),
            (56usize, Op::Ref("original_code")),
            (102usize, Op::Ref("next2")),
            (108usize, Op::Ref("lib_path")),
        ],
        a.code().subrange(61, 65) == le32((original_code@.len() as u32) as int),
        a.code().subrange(66, 70) == le32((original_ip as u32) as int),
        a.code().subrange(88, 92) == le32((dlopen.addr as u32) as int),
        a.code().subrange(126, 130) == le32((original_ip as u32) as int),
        // the system calls: open (5), pwrite (181), close (6)
        a.code().subrange(0, 5) == seq![0xb8u8, 0x05u8, 0x00u8, 0x00u8, 0x00u8],
        a.code().subrange(37, 42) == seq![0xb8u8, 0xb5u8, 0x00u8, 0x00u8, 0x00u8],
        a.code().subrange(77, 82) == seq![0xb8u8, 0x06u8, 0x00u8, 0x00u8, 0x00u8],
{
    proof {
        reveal_strlit("next0");
        reveal_strlit("next1");
        reveal_strlit("next2");
        assert("next0"@[4] != "next1"@[4]);
        assert("next0"@ != "next1"@);
        assert("next0"@[4] != "next2"@[4]);
        assert("next0"@ != "next2"@);
        assert("next1"@[4] != "next2"@[4]);
        assert("next1"@ != "next2"@);
    }
    let a1 = TinyAsm::new()
        //
        // Open memory file (/proc/self/mem).
        //
        // mov eax, 5
        .instr([0xb8, 0x05, 0x00, 0x00, 0x00])
        // call 5
        .instr([0xe8, 0x00, 0x00, 0x00, 0x00])
        // next0: pop ebx
        .label("next0")
        .instr([0x5b])
        // sub ebx, next0
        .instr_with_ref([0x81, 0xeb], "next0")
        // add ebx, proc_self_mem
        .instr_with_ref([0x81, 0xc3], "mem_path")
        // mov ecx, 2
        .instr([0xb9, 0x02, 0x00, 0x00, 0x00])
        // mov edx, 0
        .instr([0xba, 0x00, 0x00, 0x00, 0x00])
        // int 0x80
        .instr([0xcd, 0x80])
        //
        // Memory file descriptor.
        //
        // mov ebx, eax
        .instr([0x89, 0xc3])
        //
        // Restore the original code.
        //
        // mov eax, 181
        .instr([0xb8, 0xb5, 0x00, 0x00, 0x00])
        // call 5
        .instr([0xe8, 0x00, 0x00, 0x00, 0x00])
        // next1: pop ecx
        .label("next1")
        .instr([0x59])
        // sub ecx, next1
        .instr_with_ref([0x81, 0xe9], "next1")
        // add ecx, original_code
        .instr_with_ref([0x81, 0xc1], "original_code")
        // mov edx, original_code_len
        .instr([0xba])
        .instr(le_bytes(original_code.len() as u32))
        // mov esi, instruction_pointer
        .instr([0xbe])
        .instr(le_bytes(original_ip as u32))
        // mov edi, 0
        .instr([0xbf, 0x00, 0x00, 0x00, 0x00])
        // int 0x80
        .instr([0xcd, 0x80])
        //
        // Close memory file.
        //
        // mov eax, 6
        .instr([0xb8, 0x06, 0x00, 0x00, 0x00])
        // int 0x80
        .instr([0xcd, 0x80]);
    assert(a1.code().subrange(0, 5) =~= seq![0xb8u8, 0x05u8, 0x00u8, 0x00u8, 0x00u8]);
    assert(a1.code().subrange(37, 42) =~= seq![0xb8u8, 0xb5u8, 0x00u8, 0x00u8, 0x00u8]);
    assert(a1.code().subrange(77, 82) =~= seq![0xb8u8, 0x06u8, 0x00u8, 0x00u8, 0x00u8]);
    let ghost c1 = a1.code();
    let a = a1
        //
        // Make a new call frame.
        //
        // push ebp
        .instr([0x55])
        // mov ebp, esp
        .instr([0x89, 0xe5])
        //
        // Call dlopen.
        //
        // mov eax, dlopen_addr
        .instr([0xb8])
        .instr(le_bytes(dlopen.addr as u32))
        // push 1
        .instr([0x6a, 0x01])
        // call 5
        .instr([0xe8, 0x00, 0x00, 0x00, 0x00])
        // next2: pop ebx
        .label("next2")
        .instr([0x5b])
        // sub ebx, next2
        .instr_with_ref([0x81, 0xeb], "next2")
        // add ebx, lib_path
        .instr_with_ref([0x81, 0xc3], "lib_path")
        // push ebx
        .instr([0x53])
        // call eax
        .instr([0xff, 0xd0])
        //
        // Restore the old call frame
        //
        // mov esp, ebp
        .instr([0x89, 0xec])
        // pop ebp
        .instr([0x5d])
        //
        // Pop every previously pushed register.
        //
        // pop edi
        .instr([0x5f])
        // pop esi
        .instr([0x5e])
        // pop ebp
        .instr([0x5d])
        // pop edx
        .instr([0x5a])
        // pop ecx
        .instr([0x59])
        // pop ebx
        .instr([0x5b])
        // pop eax
        .instr([0x58])
        //
        // Restore the original execution flow.
        //
        // push original_ip
        .instr([0x68])
        .instr(le_bytes(original_ip as u32))
        // ret
        .instr([0xc3]);
    assert(a.relocs() =~= seq![
            (13usize, Op::Ref("next0")),
            (19usize, Op::Ref("mem_path")),
            (50usize, Op::Ref("next1")),
            (56usize, Op::Ref("original_code")),
            (102usize, Op::Ref("next2")),
            (108usize, Op::Ref("lib_path")),
        ]);
    assert(a.code().subrange(0, 5) =~= c1.subrange(0, 5));
    assert(a.code().subrange(37, 42) =~= c1.subrange(37, 42));
    assert(a.code().subrange(77, 82) =~= c1.subrange(77, 82));
    a
}

/// The stage-two data, each datum under its label.
fn second_data(a: TinyAsm, original_code: &[u8], lib_path: &str) -> (r: TinyAsm)
    requires
        a.wf(),
        a.labels() == Map::<Seq<char>, nat>::empty().insert("next0"@, 10).insert("next1"@, 47).insert(
            "next2"@,
            99,
        ),
    ensures
        r.wf(),
        r.relocs() == a.relocs(),
        r.code() == a.code() + mem_path() + original_code@ + lib_path.spec_bytes() + seq![0u8],
        ({
            let n = a.code().len() as int;
            let l = original_code@.len() as int;
            let p = lib_path.spec_bytes().len() as int;
            &&& r.code().len() == n + 16 + l + p
            &&& r.code().subrange(0, n) == a.code()
            &&& r.code().subrange(n, n + 15) == mem_path()
            &&& r.code().subrange(n + 15, n + 15 + l) == original_code@
            &&& r.code().subrange(n + 15 + l, n + 15 + l + p) == lib_path.spec_bytes()
            &&& r.code()[n + 15 + l + p] == 0
            &&& r.labels() == a.labels().insert("mem_path"@, n as nat).insert(
                "original_code"@,
                (n + 15) as nat,
            ).insert("lib_path"@, (n + 15 + l) as nat)
        }),
{
    proof {
        reveal_strlit("next0");
        reveal_strlit("next1");
        reveal_strlit("next2");
        reveal_strlit("mem_path");
        reveal_strlit("original_code");
        reveal_strlit("lib_path");
        assert("next0"@[4] != "next1"@[4]);
        assert("next0"@ != "next1"@);
        assert("next0"@[4] != "next2"@[4]);
        assert("next0"@ != "next2"@);
        assert("next0"@.len() != "mem_path"@.len());
        assert("next0"@ != "mem_path"@);
        assert("next0"@.len() != "original_code"@.len());
        assert("next0"@ != "original_code"@);
        assert("next0"@.len() != "lib_path"@.len());
        assert("next0"@ != "lib_path"@);
        assert("next1"@[4] != "next2"@[4]);
        assert("next1"@ != "next2"@);
        assert("next1"@.len() != "mem_path"@.len());
        assert("next1"@ != "mem_path"@);
        assert("next1"@.len() != "original_code"@.len());
        assert("next1"@ != "original_code"@);
        assert("next1"@.len() != "lib_path"@.len());
        assert("next1"@ != "lib_path"@);
        assert("next2"@.len() != "mem_path"@.len());
        assert("next2"@ != "mem_path"@);
        assert("next2"@.len() != "original_code"@.len());
        assert("next2"@ != "original_code"@);
        assert("next2"@.len() != "lib_path"@.len());
        assert("next2"@ != "lib_path"@);
        assert("mem_path"@.len() != "original_code"@.len());
        assert("mem_path"@ != "original_code"@);
        assert("mem_path"@[0] != "lib_path"@[0]);
        assert("mem_path"@ != "lib_path"@);
        assert("original_code"@.len() != "lib_path"@.len());
        assert("original_code"@ != "lib_path"@);
    }
    let r = a
        .label("mem_path")
        .bytes(&mem_path_bytes())
        .label("original_code")
        .bytes(original_code)
        .label("lib_path")
        .asciiz(lib_path);
    r
}

/// Stage two for `original_code` taken from `original_ip`, the library at
/// `lib_path` and the loader at `dlopen_addr`: the code followed by its data,
/// every reference resolved.
pub open spec fn second_image(original_code: Seq<u8>, original_ip: VirtAddr, lib_path: Seq<u8>, dlopen_addr: VirtAddr) -> Seq<u8> {
    let l = original_code.len() as int;
    assemble(
        second_code_listing(l, original_ip, dlopen_addr) + mem_path() + original_code + lib_path + seq![0u8],
        seq![
            (13usize, Op::Ref("next0")),
            (19usize, Op::Ref("mem_path")),
            (50usize, Op::Ref("next1")),
            (56usize, Op::Ref("original_code")),
            (102usize, Op::Ref("next2")),
            (108usize, Op::Ref("lib_path")),
        ],
        Map::<Seq<char>, nat>::empty().insert("next0"@, 10nat).insert("next1"@, 47nat).insert(
            "next2"@,
            99nat,
        ).insert("mem_path"@, 131nat).insert("original_code"@, 146nat).insert(
            "lib_path"@,
            (146 + l) as nat,
        ),
    )
}

/// Stage two: opens `/proc/self/mem` read+write, writes `original_code` back
/// at `original_ip` with `pwrite`, closes it, calls the loader at
/// `dlopen.addr` with `(lib_path, 1)` (cdecl, in a fresh frame), restores the
/// registers stage one saved and returns to `original_ip`. The length, the
/// instruction pointer and the loader address are immediates; the data after
/// the code: `/proc/self/mem`, the original bytes and the library path.
#[verifier::rlimit(100)]
pub fn gen_second(original_code: &[u8], original_ip: VirtAddr, lib_path: &str, dlopen: &ProcSym) -> (r:
    Vec<u8>)
    requires
        original_code@.len() + lib_path.spec_bytes().len() <= 0x7000_0000,
    ensures
        r@ == second_image(original_code@, original_ip, lib_path.spec_bytes(), dlopen.addr),
        ({
            let l = original_code@.len() as int;
            let p = lib_path.spec_bytes().len() as int;
            &&& r@.len() == 147 + l + p
            &&& r@.subrange(61, 65) == le32(l)
            &&& r@.subrange(66, 70) == le32((original_ip as u32) as int)
            &&& r@.subrange(88, 92) == le32((dlopen.addr as u32) as int)
            &&& r@.subrange(126, 130) == le32((original_ip as u32) as int)
            &&& r@.subrange(131, 146) == mem_path()
            &&& r@.subrange(146, 146 + l) == original_code@
            &&& r@.subrange(146 + l, 146 + l + p) == lib_path.spec_bytes()
            &&& r@[146 + l + p] == 0
            // the base-recovery labels, `/proc/self/mem`, the original bytes, the library path
            &&& le_value(r@.subrange(13, 17)) == 10
            &&& le_value(r@.subrange(19, 23)) == 131
            &&& le_value(r@.subrange(50, 54)) == 47
            &&& le_value(r@.subrange(56, 60)) == 146
            &&& le_value(r@.subrange(102, 106)) == 99
            &&& le_value(r@.subrange(108, 112)) == 146 + l
            // the system calls: open (5), pwrite (181), close (6)
            &&& r@.subrange(0, 5) == seq![0xb8u8, 0x05u8, 0x00u8, 0x00u8, 0x00u8]
            &&& r@.subrange(37, 42) == seq![0xb8u8, 0xb5u8, 0x00u8, 0x00u8, 0x00u8]
            &&& r@.subrange(77, 82) == seq![0xb8u8, 0x06u8, 0x00u8, 0x00u8, 0x00u8]
        }),
{
    let ghost l = original_code@.len() as int;
    let ghost p = lib_path.spec_bytes().len() as int;
    let c = second_code(original_code, original_ip, dlopen);
    let ghost cc = c.code();
    let a = second_data(c, original_code, lib_path);
    let ghost code = a.code();
    proof {
        reveal_strlit("next0");
        reveal_strlit("next1");
        reveal_strlit("next2");
        reveal_strlit("mem_path");
        reveal_strlit("original_code");
        reveal_strlit("lib_path");
        assert("next0"@[4] != "next1"@[4]);
        assert("next0"@ != "next1"@);
        assert("next0"@[4] != "next2"@[4]);
        assert("next0"@ != "next2"@);
        assert("next0"@.len() != "mem_path"@.len());
        assert("next0"@ != "mem_path"@);
        assert("next0"@.len() != "original_code"@.len());
        assert("next0"@ != "original_code"@);
        assert("next0"@.len() != "lib_path"@.len());
        assert("next0"@ != "lib_path"@);
        assert("next1"@[4] != "next2"@[4]);
        assert("next1"@ != "next2"@);
        assert("next1"@.len() != "mem_path"@.len());
        assert("next1"@ != "mem_path"@);
        assert("next1"@.len() != "original_code"@.len());
        assert("next1"@ != "original_code"@);
        assert("next1"@.len() != "lib_path"@.len());
        assert("next1"@ != "lib_path"@);
        assert("next2"@.len() != "mem_path"@.len());
        assert("next2"@ != "mem_path"@);
        assert("next2"@.len() != "original_code"@.len());
        assert("next2"@ != "original_code"@);
        assert("next2"@.len() != "lib_path"@.len());
        assert("next2"@ != "lib_path"@);
        assert("mem_path"@.len() != "original_code"@.len());
        assert("mem_path"@ != "original_code"@);
        assert("mem_path"@[0] != "lib_path"@[0]);
        assert("mem_path"@ != "lib_path"@);
        assert("original_code"@.len() != "lib_path"@.len());
        assert("original_code"@ != "lib_path"@);
        assert(a.resolvable());
    }
    let r = a.build();
    proof {
        assert(a.relocs()[0] == (13usize, Op::Ref("next0")));
        assert(r@.subrange(13, 17) == Op::Ref("next0").spec_enc(13, 10));
        crate::x86::lemma_ref_reaches_label("next0", 0, 13, 10);
        assert(a.relocs()[1] == (19usize, Op::Ref("mem_path")));
        assert(r@.subrange(19, 23) == Op::Ref("mem_path").spec_enc(19, 131));
        crate::x86::lemma_ref_reaches_label("mem_path", 0, 19, 131);
        assert(a.relocs()[2] == (50usize, Op::Ref("next1")));
        assert(r@.subrange(50, 54) == Op::Ref("next1").spec_enc(50, 47));
        crate::x86::lemma_ref_reaches_label("next1", 0, 50, 47);
        assert(a.relocs()[3] == (56usize, Op::Ref("original_code")));
        assert(r@.subrange(56, 60) == Op::Ref("original_code").spec_enc(56, 146));
        crate::x86::lemma_ref_reaches_label("original_code", 0, 56, 146);
        assert(a.relocs()[4] == (102usize, Op::Ref("next2")));
        assert(r@.subrange(102, 106) == Op::Ref("next2").spec_enc(102, 99));
        crate::x86::lemma_ref_reaches_label("next2", 0, 102, 99);
        assert(a.relocs()[5] == (108usize, Op::Ref("lib_path")));
        assert(r@.subrange(108, 112) == Op::Ref("lib_path").spec_enc(108, 146 + l));
        crate::x86::lemma_ref_reaches_label("lib_path", 0, 108, 146 + l);
        assert(a.slots_end() == 112);
        lemma_same_range(r@, code, 131, 146);
        lemma_same_range(r@, code, 146, 146 + l);
        lemma_same_range(r@, code, 146 + l, 146 + l + p);
        assert(code.subrange(61, 65) == a.code().subrange(61, 65));
        assert(forall|i: int| 0 <= i < 5 ==> !a.in_slot(i));
        assert(code.subrange(0, 5) =~= cc.subrange(0, 5)) by {
            assert(code.subrange(0, 131) == cc);
        }
        assert(r@.subrange(0, 5) =~= code.subrange(0, 5));
        assert(forall|i: int| 37 <= i < 42 ==> !a.in_slot(i));
        assert(code.subrange(37, 42) =~= cc.subrange(37, 42)) by {
            assert(code.subrange(0, 131) == cc);
        }
        assert(r@.subrange(37, 42) =~= code.subrange(37, 42));
        assert(forall|i: int| 77 <= i < 82 ==> !a.in_slot(i));
        assert(code.subrange(77, 82) =~= cc.subrange(77, 82)) by {
            assert(code.subrange(0, 131) == cc);
        }
        assert(r@.subrange(77, 82) =~= code.subrange(77, 82));
    }
    r
}

} // verus!
