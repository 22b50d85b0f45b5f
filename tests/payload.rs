use intruducer::payloads::{gen_first, gen_second, payload_isa, Arch, Isa};
use intruducer::proc::{ProcClass, ProcSym};
use intruducer::{payload_arm, payload_arm64, payload_x86, payload_x86_64};

const STAGE_PATH: &str = "/tmp/payload.bin";
const MEM: &[u8] = b"/proc/self/mem\0";

fn word_at(b: &[u8], at: usize) -> u32 {
    u32::from_le_bytes([b[at], b[at + 1], b[at + 2], b[at + 3]])
}

#[test]
fn x86_64_stage_one_layout() {
    let b = payload_x86_64::gen_first(STAGE_PATH);
    assert_eq!(b.len(), 137 + STAGE_PATH.len() + 1);
    assert_eq!(&b[137..153], STAGE_PATH.as_bytes());
    assert_eq!(b[153], 0);
    assert_eq!(&b[..3], &[0x50, 0x53, 0x51]);
    // lea rdi, [rip + path]: the slot ends at 37
    assert_eq!(i32::from_le_bytes([b[33], b[34], b[35], b[36]]), 137 - 37);
    assert_eq!(i32::from_le_bytes([b[128], b[129], b[130], b[131]]), 137 - 132);
    // jmp r15 ends the code
    assert_eq!(&b[134..137], &[0x41, 0xff, 0xe7]);
}

#[test]
fn x86_64_stage_two_layout() {
    let saved = [1u8, 2, 3];
    let b = payload_x86_64::gen_second(&saved, 0x7f00deadbeef, "/tmp/lib.so", &ProcSym::new(0x7f0011223344));
    assert_eq!(b.len(), 177 + 3 + 11);
    assert_eq!(&b[137..152], MEM);
    assert_eq!(&b[152..155], &saved);
    assert_eq!(&b[155..163], &3u64.to_le_bytes());
    assert_eq!(&b[163..171], &0x7f00deadbeefu64.to_le_bytes());
    assert_eq!(&b[171..182], b"/tmp/lib.so");
    assert_eq!(b[182], 0);
    assert_eq!(&b[183..191], &0x7f0011223344u64.to_le_bytes());
    // jmp [rip + original_ip]
    assert_eq!(i32::from_le_bytes([b[133], b[134], b[135], b[136]]), 163 - 137);
}

#[test]
fn x86_stage_one_layout() {
    let b = payload_x86::gen_first(STAGE_PATH);
    assert_eq!(b.len(), 114 + STAGE_PATH.len() + 1);
    assert_eq!(&b[114..130], STAGE_PATH.as_bytes());
    assert_eq!(word_at(&b, 20), 17);
    assert_eq!(word_at(&b, 26), 114);
    assert_eq!(word_at(&b, 100), 97);
    assert_eq!(word_at(&b, 106), 114);
}

#[test]
fn x86_stage_two_layout() {
    let saved = [9u8; 10];
    let b = payload_x86::gen_second(&saved, 0x0804_8000, "/l.so", &ProcSym::new(0xf7f0_1000));
    assert_eq!(b.len(), 147 + 10 + 5);
    assert_eq!(word_at(&b, 61), 10);
    assert_eq!(word_at(&b, 66), 0x0804_8000);
    assert_eq!(word_at(&b, 88), 0xf7f0_1000);
    assert_eq!(word_at(&b, 126), 0x0804_8000);
    assert_eq!(&b[131..146], MEM);
    assert_eq!(&b[146..156], &saved);
    assert_eq!(&b[156..161], b"/l.so");
    assert_eq!(word_at(&b, 19), 131);
    assert_eq!(word_at(&b, 56), 146);
    assert_eq!(word_at(&b, 108), 156);
}

#[test]
fn arm_stage_one_layout() {
    let b = payload_arm::gen_first(STAGE_PATH);
    assert_eq!(b.len(), 100);
    assert_eq!(&b[80..96], STAGE_PATH.as_bytes());
    assert_eq!(&b[96..100], &[0, 0, 0, 0]);
    assert_eq!(word_at(&b, 0), 0xe92d5fff);
    // ADD r0, pc, #64
    assert_eq!(word_at(&b, 8), 0xe28f0040);
    // mov pc, r12
    assert_eq!(word_at(&b, 76), 0xe1a0f00c);
}

#[test]
fn arm_stage_two_layout() {
    let saved = [7u8, 7, 7];
    let b = payload_arm::gen_second(&saved, 0x1234_5678, "/l.so", &ProcSym::new(0xb6f0_0000));
    assert_eq!(&b[88..103], MEM);
    assert_eq!(&b[104..107], &saved);
    assert_eq!(word_at(&b, 108), 0x1234_5678);
    assert_eq!(&b[112..117], b"/l.so");
    assert_eq!(word_at(&b, 120), 0xb6f0_0000);
    assert_eq!(b.len(), 124);
    // LDR r3, [pc, #(108 - 48)]
    assert_eq!(word_at(&b, 40), 0xe59f3000 | (108 - 48));
}

#[test]
fn arm64_stage_one_layout() {
    let b = payload_arm64::gen_first(STAGE_PATH);
    assert_eq!(b.len(), 164);
    assert_eq!(&b[144..160], STAGE_PATH.as_bytes());
    assert_eq!(word_at(&b, 0), 0xa9bf07e0);
    assert!((0..144).step_by(4).any(|i| word_at(&b, i) == 0xd2804001), "mov x1, #512");
    // br x15 ends the code
    assert_eq!(word_at(&b, 140), 0xd61f01e0);
}

#[test]
fn arm64_stage_two_layout() {
    let saved = [5u8; 8];
    let b = payload_arm64::gen_second(&saved, 0x7f00deadbeef, "/l.so", &ProcSym::new(0x7f0011223344));
    assert_eq!(&b[152..167], MEM);
    assert_eq!(&b[168..176], &saved);
    assert_eq!(&b[176..184], &0x7f00deadbeefu64.to_le_bytes());
    assert_eq!(&b[184..189], b"/l.so");
    assert_eq!(&b[192..200], &0x7f0011223344u64.to_le_bytes());
    assert_eq!(b.len(), 200);
}

#[test]
fn payload_isa_per_host() {
    assert_eq!(payload_isa(ProcClass::ThirtyTwo, Arch::X86_64), Some(Isa::X86));
    assert_eq!(payload_isa(ProcClass::SixtyFour, Arch::X86_64), Some(Isa::X86_64));
    assert_eq!(payload_isa(ProcClass::ThirtyTwo, Arch::Aarch64), Some(Isa::Arm));
    assert_eq!(payload_isa(ProcClass::SixtyFour, Arch::Aarch64), Some(Isa::Aarch64));
    assert_eq!(payload_isa(ProcClass::SixtyFour, Arch::Arm), None);
    assert_eq!(payload_isa(ProcClass::SixtyFour, Arch::X86), None);
}

#[test]
fn dispatch_matches_per_isa_builders() {
    assert_eq!(gen_first(Isa::X86_64, STAGE_PATH), payload_x86_64::gen_first(STAGE_PATH));
    assert_eq!(gen_first(Isa::Arm, STAGE_PATH), payload_arm::gen_first(STAGE_PATH));
    let d = ProcSym::new(0x1000);
    assert_eq!(gen_second(Isa::Aarch64, &[1, 2], 0x2000, "/x", &d), payload_arm64::gen_second(&[1, 2], 0x2000, "/x", &d));
    assert_eq!(gen_second(Isa::X86, &[1, 2], 0x2000, "/x", &d), payload_x86::gen_second(&[1, 2], 0x2000, "/x", &d));
}

#[test]
fn arm64_stage_two_system_calls() {
    let b = payload_arm64::gen_second(&[0u8; 4], 0x1000, "/l.so", &ProcSym::new(0x2000));
    // mov x8, #56 (open); mov x8, #68 (pwrite); mov x8, #57 (close)
    assert_eq!(word_at(&b, 0), 0xd2800000 | (56 << 5) | 8);
    assert_eq!(word_at(&b, 28), 0xd2800000 | (68 << 5) | 8);
    assert_eq!(word_at(&b, 52), 0xd2800000 | (57 << 5) | 8);
    // mov x1, #1: the loader is called with RTLD_NOW
    assert_eq!(word_at(&b, 68), 0xd2800000 | (1 << 5) | 1);
}
