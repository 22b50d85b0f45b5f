use intruducer::arm;
use intruducer::arm64;
use intruducer::x86;
use intruducer::x86_64;

fn word_at(b: &[u8], at: usize) -> u32 {
    u32::from_le_bytes([b[at], b[at + 1], b[at + 2], b[at + 3]])
}

#[test]
fn arm64_mov_x0_zero() {
    let b = arm64::TinyAsm::new().movi(arm64::Reg::X0, 0).build();
    assert_eq!(b, vec![0x00, 0x00, 0x80, 0xD2]);
}

#[test]
fn arm64_svc_zero() {
    let b = arm64::TinyAsm::new().svc(0).build();
    assert_eq!(b, vec![0x01, 0x00, 0x00, 0xD4]);
}

#[test]
fn x86_64_push_rax() {
    let b = x86_64::TinyAsm::new().instr([0x50]).build();
    assert_eq!(b, vec![0x50]);
}

#[test]
fn arm64_encodings() {
    let b = arm64::TinyAsm::new()
        .br(arm64::Reg::X15)
        .blr(arm64::Reg::X28)
        .movr(arm64::Reg::X14, arm64::Reg::X0)
        .stp(arm64::AddrMode2::PreIndexed, arm64::Reg::X0, arm64::Reg::X1, arm64::Reg::SP, -16)
        .ldp(arm64::AddrMode2::PostIndexed, arm64::Reg::X0, arm64::Reg::X1, arm64::Reg::SP, 16)
        .stri(arm64::AddrMode2::PreIndexed, arm64::Reg::X30, arm64::Reg::SP, -16)
        .ldri(arm64::AddrMode2::PostIndexed, arm64::Reg::X30, arm64::Reg::SP, 16)
        .movi(arm64::Reg::X8, 56)
        .movi(arm64::Reg::X0, -1)
        .movi(arm64::Reg::X1, -16)
        .ldri(arm64::AddrMode2::Offset, arm64::Reg::X1, arm64::Reg::X2, 16)
        .build();
    let expected: [u32; 11] = [
        0xd61f01e0, 0xd63f0380, 0xaa0003ee, 0xa9bf07e0, 0xa8c107e0, 0xf81f0ffe, 0xf84107fe,
        0xd2800708, 0x92800000, 0x928001e1, 0xf9400841,
    ];
    for (i, w) in expected.iter().enumerate() {
        assert_eq!(word_at(&b, 4 * i), *w, "instruction {}", i);
    }
}

#[test]
fn arm_encodings() {
    let b = arm::TinyAsm::new()
        .movr(arm::Reg::R0, arm::Reg::R1)
        .svc(0)
        .movw(arm::Reg::R7, 5)
        .movw(arm::Reg::R2, 0x1234)
        .push([arm::Reg::R0, arm::Reg::R1, arm::Reg::R2, arm::Reg::R3, arm::Reg::R4, arm::Reg::R5, arm::Reg::R6, arm::Reg::R7, arm::Reg::R8, arm::Reg::R9, arm::Reg::R10, arm::Reg::R11, arm::Reg::R12, arm::Reg::LR])
        .pop([arm::Reg::R0, arm::Reg::R1, arm::Reg::R2, arm::Reg::R3, arm::Reg::R4, arm::Reg::R5, arm::Reg::R6, arm::Reg::R7, arm::Reg::R8, arm::Reg::R9, arm::Reg::R10, arm::Reg::R11, arm::Reg::R12, arm::Reg::LR])
        .ldri(arm::AddrMode2::Offset, arm::Reg::R3, arm::Reg::PC, -4)
        .addi(arm::Reg::R0, None, 1)
        .subi(arm::Reg::R1, Some(arm::Reg::R2), 2)
        .build();
    let expected: [u32; 9] = [
        0xe1a00001, 0xef000000, 0xe3007005, 0xe3012234, 0xe92d5fff, 0xe8bd5fff, 0xe51f3004,
        0xe2800001, 0xe2421002,
    ];
    for (i, w) in expected.iter().enumerate() {
        assert_eq!(word_at(&b, 4 * i), *w, "instruction {}", i);
    }
}

#[test]
fn data_little_endian_and_align() {
    let b = x86::TinyAsm::new()
        .word(0x1234)
        .dword(0x11223344)
        .qword(0x0102030405060708)
        .asciiz("ab")
        .align::<4>()
        .build();
    assert_eq!(
        b,
        vec![
            0x34, 0x12, 0x44, 0x33, 0x22, 0x11, 0x08, 0x07, 0x06, 0x05, 0x04, 0x03, 0x02, 0x01,
            b'a', b'b', 0, 0, 0, 0
        ]
    );
}

/// What `ADD/SUB <Rd>, PC, #imm` at `pc` puts into `Rd`.
fn arm_adr_target(w: u32, pc: i64) -> (u32, i64) {
    let rd = (w >> 12) & 0xf;
    assert_eq!((w >> 16) & 0xf, 15);
    let rot = ((w >> 8) & 0xf) * 2;
    let imm = (w & 0xff).rotate_right(rot) as i64;
    match w >> 20 {
        0xe28 => (rd, pc + 8 + imm),
        0xe24 => (rd, pc + 8 - imm),
        _ => panic!("not an ADR: {:#x}", w),
    }
}

#[test]
fn arm_label_resolution() {
    for filler in [0usize, 3, 60, 200, 240] {
        let mut a = arm::TinyAsm::new().adrl(arm::Reg::R0, "L");
        for _ in 0..filler {
            a = a.movr(arm::Reg::R1, arm::Reg::R1);
        }
        let b = a.label("L").asciiz("x").build();
        let (rd, t) = arm_adr_target(word_at(&b, 0), 0);
        assert_eq!(rd, 0);
        assert_eq!(b[t as usize], b'x');
    }
}

#[test]
fn arm_backward_label_resolution() {
    let mut a = arm::TinyAsm::new().label("L").asciiz("xyz").align::<4>();
    for _ in 0..10 {
        a = a.movr(arm::Reg::R1, arm::Reg::R1);
    }
    let at = 44;
    let b = a.adrl(arm::Reg::R2, "L").build();
    let (rd, t) = arm_adr_target(word_at(&b, at), at as i64);
    assert_eq!(rd, 2);
    assert_eq!(b[t as usize], b'x');
}

/// What `ADR <Xd>, #imm` at `pc` puts into `Xd`.
fn arm64_adr_target(w: u32, pc: i64) -> (u32, i64) {
    assert_eq!(w & 0x9f000000, 0x10000000);
    let imm = (((w >> 5) & 0x7ffff) << 2 | ((w >> 29) & 3)) as i64;
    let imm = if imm >= 0x100000 { imm - 0x200000 } else { imm };
    (w & 0x1f, pc + imm)
}

#[test]
fn arm64_label_resolution() {
    for filler in [0usize, 1, 7, 1000] {
        let mut a = arm64::TinyAsm::new().adr(arm64::Reg::X0, "L");
        for _ in 0..filler {
            a = a.movr(arm64::Reg::X1, arm64::Reg::X1);
        }
        let b = a.label("L").asciiz("x").build();
        let (rd, t) = arm64_adr_target(word_at(&b, 0), 0);
        assert_eq!(rd, 0);
        assert_eq!(b[t as usize], b'x');
    }
    let b = arm64::TinyAsm::new()
        .label("L")
        .asciiz("x")
        .align::<4>()
        .adr(arm64::Reg::X3, "L")
        .build();
    let (rd, t) = arm64_adr_target(word_at(&b, 4), 4);
    assert_eq!(rd, 3);
    assert_eq!(b[t as usize], b'x');
}

#[test]
fn arm64_literal_load_displacement() {
    let b = arm64::TinyAsm::new()
        .ldrl(arm64::Reg::X3, "L")
        .movr(arm64::Reg::X1, arm64::Reg::X1)
        .label("L")
        .qword(7)
        .build();
    // LDR X3, #8: imm19 = 2
    assert_eq!(word_at(&b, 0), 0x58000000 | (2 << 5) | 3);
}

#[test]
fn x86_64_label_resolution() {
    // lea rdi, [rip + L]
    let b = x86_64::TinyAsm::new()
        .instr([0x90, 0x90])
        .instr_with_ref([0x48, 0x8d, 0x3d], "L")
        .instr([0x90])
        .label("L")
        .asciiz("x")
        .build();
    let disp = i32::from_le_bytes([b[5], b[6], b[7], b[8]]) as i64;
    let t = 9 + disp;
    assert_eq!(t, 10);
    assert_eq!(b[t as usize], b'x');
}

#[test]
fn x86_64_backward_reference() {
    let b = x86_64::TinyAsm::new()
        .label("L")
        .asciiz("x")
        .instr_with_ref([0xff, 0x25], "L")
        .build();
    let disp = i32::from_le_bytes([b[4], b[5], b[6], b[7]]) as i64;
    assert_eq!(8 + disp, 0);
}

#[test]
fn x86_label_resolution() {
    let b = x86::TinyAsm::new()
        .instr([0xe8, 0, 0, 0, 0])
        .label("next")
        .instr([0x5b])
        .instr_with_ref([0x81, 0xeb], "next")
        .instr_with_ref([0x81, 0xc3], "L")
        .label("L")
        .asciiz("x")
        .build();
    let next = u32::from_le_bytes([b[8], b[9], b[10], b[11]]);
    let l = u32::from_le_bytes([b[14], b[15], b[16], b[17]]);
    assert_eq!(next, 5);
    // ebx = (base + next) - next + L
    let base = 0x1000u32;
    let ebx = (base + 5) - next + l;
    assert_eq!(b[(ebx - base) as usize], b'x');
}

#[test]
fn arm_load_modes_and_rotated_immediates() {
    let b = arm::TinyAsm::new()
        .ldri(arm::AddrMode2::PostIndexed, arm::Reg::R1, arm::Reg::R2, 4)
        .ldri(arm::AddrMode2::PreIndexed, arm::Reg::R1, arm::Reg::R2, 4)
        .ldri(arm::AddrMode2::Offset, arm::Reg::R1, arm::Reg::R2, 4)
        .addi(arm::Reg::R0, None, 0x100)
        .subi(arm::Reg::R0, None, 0x3fc)
        .build();
    assert_eq!(word_at(&b, 0), 0xe4921004);
    assert_eq!(word_at(&b, 4), 0xe5b21004);
    assert_eq!(word_at(&b, 8), 0xe5921004);
    // #0x100 is 0x40 rotated right by 30
    assert_eq!(word_at(&b, 12), 0xe2800f40);
    assert_eq!(word_at(&b, 16), 0xe2400fff);
}
