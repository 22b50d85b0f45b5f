//! ARM (32-bit, A32): every instruction is one 32-bit word assembled from bit
//! fields. A label reference is PC-relative with the pipeline bias of 8 bytes.

use crate::tiny_asm::{le32, le_bytes, le_value, lemma_le32_value, Encodable, Label};
use vstd::prelude::*;

verus! {

/// A core register.
#[derive(Clone, Copy, PartialEq, Eq, Debug)]
pub enum Reg {
    R0,
    R1,
    R2,
    R3,
    R4,
    R5,
    R6,
    R7,
    R8,
    R9,
    R10,
    R11,
    R12,
    R13,
    R14,
    R15,
    /// The stack pointer, `r13`.
    SP,
    /// The link register, `r14`.
    LR,
    /// The program counter, `r15`.
    PC,
}

impl Reg {
    /// The register number.
    pub open spec fn num(self) -> u32 {
        match self {
            Reg::R0 => 0,
            Reg::R1 => 1,
            Reg::R2 => 2,
            Reg::R3 => 3,
            Reg::R4 => 4,
            Reg::R5 => 5,
            Reg::R6 => 6,
            Reg::R7 => 7,
            Reg::R8 => 8,
            Reg::R9 => 9,
            Reg::R10 => 10,
            Reg::R11 => 11,
            Reg::R12 => 12,
            Reg::R13 | Reg::SP => 13,
            Reg::R14 | Reg::LR => 14,
            Reg::R15 | Reg::PC => 15,
        }
    }

    /// The register number.
    pub fn val(self) -> (r: u32)
        ensures
            r == self.num(),
            r < 16,
    {
        match self {
            Reg::R0 => 0,
            Reg::R1 => 1,
            Reg::R2 => 2,
            Reg::R3 => 3,
            Reg::R4 => 4,
            Reg::R5 => 5,
            Reg::R6 => 6,
            Reg::R7 => 7,
            Reg::R8 => 8,
            Reg::R9 => 9,
            Reg::R10 => 10,
            Reg::R11 => 11,
            Reg::R12 => 12,
            Reg::R13 | Reg::SP => 13,
            Reg::R14 | Reg::LR => 14,
            Reg::R15 | Reg::PC => 15,
        }
    }
}

/// The addressing mode of a load/store multiple.
#[derive(Clone, Copy, PartialEq, Eq, Debug)]
pub enum AddrMode {
    DecrAfter,
    IncrAfter,
    DecrBefore,
    IncrBefore,
}

impl AddrMode {
    /// The `P:U` bits of the mode.
    pub open spec fn spec_bits(self) -> u32 {
        match self {
            AddrMode::DecrAfter => 0,
            AddrMode::IncrAfter => 1,
            AddrMode::DecrBefore => 2,
            AddrMode::IncrBefore => 3,
        }
    }

    /// The `P:U` bits of the mode.
    pub fn bits(self) -> (r: u32)
        ensures
            r == self.spec_bits(),
    {
        match self {
            AddrMode::DecrAfter => 0,
            AddrMode::IncrAfter => 1,
            AddrMode::DecrBefore => 2,
            AddrMode::IncrBefore => 3,
        }
    }
}

/// The addressing mode of a single load/store with an immediate offset.
#[derive(Clone, Copy, PartialEq, Eq, Debug)]
pub enum AddrMode2 {
    /// `[<Rn>, #+/-<imm>]`
    Offset,
    /// `[<Rn>, #+/-<imm>]!`
    PreIndexed,
    /// `[<Rn>], #+/-<imm>`
    PostIndexed,
}

/// An A32 instruction.
pub enum Op {
    /// `ADD <Rd>, <Rn>, #<imm>`, the immediate encoded as a modified immediate.
    Addi(Reg, Reg, u32),
    /// `ADR <Rd>, <label>`
    Adrl(Reg, Label),
    /// `ADR <Rd>, #<disp>`: an ADD or SUB from the PC.
    Adri(Reg, i32),
    /// `LDM<mode> <Rn>{!}, <registers>`
    Ldm(AddrMode, Reg, bool, Vec<Reg>),
    /// `LDR <Rt>, [<Rn>, #+/-<imm12>]` in one of the three modes.
    Ldri(AddrMode2, Reg, Reg, i16),
    /// `LDR <Rt>, <label>`
    Ldrl(Reg, Label),
    /// `MOV <Rd>, <Rm>`
    Movr(Reg, Reg),
    /// `MOVW <Rd>, #<imm16>`
    Movw(Reg, u32),
    /// `SUB <Rd>, <Rn>, #<imm>`, the immediate encoded as a modified immediate.
    Subi(Reg, Reg, u32),
    /// `STM<mode> <Rn>{!}, <registers>`
    Stm(AddrMode, Reg, bool, Vec<Reg>),
    /// `SVC #<imm24>`
    Svc(u32),
    /// Four zero bytes.
    Placeholder,
}

/// The register-list field: one bit per listed register.
pub open spec fn reg_mask(regs: Seq<Reg>) -> u32
    decreases regs.len(),
{
    if regs.len() == 0 {
        0
    } else {
        reg_mask(regs.drop_last()) | (1u32 << regs.last().num())
    }
}

/// `ADD <Rd>, <Rn>, #<imm12>`
pub open spec fn add_word(rd: Reg, rn: Reg, imm: u32) -> u32 {
    0xe2800000u32 | (rn.num() << 16u32) | (rd.num() << 12u32) | imm
}

/// `SUB <Rd>, <Rn>, #<imm12>`
pub open spec fn sub_word(rd: Reg, rn: Reg, imm: u32) -> u32 {
    0xe2400000u32 | (rn.num() << 16u32) | (rd.num() << 12u32) | imm
}

/// The modified-immediate field (rotation in bits 11:8, `imm8` in bits 7:0)
/// of a magnitude below 256, or of a multiple of 4 below 1024 (rotated right by 30).
pub open spec fn modified_imm(m: int) -> u32 {
    if m < 256 {
        m as u32
    } else {
        (0xf00 + m / 4) as u32
    }
}

/// Whether an ADR displacement has a modified-immediate encoding of the kind
/// `modified_imm` produces.
pub open spec fn adr_fits(disp: int) -> bool {
    let m = if disp < 0 {
        -disp
    } else {
        disp
    };
    m < 256 || (m < 1024 && m % 4 == 0)
}

/// `ADR <Rd>, #<disp>`: an ADD from the PC for a displacement of zero or
/// more, else a SUB of its magnitude.
pub open spec fn adr_word(rd: Reg, disp: int) -> u32 {
    if disp < 0 {
        sub_word(rd, Reg::PC, modified_imm(-disp))
    } else {
        add_word(rd, Reg::PC, modified_imm(disp))
    }
}

/// `LDR <Rt>, [<Rn>, #+/-<imm12>]` (`P`, `U` and `W` bits from the mode and sign).
pub open spec fn ldr_word(mode: AddrMode2, rt: Reg, rn: Reg, imm: int) -> u32 {
    let (index, wback) = match mode {
        AddrMode2::Offset => (1u32, 0u32),
        AddrMode2::PreIndexed => (1u32, 1u32),
        AddrMode2::PostIndexed => (0u32, 0u32),
    };
    let up: u32 = if imm < 0 {
        0
    } else {
        1
    };
    let mag: u32 = if imm < 0 {
        (-imm) as u32
    } else {
        imm as u32
    };
    0xe4100000u32 | (index << 24u32) | (up << 23u32) | (wback << 21u32) | (rn.num() << 16u32) | (
    rt.num() << 12u32) | mag
}

/// `LDM`/`STM` with base bits `base`.
pub open spec fn multiple_word(base: u32, mode: AddrMode, rn: Reg, wb: bool, regs: Seq<Reg>) -> u32 {
    base | (mode.spec_bits() << 23u32) | ((if wb {
        1u32
    } else {
        0u32
    }) << 21u32) | (rn.num() << 16u32) | reg_mask(regs)
}

/// The PC-relative displacement of a label at `target` from an instruction at `at`.
pub open spec fn pc_disp(at: int, target: int) -> int {
    target - at - 8
}

/// The instruction word of `op` placed at `at`, its label at `target`.
pub open spec fn word(op: &Op, at: int, target: int) -> u32 {
    match op {
        Op::Addi(rd, rn, imm) => add_word(*rd, *rn, modified_imm(*imm as int)),
        Op::Adrl(rd, _) => adr_word(*rd, pc_disp(at, target)),
        Op::Adri(rd, imm) => adr_word(*rd, *imm as int),
        Op::Ldm(mode, rn, wb, regs) => multiple_word(0xe8100000u32, *mode, *rn, *wb, regs@),
        Op::Ldri(mode, rt, rn, imm) => ldr_word(*mode, *rt, *rn, *imm as int),
        Op::Ldrl(rt, _) => ldr_word(AddrMode2::Offset, *rt, Reg::PC, pc_disp(at, target)),
        Op::Movr(rd, rm) => 0xe1a00000u32 | (rd.num() << 12u32) | rm.num(),
        Op::Movw(rd, imm) => 0xe3000000u32 | ((*imm >> 12u32) << 16u32) | (rd.num() << 12u32) | (
        0xfffu32 & *imm),
        Op::Subi(rd, rn, imm) => sub_word(*rd, *rn, modified_imm(*imm as int)),
        Op::Stm(mode, rn, wb, regs) => multiple_word(0xe8000000u32, *mode, *rn, *wb, regs@),
        Op::Svc(imm) => 0xef000000u32 | *imm,
        Op::Placeholder => 0,
    }
}

/// Computes the register-list field.
fn mask_of(regs: &Vec<Reg>) -> (r: u32)
    ensures
        r == reg_mask(regs@),
{
    let mut acc: u32 = 0;
    let mut i: usize = 0;
    while i < regs.len()
        invariant
            0 <= i <= regs@.len(),
            acc == reg_mask(regs@.subrange(0, i as int)),
        decreases regs@.len() - i,
    {
        let ghost prefix = regs@.subrange(0, i as int + 1);
        assert(prefix.drop_last() =~= regs@.subrange(0, i as int));
        let v = regs[i].val();
        acc = acc | (1u32 << v);
        i = i + 1;
    }
    assert(regs@.subrange(0, regs@.len() as int) =~= regs@);
    acc
}

/// The displacement `target - at - 8` as an `i32`, for one of magnitude under 4096.
fn disp_of(at: usize, target: usize) -> (r: i32)
    requires
        -4096 < pc_disp(at as int, target as int) < 4096,
    ensures
        r == pc_disp(at as int, target as int),
{
    if target >= at && target - at >= 8 {
        (target - at - 8) as i32
    } else if target >= at {
        -((8 - (target - at)) as i32)
    } else {
        -(((at - target) + 8) as i32)
    }
}

/// Computes the modified-immediate field of a magnitude that `adr_fits`.
fn modified_imm_exec(m: u32) -> (r: u32)
    requires
        adr_fits(m as int),
    ensures
        r == modified_imm(m as int),
{
    if m < 256 {
        m
    } else {
        0xf00 + m / 4
    }
}

/// Computes `ADR <Rd>, #<disp>`.
fn adr_exec(rd: Reg, disp: i32) -> (r: u32)
    requires
        adr_fits(disp as int),
    ensures
        r == adr_word(rd, disp as int),
{
    let m: u32 = if disp < 0 {
        (-disp) as u32
    } else {
        disp as u32
    };
    let field: u32 = if m < 256 {
        m
    } else {
        0xf00 + m / 4
    };
    if disp < 0 {
        0xe2400000u32 | (Reg::PC.val() << 16u32) | (rd.val() << 12u32) | field
    } else {
        0xe2800000u32 | (Reg::PC.val() << 16u32) | (rd.val() << 12u32) | field
    }
}

/// Computes `LDR <Rt>, [<Rn>, #+/-<imm12>]`.
fn ldr_exec(mode: AddrMode2, rt: Reg, rn: Reg, imm: i32) -> (r: u32)
    requires
        -4096 < imm < 4096,
    ensures
        r == ldr_word(mode, rt, rn, imm as int),
{
    let (index, wback): (u32, u32) = match mode {
        AddrMode2::Offset => (1, 0),
        AddrMode2::PreIndexed => (1, 1),
        AddrMode2::PostIndexed => (0, 0),
    };
    let up: u32 = if imm < 0 {
        0
    } else {
        1
    };
    let mag: u32 = if imm < 0 {
        (-imm) as u32
    } else {
        imm as u32
    };
    0xe4100000u32 | (index << 24u32) | (up << 23u32) | (wback << 21u32) | (rn.val() << 16u32) | (
    rt.val() << 12u32) | mag
}

impl Op {
    /// Whether the operands are in range: 12-bit immediate fields and load
    /// displacements, ADR displacements with a modified-immediate encoding, a
    /// 16-bit MOVW immediate, a 24-bit SVC number.
    pub open spec fn operands_fit(&self, at: int, target: int) -> bool {
        match self {
            Op::Addi(_, _, imm) => adr_fits(*imm as int),
            Op::Adrl(_, _) => adr_fits(pc_disp(at, target)),
            Op::Adri(_, imm) => adr_fits(*imm as int),
            Op::Ldri(_, _, _, imm) => -4096 < *imm < 4096,
            Op::Ldrl(_, _) => -4096 < pc_disp(at, target) < 4096,
            Op::Movw(_, imm) => *imm < 0x10000,
            Op::Subi(_, _, imm) => adr_fits(*imm as int),
            Op::Svc(imm) => *imm < 0x1000000,
            _ => true,
        }
    }

    /// The instruction word of the instruction placed at `at`, its label at `target`.
    pub fn encode(&self, at: usize, target: usize) -> (r: u32)
        requires
            self.operands_fit(at as int, target as int),
        ensures
            r == word(self, at as int, target as int),
    {
        match self {
            Op::Addi(rd, rn, imm) => 0xe2800000u32 | (rn.val() << 16u32) | (rd.val() << 12u32) | modified_imm_exec(*imm),
            Op::Adrl(rd, _) => adr_exec(*rd, disp_of(at, target)),
            Op::Adri(rd, imm) => adr_exec(*rd, *imm),
            Op::Ldm(mode, rn, wb, regs) => {
                let w: u32 = if *wb {
                    1
                } else {
                    0
                };
                0xe8100000u32 | (mode.bits() << 23u32) | (w << 21u32) | (rn.val() << 16u32) | mask_of(
                    regs,
                )
            },
            Op::Ldri(mode, rt, rn, imm) => ldr_exec(*mode, *rt, *rn, *imm as i32),
            Op::Ldrl(rt, _) => ldr_exec(AddrMode2::Offset, *rt, Reg::PC, disp_of(at, target)),
            Op::Movr(rd, rm) => 0xe1a00000u32 | (rd.val() << 12u32) | rm.val(),
            Op::Movw(rd, imm) => 0xe3000000u32 | ((*imm >> 12u32) << 16u32) | (rd.val() << 12u32) | (
            0xfffu32 & *imm),
            Op::Subi(rd, rn, imm) => 0xe2400000u32 | (rn.val() << 16u32) | (rd.val() << 12u32) | modified_imm_exec(*imm),
            Op::Stm(mode, rn, wb, regs) => {
                let w: u32 = if *wb {
                    1
                } else {
                    0
                };
                0xe8000000u32 | (mode.bits() << 23u32) | (w << 21u32) | (rn.val() << 16u32) | mask_of(
                    regs,
                )
            },
            Op::Svc(imm) => 0xef000000u32 | *imm,
            Op::Placeholder => 0,
        }
    }
}

impl Encodable for Op {
    open spec fn spec_label(&self) -> Option<Seq<char>> {
        match self {
            Op::Adrl(_, l) => Some(l@),
            Op::Ldrl(_, l) => Some(l@),
            _ => None,
        }
    }

    open spec fn spec_fits(&self, at: int, target: int) -> bool {
        self.operands_fit(at, target)
    }

    open spec fn spec_enc(&self, at: int, target: int) -> Seq<u8> {
        le32(word(self, at, target) as int)
    }

    fn label(&self) -> (r: Option<Label>) {
        match self {
            Op::Adrl(_, l) => Some(*l),
            Op::Ldrl(_, l) => Some(*l),
            _ => None,
        }
    }

    fn enc(&self, at: usize, target: usize) -> (r: [u8; 4]) {
        le_bytes(self.encode(at, target))
    }
}

/// The value of a modified-immediate field: `imm8` rotated right by twice the rotation.
pub open spec fn expand_imm(f: u32) -> u32 {
    let rot: u32 = ((f >> 8u32) * 2) as u32;
    let v: u32 = f & 0xffu32;
    if rot == 0 {
        v
    } else {
        (v >> rot) | (v << ((32 - rot) as u32))
    }
}

/// What executing the word `w` at address `pc` does when it is an ADD or SUB
/// (immediate) from the PC: the destination register and the value it receives.
pub open spec fn adr_effect(w: u32, pc: int) -> Option<(u32, int)> {
    let rn = (w >> 16u32) & 0xfu32;
    let rd = (w >> 12u32) & 0xfu32;
    let imm = expand_imm(w & 0xfffu32);
    if rn != 15 {
        None
    } else if (w >> 20u32) == 0xe28u32 {
        Some((rd, pc + 8 + imm))
    } else if (w >> 20u32) == 0xe24u32 {
        Some((rd, pc + 8 - imm))
    } else {
        None
    }
}

/// Label resolution: the four bytes that `build` writes for `ADR <Rd>, <label>`
/// at byte `at`, its label at byte `target`, executed with the code loaded at
/// `base`, put the label's address `base + target` into `Rd`.
pub proof fn lemma_adr_reaches_label(rd: Reg, label: Label, base: int, at: int, target: int)
    requires
        adr_fits(pc_disp(at, target)),
    ensures
        adr_effect(le_value(Op::Adrl(rd, label).spec_enc(at, target)) as u32, base + at) == Some(
            (rd.num(), base + target),
        ),
{
    let d = pc_disp(at, target);
    let m = if d < 0 {
        -d
    } else {
        d
    };
    let f = modified_imm(m);
    let r = rd.num();
    let w = word(&Op::Adrl(rd, label), at, target);
    lemma_le32_value(w);
    assert(r < 16);
    if m < 256 {
        assert(f < 256);
        assert(expand_imm(f) == f) by (bit_vector)
            requires
                f < 256,
        ;
    } else {
        let q = (m / 4) as u32;
        assert(f == (0xf00u32 | q)) by (bit_vector)
            requires
                f == 0xf00 + q,
                q < 256,
        ;
        assert(expand_imm(0xf00u32 | q) == q * 4) by (bit_vector)
            requires
                q < 256,
        ;
    }
    assert(f < 4096);
    if d < 0 {
        assert(w == 0xe2400000u32 | (15u32 << 16u32) | (r << 12u32) | f);
        assert(((w >> 16u32) & 0xfu32) == 15 && ((w >> 12u32) & 0xfu32) == r && (w >> 20u32)
            == 0xe24u32 && (w & 0xfffu32) == f) by (bit_vector)
            requires
                w == 0xe2400000u32 | (15u32 << 16u32) | (r << 12u32) | f,
                r < 16,
                f < 4096,
        ;
    } else {
        assert(w == 0xe2800000u32 | (15u32 << 16u32) | (r << 12u32) | f);
        assert(((w >> 16u32) & 0xfu32) == 15 && ((w >> 12u32) & 0xfu32) == r && (w >> 20u32)
            == 0xe28u32 && (w & 0xfffu32) == f) by (bit_vector)
            requires
                w == 0xe2800000u32 | (15u32 << 16u32) | (r << 12u32) | f,
                r < 16,
                f < 4096,
        ;
    }
}

/// Label resolution, as assembled: in bytes that `build` returns for `a`, the
/// ADR recorded at `j`, executed with the bytes loaded at `base`, puts the
/// address of its label into its register.
pub proof fn lemma_assembled_adr_reaches_label(a: TinyAsm, r: Seq<u8>, j: int, base: int)
    requires
        a.wf(),
        a.resolvable(),
        a.built(r),
        0 <= j < a.relocs().len(),
        a.relocs()[j].1 is Adrl,
    ensures
        ({
            let (at, op) = a.relocs()[j];
            let target = a.labels()[op.spec_label()->0];
            adr_effect(le_value(r.subrange(at as int, at + 4)) as u32, base + at) == Some(
                (op->Adrl_0.num(), base + target),
            )
        }),
{
    reveal(crate::tiny_asm::TinyAsm::built);
    let (at, op) = a.relocs()[j];
    let target = a.labels()[op.spec_label()->0];
    lemma_adr_reaches_label(op->Adrl_0, op->Adrl_1, base, at as int, target as int);
}

/// Copies a register list into a vector.
fn reg_vec<const N: usize>(regs: [Reg; N]) -> (r: Vec<Reg>)
    ensures
        r@ == regs@,
{
    let mut v: Vec<Reg> = Vec::new();
    let mut i: usize = 0;
    while i < N
        invariant
            0 <= i <= N,
            regs@.len() == N,
            v@ == regs@.subrange(0, i as int),
        decreases N - i,
    {
        v.push(regs[i]);
        i = i + 1;
        assert(v@ =~= regs@.subrange(0, i as int));
    }
    assert(regs@.subrange(0, N as int) =~= regs@);
    v
}

/// The ARM assembler.
pub type TinyAsm = crate::tiny_asm::TinyAsm<Op>;

/// <https://documentation-service.arm.com/static/5f8daeb7f86e16515cdb8c4e>
impl crate::tiny_asm::TinyAsm<Op> {
    /// Encoding of ADD (immediate): `ADD <Rd>, <Rn>, #<imm>` for an immediate below 256
    /// or a multiple of 4 below 1024 (a modified immediate); `Rn` defaults to `Rd`.
    pub fn addi(self, rd: Reg, rn: Option<Reg>, imm: u16) -> (r: Self)
        requires
            self.wf(),
            adr_fits(imm as int),
        ensures
            r.wf(),
            r.code() == self.code() + le32(
                add_word(
                    rd,
                    match rn {
                        Some(n) => n,
                        None => rd,
                    },
                    modified_imm(imm as int),
                ) as int,
            ),
            r.relocs() == self.relocs(),
            r.labels() == self.labels(),
    {
        let n = match rn {
            Some(n) => n,
            None => rd,
        };
        self.op(Op::Addi(rd, n, imm as u32))
    }

    /// Encoding of ADR: `ADR <Rd>, <label>`, written by `build`.
    pub fn adrl(self, rd: Reg, label: Label) -> (r: Self)
        requires
            self.wf(),
            self.code().len() + 4 <= usize::MAX,
        ensures
            r.wf(),
            r.code() == self.code() + crate::tiny_asm::zeros(4),
            r.relocs() == self.relocs().push((self.code().len() as usize, Op::Adrl(rd, label))),
            r.labels() == self.labels(),
    {
        self.reloc(Op::Adrl(rd, label))
    }

    /// Encoding of LDMIA: `LDMIA <Rn>{!}, <registers>`.
    pub fn ldmia<const T: usize>(self, rn: Reg, wb: bool, regs: [Reg; T]) -> (r: Self)
        requires
            self.wf(),
        ensures
            r.wf(),
            r.code() == self.code() + le32(
                multiple_word(0xe8100000u32, AddrMode::IncrAfter, rn, wb, regs@) as int,
            ),
            r.relocs() == self.relocs(),
            r.labels() == self.labels(),
    {
        self.op(Op::Ldm(AddrMode::IncrAfter, rn, wb, reg_vec(regs)))
    }

    /// Encoding of MOV (register): `MOV <Rd>, <Rm>`.
    pub fn movr(self, rd: Reg, rm: Reg) -> (r: Self)
        requires
            self.wf(),
        ensures
            r.wf(),
            r.code() == self.code() + le32(word(&Op::Movr(rd, rm), 0, 0) as int),
            r.relocs() == self.relocs(),
            r.labels() == self.labels(),
    {
        self.op(Op::Movr(rd, rm))
    }

    /// Encoding of MOVW (immediate): `MOVW <Rd>, #<imm16>`.
    pub fn movw(self, rd: Reg, imm: u16) -> (r: Self)
        requires
            self.wf(),
        ensures
            r.wf(),
            r.code() == self.code() + le32(word(&Op::Movw(rd, imm as u32), 0, 0) as int),
            r.relocs() == self.relocs(),
            r.labels() == self.labels(),
    {
        self.op(Op::Movw(rd, imm as u32))
    }

    /// Encoding of LDR (immediate): `LDR <Rt>, [<Rn>{, #+/-<imm12>}]`,
    /// `LDR <Rt>, [<Rn>], #+/-<imm12>`, `LDR <Rt>, [<Rn>, #+/-<imm12>]!`.
    pub fn ldri(self, mode: AddrMode2, rt: Reg, rn: Reg, imm: i16) -> (r: Self)
        requires
            self.wf(),
            -4096 < imm < 4096,
        ensures
            r.wf(),
            r.code() == self.code() + le32(ldr_word(mode, rt, rn, imm as int) as int),
            r.relocs() == self.relocs(),
            r.labels() == self.labels(),
    {
        self.op(Op::Ldri(mode, rt, rn, imm))
    }

    /// Encoding of LDR (literal): `LDR <Rt>, <label>`, written by `build`.
    pub fn ldrl(self, rt: Reg, label: Label) -> (r: Self)
        requires
            self.wf(),
            self.code().len() + 4 <= usize::MAX,
        ensures
            r.wf(),
            r.code() == self.code() + crate::tiny_asm::zeros(4),
            r.relocs() == self.relocs().push((self.code().len() as usize, Op::Ldrl(rt, label))),
            r.labels() == self.labels(),
    {
        self.reloc(Op::Ldrl(rt, label))
    }

    /// Encoding of POP: `POP <registers>`, that is `LDMIA SP!, <registers>`.
    pub fn pop<const T: usize>(self, regs: [Reg; T]) -> (r: Self)
        requires
            self.wf(),
        ensures
            r.wf(),
            r.code() == self.code() + le32(
                multiple_word(0xe8100000u32, AddrMode::IncrAfter, Reg::SP, true, regs@) as int,
            ),
            r.relocs() == self.relocs(),
            r.labels() == self.labels(),
    {
        self.ldmia(Reg::SP, true, regs)
    }

    /// Encoding of PUSH: `PUSH <registers>`, that is `STMDB SP!, <registers>`.
    pub fn push<const T: usize>(self, regs: [Reg; T]) -> (r: Self)
        requires
            self.wf(),
        ensures
            r.wf(),
            r.code() == self.code() + le32(
                multiple_word(0xe8000000u32, AddrMode::DecrBefore, Reg::SP, true, regs@) as int,
            ),
            r.relocs() == self.relocs(),
            r.labels() == self.labels(),
    {
        self.stmdb(Reg::SP, true, regs)
    }

    /// Encoding of STMDB: `STMDB <Rn>{!}, <registers>`.
    pub fn stmdb<const T: usize>(self, rn: Reg, wb: bool, regs: [Reg; T]) -> (r: Self)
        requires
            self.wf(),
        ensures
            r.wf(),
            r.code() == self.code() + le32(
                multiple_word(0xe8000000u32, AddrMode::DecrBefore, rn, wb, regs@) as int,
            ),
            r.relocs() == self.relocs(),
            r.labels() == self.labels(),
    {
        self.op(Op::Stm(AddrMode::DecrBefore, rn, wb, reg_vec(regs)))
    }

    /// Encoding of SUB (immediate): `SUB <Rd>, <Rn>, #<imm>` for an immediate below 256
    /// or a multiple of 4 below 1024 (a modified immediate); `Rn` defaults to `Rd`.
    pub fn subi(self, rd: Reg, rn: Option<Reg>, imm: u16) -> (r: Self)
        requires
            self.wf(),
            adr_fits(imm as int),
        ensures
            r.wf(),
            r.code() == self.code() + le32(
                sub_word(
                    rd,
                    match rn {
                        Some(n) => n,
                        None => rd,
                    },
                    modified_imm(imm as int),
                ) as int,
            ),
            r.relocs() == self.relocs(),
            r.labels() == self.labels(),
    {
        let n = match rn {
            Some(n) => n,
            None => rd,
        };
        self.op(Op::Subi(rd, n, imm as u32))
    }

    /// Encoding of SVC: `SVC #<imm24>`.
    pub fn svc(self, imm: u32) -> (r: Self)
        requires
            self.wf(),
            imm < 0x1000000,
        ensures
            r.wf(),
            r.code() == self.code() + le32(word(&Op::Svc(imm), 0, 0) as int),
            r.relocs() == self.relocs(),
            r.labels() == self.labels(),
    {
        self.op(Op::Svc(imm))
    }
}

} // verus!
