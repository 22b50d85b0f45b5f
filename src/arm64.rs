//! AArch64 (A64): every instruction is one 32-bit word assembled from bit
//! fields. A label reference is PC-relative with no bias.

use crate::tiny_asm::{le32, le_bytes, le_value, lemma_le32_value, zeros, Encodable, Label};
use vstd::prelude::*;

verus! {

/// A general-purpose register, the stack pointer or the zero register.
#[derive(Clone, Copy, PartialEq, Eq, Debug)]
pub enum Reg {
    X0,
    X1,
    X2,
    X3,
    X4,
    X5,
    X6,
    X7,
    X8,
    X9,
    X10,
    X11,
    X12,
    X13,
    X14,
    X15,
    X16,
    X17,
    X18,
    X19,
    X20,
    X21,
    X22,
    X23,
    X24,
    X25,
    X26,
    X27,
    X28,
    X29,
    X30,
    /// The stack pointer (register number 31 where the instruction reads SP).
    SP,
    /// The zero register (register number 31 where the instruction reads XZR).
    XZR,
}

impl Reg {
    /// The register number.
    pub open spec fn num(self) -> u32 {
        match self {
            Reg::X0 => 0,
            Reg::X1 => 1,
            Reg::X2 => 2,
            Reg::X3 => 3,
            Reg::X4 => 4,
            Reg::X5 => 5,
            Reg::X6 => 6,
            Reg::X7 => 7,
            Reg::X8 => 8,
            Reg::X9 => 9,
            Reg::X10 => 10,
            Reg::X11 => 11,
            Reg::X12 => 12,
            Reg::X13 => 13,
            Reg::X14 => 14,
            Reg::X15 => 15,
            Reg::X16 => 16,
            Reg::X17 => 17,
            Reg::X18 => 18,
            Reg::X19 => 19,
            Reg::X20 => 20,
            Reg::X21 => 21,
            Reg::X22 => 22,
            Reg::X23 => 23,
            Reg::X24 => 24,
            Reg::X25 => 25,
            Reg::X26 => 26,
            Reg::X27 => 27,
            Reg::X28 => 28,
            Reg::X29 => 29,
            Reg::X30 => 30,
            Reg::SP | Reg::XZR => 31,
        }
    }

    /// The register number.
    pub fn val(self) -> (r: u32)
        ensures
            r == self.num(),
            r < 32,
    {
        match self {
            Reg::X0 => 0,
            Reg::X1 => 1,
            Reg::X2 => 2,
            Reg::X3 => 3,
            Reg::X4 => 4,
            Reg::X5 => 5,
            Reg::X6 => 6,
            Reg::X7 => 7,
            Reg::X8 => 8,
            Reg::X9 => 9,
            Reg::X10 => 10,
            Reg::X11 => 11,
            Reg::X12 => 12,
            Reg::X13 => 13,
            Reg::X14 => 14,
            Reg::X15 => 15,
            Reg::X16 => 16,
            Reg::X17 => 17,
            Reg::X18 => 18,
            Reg::X19 => 19,
            Reg::X20 => 20,
            Reg::X21 => 21,
            Reg::X22 => 22,
            Reg::X23 => 23,
            Reg::X24 => 24,
            Reg::X25 => 25,
            Reg::X26 => 26,
            Reg::X27 => 27,
            Reg::X28 => 28,
            Reg::X29 => 29,
            Reg::X30 => 30,
            Reg::SP | Reg::XZR => 31,
        }
    }
}

/// The shift applied to the second source register of a shifted-register instruction.
#[derive(Clone, Copy, PartialEq, Eq, Debug)]
pub enum Shift {
    Lsl,
    Lsr,
    Asr,
    Ror,
}

impl Shift {
    /// The `shift` field.
    pub open spec fn spec_bits(self) -> u32 {
        match self {
            Shift::Lsl => 0,
            Shift::Lsr => 1,
            Shift::Asr => 2,
            Shift::Ror => 3,
        }
    }

    /// The `shift` field.
    pub fn bits(self) -> (r: u32)
        ensures
            r == self.spec_bits(),
    {
        match self {
            Shift::Lsl => 0,
            Shift::Lsr => 1,
            Shift::Asr => 2,
            Shift::Ror => 3,
        }
    }
}

/// The addressing mode of a load/store with an immediate offset.
#[derive(Clone, Copy, PartialEq, Eq, Debug)]
pub enum AddrMode2 {
    /// `[<Xn|SP>{, #<imm>}]`
    Offset,
    /// `[<Xn|SP>, #<imm>]!`
    PreIndexed,
    /// `[<Xn|SP>], #<imm>`
    PostIndexed,
}

/// An A64 instruction.
pub enum Op {
    /// `ADR <Xd>, #<disp>`
    Adri(Reg, i32),
    /// `ADR <Xd>, <label>`
    Adrl(Reg, Label),
    /// `BLR <Xn>`
    Blr(Reg),
    /// `BR <Xn>`
    Br(Reg),
    /// `LDP <Xt1>, <Xt2>, [<Xn|SP>...]` with a byte offset.
    Ldp(AddrMode2, Reg, Reg, Reg, i16),
    /// `LDR <Xt>, [<Xn|SP>...]` with a byte offset.
    Ldri(AddrMode2, Reg, Reg, i32),
    /// `LDR <Xt>, <label>`
    Ldrl(Reg, Label),
    /// `LDR <Xt>, #<disp>` (literal)
    Ldrli(Reg, i32),
    /// `MOV <Xd>, #<imm>`: MOVZ, or MOVN for a negative value.
    Movi(Reg, i32),
    /// `ORR <Xd>, <Xn>, <Xm>, <shift> #<amount>`
    Orrsr(Reg, Reg, Reg, (Shift, u8)),
    /// `STP <Xt1>, <Xt2>, [<Xn|SP>...]` with a byte offset.
    Stp(AddrMode2, Reg, Reg, Reg, i16),
    /// `STR <Xt>, [<Xn|SP>...]` with a byte offset.
    Stri(AddrMode2, Reg, Reg, i32),
    /// `SVC #<imm16>`
    Svc(u16),
    /// Four zero bytes.
    Placeholder,
}

/// The two's-complement pattern of `v` in a field of `modulus` values.
pub open spec fn wrap(v: int, modulus: int) -> u32 {
    if v < 0 {
        (v + modulus) as u32
    } else {
        v as u32
    }
}

/// `ADR <Xd>, #<disp>`: `immlo` in bits 30:29, `immhi` in bits 23:5.
pub open spec fn adr_word(xd: Reg, disp: int) -> u32 {
    let u = wrap(disp, 0x200000);
    ((u & 3u32) << 29u32) | 0x10000000u32 | ((u >> 2u32) << 5u32) | xd.num()
}

/// `LDR <Xt>, #<disp>` (literal): the displacement in words in bits 23:5.
pub open spec fn ldr_literal_word(xt: Reg, disp: int) -> u32 {
    let u = wrap(disp, 0x200000);
    0x58000000u32 | ((u >> 2u32) << 5u32) | xt.num()
}

/// The `opc` bits 24:23 of a pair load/store.
pub open spec fn pair_mode(mode: AddrMode2) -> u32 {
    match mode {
        AddrMode2::Offset => 2,
        AddrMode2::PreIndexed => 3,
        AddrMode2::PostIndexed => 1,
    }
}

/// `LDP`/`STP` with base bits `base`: the offset in 8-byte units in bits 21:15.
pub open spec fn pair_word(base: u32, mode: AddrMode2, xt1: Reg, xt2: Reg, xn: Reg, imm: int) -> u32 {
    base | (pair_mode(mode) << 23u32) | ((wrap(imm, 0x400) >> 3u32) << 15u32) | (xt2.num() << 10u32) | (
    xn.num() << 5u32) | xt1.num()
}

/// `LDR`/`STR` (immediate) with base bits `unsigned_base` for the unsigned
/// offset form (offset in 8-byte units in bits 21:10) and `indexed_base` for
/// the pre- and post-indexed forms (9-bit signed offset in bits 20:12).
pub open spec fn single_word(
    unsigned_base: u32,
    indexed_base: u32,
    mode: AddrMode2,
    xt: Reg,
    xn: Reg,
    imm: int,
) -> u32 {
    match mode {
        AddrMode2::Offset => unsigned_base | (((imm / 8) as u32) << 10u32) | (xn.num() << 5u32)
            | xt.num(),
        AddrMode2::PreIndexed => indexed_base | 0xc00u32 | (wrap(imm, 0x200) << 12u32) | (xn.num()
            << 5u32) | xt.num(),
        AddrMode2::PostIndexed => indexed_base | 0x400u32 | (wrap(imm, 0x200) << 12u32) | (xn.num()
            << 5u32) | xt.num(),
    }
}

/// `MOV <Xd>, #<imm>`: MOVZ with the value, or MOVN with its bitwise complement.
pub open spec fn mov_word(xd: Reg, imm: int) -> u32 {
    if imm < 0 {
        0x92800000u32 | (((-imm - 1) as u32) << 5u32) | xd.num()
    } else {
        0xd2800000u32 | ((imm as u32) << 5u32) | xd.num()
    }
}

/// The instruction word of `op` placed at `at`, its label at `target`.
pub open spec fn word(op: &Op, at: int, target: int) -> u32 {
    match op {
        Op::Adri(xd, imm) => adr_word(*xd, *imm as int),
        Op::Adrl(xd, _) => adr_word(*xd, target - at),
        Op::Blr(xn) => 0xd63f0000u32 | (xn.num() << 5u32),
        Op::Br(xn) => 0xd61f0000u32 | (xn.num() << 5u32),
        Op::Ldp(mode, xt1, xt2, xn, imm) => pair_word(0xa8400000u32, *mode, *xt1, *xt2, *xn, *imm as int),
        Op::Ldri(mode, xt, xn, imm) => single_word(0xf9400000u32, 0xf8400000u32, *mode, *xt, *xn, *imm as int),
        Op::Ldrl(xt, _) => ldr_literal_word(*xt, target - at),
        Op::Ldrli(xt, imm) => ldr_literal_word(*xt, *imm as int),
        Op::Movi(xd, imm) => mov_word(*xd, *imm as int),
        Op::Orrsr(xd, xn, xm, (shift, amount)) => 0xaa000000u32 | (shift.spec_bits() << 22u32) | (
        xm.num() << 16u32) | ((*amount as u32) << 10u32) | (xn.num() << 5u32) | xd.num(),
        Op::Stp(mode, xt1, xt2, xn, imm) => pair_word(0xa8000000u32, *mode, *xt1, *xt2, *xn, *imm as int),
        Op::Stri(mode, xt, xn, imm) => single_word(0xf9000000u32, 0xf8000000u32, *mode, *xt, *xn, *imm as int),
        Op::Svc(imm) => 0xd4000001u32 | ((*imm as u32) << 5u32),
        Op::Placeholder => 0,
    }
}

/// Whether a load/store offset is in range for the mode: a multiple of 8 below
/// 32768 for the unsigned form, a signed 9-bit value for the indexed forms.
pub open spec fn single_fits(mode: AddrMode2, imm: int) -> bool {
    match mode {
        AddrMode2::Offset => 0 <= imm < 32768 && imm % 8 == 0,
        _ => -256 <= imm < 256,
    }
}

/// Whether a pair offset is in range: a multiple of 8 in [-512, 512).
pub open spec fn pair_fits(imm: int) -> bool {
    -512 <= imm < 512 && imm % 8 == 0
}

/// Whether a literal-load displacement is in range: a multiple of 4 in [-1 MiB, 1 MiB).
pub open spec fn literal_fits(disp: int) -> bool {
    -0x100000 <= disp < 0x100000 && disp % 4 == 0
}

/// Whether an ADR displacement is in range: [-1 MiB, 1 MiB).
pub open spec fn adr_fits(disp: int) -> bool {
    -0x100000 <= disp < 0x100000
}

/// The two's-complement pattern of `v` in a field of `m` values.
fn wrap_exec(v: i32, m: u32) -> (r: u32)
    requires
        m == 0x200 || m == 0x400 || m == 0x200000,
        -m <= v < m,
    ensures
        r == wrap(v as int, m as int),
{
    if v < 0 {
        (m as i64 + v as i64) as u32
    } else {
        v as u32
    }
}

/// The displacement `target - at`, for one of magnitude within 1 MiB.
fn disp_of(at: usize, target: usize) -> (r: i32)
    requires
        -0x100000 <= target - at < 0x100000,
    ensures
        r == target - at,
{
    if target >= at {
        (target - at) as i32
    } else {
        -((at - target) as i32)
    }
}

impl Op {
    /// Whether the operands are in range for their fields.
    pub open spec fn operands_fit(&self, at: int, target: int) -> bool {
        match self {
            Op::Adri(_, imm) => adr_fits(*imm as int),
            Op::Adrl(_, _) => adr_fits(target - at),
            Op::Ldp(_, _, _, _, imm) => pair_fits(*imm as int),
            Op::Ldri(mode, _, _, imm) => single_fits(*mode, *imm as int),
            Op::Ldrl(_, _) => literal_fits(target - at),
            Op::Ldrli(_, imm) => literal_fits(*imm as int),
            Op::Movi(_, imm) => -0x10000 <= *imm < 0x10000,
            Op::Orrsr(_, _, _, (_, amount)) => *amount < 64,
            Op::Stp(_, _, _, _, imm) => pair_fits(*imm as int),
            Op::Stri(mode, _, _, imm) => single_fits(*mode, *imm as int),
            _ => true,
        }
    }

    /// The instruction word of the instruction placed at `at`, its label at `target`.
    pub fn encode(&self, at: usize, target: usize) -> (r: u32)
        requires
            self.operands_fit(at as int, target as int),
        ensures
            r == word(self, at as int, target as int),
    {
        match self {
            Op::Adri(xd, imm) => {
                let u = wrap_exec(*imm, 0x200000);
                ((u & 3u32) << 29u32) | 0x10000000u32 | ((u >> 2u32) << 5u32) | xd.val()
            },
            Op::Adrl(xd, _) => {
                let u = wrap_exec(disp_of(at, target), 0x200000);
                ((u & 3u32) << 29u32) | 0x10000000u32 | ((u >> 2u32) << 5u32) | xd.val()
            },
            Op::Blr(xn) => 0xd63f0000u32 | (xn.val() << 5u32),
            Op::Br(xn) => 0xd61f0000u32 | (xn.val() << 5u32),
            Op::Ldp(mode, xt1, xt2, xn, imm) => pair_exec(0xa8400000u32, *mode, *xt1, *xt2, *xn, *imm),
            Op::Ldri(mode, xt, xn, imm) => single_exec(0xf9400000u32, 0xf8400000u32, *mode, *xt, *xn, *imm),
            Op::Ldrl(xt, _) => {
                let u = wrap_exec(disp_of(at, target), 0x200000);
                0x58000000u32 | ((u >> 2u32) << 5u32) | xt.val()
            },
            Op::Ldrli(xt, imm) => {
                let u = wrap_exec(*imm, 0x200000);
                0x58000000u32 | ((u >> 2u32) << 5u32) | xt.val()
            },
            Op::Movi(xd, imm) => {
                if *imm < 0 {
                    0x92800000u32 | (((-*imm - 1) as u32) << 5u32) | xd.val()
                } else {
                    0xd2800000u32 | ((*imm as u32) << 5u32) | xd.val()
                }
            },
            Op::Orrsr(xd, xn, xm, (shift, amount)) => 0xaa000000u32 | (shift.bits() << 22u32) | (
            xm.val() << 16u32) | ((*amount as u32) << 10u32) | (xn.val() << 5u32) | xd.val(),
            Op::Stp(mode, xt1, xt2, xn, imm) => pair_exec(0xa8000000u32, *mode, *xt1, *xt2, *xn, *imm),
            Op::Stri(mode, xt, xn, imm) => single_exec(0xf9000000u32, 0xf8000000u32, *mode, *xt, *xn, *imm),
            Op::Svc(imm) => 0xd4000001u32 | ((*imm as u32) << 5u32),
            Op::Placeholder => 0,
        }
    }
}

/// Computes a pair load/store word.
fn pair_exec(base: u32, mode: AddrMode2, xt1: Reg, xt2: Reg, xn: Reg, imm: i16) -> (r: u32)
    requires
        pair_fits(imm as int),
    ensures
        r == pair_word(base, mode, xt1, xt2, xn, imm as int),
{
    let m: u32 = match mode {
        AddrMode2::Offset => 2,
        AddrMode2::PreIndexed => 3,
        AddrMode2::PostIndexed => 1,
    };
    base | (m << 23u32) | ((wrap_exec(imm as i32, 0x400) >> 3u32) << 15u32) | (xt2.val() << 10u32) | (
    xn.val() << 5u32) | xt1.val()
}

/// Computes a single load/store word.
fn single_exec(unsigned_base: u32, indexed_base: u32, mode: AddrMode2, xt: Reg, xn: Reg, imm: i32) -> (r: u32)
    requires
        single_fits(mode, imm as int),
    ensures
        r == single_word(unsigned_base, indexed_base, mode, xt, xn, imm as int),
{
    match mode {
        AddrMode2::Offset => unsigned_base | (((imm / 8) as u32) << 10u32) | (xn.val() << 5u32) | xt.val(),
        AddrMode2::PreIndexed => indexed_base | 0xc00u32 | (wrap_exec(imm, 0x200) << 12u32) | (xn.val()
            << 5u32) | xt.val(),
        AddrMode2::PostIndexed => indexed_base | 0x400u32 | (wrap_exec(imm, 0x200) << 12u32) | (xn.val()
            << 5u32) | xt.val(),
    }
}

impl Encodable for Op {
    open spec fn spec_label(&self) -> Option<Seq<char>> {
        match self {
            Op::Adrl(_, l) => Some(l@),
            Op::Ldrl(_, l) => Some(l@),
            _ => None,
        }
    }

    open spec fn spec_fits(&self, at: int, target: int) -> bool {
        self.operands_fit(at, target)
    }

    open spec fn spec_enc(&self, at: int, target: int) -> Seq<u8> {
        le32(word(self, at, target) as int)
    }

    fn label(&self) -> (r: Option<Label>) {
        match self {
            Op::Adrl(_, l) => Some(*l),
            Op::Ldrl(_, l) => Some(*l),
            _ => None,
        }
    }

    fn enc(&self, at: usize, target: usize) -> (r: [u8; 4]) {
        le_bytes(self.encode(at, target))
    }
}

/// What executing the word `w` at address `pc` does when it is an ADR: the
/// destination register and the value it receives (`pc` plus the
/// sign-extended `immhi:immlo`).
pub open spec fn adr_effect(w: u32, pc: int) -> Option<(u32, int)> {
    if w & 0x9f000000u32 == 0x10000000u32 {
        let imm = ((w >> 5u32) & 0x7ffffu32) * 4 + ((w >> 29u32) & 3u32);
        let off = if imm >= 0x100000 {
            imm - 0x200000
        } else {
            imm
        };
        Some((w & 0x1fu32, pc + off))
    } else {
        None
    }
}

/// Label resolution: the four bytes that `build` writes for `ADR <Xd>, <label>`
/// at byte `at`, its label at byte `target`, executed with the code loaded at
/// `base`, put the label's address `base + target` into `Xd`.
pub proof fn lemma_adr_reaches_label(xd: Reg, label: Label, base: int, at: int, target: int)
    requires
        adr_fits(target - at),
    ensures
        adr_effect(le_value(Op::Adrl(xd, label).spec_enc(at, target)) as u32, base + at) == Some(
            (xd.num(), base + target),
        ),
{
    let d = target - at;
    let u = wrap(d, 0x200000);
    let r = xd.num();
    let w = word(&Op::Adrl(xd, label), at, target);
    lemma_le32_value(w);
    assert(u < 0x200000);
    assert(r < 32);
    assert(w == ((u & 3u32) << 29u32) | 0x10000000u32 | ((u >> 2u32) << 5u32) | r);
    assert(w & 0x9f000000u32 == 0x10000000u32 && ((w >> 5u32) & 0x7ffffu32) == (u >> 2u32) && ((
    w >> 29u32) & 3u32) == (u & 3u32) && (w & 0x1fu32) == r && (u >> 2u32) * 4 + (u & 3u32) == u)
        by (bit_vector)
        requires
            w == ((u & 3u32) << 29u32) | 0x10000000u32 | ((u >> 2u32) << 5u32) | r,
            u < 0x200000,
            r < 32,
    ;
}

/// Label resolution, as assembled: in bytes that `build` returns for `a`, the
/// ADR recorded at `j`, executed with the bytes loaded at `base`, puts the
/// address of its label into its register.
pub proof fn lemma_assembled_adr_reaches_label(a: TinyAsm, r: Seq<u8>, j: int, base: int)
    requires
        a.wf(),
        a.resolvable(),
        a.built(r),
        0 <= j < a.relocs().len(),
        a.relocs()[j].1 is Adrl,
    ensures
        ({
            let (at, op) = a.relocs()[j];
            let target = a.labels()[op.spec_label()->0];
            adr_effect(le_value(r.subrange(at as int, at + 4)) as u32, base + at) == Some(
                (op->Adrl_0.num(), base + target),
            )
        }),
{
    reveal(crate::tiny_asm::TinyAsm::built);
    let (at, op) = a.relocs()[j];
    let target = a.labels()[op.spec_label()->0];
    lemma_adr_reaches_label(op->Adrl_0, op->Adrl_1, base, at as int, target as int);
}

/// The AArch64 assembler.
pub type TinyAsm = crate::tiny_asm::TinyAsm<Op>;

/// <https://developer.arm.com/documentation/ddi0596/2021-09/Base-Instructions>
impl crate::tiny_asm::TinyAsm<Op> {
    /// Encoding of ADR: `ADR <Xd>, <label>`, written by `build`.
    pub fn adr(self, xd: Reg, label: Label) -> (r: Self)
        requires
            self.wf(),
            self.code().len() + 4 <= usize::MAX,
        ensures
            r.wf(),
            r.code() == self.code() + zeros(4),
            r.relocs() == self.relocs().push((self.code().len() as usize, Op::Adrl(xd, label))),
            r.labels() == self.labels(),
    {
        self.reloc(Op::Adrl(xd, label))
    }

    /// Encoding of BLR: `BLR <Xn>`.
    pub fn blr(self, xn: Reg) -> (r: Self)
        requires
            self.wf(),
        ensures
            r.wf(),
            r.code() == self.code() + le32(word(&Op::Blr(xn), 0, 0) as int),
            r.relocs() == self.relocs(),
            r.labels() == self.labels(),
    {
        self.op(Op::Blr(xn))
    }

    /// Encoding of BR: `BR <Xn>`.
    pub fn br(self, xn: Reg) -> (r: Self)
        requires
            self.wf(),
        ensures
            r.wf(),
            r.code() == self.code() + le32(word(&Op::Br(xn), 0, 0) as int),
            r.relocs() == self.relocs(),
            r.labels() == self.labels(),
    {
        self.op(Op::Br(xn))
    }

    /// Encoding of LDP: `LDP <Xt1>, <Xt2>, [<Xn|SP>], #<imm>`, `LDP <Xt1>, <Xt2>, [<Xn|SP>, #<imm>]!`,
    /// `LDP <Xt1>, <Xt2>, [<Xn|SP>{, #<imm>}]`.
    pub fn ldp(self, mode: AddrMode2, xt1: Reg, xt2: Reg, xn: Reg, imm: i16) -> (r: Self)
        requires
            self.wf(),
            pair_fits(imm as int),
        ensures
            r.wf(),
            r.code() == self.code() + le32(word(&Op::Ldp(mode, xt1, xt2, xn, imm), 0, 0) as int),
            r.relocs() == self.relocs(),
            r.labels() == self.labels(),
    {
        self.op(Op::Ldp(mode, xt1, xt2, xn, imm))
    }

    /// Encoding of LDR (immediate): `LDR <Xt>, [<Xn|SP>], #<simm>`, `LDR <Xt>, [<Xn|SP>, #<simm>]!`,
    /// `LDR <Xt>, [<Xn|SP>{, #<pimm>}]`.
    pub fn ldri(self, mode: AddrMode2, xt: Reg, xn: Reg, imm: i32) -> (r: Self)
        requires
            self.wf(),
            single_fits(mode, imm as int),
        ensures
            r.wf(),
            r.code() == self.code() + le32(word(&Op::Ldri(mode, xt, xn, imm), 0, 0) as int),
            r.relocs() == self.relocs(),
            r.labels() == self.labels(),
    {
        self.op(Op::Ldri(mode, xt, xn, imm))
    }

    /// Encoding of LDR (literal): `LDR <Xt>, <label>`, written by `build`.
    pub fn ldrl(self, xt: Reg, label: Label) -> (r: Self)
        requires
            self.wf(),
            self.code().len() + 4 <= usize::MAX,
        ensures
            r.wf(),
            r.code() == self.code() + zeros(4),
            r.relocs() == self.relocs().push((self.code().len() as usize, Op::Ldrl(xt, label))),
            r.labels() == self.labels(),
    {
        self.reloc(Op::Ldrl(xt, label))
    }

    /// Encoding of MOV (register): `MOV <Xd>, <Xm>`, that is `ORR <Xd>, XZR, <Xm>`.
    pub fn movr(self, xd: Reg, xm: Reg) -> (r: Self)
        requires
            self.wf(),
        ensures
            r.wf(),
            r.code() == self.code() + le32(word(&Op::Orrsr(xd, Reg::XZR, xm, (Shift::Lsl, 0)), 0, 0) as int),
            r.relocs() == self.relocs(),
            r.labels() == self.labels(),
    {
        self.orrsr(xd, Reg::XZR, xm, None)
    }

    /// Encoding of MOV (wide immediate): `MOV <Xd>, #<imm>`.
    pub fn movi(self, xd: Reg, imm: i32) -> (r: Self)
        requires
            self.wf(),
            -0x10000 <= imm < 0x10000,
        ensures
            r.wf(),
            r.code() == self.code() + le32(word(&Op::Movi(xd, imm), 0, 0) as int),
            r.relocs() == self.relocs(),
            r.labels() == self.labels(),
    {
        self.op(Op::Movi(xd, imm))
    }

    /// Encoding of ORR (shifted register): `ORR <Xd>, <Xn>, <Xm>{, <shift> #<amount>}`;
    /// no shift means `LSL #0`.
    pub fn orrsr(self, xd: Reg, xn: Reg, xm: Reg, shift: Option<(Shift, u8)>) -> (r: Self)
        requires
            self.wf(),
            shift matches Some((_, amount)) ==> amount < 64,
        ensures
            r.wf(),
            r.code() == self.code() + le32(
                word(
                    &Op::Orrsr(
                        xd,
                        xn,
                        xm,
                        match shift {
                            Some(s) => s,
                            None => (Shift::Lsl, 0u8),
                        },
                    ),
                    0,
                    0,
                ) as int,
            ),
            r.relocs() == self.relocs(),
            r.labels() == self.labels(),
    {
        let s = match shift {
            Some(s) => s,
            None => (Shift::Lsl, 0u8),
        };
        self.op(Op::Orrsr(xd, xn, xm, s))
    }

    /// Encoding of STP: `STP <Xt1>, <Xt2>, [<Xn|SP>], #<imm>`, `STP <Xt1>, <Xt2>, [<Xn|SP>, #<imm>]!`,
    /// `STP <Xt1>, <Xt2>, [<Xn|SP>{, #<imm>}]`.
    pub fn stp(self, mode: AddrMode2, xt1: Reg, xt2: Reg, xn: Reg, imm: i16) -> (r: Self)
        requires
            self.wf(),
            pair_fits(imm as int),
        ensures
            r.wf(),
            r.code() == self.code() + le32(word(&Op::Stp(mode, xt1, xt2, xn, imm), 0, 0) as int),
            r.relocs() == self.relocs(),
            r.labels() == self.labels(),
    {
        self.op(Op::Stp(mode, xt1, xt2, xn, imm))
    }

    /// Encoding of STR (immediate): `STR <Xt>, [<Xn|SP>], #<simm>`, `STR <Xt>, [<Xn|SP>, #<simm>]!`,
    /// `STR <Xt>, [<Xn|SP>{, #<pimm>}]`.
    pub fn stri(self, mode: AddrMode2, xt: Reg, xn: Reg, imm: i32) -> (r: Self)
        requires
            self.wf(),
            single_fits(mode, imm as int),
        ensures
            r.wf(),
            r.code() == self.code() + le32(word(&Op::Stri(mode, xt, xn, imm), 0, 0) as int),
            r.relocs() == self.relocs(),
            r.labels() == self.labels(),
    {
        self.op(Op::Stri(mode, xt, xn, imm))
    }

    /// Encoding of SVC: `SVC #<imm16>`.
    pub fn svc(self, imm: u16) -> (r: Self)
        requires
            self.wf(),
        ensures
            r.wf(),
            r.code() == self.code() + le32(word(&Op::Svc(imm), 0, 0) as int),
            r.relocs() == self.relocs(),
            r.labels() == self.labels(),
    {
        self.op(Op::Svc(imm))
    }
}

} // verus!
