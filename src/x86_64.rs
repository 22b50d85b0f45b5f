//! x86-64: instructions are raw byte sequences; a label reference is a 32-bit
//! RIP-relative displacement written right after the instruction prefix.

use crate::tiny_asm::{le32, le_bytes, le_value, lemma_le32_value, zeros, Encodable, Label};
use vstd::prelude::*;

verus! {

/// A 32-bit slot of an x86-64 instruction.
pub enum Op {
    /// Four zero bytes.
    Placeholder,
    /// The displacement from the end of the slot to a label.
    Refl(Label),
}

/// The two's-complement bit pattern of a value in the range of `i32`.
pub open spec fn u32_bits(d: int) -> int {
    if d >= 0 {
        d
    } else {
        d + 0x1_0000_0000
    }
}

/// The displacement that a slot at byte offset `at` holds for a label at `target`.
pub open spec fn rip_disp(at: int, target: int) -> int {
    target - at - 4
}

impl Encodable for Op {
    open spec fn spec_label(&self) -> Option<Seq<char>> {
        match self {
            Op::Placeholder => None,
            Op::Refl(l) => Some(l@),
        }
    }

    open spec fn spec_fits(&self, at: int, target: int) -> bool {
        match self {
            Op::Placeholder => true,
            Op::Refl(_) => i32::MIN <= rip_disp(at, target) <= i32::MAX,
        }
    }

    open spec fn spec_enc(&self, at: int, target: int) -> Seq<u8> {
        match self {
            Op::Placeholder => le32(0),
            Op::Refl(_) => le32(u32_bits(rip_disp(at, target))),
        }
    }

    fn label(&self) -> (r: Option<Label>) {
        match self {
            Op::Placeholder => None,
            Op::Refl(l) => Some(*l),
        }
    }

    fn enc(&self, at: usize, target: usize) -> (r: [u8; 4]) {
        match self {
            Op::Placeholder => le_bytes(0),
            Op::Refl(_) => {
                let bits: u32 = if target >= at && target - at >= 4 {
                    (target - at - 4) as u32
                } else if target >= at {
                    (0x1_0000_0000u64 - (4 - (target - at)) as u64) as u32
                } else {
                    (0x1_0000_0000u64 - ((at - target) as u64 + 4)) as u32
                };
                le_bytes(bits)
            },
        }
    }
}

/// The sign extension of a 32-bit pattern.
pub open spec fn sext32(v: int) -> int {
    if v >= 0x8000_0000 {
        v - 0x1_0000_0000
    } else {
        v
    }
}

/// The address a RIP-relative operand refers to, its 32-bit displacement
/// `slot` ending the instruction at address `at + 4`.
#[verifier::opaque]
pub open spec fn rip_relative_target(slot: Seq<u8>, at: int) -> int {
    at + 4 + sext32(le_value(slot))
}

/// Label resolution: the four bytes that `build` writes into the slot at byte
/// `at` for a label at byte `target`, with the code loaded at `base`, make the
/// RIP-relative operand refer to the label's address `base + target`.
pub proof fn lemma_ref_reaches_label(label: Label, base: int, at: int, target: int)
    requires
        Op::Refl(label).spec_fits(at, target),
    ensures
        rip_relative_target(Op::Refl(label).spec_enc(at, target), base + at) == base + target,
{
    reveal(rip_relative_target);
    lemma_le32_value(u32_bits(rip_disp(at, target)) as u32);
}

/// Label resolution, as assembled: in bytes that `build` returns for `a`, the
/// slot recorded at `j`, with the bytes loaded at `base`, makes its
/// RIP-relative operand refer to the address of its label.
pub proof fn lemma_assembled_ref_reaches_label(a: TinyAsm, r: Seq<u8>, j: int, base: int)
    requires
        a.wf(),
        a.resolvable(),
        a.built(r),
        0 <= j < a.relocs().len(),
        a.relocs()[j].1 is Refl,
    ensures
        ({
            let (at, op) = a.relocs()[j];
            rip_relative_target(r.subrange(at as int, at + 4), base + at) == base + a.labels()[op.spec_label()->0]
        }),
{
    reveal(crate::tiny_asm::TinyAsm::built);
    let (at, op) = a.relocs()[j];
    let target = a.labels()[op.spec_label()->0];
    lemma_ref_reaches_label(op->Refl_0, base, at as int, target as int);
}

/// The x86-64 assembler.
pub type TinyAsm = crate::tiny_asm::TinyAsm<Op>;

impl crate::tiny_asm::TinyAsm<Op> {
    /// Pushes the raw bytes of an instruction.
    pub fn instr<const N: usize>(self, bytes: [u8; N]) -> (r: Self)
        requires
            self.wf(),
        ensures
            r.wf(),
            r.code() == self.code() + bytes@,
            r.relocs() == self.relocs(),
            r.labels() == self.labels(),
    {
        self.bytes(&bytes)
    }

    /// Pushes the prefix bytes of an instruction followed by a 32-bit slot that
    /// `build` fills with the RIP-relative displacement to `label`.
    pub fn instr_with_ref<const N: usize>(self, bytes: [u8; N], label: Label) -> (r: Self)
        requires
            self.wf(),
            self.code().len() + N + 4 <= usize::MAX,
        ensures
            r.wf(),
            r.code() == self.code() + bytes@ + zeros(4),
            r.relocs() == self.relocs().push(((self.code().len() + N) as usize, Op::Refl(label))),
            r.labels() == self.labels(),
    {
        self.bytes(&bytes).reloc(Op::Refl(label))
    }
}

} // verus!
