//! x86: instructions are raw byte sequences; a label reference is the label's
//! 32-bit offset from the start of the buffer (code recovers its runtime base
//! with a call/pop pair and adds the offset).

use crate::tiny_asm::{le32, le_bytes, le_value, lemma_le32_value, zeros, Encodable, Label};
use vstd::prelude::*;

verus! {

/// A 32-bit slot of an x86 instruction.
pub enum Op {
    /// The offset of a label from the start of the buffer.
    Ref(Label),
    /// Four zero bytes.
    Placeholder,
}

impl Encodable for Op {
    open spec fn spec_label(&self) -> Option<Seq<char>> {
        match self {
            Op::Placeholder => None,
            Op::Ref(l) => Some(l@),
        }
    }

    open spec fn spec_fits(&self, at: int, target: int) -> bool {
        match self {
            Op::Placeholder => true,
            Op::Ref(_) => 0 <= target <= i32::MAX,
        }
    }

    open spec fn spec_enc(&self, at: int, target: int) -> Seq<u8> {
        match self {
            Op::Placeholder => le32(0),
            Op::Ref(_) => le32(target),
        }
    }

    fn label(&self) -> (r: Option<Label>) {
        match self {
            Op::Placeholder => None,
            Op::Ref(l) => Some(*l),
        }
    }

    fn enc(&self, at: usize, target: usize) -> (r: [u8; 4]) {
        match self {
            Op::Placeholder => le_bytes(0),
            Op::Ref(_) => le_bytes(target as u32),
        }
    }
}

/// Label resolution: the code recovers its load address `base` with a
/// call/pop pair and adds the slot's value; the four bytes that `build` writes
/// for a label at byte `target` make that sum the label's address `base + target`.
pub proof fn lemma_ref_reaches_label(label: Label, base: int, at: int, target: int)
    requires
        Op::Ref(label).spec_fits(at, target),
    ensures
        base + le_value(Op::Ref(label).spec_enc(at, target)) == base + target,
{
    lemma_le32_value(target as u32);
}

/// Label resolution, as assembled: in bytes that `build` returns for `a`, the
/// slot recorded at `j` holds the offset of its label, so that the code
/// loaded at `base` computes the label's address.
pub proof fn lemma_assembled_ref_reaches_label(a: TinyAsm, r: Seq<u8>, j: int, base: int)
    requires
        a.wf(),
        a.resolvable(),
        a.built(r),
        0 <= j < a.relocs().len(),
        a.relocs()[j].1 is Ref,
    ensures
        ({
            let (at, op) = a.relocs()[j];
            base + le_value(r.subrange(at as int, at + 4)) == base + a.labels()[op.spec_label()->0]
        }),
{
    reveal(crate::tiny_asm::TinyAsm::built);
    let (at, op) = a.relocs()[j];
    let target = a.labels()[op.spec_label()->0];
    lemma_ref_reaches_label(op->Ref_0, base, at as int, target as int);
}

/// The x86 assembler.
pub type TinyAsm = crate::tiny_asm::TinyAsm<Op>;

impl crate::tiny_asm::TinyAsm<Op> {
    /// Pushes the raw bytes of an instruction.
    pub fn instr<const N: usize>(self, bytes: [u8; N]) -> (r: Self)
        requires
            self.wf(),
        ensures
            r.wf(),
            r.code() == self.code() + bytes@,
            r.relocs() == self.relocs(),
            r.labels() == self.labels(),
    {
        self.bytes(&bytes)
    }

    /// Pushes the prefix bytes of an instruction followed by a 32-bit slot that
    /// `build` fills with the offset of `label`.
    pub fn instr_with_ref<const N: usize>(self, bytes: [u8; N], label: Label) -> (r: Self)
        requires
            self.wf(),
            self.code().len() + N + 4 <= usize::MAX,
        ensures
            r.wf(),
            r.code() == self.code() + bytes@ + zeros(4),
            r.relocs() == self.relocs().push(((self.code().len() + N) as usize, Op::Ref(label))),
            r.labels() == self.labels(),
    {
        self.bytes(&bytes).reloc(Op::Ref(label))
    }
}

} // verus!
