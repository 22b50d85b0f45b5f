//! An append-only assembler with forward-referenceable labels.
//!
//! Every instruction is encoded as soon as it is pushed. An instruction that
//! refers to a label is pushed as four zero bytes and recorded in the
//! relocation table; `build` writes its encoding once every label is known.
//! Little-endian only.

use vstd::prelude::*;
use vstd::string::StringSliceAdditionalSpecFns;

verus! {

/// The name of a position in the assembled code.
pub type Label = &'static str;

/// The little-endian bytes of a 16-bit value.
pub open spec fn le16(v: int) -> Seq<u8> {
    seq![(v % 0x100) as u8, (v / 0x100 % 0x100) as u8]
}

/// The little-endian bytes of a 32-bit value.
pub open spec fn le32(v: int) -> Seq<u8> {
    seq![
        (v % 0x100) as u8,
        (v / 0x100 % 0x100) as u8,
        (v / 0x10000 % 0x100) as u8,
        (v / 0x1000000 % 0x100) as u8,
    ]
}

/// The little-endian bytes of a 64-bit value.
pub open spec fn le64(v: int) -> Seq<u8> {
    le32(v % 0x1_0000_0000) + le32(v / 0x1_0000_0000)
}

/// The value of four little-endian bytes.
pub open spec fn le_value(b: Seq<u8>) -> int {
    b[0] + 0x100 * b[1] + 0x10000 * b[2] + 0x1000000 * b[3]
}

/// Reading back the four little-endian bytes of a 32-bit value gives the value.
pub proof fn lemma_le32_value(v: u32)
    ensures
        le_value(le32(v as int)) == v,
{
    assert((v % 256) + 256 * ((v / 256) % 256) + 65536 * ((v / 65536) % 256) + 16777216 * ((v
        / 16777216) % 256) == v) by (bit_vector);
}

/// Two sequences that agree on `[s, e)` have the same subrange there.
pub proof fn lemma_same_range(x: Seq<u8>, y: Seq<u8>, s: int, e: int)
    requires
        0 <= s <= e <= x.len(),
        e <= y.len(),
        forall|i: int| s <= i < e ==> x[i] == y[i],
    ensures
        x.subrange(s, e) == y.subrange(s, e),
{
    assert(x.subrange(s, e) =~= y.subrange(s, e));
}

/// A run of `n` zero bytes.
pub open spec fn zeros(n: nat) -> Seq<u8> {
    Seq::new(n, |i: int| 0u8)
}

/// How many zero bytes bring a length of `len` to a multiple of `a`.
pub open spec fn pad_len(len: int, a: int) -> nat {
    if len % a == 0 {
        0
    } else {
        (a - len % a) as nat
    }
}

/// An instruction that can be encoded to four bytes, possibly referring to a label.
pub trait Encodable: Sized {
    /// The label the instruction refers to, if any.
    spec fn spec_label(&self) -> Option<Seq<char>>;

    /// Whether the instruction has an encoding at byte offset `at` when its label
    /// stands at byte offset `target` (operands and displacement in range).
    spec fn spec_fits(&self, at: int, target: int) -> bool;

    /// The four bytes of the instruction at byte offset `at`, its label at `target`.
    spec fn spec_enc(&self, at: int, target: int) -> Seq<u8>;

    /// The label the instruction refers to, if any.
    fn label(&self) -> (r: Option<Label>)
        ensures
            r is Some <==> self.spec_label() is Some,
            r is Some ==> r->0@ == self.spec_label()->0,
    ;

    /// Encodes the instruction placed at `at`, its label at `target`.
    fn enc(&self, at: usize, target: usize) -> (r: [u8; 4])
        requires
            self.spec_fits(at as int, target as int),
        ensures
            r@ == self.spec_enc(at as int, target as int),
    ;
}

/// The little-endian bytes of a 32-bit value.
pub fn le_bytes(v: u32) -> (r: [u8; 4])
    ensures
        r@ == le32(v as int),
{
    let r: [u8; 4] = [
        (v % 0x100) as u8,
        (v / 0x100 % 0x100) as u8,
        (v / 0x10000 % 0x100) as u8,
        (v / 0x1000000 % 0x100) as u8,
    ];
    assert(r@ =~= le32(v as int));
    r
}

/// Whether two strings are equal, compared byte by byte.
pub fn same_label(a: &str, b: &str) -> (r: bool)
    ensures
        r == (a@ == b@),
{
    let x = a.as_bytes();
    let y = b.as_bytes();
    proof {
        vstd::utf8::encode_utf8_decode_utf8(a@);
        vstd::utf8::encode_utf8_decode_utf8(b@);
    }
    if x.len() != y.len() {
        return false;
    }
    let mut i: usize = 0;
    while i < x.len()
        invariant
            x@ == a.spec_bytes(),
            y@ == b.spec_bytes(),
            x@.len() == y@.len(),
            0 <= i <= x@.len(),
            forall|k: int| 0 <= k < i ==> x@[k] == y@[k],
        decreases x@.len() - i,
    {
        if x[i] != y[i] {
            assert(x@ != y@);
            return false;
        }
        i = i + 1;
    }
    assert(x@ =~= y@);
    true
}

/// Looks up the offset recorded for a label.
fn find_label(labels: &Vec<(Label, usize)>, label: Label) -> (r: Option<usize>)
    ensures
        r is Some ==> exists|i: int|
            0 <= i < labels@.len() && #[trigger] labels@[i].0@ == label@ && labels@[i].1 == r->0,
        r is None ==> forall|i: int| 0 <= i < labels@.len() ==> #[trigger] labels@[i].0@ != label@,
{
    let mut i: usize = 0;
    while i < labels.len()
        invariant
            0 <= i <= labels@.len(),
            forall|k: int| 0 <= k < i ==> #[trigger] labels@[k].0@ != label@,
        decreases labels@.len() - i,
    {
        if same_label(labels[i].0, label) {
            return Some(labels[i].1);
        }
        i = i + 1;
    }
    None
}

/// The assembled bytes: `code` with the encoding of each relocation, against
/// its label's offset in `labels`, written into its four-byte slot, in order.
#[verifier::opaque]
pub open spec fn assemble<T: Encodable>(
    code: Seq<u8>,
    relocs: Seq<(usize, T)>,
    labels: Map<Seq<char>, nat>,
) -> Seq<u8>
    decreases relocs.len(),
{
    if relocs.len() == 0 {
        code
    } else {
        let (at, op) = relocs.last();
        let c = assemble(code, relocs.drop_last(), labels);
        c.subrange(0, at as int) + op.spec_enc(at as int, labels[op.spec_label()->0] as int)
            + c.subrange(at + 4, c.len() as int)
    }
}

/// The assembler state: the bytes emitted so far, the pending relocations and
/// the labels defined so far.
pub struct TinyAsm<T> {
    buf: Vec<u8>,
    relocs: Vec<(usize, T)>,
    labels: Vec<(Label, usize)>,
    label_map: Ghost<Map<Seq<char>, nat>>,
}

impl<T: Encodable> TinyAsm<T> {
    /// The bytes emitted so far (relocation slots hold zeros).
    pub closed spec fn code(&self) -> Seq<u8> {
        self.buf@
    }

    /// The pending relocations: each slot's byte offset and its instruction.
    pub closed spec fn relocs(&self) -> Seq<(usize, T)> {
        self.relocs@
    }

    /// The labels defined so far, each with its byte offset.
    pub closed spec fn labels(&self) -> Map<Seq<char>, nat> {
        self.label_map@
    }

    /// The internal invariant: the label list and the label map agree, labels
    /// lie within the code, and relocation slots are in order, disjoint and
    /// within the code.
    pub closed spec fn wf(&self) -> bool {
        &&& forall|i: int|
            #![trigger self.labels@[i]]
            0 <= i < self.labels@.len() ==> self.label_map@.contains_key(self.labels@[i].0@)
                && self.label_map@[self.labels@[i].0@] == self.labels@[i].1
        &&& forall|k: Seq<char>|
            #![trigger self.label_map@.contains_key(k)]
            self.label_map@.contains_key(k) ==> exists|i: int|
                0 <= i < self.labels@.len() && #[trigger] self.labels@[i].0@ == k
        &&& forall|k: Seq<char>|
            #![trigger self.label_map@[k]]
            self.label_map@.contains_key(k) ==> self.label_map@[k] <= self.buf@.len()
        &&& forall|j: int|
            #![trigger self.relocs@[j]]
            0 <= j < self.relocs@.len() ==> self.relocs@[j].0 + 4 <= self.buf@.len()
                && self.relocs@[j].1.spec_label() is Some
        &&& forall|j: int, k: int|
            #![trigger self.relocs@[j], self.relocs@[k]]
            0 <= j < k < self.relocs@.len() ==> self.relocs@[j].0 + 4 <= self.relocs@[k].0
    }

    /// Whether every pending relocation names a defined label and has an
    /// encoding for that label's offset.
    pub open spec fn resolvable(&self) -> bool {
        forall|j: int|
            #![trigger self.relocs()[j]]
            0 <= j < self.relocs().len() ==> {
                let (at, op) = self.relocs()[j];
                &&& self.labels().contains_key(op.spec_label()->0)
                &&& op.spec_fits(at as int, self.labels()[op.spec_label()->0] as int)
            }
    }

    /// Whether `r` is what `build` makes of this state: the code with the
    /// encoding of each pending relocation, against its label's offset, in its slot.
    #[verifier::opaque]
    pub open spec fn built(&self, r: Seq<u8>) -> bool {
        &&& r.len() == self.code().len()
        &&& forall|j: int|
            #![trigger self.relocs()[j]]
            0 <= j < self.relocs().len() ==> {
                let (at, op) = self.relocs()[j];
                r.subrange(at as int, at + 4) == op.spec_enc(
                    at as int,
                    self.labels()[op.spec_label()->0] as int,
                )
            }
        &&& forall|i: int| 0 <= i < r.len() && !self.in_slot(i) ==> r[i] == self.code()[i]
    }

    /// The end of the last relocation slot (0 when there is none).
    pub open spec fn slots_end(&self) -> int {
        if self.relocs().len() == 0 {
            0
        } else {
            self.relocs().last().0 + 4
        }
    }

    /// Whether byte offset `i` lies in a relocation slot.
    pub open spec fn in_slot(&self, i: int) -> bool {
        exists|j: int|
            0 <= j < self.relocs().len() && #[trigger] self.relocs()[j].0 <= i < self.relocs()[j].0
                + 4
    }

    /// Creates an empty assembler.
    pub fn new() -> (r: Self)
        ensures
            r.wf(),
            r.code() == Seq::<u8>::empty(),
            r.relocs() == Seq::<(usize, T)>::empty(),
            r.labels() == Map::<Seq<char>, nat>::empty(),
    {
        TinyAsm {
            buf: Vec::new(),
            relocs: Vec::new(),
            labels: Vec::new(),
            label_map: Ghost(Map::empty()),
        }
    }

    /// Appends one byte.
    fn push_byte(&mut self, b: u8)
        requires
            old(self).wf(),
        ensures
            final(self).wf(),
            final(self).code() == old(self).code().push(b),
            final(self).relocs() == old(self).relocs(),
            final(self).labels() == old(self).labels(),
    {
        self.buf.push(b);
        proof {
            let s = *self;
            let o = *old(self);
            assert(s.labels@ == o.labels@);
            assert(s.relocs@ == o.relocs@);
            assert(s.label_map@ == o.label_map@);
            assert forall|k: Seq<char>|
                #![trigger s.label_map@[k]]
                s.label_map@.contains_key(k) implies s.label_map@[k] <= s.buf@.len() by {
                assert(old(self).label_map@[k] <= old(self).buf@.len());
            }
            assert forall|j: int|
                #![trigger s.relocs@[j]]
                0 <= j < s.relocs@.len() implies s.relocs@[j].0 + 4 <= s.buf@.len()
                && s.relocs@[j].1.spec_label() is Some by {
                assert(old(self).relocs@[j].0 + 4 <= old(self).buf@.len());
            }
        }
    }

    /// Pushes raw bytes into the buffer.
    pub fn bytes(self, bytes: &[u8]) -> (r: Self)
        requires
            self.wf(),
        ensures
            r.wf(),
            r.code() == self.code() + bytes@,
            r.relocs() == self.relocs(),
            r.labels() == self.labels(),
    {
        let mut s = self;
        let mut i: usize = 0;
        while i < bytes.len()
            invariant
                s.wf(),
                0 <= i <= bytes@.len(),
                s.code() == self.code() + bytes@.subrange(0, i as int),
                s.relocs() == self.relocs(),
                s.labels() == self.labels(),
            decreases bytes@.len() - i,
        {
            s.push_byte(bytes[i]);
            i = i + 1;
            assert(s.code() =~= self.code() + bytes@.subrange(0, i as int));
        }
        assert(bytes@.subrange(0, bytes@.len() as int) =~= bytes@);
        s
    }

    /// Pushes the bytes of a string into the buffer.
    pub fn ascii(self, str: &str) -> (r: Self)
        requires
            self.wf(),
        ensures
            r.wf(),
            r.code() == self.code() + str.spec_bytes(),
            r.relocs() == self.relocs(),
            r.labels() == self.labels(),
    {
        self.bytes(str.as_bytes())
    }

    /// Pushes the bytes of a string and one NUL byte into the buffer.
    pub fn asciiz(self, str: &str) -> (r: Self)
        requires
            self.wf(),
        ensures
            r.wf(),
            r.code() == self.code() + str.spec_bytes() + seq![0u8],
            r.relocs() == self.relocs(),
            r.labels() == self.labels(),
    {
        let nul: [u8; 1] = [0];
        let r = self.ascii(str).bytes(&nul);
        assert(nul@ =~= seq![0u8]);
        r
    }

    /// Pushes the little-endian bytes of a 16-bit value.
    pub fn word(self, word: u16) -> (r: Self)
        requires
            self.wf(),
        ensures
            r.wf(),
            r.code() == self.code() + le16(word as int),
            r.relocs() == self.relocs(),
            r.labels() == self.labels(),
    {
        let b: [u8; 2] = [(word % 0x100) as u8, (word / 0x100 % 0x100) as u8];
        assert(b@ =~= le16(word as int));
        self.bytes(&b)
    }

    /// Pushes the little-endian bytes of a 32-bit value.
    pub fn dword(self, dword: u32) -> (r: Self)
        requires
            self.wf(),
        ensures
            r.wf(),
            r.code() == self.code() + le32(dword as int),
            r.relocs() == self.relocs(),
            r.labels() == self.labels(),
    {
        let b = le_bytes(dword);
        self.bytes(&b)
    }

    /// Pushes the little-endian bytes of a 64-bit value.
    pub fn qword(self, qword: u64) -> (r: Self)
        requires
            self.wf(),
        ensures
            r.wf(),
            r.code() == self.code() + le64(qword as int),
            r.relocs() == self.relocs(),
            r.labels() == self.labels(),
    {
        let lo = le_bytes((qword % 0x1_0000_0000) as u32);
        let hi = le_bytes((qword / 0x1_0000_0000) as u32);
        let r = self.bytes(&lo).bytes(&hi);
        assert(r.code() =~= self.code() + le64(qword as int));
        r
    }

    /// Pads the buffer with zero bytes up to a multiple of `A` bytes.
    pub fn align<const A: usize>(self) -> (r: Self)
        requires
            self.wf(),
            A > 0,
        ensures
            r.wf(),
            r.code() == self.code() + zeros(pad_len(self.code().len() as int, A as int)),
            (r.code().len() as int) % (A as int) == 0,
            r.relocs() == self.relocs(),
            r.labels() == self.labels(),
    {
        let rem = self.buf.len() % A;
        let pad = if rem == 0 {
            0
        } else {
            A - rem
        };
        let mut s = self;
        let mut i: usize = 0;
        while i < pad
            invariant
                s.wf(),
                0 <= i <= pad,
                s.code() == self.code() + zeros(i as nat),
                s.relocs() == self.relocs(),
                s.labels() == self.labels(),
            decreases pad - i,
        {
            s.push_byte(0);
            i = i + 1;
            assert(s.code() =~= self.code() + zeros(i as nat));
        }
        proof {
            let l = self.code().len() as int;
            let a = A as int;
            vstd::arithmetic::div_mod::lemma_fundamental_div_mod(l, a);
            if rem != 0 {
                vstd::arithmetic::div_mod::lemma_mod_multiples_basic(l / a + 1, a);
                assert(l + pad == (l / a + 1) * a) by (nonlinear_arith)
                    requires
                        l == a * (l / a) + l % a,
                        pad == a - l % a,
                ;
            }
        }
        s
    }

    /// Records the current length of the buffer under `label`.
    pub fn label(self, label: Label) -> (r: Self)
        requires
            self.wf(),
            !self.labels().contains_key(label@),
        ensures
            r.wf(),
            r.code() == self.code(),
            r.relocs() == self.relocs(),
            r.labels() == self.labels().insert(label@, self.code().len()),
    {
        let mut s = self;
        let at = s.buf.len();
        s.labels.push((label, at));
        s.label_map = Ghost(s.label_map@.insert(label@, at as nat));
        proof {
            let old_labels = self.labels@;
            assert forall|i: int|
                #![trigger s.labels@[i]]
                0 <= i < s.labels@.len() implies s.label_map@.contains_key(s.labels@[i].0@)
                && s.label_map@[s.labels@[i].0@] == s.labels@[i].1 by {
                if i < old_labels.len() {
                    assert(s.labels@[i] == old_labels[i]);
                    assert(self.label_map@.contains_key(old_labels[i].0@));
                }
            }
            assert forall|k: Seq<char>|
                #![trigger s.label_map@[k]]
                s.label_map@.contains_key(k) implies s.label_map@[k] <= s.buf@.len() by {
                if k != label@ {
                    assert(self.label_map@[k] <= self.buf@.len());
                }
            }
            assert forall|k: Seq<char>|
                #![trigger s.label_map@.contains_key(k)]
                s.label_map@.contains_key(k) implies exists|i: int|
                0 <= i < s.labels@.len() && #[trigger] s.labels@[i].0@ == k by {
                if k == label@ {
                    assert(s.labels@[old_labels.len() as int].0@ == k);
                } else {
                    assert(self.label_map@.contains_key(k));
                    let i = choose|i: int| 0 <= i < old_labels.len() && #[trigger] old_labels[i].0@ == k;
                    assert(s.labels@[i] == old_labels[i]);
                }
            }
        }
        s
    }

    /// Pushes the encoding of an instruction that refers to no label.
    pub fn op(self, op: T) -> (r: Self)
        requires
            self.wf(),
            op.spec_label() is None,
            op.spec_fits(self.code().len() as int, 0),
        ensures
            r.wf(),
            r.code() == self.code() + op.spec_enc(self.code().len() as int, 0),
            r.relocs() == self.relocs(),
            r.labels() == self.labels(),
    {
        let at = self.buf.len();
        let b = op.enc(at, 0);
        self.bytes(&b)
    }

    /// Reserves four zero bytes for an instruction that refers to a label and
    /// records it in the relocation table.
    pub fn reloc(self, op: T) -> (r: Self)
        requires
            self.wf(),
            op.spec_label() is Some,
            self.code().len() + 4 <= usize::MAX,
        ensures
            r.wf(),
            r.code() == self.code() + zeros(4),
            r.relocs() == self.relocs().push((self.code().len() as usize, op)),
            r.labels() == self.labels(),
    {
        let at = self.buf.len();
        let z: [u8; 4] = [0, 0, 0, 0];
        let mut s = self.bytes(&z);
        assert(z@ =~= zeros(4));
        let ghost s0 = s;
        s.relocs.push((at, op));
        proof {
            assert(s.labels@ == s0.labels@ && s.buf@ == s0.buf@ && s.label_map@ == s0.label_map@);
            assert(s0.relocs@ == self.relocs@);
            assert(s.relocs@ == self.relocs@.push((at, op)));
            assert forall|j: int, k: int|
                #![trigger s.relocs@[j], s.relocs@[k]]
                0 <= j < k < s.relocs@.len() implies s.relocs@[j].0 + 4 <= s.relocs@[k].0 by {
                if k == s.relocs@.len() - 1 {
                    assert(s.relocs@[j] == self.relocs@[j]);
                    assert(self.relocs@[j].0 + 4 <= self.buf@.len());
                } else {
                    assert(s.relocs@[j] == self.relocs@[j]);
                    assert(s.relocs@[k] == self.relocs@[k]);
                }
            }
            assert forall|j: int|
                #![trigger s.relocs@[j]]
                0 <= j < s.relocs@.len() implies s.relocs@[j].0 + 4 <= s.buf@.len()
                && s.relocs@[j].1.spec_label() is Some by {
                if j < self.relocs@.len() {
                    assert(s.relocs@[j] == self.relocs@[j]);
                }
            }
        }
        s
    }

    /// Writes the encoding of every pending relocation into its slot and
    /// returns the assembled bytes.
    pub fn build(self) -> (r: Vec<u8>)
        requires
            self.wf(),
            self.resolvable(),
        ensures
            r@.len() == self.code().len(),
            forall|j: int|
                #![trigger self.relocs()[j]]
                0 <= j < self.relocs().len() ==> {
                    let (at, op) = self.relocs()[j];
                    r@.subrange(at as int, at + 4) == op.spec_enc(
                        at as int,
                        self.labels()[op.spec_label()->0] as int,
                    )
                },
            forall|i: int| 0 <= i < r@.len() && !self.in_slot(i) ==> r@[i] == self.code()[i],
            forall|i: int| self.slots_end() <= i < r@.len() ==> r@[i] == self.code()[i],
            self.built(r@),
            r@ == assemble(self.code(), self.relocs(), self.labels()),
    {
        let ghost this = self;
        proof {
            reveal(assemble);
            assert(self.relocs@.subrange(0, 0) =~= Seq::<(usize, T)>::empty());
        }
        let TinyAsm { buf, relocs, labels, label_map } = self;
        let mut buf = buf;
        let mut j: usize = 0;
        while j < relocs.len()
            invariant
                self.wf(),
                self.resolvable(),
                0 <= j <= self.relocs@.len(),
                buf@.len() == self.buf@.len(),
                forall|m: int|
                    #![trigger self.relocs()[m]]
                    0 <= m < j ==> {
                        let (at, op) = self.relocs()[m];
                        buf@.subrange(at as int, at + 4) == op.spec_enc(
                            at as int,
                            self.labels()[op.spec_label()->0] as int,
                        )
                    },
                forall|i: int|
                    0 <= i < buf@.len() && !(exists|m: int|
                        0 <= m < j && #[trigger] self.relocs()[m].0 <= i < self.relocs()[m].0
                            + 4) ==> buf@[i] == self.buf@[i],
                relocs@ == self.relocs@,
                labels@ == self.labels@,
                buf@ == assemble(self.buf@, self.relocs@.subrange(0, j as int), self.label_map@),
            decreases self.relocs@.len() - j,
        {
            let at = relocs[j].0;
            let op = &relocs[j].1;
            assert(self.relocs()[j as int] == self.relocs@[j as int]);
            let name = op.label().unwrap();
            let target = find_label(&labels, name).unwrap();
            proof {
                assert(self.relocs@[j as int].0 + 4 <= self.buf@.len());
            }
            let b = op.enc(at, target);
            let n = buf.len();
            assert(at + 4 <= n);
            let ghost before = buf@;
            proof {
                reveal(assemble);
                let sub = self.relocs@.subrange(0, j + 1);
                assert(sub.drop_last() =~= self.relocs@.subrange(0, j as int));
                assert(sub.last() == self.relocs@[j as int]);
            }
            buf[at] = b[0];
            buf[at + 1] = b[1];
            buf[at + 2] = b[2];
            buf[at + 3] = b[3];
            proof {
                assert(buf@.subrange(at as int, at + 4) =~= b@);
                assert(buf@ =~= before.subrange(0, at as int) + b@ + before.subrange(at + 4, before.len() as int));
                assert forall|m: int|
                    #![trigger self.relocs()[m]]
                    0 <= m < j + 1 implies {
                        let (at2, op2) = self.relocs()[m];
                        buf@.subrange(at2 as int, at2 + 4) == op2.spec_enc(
                            at2 as int,
                            self.labels()[op2.spec_label()->0] as int,
                        )
                    } by {
                    if m < j {
                        let at2 = self.relocs()[m].0;
                        assert(self.relocs@[m].0 + 4 <= self.relocs@[j as int].0);
                        assert(buf@.subrange(at2 as int, at2 + 4) =~= before.subrange(
                            at2 as int,
                            at2 + 4,
                        ));
                    }
                }
                assert forall|i: int|
                    0 <= i < buf@.len() && !(exists|m: int|
                        0 <= m < j + 1 && #[trigger] self.relocs()[m].0 <= i < self.relocs()[m].0
                            + 4) implies buf@[i] == self.buf@[i] by {
                    assert(!(self.relocs()[j as int].0 <= i < self.relocs()[j as int].0 + 4));
                    assert(buf@[i] == before[i]);
                }
            }
            j = j + 1;
        }
        proof {
            reveal(TinyAsm::built);
            assert(self.relocs@.subrange(0, self.relocs@.len() as int) =~= self.relocs@);
            assert forall|i: int| self.slots_end() <= i < buf@.len() implies buf@[i] == self.buf@[i] by {
                if self.relocs@.len() > 0 {
                    assert forall|m: int| 0 <= m < self.relocs@.len() implies !(
                    #[trigger] self.relocs()[m].0 <= i < self.relocs()[m].0 + 4) by {
                        let last = self.relocs@.len() - 1;
                        if m < last {
                            assert(self.relocs@[m].0 + 4 <= self.relocs@[last].0);
                        }
                    }
                }
            }
        }
        buf
    }
}

} // verus!
