use vstd::prelude::*;

verus! {

// An opcode word is decoded by consuming nibbles from the most significant
// end downward.  The number of nibbles still unconsumed is tracked in the
// type: an `Instruction<Four>` holds a whole word, and each extraction
// returns the requested field together with the residual bits, left-aligned,
// as an `Instruction` of the next shorter length.  A field that has been
// consumed can therefore not be extracted a second time.

/// A decoding length, with its predecessor.  `Len` is implemented by the
/// marker types `Four` down to `One`; `Zero` has no predecessor, so a fully
/// consumed instruction offers no further extraction.
pub trait Len {
    type Pred;
}

#[derive(Clone, Copy)]
pub struct Four;

#[derive(Clone, Copy)]
pub struct Three;

#[derive(Clone, Copy)]
pub struct Two;

#[derive(Clone, Copy)]
pub struct One;

#[derive(Clone, Copy)]
pub struct Zero;

impl Len for Four {
    type Pred = Three;
}

impl Len for Three {
    type Pred = Two;
}

impl Len for Two {
    type Pred = One;
}

impl Len for One {
    type Pred = Zero;
}

/// Relies on core::marker::PhantomData's Clone: the type is zero-sized, so a
/// clone is the same value.  vstd gives this impl no specification, and the
/// derived Clone of `Instruction` calls it.
pub assume_specification<T: core::marker::PointeeSized>[ <core::marker::PhantomData<T> as Clone>::clone ](
    v: &core::marker::PhantomData<T>,
) -> (r: core::marker::PhantomData<T>)
    ensures
        r == *v,
;

/// A 16-bit opcode word, or the left-aligned residue of one, tagged with the
/// number of nibbles not yet consumed.
#[verifier::reject_recursive_types(L)]
#[derive(Clone, Copy)]
pub struct Instruction<L> {
    value: u16,
    _marker: core::marker::PhantomData<L>,
}

impl<L> View for Instruction<L> {
    type V = u16;

    closed spec fn view(&self) -> u16 {
        self.value
    }
}

// The six fields of a full opcode word `op`.

/// Bits 15-12 of the word: the opcode family.
pub open spec fn op_id(op: u16) -> u16 {
    op >> 12
}

/// Bits 11-8 of the word: the first register index.
pub open spec fn op_x(op: u16) -> u16 {
    (op >> 8) & 0xF
}

/// Bits 7-4 of the word: the second register index.
pub open spec fn op_y(op: u16) -> u16 {
    (op >> 4) & 0xF
}

/// Bits 3-0 of the word: the nibble operand (a sprite height).
pub open spec fn op_n(op: u16) -> u16 {
    op & 0xF
}

/// Bits 7-0 of the word: the immediate byte.
pub open spec fn op_kk(op: u16) -> u16 {
    op & 0xFF
}

/// Bits 11-0 of the word: the address operand.
pub open spec fn op_nnn(op: u16) -> u16 {
    op & 0xFFF
}

// The same fields, read from a three-nibble residue `t`.  After the opcode
// family is consumed from a word `op`, the residue is `op << 4`, and the
// remaining fields sit at these positions of it.

/// Bits 15-12 of a three-nibble residue: the first register index.
pub open spec fn t_x(t: u16) -> u16 {
    t >> 12
}

/// Bits 11-8 of a three-nibble residue: the second register index.
pub open spec fn t_y(t: u16) -> u16 {
    (t >> 8) & 0xF
}

/// Bits 7-4 of a three-nibble residue: the nibble operand.
pub open spec fn t_n(t: u16) -> u16 {
    (t >> 4) & 0xF
}

/// Bits 11-4 of a three-nibble residue: the immediate byte.
pub open spec fn t_kk(t: u16) -> u16 {
    (t >> 4) & 0xFF
}

/// Bits 15-4 of a three-nibble residue: the address operand.
pub open spec fn t_nnn(t: u16) -> u16 {
    t >> 4
}

/// Field extraction is pure masking and shifting, and the fields are
/// mutually consistent: the immediate byte is the `y` nibble above the `n`
/// nibble, the address is the `x` nibble above the immediate byte, and the
/// whole word is the family above the address.
pub proof fn lemma_fields_consistent(op: u16)
    by (bit_vector)
    ensures
        op_id(op) < 16,
        op_x(op) < 16,
        op_y(op) < 16,
        op_n(op) < 16,
        op_kk(op) < 256,
        op_nnn(op) < 0x1000,
        op_kk(op) == (op_y(op) << 4) | op_n(op),
        op_kk(op) == op_y(op) * 16 + op_n(op),
        op_nnn(op) == (op_x(op) << 8) | op_kk(op),
        op_nnn(op) == op_x(op) * 256 + op_kk(op),
        op == (op_id(op) << 12) | op_nnn(op),
        op == op_id(op) * 0x1000 + op_nnn(op),
{
}

/// How the chained extractions on a three-nibble residue `t` reach each
/// field, and how the fields of `t` relate to those of the word it came
/// from.
pub proof fn lemma_three_fields(t: u16)
    by (bit_vector)
    ensures
        t_x(t) < 16,
        t_y(t) < 16,
        t_n(t) < 16,
        t_kk(t) < 256,
        t_nnn(t) < 0x1000,
        t >> 8 < 256,
        (t << 4) >> 12 == t_y(t),
        (t << 4) >> 8 == t_kk(t),
        (t << 8) >> 12 == t_n(t),
        (t << 4) << 4 == t << 8,
        ((t << 4) << 4) >> 12 == t_n(t),
        t_kk(t) == t_y(t) * 16 + t_n(t),
        t_nnn(t) == t_x(t) * 256 + t_kk(t),
{
}

/// The residue left after consuming the opcode family from a word `op`
/// carries the remaining three fields of `op`.
pub proof fn lemma_residue_fields(op: u16)
    by (bit_vector)
    ensures
        op >> 12 == op_id(op),
        t_x((op << 4) as u16) == op_x(op),
        t_y((op << 4) as u16) == op_y(op),
        t_n((op << 4) as u16) == op_n(op),
        t_kk((op << 4) as u16) == op_kk(op),
        t_nnn((op << 4) as u16) == op_nnn(op),
{
}

impl Instruction<Four> {
    /// Assembles a whole opcode word from its two bytes, big-endian.
    pub fn from_bytes(bytes: [u8; 2]) -> (r: Self)
        ensures
            r@ == bytes[0] as u16 * 256 + bytes[1] as u16,
    {
        let hi = bytes[0];
        let lo = bytes[1];
        proof {
            assert(((hi as u16) << 8 | lo as u16) == hi as u16 * 256 + lo as u16) by (bit_vector);
        }
        Self { value: (hi as u16) << 8 | lo as u16, _marker: core::marker::PhantomData }
    }

    /// The whole word.
    pub fn four(self) -> (r: u16)
        ensures
            r == self@,
    {
        self.value
    }
}

impl<T: Len> Instruction<T> {
    /// Consumes the leading nibble, returning it and the residue.
    pub fn one(self) -> (r: (u8, Instruction<T::Pred>))
        ensures
            r.0 == self@ >> 12,
            r.0 < 16,
            r.1@ == self@ << 4,
    {
        proof {
            let v = self.value;
            assert(v >> 12 < 16) by (bit_vector);
        }
        let v = (self.value >> 12) as u8;
        (v, Instruction { value: self.value << 4, _marker: core::marker::PhantomData })
    }
}

impl<T: Len> Instruction<T> where T::Pred: Len {
    /// Consumes the leading byte, returning it and the residue.
    pub fn two(self) -> (r: (u8, Instruction<<T::Pred as Len>::Pred>))
        ensures
            r.0 == self@ >> 8,
            r.1@ == self@ << 8,
    {
        proof {
            let v = self.value;
            assert(v >> 8 < 256) by (bit_vector);
        }
        let v = (self.value >> 8) as u8;
        (v, Instruction { value: self.value << 8, _marker: core::marker::PhantomData })
    }
}

impl<T: Len> Instruction<T> where T::Pred: Len, <T::Pred as Len>::Pred: Len {
    /// Consumes the leading three nibbles, returning them and the residue.
    pub fn three(self) -> (r: (u16, Instruction<<<T::Pred as Len>::Pred as Len>::Pred>))
        ensures
            r.0 == self@ >> 4,
            r.0 < 0x1000,
            r.1@ == self@ << 12,
    {
        proof {
            let v = self.value;
            assert(v >> 4 < 0x1000) by (bit_vector);
        }
        (self.value >> 4, Instruction { value: self.value << 12, _marker: core::marker::PhantomData })
    }
}

} // verus!
