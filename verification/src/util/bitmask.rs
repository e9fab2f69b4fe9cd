//! Bit fields in 64 bit words.
use vstd::prelude::*;

verus! {

/// Where a bit field lies in its word.
#[derive(Clone, Copy, PartialEq, Eq, Structural, Debug)]
pub struct Bitmask {
    /// The number of its lowest bit.
    pub offset: u32,
    /// How many bits it has.
    pub bits: u32,
}

impl Bitmask {
    /// Whether the field lies within a word, and is not all of it.
    pub open spec fn valid(self) -> bool {
        self.offset < 64 && self.bits < 64
    }
}

/// The word whose lowest `bits` bits are set.
pub open spec fn low_bits(bits: u32) -> u64 {
    !(!0u64 << bits)
}

/// What the bit field of the word `field` holds.
pub open spec fn field_of(field: u64, offset: u32, bits: u32) -> u64 {
    (field >> offset) & low_bits(bits)
}

/// The word `field` with `v` in its bit field. Bits of `v` that do not fit are lost.
pub open spec fn field_set(field: u64, offset: u32, bits: u32, v: u64) -> u64 {
    (field & !(low_bits(bits) << offset)) | ((v & low_bits(bits)) << offset)
}

/// Reads a bit field.
pub fn le64_bitmask_get(field: u64, offset: u32, bits: u32) -> (r: u64)
    requires
        offset < 64,
        bits < 64,
    ensures
        r == field_of(field, offset, bits),
{
    (field >> offset) & !(!0u64 << bits)
}

/// Writes a bit field.
pub fn le64_bitmask_set(field: &mut u64, offset: u32, bits: u32, v: u64)
    requires
        offset < 64,
        bits < 64,
    ensures
        *final(field) == field_set(*old(field), offset, bits, v),
{
    let mask: u64 = !(!0u64 << bits);
    let mut val: u64 = *field;
    val = val & !(mask << offset);
    val = val | ((v & mask) << offset);
    *field = val;
}

/// Whether bit number `i` of `x` is set.
pub open spec fn bit(x: u64, i: u32) -> bool {
    (x >> i) & 1 == 1
}

/// Bit by bit: a field that is read holds the bits of the word from its offset on, and nothing
/// above its width.
pub proof fn law_field_bits(field: u64, offset: u32, bits: u32, i: u32)
    requires
        offset < 64,
        bits < 64,
        i < 64,
    ensures
        bit(field_of(field, offset, bits), i) == (i < bits && offset + i < 64 && bit(
            field,
            (offset + i) as u32,
        )),
{
    let j = (offset + i) as u32;
    if i < bits && j < 64 {
        assert((((field >> offset) & !(!0u64 << bits)) >> i) & 1 == (field >> j) & 1)
            by (bit_vector)
            requires
                offset < 64,
                bits < 64,
                i < bits,
                j == offset + i,
                j < 64,
        ;
    } else if i >= bits {
        assert((((field >> offset) & !(!0u64 << bits)) >> i) & 1 == 0) by (bit_vector)
            requires
                bits <= i < 64,
        ;
    } else {
        assert((((field >> offset) & !(!0u64 << bits)) >> i) & 1 == 0) by (bit_vector)
            requires
                offset < 64,
                i < 64,
                64 <= offset + i,
        ;
    }
}

/// Bit by bit: writing a field changes the bits of that field, to those of the value, and no
/// others.
pub proof fn law_set_changes_the_field_alone(
    field: u64,
    offset: u32,
    bits: u32,
    v: u64,
    i: u32,
)
    requires
        offset < 64,
        bits < 64,
        i < 64,
    ensures
        bit(field_set(field, offset, bits, v), i) == if offset <= i < offset + bits {
            bit(v, (i - offset) as u32)
        } else {
            bit(field, i)
        },
{
    if offset <= i && i < offset + bits {
        let j = (i - offset) as u32;
        assert((((field & !(!(!0u64 << bits) << offset)) | ((v & !(!0u64 << bits)) << offset)) >> i)
            & 1 == (v >> j) & 1) by (bit_vector)
            requires
                offset < 64,
                bits < 64,
                i < 64,
                offset <= i,
                i < offset + bits,
                j == i - offset,
        ;
    } else {
        assert((((field & !(!(!0u64 << bits) << offset)) | ((v & !(!0u64 << bits)) << offset)) >> i)
            & 1 == (field >> i) & 1) by (bit_vector)
            requires
                offset < 64,
                bits < 64,
                i < 64,
                !(offset <= i && i < offset + bits),
        ;
    }
}

/// What is written is read back: as much of it as the field holds, where the field lies within its
/// word.
pub proof fn law_get_after_set(field: u64, offset: u32, bits: u32, v: u64)
    requires
        offset < 64,
        bits < 64,
        offset + bits <= 64,
    ensures
        field_of(field_set(field, offset, bits, v), offset, bits) == v & low_bits(bits),
{
    assert((((field & !(!(!0u64 << bits) << offset)) | ((v & !(!0u64 << bits)) << offset))
        >> offset) & !(!0u64 << bits) == v & !(!0u64 << bits)) by (bit_vector)
        requires
            offset < 64,
            bits < 64,
            offset + bits <= 64,
    ;
}

/// Writing one field leaves another alone, where the two share no bit.
pub proof fn law_set_keeps_other_fields(
    field: u64,
    offset: u32,
    bits: u32,
    v: u64,
    other_offset: u32,
    other_bits: u32,
)
    requires
        offset < 64,
        bits < 64,
        other_offset < 64,
        other_bits < 64,
        offset + bits <= other_offset || other_offset + other_bits <= offset,
    ensures
        field_of(field_set(field, offset, bits, v), other_offset, other_bits) == field_of(
            field,
            other_offset,
            other_bits,
        ),
{
    assert((((field & !(!(!0u64 << bits) << offset)) | ((v & !(!0u64 << bits)) << offset))
        >> other_offset) & !(!0u64 << other_bits) == (field >> other_offset) & !(!0u64
        << other_bits)) by (bit_vector)
        requires
            offset < 64,
            bits < 64,
            other_offset < 64,
            other_bits < 64,
            offset + bits <= other_offset || other_offset + other_bits <= offset,
    ;
}

/// A value fits in a field of `bits` bits if and only if it is below two to the power of `bits`.
pub proof fn law_values_that_fit(v: u64, bits: u32)
    requires
        bits < 64,
    ensures
        v & low_bits(bits) == v <==> v < (1u64 << bits),
{
    assert((v & !(!0u64 << bits) == v) == (v < (1u64 << bits))) by (bit_vector)
        requires
            bits < 64,
    ;
}

} // verus!
