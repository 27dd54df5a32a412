//! The wire-format model: which logic level each of the eight segment lines
//! receives for a given eight-bit pattern, and the fixed digit table.

use vstd::prelude::*;

verus! {

/// One segment write: line `segment` (0 = a .. 6 = g, 7 = dp) was driven to
/// logic level `high`.
pub ghost struct SegmentWrite {
    pub segment: int,
    pub high: bool,
}

/// Bit `i` of `data`, read as the logic level owed to segment line `i`.
pub open spec fn bit_of(data: u8, i: u8) -> bool {
    (data >> i) & 1 == 1
}

/// The eight line levels encoded by `data`: line `i` carries bit `i`.
pub open spec fn byte_levels(data: u8) -> Seq<bool> {
    Seq::new(8, |i: int| bit_of(data, i as u8))
}

/// The writes a full write of `data` issues: one per line, in ascending
/// segment order from `a` to `dp`.
pub open spec fn byte_writes(data: u8) -> Seq<SegmentWrite> {
    Seq::new(8, |i: int| (SegmentWrite { segment: i, high: bit_of(data, i as u8) }))
}

/// The line levels after the first `k` of the eight writes of `data`,
/// starting from the levels `prior`.
pub open spec fn write_upto(prior: Seq<bool>, data: u8, k: int) -> Seq<bool>
    decreases k,
{
    if k <= 0 {
        prior
    } else {
        write_upto(prior, data, k - 1).update(k - 1, bit_of(data, (k - 1) as u8))
    }
}

/// The seven-segment pattern of a decimal digit, bit 0 = `a` through
/// bit 6 = `g`, with the decimal-point bit clear.
pub open spec fn spec_digit_pattern(digit: u8) -> u8 {
    if digit == 0 {
        0b0111111
    } else if digit == 1 {
        0b0000110
    } else if digit == 2 {
        0b1011011
    } else if digit == 3 {
        0b1001111
    } else if digit == 4 {
        0b1100110
    } else if digit == 5 {
        0b1101101
    } else if digit == 6 {
        0b1111101
    } else if digit == 7 {
        0b0000111
    } else if digit == 8 {
        0b1111111
    } else if digit == 9 {
        0b1101111
    } else {
        0
    }
}

/// The full pattern a digit write puts on the wire: the digit's seven-segment
/// pattern, with the decimal point OR'd into bit 7.
pub open spec fn figure_of(digit: u8, dot_point: bool) -> u8 {
    spec_digit_pattern(digit) | (if dot_point { 0x80u8 } else { 0u8 })
}

/// Looks up the seven-segment pattern of `digit`. Out-of-range digits are a
/// caller bug, excluded by precondition; an unverified caller that passes one
/// aborts rather than reading a wrong pattern.
pub fn digit_segments(digit: u8) -> (r: u8)
    requires
        digit <= 9,
    ensures
        r == spec_digit_pattern(digit),
{
    match digit {
        0 => 0b0111111,
        1 => 0b0000110,
        2 => 0b1011011,
        3 => 0b1001111,
        4 => 0b1100110,
        5 => 0b1101101,
        6 => 0b1111101,
        7 => 0b0000111,
        8 => 0b1111111,
        9 => 0b1101111,
        _ => vstd::pervasive::unreached(),
    }
}

/// A full figure write issues exactly eight writes, one per segment line, in
/// ascending index order, each at the level of the matching bit of the
/// pattern.
pub proof fn lemma_byte_writes_shape(data: u8)
    ensures
        byte_writes(data).len() == 8,
        forall|i: int| 0 <= i < 8 ==> (#[trigger] byte_writes(data)[i]).segment == i,
        forall|i: int| 0 <= i < 8 ==> (#[trigger] byte_writes(data)[i]).high == bit_of(
            data,
            i as u8,
        ),
{
}

/// Clearing the display is writing the pattern 0: its eight writes all drive
/// their line off, and the eight resulting levels are all off.
pub proof fn lemma_clear_is_all_off()
    ensures
        forall|i: int| 0 <= i < 8 ==> !(#[trigger] byte_writes(0)[i]).high,
        forall|i: int| 0 <= i < 8 ==> !(#[trigger] byte_levels(0)[i]),
{
    assert(forall|j: u8| (0u8 >> j) & 1 == 0) by (bit_vector);
}

/// Helper: a partial write never changes how many lines there are.
pub proof fn lemma_write_upto_len(prior: Seq<bool>, data: u8, k: int)
    requires
        prior.len() == 8,
        0 <= k <= 8,
    ensures
        write_upto(prior, data, k).len() == 8,
    decreases k,
{
    if k > 0 {
        lemma_write_upto_len(prior, data, k - 1);
    }
}

/// Helper: after the first `k` writes of `data`, lines below `k` carry their
/// bit of `data` and lines from `k` up still carry their prior level.
pub proof fn lemma_write_upto_index(prior: Seq<bool>, data: u8, k: int, j: int)
    requires
        prior.len() == 8,
        0 <= k <= 8,
        0 <= j < 8,
    ensures
        write_upto(prior, data, k)[j] == if j < k {
            bit_of(data, j as u8)
        } else {
            prior[j]
        },
    decreases k,
{
    if k > 0 {
        lemma_write_upto_len(prior, data, k - 1);
        lemma_write_upto_index(prior, data, k - 1, j);
    }
}

/// A completed figure write fully overwrites the display: the final levels
/// are exactly the bits of the pattern, whatever the eight lines carried
/// before. No residue of an earlier figure survives, so consecutive digit
/// writes need no clear in between.
pub proof fn lemma_full_write_overwrites(prior: Seq<bool>, data: u8)
    requires
        prior.len() == 8,
    ensures
        write_upto(prior, data, 8) == byte_levels(data),
{
    lemma_write_upto_len(prior, data, 8);
    assert forall|j: int| 0 <= j < 8 implies write_upto(prior, data, 8)[j] == byte_levels(data)[j] by {
        lemma_write_upto_index(prior, data, 8, j);
    }
    assert(write_upto(prior, data, 8) =~= byte_levels(data));
}

/// Two drivers that complete the same figure write agree on every line
/// afterwards, whatever levels each started from: the final state depends on
/// the written pattern alone, never on the driver's shape or past.
pub proof fn lemma_same_figure_same_levels(prior_a: Seq<bool>, prior_b: Seq<bool>, data: u8)
    requires
        prior_a.len() == 8,
        prior_b.len() == 8,
    ensures
        write_upto(prior_a, data, 8) == write_upto(prior_b, data, 8),
{
    lemma_full_write_overwrites(prior_a, data);
    lemma_full_write_overwrites(prior_b, data);
}

} // verus!
