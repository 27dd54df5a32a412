//! The capability contracts.
//!
//! [`SegmentLine`] is the injected capability: one settable binary output
//! that may fail with a hardware-specific error. [`LED5011ASDriver`] is the
//! driver interface over eight such lines; every figure-writing operation is
//! provided once here, on top of the single primitive `set_segment`, so that
//! no driver shape re-implements them.

use vstd::prelude::*;

use crate::figure::byte_levels;
use crate::figure::byte_writes;
use crate::figure::digit_segments;
use crate::figure::figure_of;
use crate::figure::lemma_full_write_overwrites;
use crate::figure::write_upto;
use crate::figure::SegmentWrite;

verus! {

/// A settable binary output line connected to one display segment.
///
/// Driving the line may fail with a hardware-specific error; a failed drive
/// leaves the line at the level it already carried.
pub trait SegmentLine: Sized {
    /// The hardware error reported when the line cannot be driven.
    type Error;

    /// The logic level the line currently carries. A line on real hardware
    /// leaves this unspecified; a line held in memory refines it.
    open spec fn line_level(&self) -> bool {
        arbitrary()
    }

    /// Drives the line to `high`.
    fn set_level(&mut self, high: bool) -> (r: Result<(), Self::Error>)
        ensures
            r is Ok ==> final(self).line_level() == high,
            r is Err ==> final(self).line_level() == old(self).line_level(),
    ;
}

/// A driver for the 5011AS display: eight segment lines in the fixed order
/// `a`, `b`, `c`, `d`, `e`, `f`, `g`, `dp`, addressed by index 0 through 7.
///
/// Implementations supply only the primitive `set_segment`; writing a digit,
/// a raw figure, or clearing the display is provided here and behaves
/// identically for every implementation.
pub trait LED5011ASDriver: Sized {
    /// The hardware error reported when a line cannot be driven.
    type Error;

    /// The logic level each of the eight lines currently carries, `a` first.
    spec fn levels(&self) -> Seq<bool>;

    /// Every segment write this driver has successfully issued, oldest first.
    spec fn writes(&self) -> Seq<SegmentWrite>;

    /// Every driver addresses exactly eight lines.
    proof fn lemma_eight_lines(&self)
        ensures
            self.levels().len() == 8,
    ;

    /// Drives the single line `segment` to the level `high`.
    ///
    /// An index outside 0..=7 is a caller bug, not a hardware condition: it
    /// is excluded by precondition, and an unverified caller that passes one
    /// aborts rather than touching a wrong line.
    fn set_segment(&mut self, segment: u8, high: bool) -> (r: Result<(), Self::Error>)
        requires
            segment < 8,
        ensures
            r is Ok ==> final(self).levels() == old(self).levels().update(segment as int, high)
                && final(self).writes() == old(self).writes().push(
                (SegmentWrite { segment: segment as int, high }),
            ),
            r is Err ==> final(self).levels() == old(self).levels() && final(self).writes()
                == old(self).writes(),
    ;

    /// Writes the raw figure `data` to the display: one write per line, in
    /// ascending segment order, line `i` driven to bit `i` of `data`.
    ///
    /// The first hardware failure is returned at once: the lines already
    /// written keep their new level, the lines not yet reached keep their
    /// old one, and no further write is issued.
    fn write_byte(&mut self, data: u8) -> (r: Result<(), Self::Error>)
        ensures
            r is Ok ==> final(self).levels() == byte_levels(data) && final(self).writes() == old(self).writes() + byte_writes(data),
            r is Err ==> exists|k: int|
                0 <= k < 8 && final(self).levels() == write_upto(old(self).levels(), data, k)
                    && final(self).writes() == old(self).writes() + byte_writes(data).take(k),
    {
        proof {
            self.lemma_eight_lines();
        }
        let mut i: u8 = 0;
        while i < 8
            invariant
                i <= 8,
                old(self).levels().len() == 8,
                self.levels() == write_upto(old(self).levels(), data, i as int),
                self.writes() == old(self).writes() + byte_writes(data).take(i as int),
            decreases 8 - i,
        {
            let high: bool = (data >> i) & 1 == 1;
            match self.set_segment(i, high) {
                Ok(()) => {},
                Err(e) => {
                    proof {
                        let k = i as int;
                        assert(0 <= k < 8 && self.levels() == write_upto(
                            old(self).levels(),
                            data,
                            k,
                        ) && self.writes() == old(self).writes() + byte_writes(data).take(k));
                    }
                    return Err(e);
                },
            }
            proof {
                assert(byte_writes(data).take(i as int + 1) =~= byte_writes(data).take(
                    i as int,
                ).push(byte_writes(data)[i as int]));
                assert(self.writes() =~= old(self).writes() + byte_writes(data).take(i as int + 1));
            }
            i += 1;
        }
        proof {
            lemma_full_write_overwrites(old(self).levels(), data);
            assert(byte_writes(data).take(8) =~= byte_writes(data));
        }
        Ok(())
    }

    /// Clears the display: writes the figure 0, driving all eight lines off.
    fn clear(&mut self) -> (r: Result<(), Self::Error>)
        ensures
            r is Ok ==> final(self).levels() == byte_levels(0) && final(self).writes() == old(self).writes() + byte_writes(0),
            r is Err ==> exists|k: int|
                0 <= k < 8 && final(self).levels() == write_upto(old(self).levels(), 0, k)
                    && final(self).writes() == old(self).writes() + byte_writes(0).take(k),
    {
        self.write_byte(0b00000000)
    }

    /// Writes the decimal digit `digit` to the display; `dot_point` toggles
    /// the decimal point. Each call writes all eight lines, so consecutive
    /// digits need no clear in between.
    ///
    /// A digit above 9 is a caller bug, excluded by precondition; an
    /// unverified caller that passes one aborts before any line is touched.
    fn set_digit(&mut self, digit: u8, dot_point: bool) -> (r: Result<(), Self::Error>)
        requires
            digit <= 9,
        ensures
            r is Ok ==> final(self).levels() == byte_levels(figure_of(digit, dot_point)) && final(self).writes() == old(self).writes() + byte_writes(figure_of(digit, dot_point)),
            r is Err ==> exists|k: int|
                0 <= k < 8 && final(self).levels() == write_upto(
                    old(self).levels(),
                    figure_of(digit, dot_point),
                    k,
                ) && final(self).writes() == old(self).writes() + byte_writes(
                    figure_of(digit, dot_point),
                ).take(k),
    {
        let pattern: u8 = digit_segments(digit) | (if dot_point { 0x80 } else { 0x00 });
        match self.write_byte(pattern) {
            Ok(()) => Ok(()),
            Err(e) => {
                proof {
                    let k = choose|k: int|
                        0 <= k < 8 && self.levels() == write_upto(old(self).levels(), pattern, k)
                            && self.writes() == old(self).writes() + byte_writes(pattern).take(k);
                    assert(0 <= k < 8 && self.levels() == write_upto(
                        old(self).levels(),
                        figure_of(digit, dot_point),
                        k,
                    ) && self.writes() == old(self).writes() + byte_writes(
                        figure_of(digit, dot_point),
                    ).take(k));
                }
                Err(e)
            },
        }
    }
}

} // verus!
