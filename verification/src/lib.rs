//! A driver for the 5011AS seven-segment display.
//!
//! The display has eight independent lines: the seven bars `a` through `g`
//! and the decimal point `dp`. A figure is an eight-bit pattern in which bit
//! `i` gives the logic level of line `i`, in the fixed order
//! `0b[dp][g][f][e][d][c][b][a]`. A driver owns one settable output line per
//! segment and converts a decimal digit, a decimal-point flag, or a raw
//! pattern into eight ordered single-line writes; the first line that fails
//! to be driven stops the write and its error is returned.
//!
//! The driver exists in three shapes with identical observable behaviour:
//! the self-contained [`LED5011AS`] here, and the two shapes built on the
//! [`interface::LED5011ASDriver`] contract, [`simple_driver::LED5011AS`]
//! over eight lines of one type and [`generic_driver::GenericLED5011AS`]
//! over eight separately-typed lines.

use vstd::prelude::*;

pub mod figure;
pub mod generic_driver;
pub mod interface;
pub mod recording;
pub mod simple_driver;

use crate::figure::byte_levels;
use crate::figure::byte_writes;
use crate::figure::digit_segments;
use crate::figure::figure_of;
use crate::figure::lemma_full_write_overwrites;
use crate::figure::write_upto;
use crate::figure::SegmentWrite;
use crate::interface::SegmentLine;

verus! {

/// A self-contained driver for the 5011AS display over eight separately-
/// typed lines, one type parameter per segment, in the fixed segment order
/// `a` through `dp`.
pub struct LED5011AS<PinA, PinB, PinC, PinD, PinE, PinF, PinG, PinDp> {
    a: PinA,
    b: PinB,
    c: PinC,
    d: PinD,
    e: PinE,
    f: PinF,
    g: PinG,
    dp: PinDp,
    log: Ghost<Seq<SegmentWrite>>,
}

impl<PinA, PinB, PinC, PinD, PinE, PinF, PinG, PinDp, E> LED5011AS<
    PinA,
    PinB,
    PinC,
    PinD,
    PinE,
    PinF,
    PinG,
    PinDp,
> where
    PinA: SegmentLine<Error = E>,
    PinB: SegmentLine<Error = E>,
    PinC: SegmentLine<Error = E>,
    PinD: SegmentLine<Error = E>,
    PinE: SegmentLine<Error = E>,
    PinF: SegmentLine<Error = E>,
    PinG: SegmentLine<Error = E>,
    PinDp: SegmentLine<Error = E>,
 {
    /// The logic level each of the eight lines currently carries, `a` first.
    pub closed spec fn levels(&self) -> Seq<bool> {
        seq![
            self.a.line_level(),
            self.b.line_level(),
            self.c.line_level(),
            self.d.line_level(),
            self.e.line_level(),
            self.f.line_level(),
            self.g.line_level(),
            self.dp.line_level(),
        ]
    }

    /// Every segment write this driver has successfully issued, oldest
    /// first.
    pub closed spec fn writes(&self) -> Seq<SegmentWrite> {
        self.log@
    }

    /// Creates a driver from its eight lines, given in the fixed segment
    /// order. Construction never fails and issues no write.
    pub fn new(
        a: PinA,
        b: PinB,
        c: PinC,
        d: PinD,
        e: PinE,
        f: PinF,
        g: PinG,
        dp: PinDp,
    ) -> (r: Self)
        ensures
            r.levels() == seq![
                a.line_level(),
                b.line_level(),
                c.line_level(),
                d.line_level(),
                e.line_level(),
                f.line_level(),
                g.line_level(),
                dp.line_level(),
            ],
            r.writes() == Seq::<SegmentWrite>::empty(),
    {
        LED5011AS { a, b, c, d, e, f, g, dp, log: Ghost(Seq::empty()) }
    }

    /// Gives the eight lines back, in segment order. Consumes the driver.
    pub fn into_lines(self) -> (r: (PinA, PinB, PinC, PinD, PinE, PinF, PinG, PinDp))
        ensures
            r.0.line_level() == self.levels()[0],
            r.1.line_level() == self.levels()[1],
            r.2.line_level() == self.levels()[2],
            r.3.line_level() == self.levels()[3],
            r.4.line_level() == self.levels()[4],
            r.5.line_level() == self.levels()[5],
            r.6.line_level() == self.levels()[6],
            r.7.line_level() == self.levels()[7],
    {
        let LED5011AS { a, b, c, d, e, f, g, dp, log: _ } = self;
        (a, b, c, d, e, f, g, dp)
    }

    /// Writes the decimal digit `digit` to the display; `dot_point` toggles
    /// the decimal point. Each call writes all eight lines, so consecutive
    /// digits need no clear in between.
    ///
    /// A digit above 9 is a caller bug, excluded by precondition; an
    /// unverified caller that passes one aborts before any line is touched.
    pub fn set_digit(&mut self, digit: u8, dot_point: bool) -> (r: Result<(), E>)
        requires
            digit <= 9,
        ensures
            r is Ok ==> final(self).levels() == byte_levels(figure_of(digit, dot_point)) && final(self).writes() == old(self).writes() + byte_writes(figure_of(digit, dot_point)),
            r is Err ==> exists|k: int|
                0 <= k < 8 && final(self).levels() == write_upto(
                    old(self).levels(),
                    figure_of(digit, dot_point),
                    k,
                ) && final(self).writes() == old(self).writes() + byte_writes(
                    figure_of(digit, dot_point),
                ).take(k),
    {
        let pattern: u8 = digit_segments(digit) | (if dot_point { 0x80 } else { 0x00 });
        match self.write_byte(pattern) {
            Ok(()) => Ok(()),
            Err(e) => {
                proof {
                    let k = choose|k: int|
                        0 <= k < 8 && self.levels() == write_upto(old(self).levels(), pattern, k)
                            && self.writes() == old(self).writes() + byte_writes(pattern).take(k);
                    assert(0 <= k < 8 && self.levels() == write_upto(
                        old(self).levels(),
                        figure_of(digit, dot_point),
                        k,
                    ) && self.writes() == old(self).writes() + byte_writes(
                        figure_of(digit, dot_point),
                    ).take(k));
                }
                Err(e)
            },
        }
    }

    /// Clears the display: writes the figure 0, driving all eight lines off.
    pub fn clear(&mut self) -> (r: Result<(), E>)
        ensures
            r is Ok ==> final(self).levels() == byte_levels(0) && final(self).writes() == old(self).writes() + byte_writes(0),
            r is Err ==> exists|k: int|
                0 <= k < 8 && final(self).levels() == write_upto(old(self).levels(), 0, k)
                    && final(self).writes() == old(self).writes() + byte_writes(0).take(k),
    {
        self.write_byte(0b00000000)
    }

    /// Writes the raw figure `data` to the display: one write per line, in
    /// ascending segment order, line `i` driven to bit `i` of `data`.
    ///
    /// The first hardware failure is returned at once: the lines already
    /// written keep their new level, the lines not yet reached keep their
    /// old one, and no further write is issued.
    pub fn write_byte(&mut self, data: u8) -> (r: Result<(), E>)
        ensures
            r is Ok ==> final(self).levels() == byte_levels(data) && final(self).writes() == old(self).writes() + byte_writes(data),
            r is Err ==> exists|k: int|
                0 <= k < 8 && final(self).levels() == write_upto(old(self).levels(), data, k)
                    && final(self).writes() == old(self).writes() + byte_writes(data).take(k),
    {
        let mut i: u8 = 0;
        while i < 8
            invariant
                i <= 8,
                old(self).levels().len() == 8,
                self.levels() == write_upto(old(self).levels(), data, i as int),
                self.writes() == old(self).writes() + byte_writes(data).take(i as int),
            decreases 8 - i,
        {
            let high: bool = (data >> i) & 1 == 1;
            match self.set_segment(i, high) {
                Ok(()) => {},
                Err(e) => {
                    proof {
                        let k = i as int;
                        assert(0 <= k < 8 && self.levels() == write_upto(
                            old(self).levels(),
                            data,
                            k,
                        ) && self.writes() == old(self).writes() + byte_writes(data).take(k));
                    }
                    return Err(e);
                },
            }
            proof {
                assert(byte_writes(data).take(i as int + 1) =~= byte_writes(data).take(
                    i as int,
                ).push(byte_writes(data)[i as int]));
                assert(self.writes() =~= old(self).writes() + byte_writes(data).take(i as int + 1));
            }
            i += 1;
        }
        proof {
            lemma_full_write_overwrites(old(self).levels(), data);
            assert(byte_writes(data).take(8) =~= byte_writes(data));
        }
        Ok(())
    }

    /// Drives the single line `segment` to the level `high`. An index
    /// outside 0..=7 is a caller bug, excluded by precondition; an
    /// unverified caller that passes one aborts rather than touching a
    /// wrong line.
    fn set_segment(&mut self, segment: u8, high: bool) -> (r: Result<(), E>)
        requires
            segment < 8,
        ensures
            r is Ok ==> final(self).levels() == old(self).levels().update(segment as int, high)
                && final(self).writes() == old(self).writes().push(
                (SegmentWrite { segment: segment as int, high }),
            ),
            r is Err ==> final(self).levels() == old(self).levels() && final(self).writes()
                == old(self).writes(),
    {
        let r = match segment {
            0 => self.a.set_level(high),
            1 => self.b.set_level(high),
            2 => self.c.set_level(high),
            3 => self.d.set_level(high),
            4 => self.e.set_level(high),
            5 => self.f.set_level(high),
            6 => self.g.set_level(high),
            7 => self.dp.set_level(high),
            _ => vstd::pervasive::unreached(),
        };
        match r {
            Ok(()) => {
                proof {
                    self.log@ = self.log@.push(
                        (SegmentWrite { segment: segment as int, high }),
                    );
                    assert(self.levels() =~= old(self).levels().update(segment as int, high));
                }
                Ok(())
            },
            Err(e) => {
                proof {
                    assert(self.levels() =~= old(self).levels());
                }
                Err(e)
            },
        }
    }
}

} // verus!
