//! The heterogeneous driver shape: eight lines whose concrete types may all
//! differ, held in eight named slots and addressed by an explicit dispatch.

use vstd::prelude::*;

use crate::figure::SegmentWrite;
use crate::interface::LED5011ASDriver;
use crate::interface::SegmentLine;

verus! {

/// A driver for the 5011AS display whose eight lines may each have a
/// distinct concrete type, one type parameter per segment, in the fixed
/// segment order `a` through `dp`. Its observable behaviour is identical to
/// the uniform driver's; only the construction-time typing differs.
pub struct GenericLED5011AS<PinA, PinB, PinC, PinD, PinE, PinF, PinG, PinDp> {
    a: PinA,
    b: PinB,
    c: PinC,
    d: PinD,
    e: PinE,
    f: PinF,
    g: PinG,
    dp: PinDp,
    log: Ghost<Seq<SegmentWrite>>,
}

impl<PinA, PinB, PinC, PinD, PinE, PinF, PinG, PinDp, E> GenericLED5011AS<
    PinA,
    PinB,
    PinC,
    PinD,
    PinE,
    PinF,
    PinG,
    PinDp,
> where
    PinA: SegmentLine<Error = E>,
    PinB: SegmentLine<Error = E>,
    PinC: SegmentLine<Error = E>,
    PinD: SegmentLine<Error = E>,
    PinE: SegmentLine<Error = E>,
    PinF: SegmentLine<Error = E>,
    PinG: SegmentLine<Error = E>,
    PinDp: SegmentLine<Error = E>,
 {
    /// Creates a driver from its eight lines, given in the fixed segment
    /// order. Construction never fails and issues no write.
    pub fn new(
        a: PinA,
        b: PinB,
        c: PinC,
        d: PinD,
        e: PinE,
        f: PinF,
        g: PinG,
        dp: PinDp,
    ) -> (r: Self)
        ensures
            r.levels() == seq![
                a.line_level(),
                b.line_level(),
                c.line_level(),
                d.line_level(),
                e.line_level(),
                f.line_level(),
                g.line_level(),
                dp.line_level(),
            ],
            r.writes() == Seq::<SegmentWrite>::empty(),
    {
        GenericLED5011AS { a, b, c, d, e, f, g, dp, log: Ghost(Seq::empty()) }
    }

    /// Gives the eight lines back, in segment order. Consumes the driver.
    pub fn into_lines(self) -> (r: (PinA, PinB, PinC, PinD, PinE, PinF, PinG, PinDp))
        ensures
            r.0.line_level() == self.levels()[0],
            r.1.line_level() == self.levels()[1],
            r.2.line_level() == self.levels()[2],
            r.3.line_level() == self.levels()[3],
            r.4.line_level() == self.levels()[4],
            r.5.line_level() == self.levels()[5],
            r.6.line_level() == self.levels()[6],
            r.7.line_level() == self.levels()[7],
    {
        let GenericLED5011AS { a, b, c, d, e, f, g, dp, log: _ } = self;
        (a, b, c, d, e, f, g, dp)
    }
}

impl<PinA, PinB, PinC, PinD, PinE, PinF, PinG, PinDp, E> LED5011ASDriver for GenericLED5011AS<
    PinA,
    PinB,
    PinC,
    PinD,
    PinE,
    PinF,
    PinG,
    PinDp,
> where
    PinA: SegmentLine<Error = E>,
    PinB: SegmentLine<Error = E>,
    PinC: SegmentLine<Error = E>,
    PinD: SegmentLine<Error = E>,
    PinE: SegmentLine<Error = E>,
    PinF: SegmentLine<Error = E>,
    PinG: SegmentLine<Error = E>,
    PinDp: SegmentLine<Error = E>,
 {
    type Error = E;

    closed spec fn levels(&self) -> Seq<bool> {
        seq![
            self.a.line_level(),
            self.b.line_level(),
            self.c.line_level(),
            self.d.line_level(),
            self.e.line_level(),
            self.f.line_level(),
            self.g.line_level(),
            self.dp.line_level(),
        ]
    }

    closed spec fn writes(&self) -> Seq<SegmentWrite> {
        self.log@
    }

    proof fn lemma_eight_lines(&self) {
    }

    fn set_segment(&mut self, segment: u8, high: bool) -> (r: Result<(), E>) {
        let r = match segment {
            0 => self.a.set_level(high),
            1 => self.b.set_level(high),
            2 => self.c.set_level(high),
            3 => self.d.set_level(high),
            4 => self.e.set_level(high),
            5 => self.f.set_level(high),
            6 => self.g.set_level(high),
            7 => self.dp.set_level(high),
            _ => vstd::pervasive::unreached(),
        };
        match r {
            Ok(()) => {
                proof {
                    self.log@ = self.log@.push(
                        (SegmentWrite { segment: segment as int, high }),
                    );
                    assert(self.levels() =~= old(self).levels().update(segment as int, high));
                }
                Ok(())
            },
            Err(e) => {
                proof {
                    assert(self.levels() =~= old(self).levels());
                }
                Err(e)
            },
        }
    }
}

} // verus!
