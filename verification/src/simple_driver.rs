//! The uniform driver shape: eight lines of one shared concrete type, held
//! as an ordered eight-element array and addressed by indexing.

use vstd::prelude::*;

use crate::figure::SegmentWrite;
use crate::interface::LED5011ASDriver;
use crate::interface::SegmentLine;

verus! {

/// A driver for the 5011AS display whose eight lines all share one concrete
/// type, stored in the fixed segment order `a` through `dp`.
pub struct LED5011AS<Pin> {
    segments: [Pin; 8],
    log: Ghost<Seq<SegmentWrite>>,
}

impl<Pin, E> LED5011AS<Pin> where Pin: SegmentLine<Error = E> {
    /// Creates a driver from its eight lines, given in the fixed segment
    /// order. Construction never fails and issues no write.
    pub fn new(a: Pin, b: Pin, c: Pin, d: Pin, e: Pin, f: Pin, g: Pin, dp: Pin) -> (r: Self)
        ensures
            r.levels() == seq![
                a.line_level(),
                b.line_level(),
                c.line_level(),
                d.line_level(),
                e.line_level(),
                f.line_level(),
                g.line_level(),
                dp.line_level(),
            ],
            r.writes() == Seq::<SegmentWrite>::empty(),
    {
        LED5011AS { segments: [a, b, c, d, e, f, g, dp], log: Ghost(Seq::empty()) }
    }

    /// Read access to the eight lines, in segment order.
    pub fn segments(&self) -> (r: &[Pin; 8])
        ensures
            forall|i: int| 0 <= i < 8 ==> (#[trigger] r@[i]).line_level() == self.levels()[i],
    {
        &self.segments
    }
}

impl<Pin, E> LED5011ASDriver for LED5011AS<Pin> where Pin: SegmentLine<Error = E> {
    type Error = E;

    closed spec fn levels(&self) -> Seq<bool> {
        Seq::new(8, |i: int| self.segments@[i].line_level())
    }

    closed spec fn writes(&self) -> Seq<SegmentWrite> {
        self.log@
    }

    proof fn lemma_eight_lines(&self) {
    }

    fn set_segment(&mut self, segment: u8, high: bool) -> (r: Result<(), E>) {
        let r = self.segments[segment as usize].set_level(high);
        match r {
            Ok(()) => {
                proof {
                    self.log@ = self.log@.push(
                        (SegmentWrite { segment: segment as int, high }),
                    );
                    assert(self.levels() =~= old(self).levels().update(segment as int, high));
                }
                Ok(())
            },
            Err(e) => {
                proof {
                    assert(self.levels() =~= old(self).levels());
                }
                Err(e)
            },
        }
    }
}

} // verus!
