//! A software segment line: it remembers the level it was last driven to and
//! every write it accepted, and it can be built faulty so that driving it
//! fails. It is the capability to hand a driver where no hardware line is
//! wired, and it lets the write sequences a driver issues be observed.

use vstd::prelude::*;

use crate::interface::SegmentLine;

verus! {

/// The error a faulty [`RecordingLine`] reports: the line could not be
/// driven.
#[derive(Clone, Copy, PartialEq, Eq, Structural, Debug)]
pub struct LineFault;

/// A settable binary output held in memory instead of on a pin.
pub struct RecordingLine {
    level: bool,
    healthy: bool,
    history: Vec<bool>,
}

impl RecordingLine {
    /// Whether every attempt to drive this line succeeds.
    pub closed spec fn is_healthy(&self) -> bool {
        self.healthy
    }

    /// Every level this line was successfully driven to, oldest first.
    pub closed spec fn accepted(&self) -> Seq<bool> {
        self.history@
    }

    /// A healthy line, currently carrying the level `initial`.
    pub fn new(initial: bool) -> (r: Self)
        ensures
            r.line_level() == initial,
            r.is_healthy(),
            r.accepted() == Seq::<bool>::empty(),
    {
        RecordingLine { level: initial, healthy: true, history: Vec::new() }
    }

    /// A faulty line, currently carrying the level `initial`: every attempt
    /// to drive it fails and leaves it unchanged.
    pub fn failing(initial: bool) -> (r: Self)
        ensures
            r.line_level() == initial,
            !r.is_healthy(),
            r.accepted() == Seq::<bool>::empty(),
    {
        RecordingLine { level: initial, healthy: false, history: Vec::new() }
    }

    /// The level the line currently carries.
    pub fn level(&self) -> (r: bool)
        ensures
            r == self.line_level(),
    {
        self.level
    }

    /// The levels this line was successfully driven to, oldest first.
    pub fn history(&self) -> (r: &Vec<bool>)
        ensures
            r@ == self.accepted(),
    {
        &self.history
    }
}

impl SegmentLine for RecordingLine {
    type Error = LineFault;

    closed spec fn line_level(&self) -> bool {
        self.level
    }

    fn set_level(&mut self, high: bool) -> (r: Result<(), LineFault>) {
        if self.healthy {
            self.level = high;
            self.history.push(high);
            Ok(())
        } else {
            Err(LineFault)
        }
    }
}

} // verus!
