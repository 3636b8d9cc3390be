//! Confirmed key transitions.
//!
//! An event pairs a Press/Release discriminant with a (row, column)
//! coordinate.  The coordinate space is local to one physical matrix when
//! the event leaves the debouncer, and global once the coordinate unifier
//! has rewritten it.  Events are transient: produced by the debouncer or
//! the link receiver, consumed by the interpreter within the same tick.

use vstd::prelude::*;

verus! {

/// A confirmed key transition at a (row, column) coordinate.
#[derive(Clone, Copy, PartialEq, Eq, Structural, Debug)]
pub enum Event {
    Press(u8, u8),
    Release(u8, u8),
}

impl Event {
    /// The (row, column) coordinate, regardless of kind.
    pub open spec fn spec_coord(self) -> (u8, u8) {
        match self {
            Event::Press(r, c) => (r, c),
            Event::Release(r, c) => (r, c),
        }
    }

    /// True for a Press, false for a Release.
    pub open spec fn spec_is_press(self) -> bool {
        match self {
            Event::Press(_, _) => true,
            Event::Release(_, _) => false,
        }
    }

    /// True for a Press, false for a Release.
    #[verifier::when_used_as_spec(spec_is_press)]
    pub fn is_press(self) -> (b: bool)
        ensures
            b == self.spec_is_press(),
    {
        match self {
            Event::Press(_, _) => true,
            Event::Release(_, _) => false,
        }
    }

    /// The (row, column) coordinate, regardless of kind.
    pub fn coord(self) -> (rc: (u8, u8))
        ensures
            rc == self.spec_coord(),
    {
        match self {
            Event::Press(r, c) => (r, c),
            Event::Release(r, c) => (r, c),
        }
    }

    /// An event of the same kind at a rewritten coordinate.
    pub fn with_coord(self, r: u8, c: u8) -> (e: Event)
        ensures
            e.spec_is_press() == self.spec_is_press(),
            e.spec_coord() == (r, c),
    {
        match self {
            Event::Press(_, _) => Event::Press(r, c),
            Event::Release(_, _) => Event::Release(r, c),
        }
    }
}

} // verus!
