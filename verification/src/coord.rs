//! The coordinate unifier.
//!
//! Each physical unit scans its own matrix of `LOCAL_ROWS` by `LOCAL_COLS`
//! switches and reports events in local (row, column) coordinates.  The
//! layout interpreter consumes one global space of `GLOBAL_ROWS` by
//! `GLOBAL_COLS` coordinates; the two fixed per-unit mappings below absorb
//! the physical orientation of each half.  The mappings are injective over
//! the combined domain, so no two physical switches alias to the same
//! global coordinate.

use vstd::prelude::*;
use crate::event::Event;

verus! {

/// Rows of one physical matrix, in local coordinates.
pub const LOCAL_ROWS: u8 = 6;

/// Columns of one physical matrix, in local coordinates.
pub const LOCAL_COLS: u8 = 4;

/// Rows of the global coordinate space the interpreter consumes.
pub const GLOBAL_ROWS: u8 = 4;

/// Columns of the global coordinate space the interpreter consumes.
pub const GLOBAL_COLS: u8 = 12;

/// Which physical half an event originated on.
#[derive(Clone, Copy, PartialEq, Eq, Structural, Debug)]
pub enum Unit {
    /// The half connected to the host; its events stay local to it.
    Primary,
    /// The half that forwards its events over the serial link.
    Secondary,
}

/// A local (row, column) pair within the matrix bounds.
pub open spec fn local_in_bounds(row: u8, col: u8) -> bool {
    row < LOCAL_ROWS && col < LOCAL_COLS
}

/// The fixed global coordinate of one unit's local (row, column) cell.
pub open spec fn unified(unit: Unit, row: u8, col: u8) -> (u8, u8)
    recommends
        local_in_bounds(row, col),
{
    match unit {
        Unit::Primary => (col, (5 - row) as u8),
        Unit::Secondary => (col, (row + 6) as u8),
    }
}

/// Rewrite a local (row, column) pair into the global space.
pub fn unify(unit: Unit, row: u8, col: u8) -> (g: (u8, u8))
    requires
        local_in_bounds(row, col),
    ensures
        g == unified(unit, row, col),
        g.0 < GLOBAL_ROWS,
        g.1 < GLOBAL_COLS,
{
    match unit {
        Unit::Primary => (col, 5 - row),
        Unit::Secondary => (col, row + 6),
    }
}

/// Rewrite an event's local coordinate into the global space, keeping its
/// kind.
pub fn unify_event(unit: Unit, e: Event) -> (g: Event)
    requires
        local_in_bounds(e.spec_coord().0, e.spec_coord().1),
    ensures
        g == unified_event(unit, e),
{
    let (row, col) = e.coord();
    let (gr, gc) = unify(unit, row, col);
    e.with_coord(gr, gc)
}

/// The event `e` with its coordinate rewritten by the unit's mapping.
pub open spec fn unified_event(unit: Unit, e: Event) -> Event {
    match e {
        Event::Press(r, c) => Event::Press(unified(unit, r, c).0, unified(unit, r, c).1),
        Event::Release(r, c) => Event::Release(unified(unit, r, c).0, unified(unit, r, c).1),
    }
}

/// The unifier is injective: over all valid (unit, row, column) triples,
/// no two distinct triples map to the same global coordinate.
pub proof fn lemma_unified_injective(u1: Unit, r1: u8, c1: u8, u2: Unit, r2: u8, c2: u8)
    requires
        local_in_bounds(r1, c1),
        local_in_bounds(r2, c2),
        unified(u1, r1, c1) == unified(u2, r2, c2),
    ensures
        u1 == u2,
        r1 == r2,
        c1 == c2,
{
}

} // verus!
