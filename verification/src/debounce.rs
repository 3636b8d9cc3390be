//! The debouncer.
//!
//! For every cell of one matrix the debouncer keeps a counter and a
//! confirmed state.  On each tick it compares the raw reading with the
//! confirmed state: agreement resets the counter, disagreement increments
//! it, and once the counter reaches the configured threshold the confirmed
//! state flips, the counter resets, and exactly one event is emitted for
//! that cell.  Cells are visited in row-major order, which fixes the
//! tie-break order when several cells change in the same tick.

use vstd::prelude::*;
use crate::coord::LOCAL_COLS;
use crate::event::Event;
use crate::grid::GRID_CELLS;
use crate::grid::Grid;

verus! {

/// The debounce state of one cell: how many consecutive ticks the raw
/// reading has disagreed with the confirmed state, and that state.
pub struct CellState {
    pub count: int,
    pub confirmed: bool,
}

/// The stable state a cell starts in: no disagreement recorded, confirmed
/// reading `v`.
pub open spec fn settled(v: bool) -> CellState {
    CellState { count: 0, confirmed: v }
}

/// One tick of one cell: the successor state, and the kind of the event
/// emitted, if any (true for Press, false for Release).
pub open spec fn cell_step(s: CellState, raw: bool, threshold: int) -> (CellState, Option<bool>) {
    if raw == s.confirmed {
        (CellState { count: 0, confirmed: s.confirmed }, None)
    } else if s.count + 1 >= threshold {
        (CellState { count: 0, confirmed: raw }, Some(raw))
    } else {
        (CellState { count: s.count + 1, confirmed: s.confirmed }, None)
    }
}

/// The state of one cell after a sequence of raw readings.
pub open spec fn cell_after(s: CellState, raws: Seq<bool>, threshold: int) -> CellState
    decreases raws.len(),
{
    if raws.len() == 0 {
        s
    } else {
        cell_step(cell_after(s, raws.drop_last(), threshold), raws.last(), threshold).0
    }
}

/// The emission of one cell at tick `k` of a sequence of raw readings.
pub open spec fn cell_emit_at(s: CellState, raws: Seq<bool>, threshold: int, k: int) -> Option<
    bool,
>
    recommends
        0 <= k < raws.len(),
{
    cell_step(cell_after(s, raws.take(k), threshold), raws[k], threshold).1
}

/// The event emitted for cell `k` (row-major) when its confirmed state
/// flips to `pressed`.
pub open spec fn cell_event(k: int, pressed: bool) -> Event {
    if pressed {
        Event::Press((k / (LOCAL_COLS as int)) as u8, (k % (LOCAL_COLS as int)) as u8)
    } else {
        Event::Release((k / (LOCAL_COLS as int)) as u8, (k % (LOCAL_COLS as int)) as u8)
    }
}

/// Debounce state for one whole matrix.
pub struct Debouncer {
    counts: Vec<u16>,
    confirmed: Vec<bool>,
    threshold: u16,
}

impl Debouncer {
    /// The number of consecutive disagreeing ticks required to confirm a
    /// transition.
    pub closed spec fn spec_threshold(self) -> int {
        self.threshold as int
    }

    /// The debounce state of cell `k`, row-major.
    pub closed spec fn cell(self, k: int) -> CellState
        recommends
            0 <= k < GRID_CELLS,
    {
        CellState { count: self.counts@[k] as int, confirmed: self.confirmed@[k] }
    }

    /// One entry per cell, counters strictly below the threshold.
    pub closed spec fn wf(self) -> bool {
        &&& self.counts@.len() == GRID_CELLS
        &&& self.confirmed@.len() == GRID_CELLS
        &&& self.threshold >= 1
        &&& forall|k: int| 0 <= k < GRID_CELLS ==> (#[trigger] self.counts@[k]) < self.threshold
    }

    /// A debouncer whose every cell starts settled at "released".
    pub fn new(threshold: u16) -> (d: Debouncer)
        requires
            threshold >= 1,
        ensures
            d.wf(),
            d.spec_threshold() == threshold,
            forall|k: int| 0 <= k < GRID_CELLS ==> #[trigger] d.cell(k) == settled(false),
    {
        let mut counts: Vec<u16> = Vec::new();
        let mut confirmed: Vec<bool> = Vec::new();
        let mut k: u16 = 0;
        while k < GRID_CELLS
            invariant
                k <= GRID_CELLS,
                counts@.len() == k,
                confirmed@.len() == k,
                forall|i: int| 0 <= i < k ==> (#[trigger] counts@[i]) == 0,
                forall|i: int| 0 <= i < k ==> !(#[trigger] confirmed@[i]),
            decreases GRID_CELLS - k,
        {
            counts.push(0);
            confirmed.push(false);
            k = k + 1;
        }
        Debouncer { counts, confirmed, threshold }
    }

    /// Advance every cell by one tick against a fresh snapshot and collect
    /// the confirmed transitions, in row-major cell order.
    pub fn events(&mut self, grid: &Grid) -> (evs: Vec<Event>)
        requires
            old(self).wf(),
            grid.wf(),
        ensures
            final(self).wf(),
            final(self).spec_threshold() == old(self).spec_threshold(),
            forall|k: int|
                0 <= k < GRID_CELLS
                    ==> #[trigger] final(self).cell(k) == cell_step(
                    old(self).cell(k),
                    grid@[k],
                    old(self).spec_threshold(),
                ).0,
            evs@ == emitted_upto(*old(self), *grid, GRID_CELLS as int),
    {
        let mut evs: Vec<Event> = Vec::new();
        let mut k: u16 = 0;
        while k < GRID_CELLS
            invariant
                self.counts@.len() == GRID_CELLS,
                self.confirmed@.len() == GRID_CELLS,
                self.threshold == old(self).threshold,
                self.threshold >= 1,
                grid.wf(),
                k <= GRID_CELLS,
                forall|i: int| 0 <= i < GRID_CELLS ==> (#[trigger] self.counts@[i]) < self.threshold,
                forall|i: int|
                    0 <= i < k
                        ==> #[trigger] self.cell(i) == cell_step(
                        old(self).cell(i),
                        grid@[i],
                        old(self).spec_threshold(),
                    ).0,
                forall|i: int| k <= i < GRID_CELLS ==> #[trigger] self.cell(i) == old(self).cell(i),
                evs@ == emitted_upto(*old(self), *grid, k as int),
            decreases GRID_CELLS - k,
        {
            let ghost pre = *self;
            let raw = grid.get_cell(k);
            let was = self.confirmed[k as usize];
            let ghost prev = pre.cell(k as int);
            if raw == was {
                self.counts.set(k as usize, 0);
            } else {
                let next = self.counts[k as usize] + 1;
                if next >= self.threshold {
                    self.confirmed.set(k as usize, raw);
                    self.counts.set(k as usize, 0);
                    let row = (k / (LOCAL_COLS as u16)) as u8;
                    let col = (k % (LOCAL_COLS as u16)) as u8;
                    let ev = if raw {
                        Event::Press(row, col)
                    } else {
                        Event::Release(row, col)
                    };
                    evs.push(ev);
                } else {
                    self.counts.set(k as usize, next);
                }
            }
            proof {
                assert forall|i: int|
                    0 <= i < GRID_CELLS && i != k as int implies #[trigger] self.cell(i)
                    == pre.cell(i) by {}
                assert(self.cell(k as int) == cell_step(
                    prev,
                    grid@[k as int],
                    old(self).spec_threshold(),
                ).0);
                assert(prev == old(self).cell(k as int));
                assert(evs@ =~= emitted_upto(*old(self), *grid, k as int + 1));
            }
            k = k + 1;
        }
        evs
    }
}

/// The transitions confirmed this tick among the first `n` cells, in
/// row-major order, given the debouncer's state at tick entry.
pub open spec fn emitted_upto(d: Debouncer, g: Grid, n: int) -> Seq<Event>
    decreases n,
{
    if n <= 0 {
        Seq::empty()
    } else {
        emitted_upto(d, g, n - 1) + match cell_step(d.cell(n - 1), g@[n - 1], d.spec_threshold()).1 {
            Some(pressed) => seq![cell_event(n - 1, pressed)],
            None => Seq::empty(),
        }
    }
}

/// Length of the maximal suffix of `raws` whose readings all differ from
/// `v`.
pub open spec fn trailing_run(raws: Seq<bool>, v: bool) -> int
    decreases raws.len(),
{
    if raws.len() == 0 || raws.last() == v {
        0
    } else {
        1 + trailing_run(raws.drop_last(), v)
    }
}

/// Debounce stability, first half: a cell that starts settled at `v` and
/// whose raw reading never disagrees with `v` for `threshold` consecutive
/// ticks — it oscillates and settles back — emits no event at any tick,
/// and its confirmed state stays `v`.
pub proof fn lemma_debounce_stable(v: bool, raws: Seq<bool>, threshold: int)
    requires
        threshold >= 1,
        forall|k: int|
            0 <= k <= raws.len() ==> trailing_run(#[trigger] raws.take(k), v) < threshold,
    ensures
        cell_after(settled(v), raws, threshold) == (CellState {
            count: trailing_run(raws, v),
            confirmed: v,
        }),
        forall|k: int| 0 <= k < raws.len() ==> cell_emit_at(settled(v), raws, threshold, k) is None,
    decreases raws.len(),
{
    if raws.len() == 0 {
    } else {
        let p = raws.drop_last();
        assert forall|k: int|
            0 <= k <= p.len() implies trailing_run(#[trigger] p.take(k), v) < threshold by {
            assert(p.take(k) =~= raws.take(k));
        }
        lemma_debounce_stable(v, p, threshold);
        assert(raws.take(raws.len() as int) =~= raws);
        assert(trailing_run(raws, v) < threshold);
        assert forall|k: int|
            0 <= k < raws.len() implies cell_emit_at(settled(v), raws, threshold, k) is None by {
            if k < p.len() {
                assert(raws.take(k) =~= p.take(k));
                assert(raws[k] == p[k]);
                assert(cell_emit_at(settled(v), p, threshold, k) is None);
                assert(cell_emit_at(settled(v), raws, threshold, k) == cell_emit_at(
                    settled(v),
                    p,
                    threshold,
                    k,
                ));
            } else {
                assert(raws.take(k) =~= p);
                let s_p = cell_after(settled(v), p, threshold);
                assert(s_p == (CellState { count: trailing_run(p, v), confirmed: v }));
                assert(cell_after(settled(v), raws.take(k), threshold) == s_p);
                if raws[k] != v {
                    assert(raws.last() == raws[k]);
                    assert(trailing_run(raws, v) == 1 + trailing_run(p, v));
                    assert(s_p.count + 1 < threshold);
                }
            }
        }
    }
}

/// The per-cell state after `k` ticks of uninterrupted disagreement: the
/// counter has counted every one of them and the confirmed state has not
/// yet moved.
pub proof fn lemma_debounce_counts(v: bool, raws: Seq<bool>, threshold: int, k: int)
    requires
        threshold >= 1,
        0 <= k <= raws.len(),
        k <= threshold - 1,
        forall|i: int| 0 <= i < raws.len() ==> raws[i] != v,
    ensures
        cell_after(settled(v), raws.take(k), threshold) == (CellState { count: k, confirmed: v }),
    decreases k,
{
    if k == 0 {
        assert(raws.take(0) =~= Seq::<bool>::empty());
    } else {
        lemma_debounce_counts(v, raws, threshold, k - 1);
        let p = raws.take(k);
        assert(p.drop_last() =~= raws.take(k - 1));
        assert(p.last() == raws[k - 1]);
    }
}

/// Debounce stability, second half: a cell that starts settled at `v` and
/// whose raw reading disagrees for exactly `threshold` consecutive ticks
/// emits exactly one event, at the tick the threshold is reached, of the
/// kind matching the settled direction, and ends settled at the flipped
/// state.
pub proof fn lemma_debounce_confirms(v: bool, raws: Seq<bool>, threshold: int)
    requires
        threshold >= 1,
        raws.len() == threshold,
        forall|i: int| 0 <= i < raws.len() ==> raws[i] != v,
    ensures
        forall|k: int|
            0 <= k < threshold - 1 ==> cell_emit_at(settled(v), raws, threshold, k) is None,
        cell_emit_at(settled(v), raws, threshold, threshold - 1) == Some(!v),
        cell_after(settled(v), raws, threshold) == settled(!v),
{
    assert forall|k: int|
        0 <= k < threshold - 1 implies cell_emit_at(settled(v), raws, threshold, k) is None by {
        lemma_debounce_counts(v, raws, threshold, k);
    }
    lemma_debounce_counts(v, raws, threshold, threshold - 1);
    assert(raws.drop_last() =~= raws.take(threshold - 1));
    assert(raws.take(threshold - 1) =~= raws.take(threshold - 1));
    assert(cell_emit_at(settled(v), raws, threshold, threshold - 1) == cell_step(
        cell_after(settled(v), raws.take(threshold - 1), threshold),
        raws[threshold - 1],
        threshold,
    ).1);
    assert(raws[threshold - 1] == !v);
}

/// Every event the debouncer emits carries a coordinate within the local
/// matrix bounds.
pub proof fn lemma_emitted_in_bounds(d: Debouncer, g: Grid, n: int)
    requires
        n <= GRID_CELLS,
    ensures
        forall|i: int|
            0 <= i < emitted_upto(d, g, n).len()
                ==> crate::coord::local_in_bounds(
                (#[trigger] emitted_upto(d, g, n)[i]).spec_coord().0,
                emitted_upto(d, g, n)[i].spec_coord().1,
            ),
    decreases n,
{
    if n > 0 {
        lemma_emitted_in_bounds(d, g, n - 1);
        let prefix = emitted_upto(d, g, n - 1);
        let whole = emitted_upto(d, g, n);
        assert(0 <= (n - 1) / 4 && (n - 1) / 4 < 6 && 0 <= (n - 1) % 4 && (n - 1) % 4 < 4)
            by (nonlinear_arith)
            requires
                0 <= n - 1 < 24,
        ;
        assert forall|i: int|
            0 <= i < whole.len() implies crate::coord::local_in_bounds(
            (#[trigger] whole[i]).spec_coord().0,
            whole[i].spec_coord().1,
        ) by {
            if i < prefix.len() {
                assert(whole[i] == prefix[i]);
            }
        }
    }
}

} // verus!
