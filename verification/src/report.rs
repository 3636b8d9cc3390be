//! The report emitter.
//!
//! Once per tick the interpreter's active-key set is collected into a
//! fixed-size boot-protocol input report: one modifier bitmap byte, one
//! reserved byte, and six keycode slots, with every slot overwritten by
//! the roll-over code when the set does not fit.  The emitter remembers
//! the last report handed to the host transport and asks for a new
//! transmission only when the fresh report differs from it byte for byte.

use vstd::prelude::*;

verus! {

/// Size of one input report, in bytes.
pub const REPORT_BYTES: u16 = 8;

/// Index of the first keycode slot within a report.
pub const FIRST_KEY_SLOT: u16 = 2;

/// Lowest keycode treated as a modifier.
pub const MOD_BASE: u8 = 224;

/// Highest keycode treated as a modifier.
pub const MOD_LAST: u8 = 231;

/// Keycode written into every slot when the active set does not fit.
pub const ROLLOVER_CODE: u8 = 1;

/// Iteration cap for the busy-wait handoff to the host transport.  The
/// spin against a rejecting transport must stay bounded within the tick;
/// the caller of the transport enforces this cap.
pub const REPORT_RETRY_LIMIT: u16 = 1000;

/// The all-released report.
pub open spec fn blank_report() -> Seq<u8> {
    seq![0u8, 0u8, 0u8, 0u8, 0u8, 0u8, 0u8, 0u8]
}

/// Index of the first free keycode slot at or after `i`, or 8 when every
/// slot from `i` on is taken.
pub open spec fn first_free_from(rep: Seq<u8>, i: int) -> int
    recommends
        rep.len() == REPORT_BYTES,
        FIRST_KEY_SLOT <= i <= REPORT_BYTES,
    decreases REPORT_BYTES - i,
{
    if i < FIRST_KEY_SLOT || i >= REPORT_BYTES {
        8
    } else if rep[i] == 0 {
        i
    } else {
        first_free_from(rep, i + 1)
    }
}

/// One keycode folded into a report: keycode 0 is ignored, a modifier
/// keycode sets its bit in the bitmap byte, any other keycode takes the
/// first free slot, and a report with no free slot left degenerates to
/// the roll-over report.
pub open spec fn press_spec(rep: Seq<u8>, kc: u8) -> Seq<u8>
    recommends
        rep.len() == REPORT_BYTES,
{
    if kc == 0 {
        rep
    } else if MOD_BASE <= kc <= MOD_LAST {
        rep.update(0, rep[0] | (1u8 << ((kc - MOD_BASE) as u8)))
    } else {
        let f = first_free_from(rep, FIRST_KEY_SLOT as int);
        if f < REPORT_BYTES {
            rep.update(f, kc)
        } else {
            seq![
                rep[0],
                rep[1],
                ROLLOVER_CODE,
                ROLLOVER_CODE,
                ROLLOVER_CODE,
                ROLLOVER_CODE,
                ROLLOVER_CODE,
                ROLLOVER_CODE,
            ]
        }
    }
}

/// The report that collects a sequence of active keycodes, folded in
/// order into the all-released report.
pub open spec fn report_after(keys: Seq<u8>) -> Seq<u8>
    decreases keys.len(),
{
    if keys.len() == 0 {
        blank_report()
    } else {
        press_spec(report_after(keys.drop_last()), keys.last())
    }
}

/// `first_free_from` finds exactly the first slot that a left-to-right
/// scan finds: all slots in `[start, i)` taken, and `i` free or past the
/// end.
proof fn lemma_first_free(rep: Seq<u8>, start: int, i: int)
    requires
        rep.len() == REPORT_BYTES,
        FIRST_KEY_SLOT <= start <= i <= REPORT_BYTES,
        forall|j: int| start <= j < i ==> rep[j] != 0,
        i < REPORT_BYTES ==> rep[i] == 0,
    ensures
        first_free_from(rep, start) == if i < REPORT_BYTES {
            i
        } else {
            8
        },
    decreases i - start,
{
    if start < i {
        lemma_first_free(rep, start + 1, i);
    }
}

/// Fold one keycode into a report under construction.
fn press_into(rep: &mut Vec<u8>, kc: u8)
    requires
        old(rep)@.len() == REPORT_BYTES,
    ensures
        final(rep)@.len() == REPORT_BYTES,
        final(rep)@ == press_spec(old(rep)@, kc),
{
    if kc == 0 {
        return ;
    }
    if MOD_BASE <= kc && kc <= MOD_LAST {
        let bit: u8 = 1u8 << (kc - MOD_BASE);
        let bits = rep[0] | bit;
        rep.set(0, bits);
        return ;
    }
    let mut i: u16 = FIRST_KEY_SLOT;
    while i < REPORT_BYTES
        invariant
            rep@ == old(rep)@,
            rep@.len() == REPORT_BYTES,
            FIRST_KEY_SLOT <= i <= REPORT_BYTES,
            forall|j: int| FIRST_KEY_SLOT <= j < i ==> rep@[j] != 0,
            kc != 0,
            !(MOD_BASE <= kc && kc <= MOD_LAST),
        decreases REPORT_BYTES - i,
    {
        if rep[i as usize] == 0 {
            proof {
                lemma_first_free(rep@, FIRST_KEY_SLOT as int, i as int);
            }
            rep.set(i as usize, kc);
            proof {
                assert(rep@ == press_spec(old(rep)@, kc));
            }
            return ;
        }
        i = i + 1;
    }
    proof {
        lemma_first_free(rep@, FIRST_KEY_SLOT as int, REPORT_BYTES as int);
    }
    let ghost before = rep@;
    rep.set(2, ROLLOVER_CODE);
    rep.set(3, ROLLOVER_CODE);
    rep.set(4, ROLLOVER_CODE);
    rep.set(5, ROLLOVER_CODE);
    rep.set(6, ROLLOVER_CODE);
    rep.set(7, ROLLOVER_CODE);
    proof {
        assert(rep@ =~= press_spec(before, kc));
    }
}

/// Collect an active-key set into a fresh report, folding the keycodes
/// in order.
pub fn build_report(keys: &Vec<u8>) -> (rep: Vec<u8>)
    ensures
        rep@.len() == REPORT_BYTES,
        rep@ == report_after(keys@),
{
    let mut rep: Vec<u8> = Vec::new();
    let mut z: u16 = 0;
    while z < REPORT_BYTES
        invariant
            z <= REPORT_BYTES,
            rep@.len() == z,
            forall|j: int| 0 <= j < z ==> rep@[j] == 0,
        decreases REPORT_BYTES - z,
    {
        rep.push(0);
        z = z + 1;
    }
    proof {
        assert(rep@ =~= blank_report());
        assert(keys@.take(0) =~= Seq::<u8>::empty());
    }
    let mut k: usize = 0;
    while k < keys.len()
        invariant
            k <= keys@.len(),
            rep@.len() == REPORT_BYTES,
            rep@ == report_after(keys@.take(k as int)),
        decreases keys@.len() - k,
    {
        press_into(&mut rep, keys[k]);
        proof {
            assert(keys@.take(k as int + 1).drop_last() =~= keys@.take(k as int));
            assert(keys@.take(k as int + 1).last() == keys@[k as int]);
        }
        k = k + 1;
    }
    proof {
        assert(keys@.take(keys@.len() as int) =~= keys@);
    }
    rep
}

/// Compare two byte strings for exact equality.
fn bytes_equal(a: &Vec<u8>, b: &Vec<u8>) -> (r: bool)
    ensures
        r <==> a@ == b@,
{
    if a.len() != b.len() {
        return false;
    }
    let mut k: usize = 0;
    while k < a.len()
        invariant
            a@.len() == b@.len(),
            k <= a@.len(),
            forall|j: int| 0 <= j < k ==> a@[j] == b@[j],
        decreases a@.len() - k,
    {
        if a[k] != b[k] {
            return false;
        }
        k = k + 1;
    }
    proof {
        assert(a@ =~= b@);
    }
    true
}

/// What one emit decides, given the last transmitted report and the
/// active keys: the report to hand to the host, if any, and the new
/// "last transmitted" state.
pub open spec fn emit_spec(last: Seq<u8>, keys: Seq<u8>) -> (Option<Seq<u8>>, Seq<u8>) {
    let rep = report_after(keys);
    if rep == last {
        (None, last)
    } else {
        (Some(rep), rep)
    }
}

/// The emitter's persistent state: the report most recently handed to
/// the host transport (or the all-released report at startup).
pub struct ReportEmitter {
    last: Vec<u8>,
}

impl ReportEmitter {
    /// The last transmitted report.
    pub closed spec fn last_report(self) -> Seq<u8> {
        self.last@
    }

    /// The stored report always has the fixed size.
    pub open spec fn wf(self) -> bool {
        self.last_report().len() == REPORT_BYTES
    }

    /// An emitter that believes everything is released.
    pub fn new() -> (e: ReportEmitter)
        ensures
            e.wf(),
            e.last_report() == blank_report(),
    {
        let keys: Vec<u8> = Vec::new();
        let blank = build_report(&keys);
        ReportEmitter { last: blank }
    }

    /// Collect the active keys into a report; hand it back for
    /// transmission only if it differs from the last transmitted one,
    /// and remember it as transmitted in that case.
    pub fn emit(&mut self, keys: &Vec<u8>) -> (r: Option<Vec<u8>>)
        requires
            old(self).wf(),
        ensures
            final(self).wf(),
            final(self).last_report() == emit_spec(old(self).last_report(), keys@).1,
            match r {
                Some(rep) => emit_spec(old(self).last_report(), keys@).0 == Some(rep@),
                None => emit_spec(old(self).last_report(), keys@).0 is None,
            },
    {
        let rep = build_report(keys);
        if bytes_equal(&rep, &self.last) {
            None
        } else {
            self.last = rep;
            let out = build_report(keys);
            Some(out)
        }
    }
}

/// Report idempotence: if the active-key set is unchanged between two
/// consecutive ticks, the second emit asks for no transmission and
/// leaves the stored report as it was.
pub proof fn lemma_report_idempotent(last: Seq<u8>, keys: Seq<u8>)
    ensures
        emit_spec(emit_spec(last, keys).1, keys).0 is None,
        emit_spec(emit_spec(last, keys).1, keys).1 == emit_spec(last, keys).1,
{
}

} // verus!
