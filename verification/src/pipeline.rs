//! The per-unit event pipelines.
//!
//! The primary unit runs scan → debounce → unify ⇆ link-drain →
//! interpreter → report.  The interpreter itself is an external
//! collaborator: the pipeline splits each tick into two phases around it.
//! `collect_events` digests the scan snapshot and the inbound link bytes
//! into one batch of global-coordinate events for the caller to inject;
//! `finish_tick` takes the interpreter's resulting active-key set and
//! decides the report handoff.  The phase field forces the two calls to
//! alternate, which is how the pipeline keeps the invariant that the
//! interpreter advances exactly once per tick.
//!
//! The secondary unit has no interpreter and no host link: its tick
//! serializes every locally confirmed event onto the wire, in order.

use vstd::prelude::*;
use crate::coord::unified_event;
use crate::coord::unify_event;
use crate::coord::Unit;
use crate::debounce::cell_step;
use crate::debounce::emitted_upto;
use crate::debounce::lemma_emitted_in_bounds;
use crate::debounce::Debouncer;
use crate::event::Event;
use crate::frame::drained;
use crate::frame::encode_all;
use crate::frame::frames_bytes;
use crate::frame::drain;
use crate::frame::ProtocolError;
use crate::grid::Grid;
use crate::grid::GRID_CELLS;
use crate::report::emit_spec;
use crate::report::ReportEmitter;

verus! {

/// Where the primary pipeline stands within the current tick.
#[derive(Clone, Copy, PartialEq, Eq, Structural, Debug)]
pub enum TickStage {
    /// Ready to digest a fresh snapshot and the inbound link bytes.
    Gathering,
    /// Events handed out; the interpreter must advance exactly once
    /// before the tick can finish.
    AwaitingInterpreter,
}

/// This tick's locally confirmed transitions, already rewritten into the
/// global coordinate space by the primary unit's mapping.
pub open spec fn primary_local_events(d: Debouncer, g: Grid) -> Seq<Event> {
    emitted_upto(d, g, GRID_CELLS as int).map_values(
        |e: Event| unified_event(Unit::Primary, e),
    )
}

/// The primary unit's persistent pipeline state.
pub struct PrimaryPipeline {
    debouncer: Debouncer,
    link_buf: Vec<u8>,
    emitter: ReportEmitter,
    stage: TickStage,
}

impl PrimaryPipeline {
    /// The debounce state.
    pub closed spec fn debouncer(self) -> Debouncer {
        self.debouncer
    }

    /// Inbound link bytes deferred from earlier ticks because they do
    /// not yet form a complete frame.
    pub closed spec fn link_bytes(self) -> Seq<u8> {
        self.link_buf@
    }

    /// The report emitter state.
    pub closed spec fn emitter(self) -> ReportEmitter {
        self.emitter
    }

    /// The tick phase.
    pub closed spec fn stage(self) -> TickStage {
        self.stage
    }

    pub open spec fn wf(self) -> bool {
        &&& self.debouncer().wf()
        &&& self.emitter().wf()
    }

    /// A pipeline at rest: everything released, nothing buffered, the
    /// all-released report on record.
    pub fn new(threshold: u16) -> (p: PrimaryPipeline)
        requires
            threshold >= 1,
        ensures
            p.wf(),
            p.stage() == TickStage::Gathering,
            p.debouncer().spec_threshold() == threshold,
            forall|k: int|
                0 <= k < GRID_CELLS ==> #[trigger] p.debouncer().cell(k)
                    == crate::debounce::settled(false),
            p.link_bytes() == Seq::<u8>::empty(),
            p.emitter().last_report() == crate::report::blank_report(),
    {
        PrimaryPipeline {
            debouncer: Debouncer::new(threshold),
            link_buf: Vec::new(),
            emitter: ReportEmitter::new(),
            stage: TickStage::Gathering,
        }
    }

    /// First phase of a tick: advance the debouncer against the scan
    /// snapshot (or skip that stage when the scan failed), drain every
    /// complete inbound frame, and hand back the whole batch to inject —
    /// local events first, then remote ones, each in its own confirmed
    /// order, all in global coordinates.  A protocol violation on the
    /// link is fatal: the tick does not advance to the interpreter.
    #[verifier::loop_isolation(false)]
    pub fn collect_events(&mut self, scan: Option<&Grid>, inbound: &Vec<u8>) -> (r: Result<
        Vec<Event>,
        ProtocolError,
    >)
        requires
            old(self).wf(),
            old(self).stage() == TickStage::Gathering,
            match scan {
                Some(g) => g.wf(),
                None => true,
            },
        ensures
            final(self).wf(),
            final(self).emitter() == old(self).emitter(),
            final(self).debouncer().spec_threshold() == old(self).debouncer().spec_threshold(),
            match scan {
                Some(g) => forall|k: int|
                    0 <= k < GRID_CELLS ==> #[trigger] final(self).debouncer().cell(k)
                        == cell_step(
                        old(self).debouncer().cell(k),
                        g@[k],
                        old(self).debouncer().spec_threshold(),
                    ).0,
                None => final(self).debouncer() == old(self).debouncer(),
            },
            ({
                let all_bytes = old(self).link_bytes() + inbound@;
                let locals = match scan {
                    Some(g) => primary_local_events(old(self).debouncer(), *g),
                    None => Seq::<Event>::empty(),
                };
                match r {
                    Ok(evs) => {
                        &&& drained(all_bytes) matches Ok((remote, rest))
                        &&& evs@ == locals + drained(all_bytes).unwrap().0
                        &&& final(self).link_bytes() == drained(all_bytes).unwrap().1
                        &&& final(self).stage() == TickStage::AwaitingInterpreter
                    },
                    Err(e) => {
                        &&& drained(all_bytes) == Err::<(Seq<Event>, Seq<u8>), _>(e)
                        &&& final(self).link_bytes() == all_bytes
                        &&& final(self).stage() == TickStage::Gathering
                    },
                }
            }),
    {
        let mut batch: Vec<Event> = Vec::new();
        let ghost d0 = self.debouncer;
        match scan {
            Some(g) => {
                let locals = self.debouncer.events(g);
                let ghost raw_locals = emitted_upto(d0, *g, GRID_CELLS as int);
                proof {
                    lemma_emitted_in_bounds(d0, *g, GRID_CELLS as int);
                }
                let mut k: usize = 0;
                while k < locals.len()
                    invariant
                        locals@ == raw_locals,
                        k <= raw_locals.len(),
                        forall|i: int|
                            0 <= i < raw_locals.len() ==> crate::coord::local_in_bounds(
                                (#[trigger] raw_locals[i]).spec_coord().0,
                                raw_locals[i].spec_coord().1,
                            ),
                        batch@ == raw_locals.map_values(
                            |e: Event| unified_event(Unit::Primary, e),
                        ).take(k as int),
                    decreases raw_locals.len() - k,
                {
                    let g_ev = unify_event(Unit::Primary, locals[k]);
                    batch.push(g_ev);
                    proof {
                        let mapped = raw_locals.map_values(
                            |e: Event| unified_event(Unit::Primary, e),
                        );
                        assert(batch@ =~= mapped.take(k as int + 1));
                    }
                    k = k + 1;
                }
                proof {
                    let mapped = raw_locals.map_values(
                        |e: Event| unified_event(Unit::Primary, e),
                    );
                    assert(mapped.take(mapped.len() as int) =~= mapped);
                }
            },
            None => {},
        }
        let ghost locals_spec = batch@;
        let ghost d1 = self.debouncer;
        let mut j: usize = 0;
        proof {
            assert(self.link_buf@ =~= old(self).link_bytes() + inbound@.take(0));
        }
        while j < inbound.len()
            invariant
                j <= inbound@.len(),
                self.link_buf@ == old(self).link_bytes() + inbound@.take(j as int),
                self.debouncer == d1,
                self.emitter == old(self).emitter(),
                self.stage == old(self).stage(),
                batch@ == locals_spec,
            decreases inbound@.len() - j,
        {
            self.link_buf.push(inbound[j]);
            proof {
                assert(self.link_buf@ =~= old(self).link_bytes() + inbound@.take(j as int + 1));
            }
            j = j + 1;
        }
        proof {
            assert(inbound@.take(inbound@.len() as int) =~= inbound@);
        }
        match drain(&self.link_buf) {
            Ok((remote, rest)) => {
                self.link_buf = rest;
                let mut remote = remote;
                batch.append(&mut remote);
                self.stage = TickStage::AwaitingInterpreter;
                Ok(batch)
            },
            Err(e) => Err(e),
        }
    }

    /// Second phase of a tick: the interpreter has advanced once and
    /// reported its active-key set; collect it into a report, and hand
    /// that report out if and only if it differs from the last
    /// transmitted one, remembering it as transmitted in that case.
    pub fn finish_tick(&mut self, keys: &Vec<u8>) -> (r: Option<Vec<u8>>)
        requires
            old(self).wf(),
            old(self).stage() == TickStage::AwaitingInterpreter,
        ensures
            final(self).wf(),
            final(self).stage() == TickStage::Gathering,
            final(self).debouncer() == old(self).debouncer(),
            final(self).link_bytes() == old(self).link_bytes(),
            final(self).emitter().last_report() == emit_spec(
                old(self).emitter().last_report(),
                keys@,
            ).1,
            match r {
                Some(rep) => emit_spec(old(self).emitter().last_report(), keys@).0 == Some(rep@),
                None => emit_spec(old(self).emitter().last_report(), keys@).0 is None,
            },
    {
        let r = self.emitter.emit(keys);
        self.stage = TickStage::Gathering;
        r
    }
}

/// The secondary unit's persistent pipeline state: only a debouncer —
/// no interpreter, no host link.
pub struct SecondaryPipeline {
    debouncer: Debouncer,
}

impl SecondaryPipeline {
    /// The debounce state.
    pub closed spec fn debouncer(self) -> Debouncer {
        self.debouncer
    }

    pub open spec fn wf(self) -> bool {
        self.debouncer().wf()
    }

    /// A pipeline at rest with everything released.
    pub fn new(threshold: u16) -> (p: SecondaryPipeline)
        requires
            threshold >= 1,
        ensures
            p.wf(),
            p.debouncer().spec_threshold() == threshold,
            forall|k: int|
                0 <= k < GRID_CELLS ==> #[trigger] p.debouncer().cell(k)
                    == crate::debounce::settled(false),
    {
        SecondaryPipeline { debouncer: Debouncer::new(threshold) }
    }

    /// One tick of the secondary unit: advance the debouncer against the
    /// snapshot (or skip when the scan failed) and serialize every
    /// confirmed event, in order, as the bytes to write to the link.
    pub fn tick_frames(&mut self, scan: Option<&Grid>) -> (out: Vec<u8>)
        requires
            old(self).wf(),
            match scan {
                Some(g) => g.wf(),
                None => true,
            },
        ensures
            final(self).wf(),
            final(self).debouncer().spec_threshold() == old(self).debouncer().spec_threshold(),
            match scan {
                Some(g) => {
                    &&& forall|k: int|
                        0 <= k < GRID_CELLS ==> #[trigger] final(self).debouncer().cell(k)
                            == cell_step(
                            old(self).debouncer().cell(k),
                            g@[k],
                            old(self).debouncer().spec_threshold(),
                        ).0
                    &&& out@ == frames_bytes(
                        emitted_upto(old(self).debouncer(), *g, GRID_CELLS as int),
                    )
                },
                None => {
                    &&& final(self).debouncer() == old(self).debouncer()
                    &&& out@ == Seq::<u8>::empty()
                },
            },
    {
        match scan {
            Some(g) => {
                let evs = self.debouncer.events(g);
                encode_all(&evs)
            },
            None => Vec::new(),
        }
    }
}

} // verus!
