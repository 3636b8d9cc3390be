//! The inter-unit link protocol.
//!
//! Each confirmed event on the secondary unit crosses the serial link as
//! exactly three bytes: a tag distinguishing Press from Release, the local
//! row, and the local column.  There is no delimiter, checksum or sequence
//! number; the channel is trusted to be a reliable, ordered byte pipe, so
//! a tag that matches neither reserved value is a protocol violation and
//! is fatal to the receiver.

use vstd::prelude::*;
use crate::coord::local_in_bounds;
use crate::coord::unified_event;
use crate::coord::unify_event;
use crate::coord::Unit;
use crate::coord::LOCAL_COLS;
use crate::coord::LOCAL_ROWS;
use crate::event::Event;

verus! {

/// Tag byte of a Press frame.
pub const PRESS_TAG: u8 = 255;

/// Tag byte of a Release frame.
pub const RELEASE_TAG: u8 = 254;

/// The receiver's unrecoverable conditions.
#[derive(Clone, Copy, PartialEq, Eq, Structural, Debug)]
pub enum ProtocolError {
    /// The tag byte of a complete inbound frame matched neither reserved
    /// value.
    UnknownTag(u8),
    /// A frame carried a coordinate outside the local matrix bounds, so it
    /// cannot have been produced by the transport.
    CoordOutOfBounds(u8, u8),
}

/// The three bytes that carry one event on the wire.
pub open spec fn frame_of(e: Event) -> Seq<u8> {
    match e {
        Event::Press(r, c) => seq![PRESS_TAG, r, c],
        Event::Release(r, c) => seq![RELEASE_TAG, r, c],
    }
}

/// The event a (tag, row, col) triple decodes to, if the tag is valid.
pub open spec fn decoded(tag: u8, row: u8, col: u8) -> Option<Event> {
    if tag == PRESS_TAG {
        Some(Event::Press(row, col))
    } else if tag == RELEASE_TAG {
        Some(Event::Release(row, col))
    } else {
        None
    }
}

/// Serialize one event into its 3-byte frame.
pub fn encode(e: Event) -> (out: [u8; 3])
    ensures
        out@ == frame_of(e),
{
    let (r, c) = e.coord();
    let tag: u8 = if e.is_press() {
        PRESS_TAG
    } else {
        RELEASE_TAG
    };
    let out: [u8; 3] = [tag, r, c];
    proof {
        assert(out@ =~= frame_of(e));
    }
    out
}

/// Decode one 3-byte frame back into an event.
pub fn decode(tag: u8, row: u8, col: u8) -> (r: Result<Event, ProtocolError>)
    ensures
        match r {
            Ok(e) => decoded(tag, row, col) == Some(e),
            Err(pe) => decoded(tag, row, col) is None && pe == ProtocolError::UnknownTag(tag),
        },
{
    if tag == PRESS_TAG {
        Ok(Event::Press(row, col))
    } else if tag == RELEASE_TAG {
        Ok(Event::Release(row, col))
    } else {
        Err(ProtocolError::UnknownTag(tag))
    }
}

/// Encoding an event and decoding the resulting frame reproduces the
/// event exactly, for every kind and every row and column byte.
pub proof fn lemma_frame_round_trip(e: Event)
    ensures
        frame_of(e).len() == 3,
        decoded(frame_of(e)[0], frame_of(e)[1], frame_of(e)[2]) == Some(e),
{
}

/// The wire image of a sequence of events: their frames, concatenated in
/// order.
pub open spec fn frames_bytes(evs: Seq<Event>) -> Seq<u8>
    decreases evs.len(),
{
    if evs.len() == 0 {
        Seq::empty()
    } else {
        frames_bytes(evs.drop_last()) + frame_of(evs.last())
    }
}

/// Serialize a batch of events for the link, in order.
pub fn encode_all(evs: &Vec<Event>) -> (out: Vec<u8>)
    ensures
        out@ == frames_bytes(evs@),
{
    let mut out: Vec<u8> = Vec::new();
    let mut k: usize = 0;
    while k < evs.len()
        invariant
            k <= evs.len(),
            out@ == frames_bytes(evs@.take(k as int)),
        decreases evs.len() - k,
    {
        let f = encode(evs[k]);
        out.push(f[0]);
        out.push(f[1]);
        out.push(f[2]);
        proof {
            assert(evs@.take(k as int + 1).drop_last() =~= evs@.take(k as int));
            assert(evs@.take(k as int + 1).last() == evs@[k as int]);
            assert(out@ =~= frames_bytes(evs@.take(k as int + 1)));
        }
        k = k + 1;
    }
    proof {
        assert(evs@.take(evs@.len() as int) =~= evs@);
    }
    out
}

/// A non-empty wire image starts with the first event's frame.
proof fn lemma_frames_bytes_head(evs: Seq<Event>)
    requires
        evs.len() > 0,
    ensures
        frames_bytes(evs) == frame_of(evs[0]) + frames_bytes(evs.skip(1)),
    decreases evs.len(),
{
    let p = evs.drop_last();
    if p.len() == 0 {
        assert(frames_bytes(p) =~= Seq::<u8>::empty());
        assert(evs.skip(1) =~= Seq::<Event>::empty());
        assert(frames_bytes(evs) =~= frame_of(evs[0]) + frames_bytes(evs.skip(1)));
    } else {
        lemma_frames_bytes_head(p);
        assert(evs.skip(1).drop_last() =~= p.skip(1));
        assert(evs.skip(1).last() == evs.last());
        assert(evs.skip(1).len() > 0);
        assert(frames_bytes(evs.skip(1)) == frames_bytes(p.skip(1)) + frame_of(evs.last()));
        assert(p[0] == evs[0]);
        assert(frames_bytes(evs) =~= frame_of(evs[0]) + frames_bytes(evs.skip(1)));
    }
}

/// What the receiver makes of a run of inbound bytes, drained once per
/// tick: while at least three bytes remain, one frame is cut off the
/// front, decoded, and its coordinate rewritten by the secondary unit's
/// mapping; fewer than three remaining bytes are deferred.  A frame whose
/// tag matches neither reserved value, or whose coordinate lies outside
/// the local matrix bounds, is a protocol violation and stops everything.
pub open spec fn drained(bytes: Seq<u8>) -> Result<(Seq<Event>, Seq<u8>), ProtocolError>
    decreases bytes.len(),
{
    if bytes.len() < 3 {
        Ok((Seq::empty(), bytes))
    } else {
        match decoded(bytes[0], bytes[1], bytes[2]) {
            None => Err(ProtocolError::UnknownTag(bytes[0])),
            Some(e) => if !local_in_bounds(e.spec_coord().0, e.spec_coord().1) {
                Err(ProtocolError::CoordOutOfBounds(e.spec_coord().0, e.spec_coord().1))
            } else {
                match drained(bytes.skip(3)) {
                    Ok((evs, rest)) => Ok(
                        (seq![unified_event(Unit::Secondary, e)] + evs, rest),
                    ),
                    Err(er) => Err(er),
                }
            },
        }
    }
}

/// Link round trip at stream level: the byte run the transport writes
/// for any batch of in-bounds events drains on the primary side into
/// exactly those events, in order, mapped through the secondary unit's
/// coordinate mapping, with nothing deferred and no violation.
pub proof fn lemma_stream_round_trip(evs: Seq<Event>)
    requires
        forall|i: int|
            0 <= i < evs.len() ==> local_in_bounds(
                (#[trigger] evs[i]).spec_coord().0,
                evs[i].spec_coord().1,
            ),
    ensures
        drained(frames_bytes(evs)) == Ok::<_, ProtocolError>(
            (evs.map_values(|e: Event| unified_event(Unit::Secondary, e)), Seq::<u8>::empty()),
        ),
    decreases evs.len(),
{
    let mapped = evs.map_values(|e: Event| unified_event(Unit::Secondary, e));
    if evs.len() == 0 {
        assert(frames_bytes(evs).len() == 0);
        assert(mapped =~= Seq::<Event>::empty());
        assert(frames_bytes(evs) =~= Seq::<u8>::empty());
    } else {
        lemma_frames_bytes_head(evs);
        let bytes = frames_bytes(evs);
        let head = evs[0];
        lemma_frame_round_trip(head);
        assert(bytes[0] == frame_of(head)[0]);
        assert(bytes[1] == frame_of(head)[1]);
        assert(bytes[2] == frame_of(head)[2]);
        assert(decoded(bytes[0], bytes[1], bytes[2]) == Some(head));
        let tail = evs.skip(1);
        assert forall|i: int|
            0 <= i < tail.len() implies local_in_bounds(
            (#[trigger] tail[i]).spec_coord().0,
            tail[i].spec_coord().1,
        ) by {
            assert(tail[i] == evs[i + 1]);
        }
        lemma_stream_round_trip(tail);
        assert(bytes.skip(3) =~= frames_bytes(tail));
        assert(bytes.len() >= 3) by {
            assert(bytes == frame_of(head) + frames_bytes(tail));
        }
        let tail_mapped = tail.map_values(|e: Event| unified_event(Unit::Secondary, e));
        assert(drained(bytes) == Ok::<_, ProtocolError>(
            (seq![unified_event(Unit::Secondary, head)] + tail_mapped, Seq::<u8>::empty()),
        ));
        assert(mapped =~= seq![unified_event(Unit::Secondary, head)] + tail_mapped);
    }
}

/// A drain result with earlier events put back in front of it.
pub open spec fn prepended(
    evs: Seq<Event>,
    r: Result<(Seq<Event>, Seq<u8>), ProtocolError>,
) -> Result<(Seq<Event>, Seq<u8>), ProtocolError> {
    match r {
        Ok((tail, rest)) => Ok((evs + tail, rest)),
        Err(e) => Err(e),
    }
}

/// Drain every complete frame from the front of `bytes`: the decoded
/// events in wire order, already in global coordinates, and the deferred
/// remainder, or the protocol violation that makes the inbound stream
/// unusable.
pub fn drain(bytes: &Vec<u8>) -> (r: Result<(Vec<Event>, Vec<u8>), ProtocolError>)
    ensures
        match r {
            Ok((evs, rest)) => drained(bytes@) == Ok::<_, ProtocolError>((evs@, rest@)),
            Err(e) => drained(bytes@) == Err::<(Seq<Event>, Seq<u8>), _>(e),
        },
{
    let n = bytes.len();
    let mut evs: Vec<Event> = Vec::new();
    let mut idx: usize = 0;
    proof {
        assert(bytes@.skip(0) =~= bytes@);
        match drained(bytes@) {
            Ok((tail, rest)) => {
                assert(evs@ + tail =~= tail);
            },
            Err(_) => {},
        }
    }
    while n - idx >= 3
        invariant
            n == bytes@.len(),
            idx <= n,
            prepended(evs@, drained(bytes@.skip(idx as int))) == drained(bytes@),
        decreases n - idx,
    {
        let ghost pending = bytes@.skip(idx as int);
        let tag = bytes[idx];
        let row = bytes[idx + 1];
        let col = bytes[idx + 2];
        proof {
            assert(pending.len() >= 3);
            assert(pending[0] == bytes@[idx as int]);
            assert(pending[1] == bytes@[idx as int + 1]);
            assert(pending[2] == bytes@[idx as int + 2]);
        }
        match decode(tag, row, col) {
            Err(e) => {
                proof {
                    assert(drained(pending) == Err::<(Seq<Event>, Seq<u8>), _>(e));
                }
                return Err(e);
            },
            Ok(e) => {
                let (r, c) = e.coord();
                if !(r < LOCAL_ROWS && c < LOCAL_COLS) {
                    proof {
                        assert(drained(pending) == Err::<(Seq<Event>, Seq<u8>), _>(
                            ProtocolError::CoordOutOfBounds(r, c),
                        ));
                    }
                    return Err(ProtocolError::CoordOutOfBounds(r, c));
                }
                let g = unify_event(Unit::Secondary, e);
                let ghost evs0 = evs@;
                evs.push(g);
                proof {
                    assert(pending.skip(3) =~= bytes@.skip(idx as int + 3));
                    assert(evs@ == evs0.push(g));
                    match drained(pending.skip(3)) {
                        Ok((tail, rest)) => {
                            assert(drained(pending) == Ok::<_, ProtocolError>(
                                (seq![g] + tail, rest),
                            ));
                            assert(evs0 + (seq![g] + tail) =~= evs@ + tail);
                            assert(prepended(evs@, drained(bytes@.skip(idx as int + 3)))
                                == drained(bytes@));
                        },
                        Err(er) => {
                            assert(drained(pending) == Err::<(Seq<Event>, Seq<u8>), _>(er));
                            assert(prepended(evs@, drained(bytes@.skip(idx as int + 3)))
                                == drained(bytes@));
                        },
                    }
                }
            },
        }
        idx = idx + 3;
    }
    let mut rest: Vec<u8> = Vec::new();
    let mut i: usize = idx;
    while i < n
        invariant
            n == bytes@.len(),
            idx <= i <= n,
            rest@ == bytes@.subrange(idx as int, i as int),
        decreases n - i,
    {
        rest.push(bytes[i]);
        proof {
            assert(rest@ =~= bytes@.subrange(idx as int, i as int + 1));
        }
        i = i + 1;
    }
    proof {
        assert(rest@ =~= bytes@.skip(idx as int));
        assert(drained(bytes@.skip(idx as int)) == Ok::<_, ProtocolError>(
            (Seq::<Event>::empty(), rest@),
        ));
        assert(evs@ + Seq::<Event>::empty() =~= evs@);
    }
    Ok((evs, rest))
}

} // verus!

