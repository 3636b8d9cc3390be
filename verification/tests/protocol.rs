use picorne::coord::unify;
use picorne::coord::Unit;
use picorne::event::Event;
use picorne::frame::decode;
use picorne::frame::drain;
use picorne::frame::encode;
use picorne::frame::encode_all;
use picorne::frame::ProtocolError;
use picorne::frame::PRESS_TAG;
use picorne::frame::RELEASE_TAG;

#[test]
fn encode_press_frame() {
    assert_eq!(encode(Event::Press(1, 2)), [PRESS_TAG, 1, 2]);
    assert_eq!(encode(Event::Press(0, 0)), [255, 0, 0]);
}

#[test]
fn encode_release_frame() {
    assert_eq!(encode(Event::Release(0, 3)), [RELEASE_TAG, 0, 3]);
    assert_eq!(encode(Event::Release(5, 3)), [254, 5, 3]);
}

#[test]
fn decode_valid_tags() {
    assert_eq!(decode(255, 1, 2), Ok(Event::Press(1, 2)));
    assert_eq!(decode(254, 0, 3), Ok(Event::Release(0, 3)));
}

#[test]
fn decode_unknown_tag_is_protocol_violation() {
    assert_eq!(decode(0, 1, 2), Err(ProtocolError::UnknownTag(0)));
    assert_eq!(decode(77, 0, 0), Err(ProtocolError::UnknownTag(77)));
}

#[test]
fn frame_round_trip_all_local_coordinates() {
    for r in 0..6u8 {
        for c in 0..4u8 {
            for &ev in &[Event::Press(r, c), Event::Release(r, c)] {
                let f = encode(ev);
                assert_eq!(decode(f[0], f[1], f[2]), Ok(ev));
            }
        }
    }
}

#[test]
fn drain_maps_frames_through_secondary_unit() {
    let bytes: Vec<u8> = vec![255, 1, 2, 254, 0, 3, 99];
    let (evs, rest) = drain(&bytes).unwrap();
    assert_eq!(evs, vec![Event::Press(2, 7), Event::Release(3, 6)]);
    assert_eq!(rest, vec![99]);
}

#[test]
fn drain_defers_incomplete_frame() {
    let bytes: Vec<u8> = vec![255, 0];
    let (evs, rest) = drain(&bytes).unwrap();
    assert!(evs.is_empty());
    assert_eq!(rest, vec![255, 0]);
}

#[test]
fn drain_rejects_unknown_tag() {
    let bytes: Vec<u8> = vec![255, 1, 2, 77, 0, 0];
    assert_eq!(drain(&bytes), Err(ProtocolError::UnknownTag(77)));
}

#[test]
fn drain_rejects_out_of_bounds_coordinate() {
    let bytes: Vec<u8> = vec![255, 9, 0];
    assert_eq!(drain(&bytes), Err(ProtocolError::CoordOutOfBounds(9, 0)));
}

#[test]
fn encode_all_concatenates_frames() {
    let evs = vec![Event::Press(1, 2), Event::Release(0, 3)];
    assert_eq!(encode_all(&evs), vec![255, 1, 2, 254, 0, 3]);
}

#[test]
fn unify_primary_mapping() {
    assert_eq!(unify(Unit::Primary, 1, 2), (2, 4));
    assert_eq!(unify(Unit::Primary, 0, 0), (0, 5));
    assert_eq!(unify(Unit::Primary, 5, 3), (3, 0));
}

#[test]
fn unify_secondary_mapping() {
    assert_eq!(unify(Unit::Secondary, 0, 3), (3, 6));
    assert_eq!(unify(Unit::Secondary, 5, 0), (0, 11));
}

#[test]
fn unify_is_injective_over_both_units() {
    let mut seen: Vec<(u8, u8)> = Vec::new();
    for &unit in &[Unit::Primary, Unit::Secondary] {
        for r in 0..6u8 {
            for c in 0..4u8 {
                let g = unify(unit, r, c);
                assert!(g.0 < 4 && g.1 < 12);
                assert!(!seen.contains(&g), "duplicate global coordinate {:?}", g);
                seen.push(g);
            }
        }
    }
    assert_eq!(seen.len(), 48);
}
