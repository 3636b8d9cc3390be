use picorne::debounce::Debouncer;
use picorne::event::Event;
use picorne::grid::is_boot_gesture;
use picorne::grid::Grid;
use picorne::report::build_report;
use picorne::report::ReportEmitter;

fn grid_with(cells: &[(u8, u8)]) -> Grid {
    let mut g = Grid::new();
    for &(r, c) in cells {
        g.set(r, c, true);
    }
    g
}

#[test]
fn debounce_confirms_after_exactly_threshold_ticks() {
    let mut d = Debouncer::new(5);
    let pressed = grid_with(&[(1, 2)]);
    for _ in 0..4 {
        assert!(d.events(&pressed).is_empty());
    }
    assert_eq!(d.events(&pressed), vec![Event::Press(1, 2)]);
    // the cell is now confirmed pressed: no further events while held
    assert!(d.events(&pressed).is_empty());
}

#[test]
fn debounce_release_after_threshold_ticks() {
    let mut d = Debouncer::new(5);
    let pressed = grid_with(&[(0, 3)]);
    let released = Grid::new();
    for _ in 0..5 {
        d.events(&pressed);
    }
    for _ in 0..4 {
        assert!(d.events(&released).is_empty());
    }
    assert_eq!(d.events(&released), vec![Event::Release(0, 3)]);
}

#[test]
fn debounce_ignores_short_oscillation() {
    let mut d = Debouncer::new(5);
    let pressed = grid_with(&[(2, 1)]);
    let released = Grid::new();
    // bounce: never 5 consecutive disagreeing samples, then settle released
    for _ in 0..3 {
        for _ in 0..4 {
            assert!(d.events(&pressed).is_empty());
        }
        assert!(d.events(&released).is_empty());
    }
    for _ in 0..8 {
        assert!(d.events(&released).is_empty());
    }
}

#[test]
fn debounce_threshold_one_confirms_immediately() {
    let mut d = Debouncer::new(1);
    let pressed = grid_with(&[(5, 3)]);
    assert_eq!(d.events(&pressed), vec![Event::Press(5, 3)]);
}

#[test]
fn debounce_same_tick_events_in_row_major_order() {
    let mut d = Debouncer::new(1);
    let pressed = grid_with(&[(3, 1), (0, 2), (3, 0)]);
    assert_eq!(
        d.events(&pressed),
        vec![Event::Press(0, 2), Event::Press(3, 0), Event::Press(3, 1)]
    );
}

#[test]
fn grid_assemble_transposes_column_readings() {
    // readings[c][r]: column 2 saw rows 0 and 5 active
    let mut readings: Vec<Vec<bool>> = vec![vec![false; 6]; 4];
    readings[2][0] = true;
    readings[2][5] = true;
    let g = Grid::assemble(&readings);
    assert!(g.get(0, 2));
    assert!(g.get(5, 2));
    assert!(!g.get(0, 0));
    assert_eq!(g.count_pressed(), 2);
}

#[test]
fn boot_gesture_on_designated_key_alone() {
    let g = grid_with(&[(1, 1)]);
    assert!(is_boot_gesture(&g));
}

#[test]
fn boot_gesture_rejected_with_extra_key() {
    let g = grid_with(&[(1, 1), (0, 0)]);
    assert!(!is_boot_gesture(&g));
}

#[test]
fn boot_gesture_rejected_on_other_single_key() {
    let g = grid_with(&[(2, 2)]);
    assert!(!is_boot_gesture(&g));
}

#[test]
fn boot_gesture_rejected_on_empty_grid() {
    assert!(!is_boot_gesture(&Grid::new()));
}

#[test]
fn report_collects_plain_keycodes_in_order() {
    let keys: Vec<u8> = vec![4, 5];
    assert_eq!(build_report(&keys), vec![0, 0, 4, 5, 0, 0, 0, 0]);
}

#[test]
fn report_sets_modifier_bits() {
    // 224 is the first modifier, 225 the second
    let keys: Vec<u8> = vec![224, 225, 4];
    assert_eq!(build_report(&keys), vec![0b11, 0, 4, 0, 0, 0, 0, 0]);
}

#[test]
fn report_ignores_keycode_zero() {
    let keys: Vec<u8> = vec![0, 4, 0];
    assert_eq!(build_report(&keys), vec![0, 0, 4, 0, 0, 0, 0, 0]);
}

#[test]
fn report_overflow_degenerates_to_rollover() {
    let keys: Vec<u8> = vec![4, 5, 6, 7, 8, 9, 10];
    assert_eq!(build_report(&keys), vec![0, 0, 1, 1, 1, 1, 1, 1]);
}

#[test]
fn emitter_sends_only_on_change() {
    let mut e = ReportEmitter::new();
    let keys: Vec<u8> = vec![4];
    let sent = e.emit(&keys).expect("first differing report must be handed out");
    assert_eq!(sent, vec![0, 0, 4, 0, 0, 0, 0, 0]);
    // unchanged active set: no transmission on the next tick
    assert_eq!(e.emit(&keys), None);
    // releasing the key changes the report again
    let empty: Vec<u8> = vec![];
    assert_eq!(e.emit(&empty), Some(vec![0, 0, 0, 0, 0, 0, 0, 0]));
    assert_eq!(e.emit(&empty), None);
}

#[test]
fn emitter_starts_from_blank_report() {
    let mut e = ReportEmitter::new();
    let empty: Vec<u8> = vec![];
    assert_eq!(e.emit(&empty), None);
}
