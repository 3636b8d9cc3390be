use picorne::event::Event;
use picorne::grid::Grid;
use picorne::pipeline::PrimaryPipeline;
use picorne::pipeline::SecondaryPipeline;
use picorne::sched::directive;
use picorne::sched::CustomAction;
use picorne::sched::SchedPhase;
use picorne::sched::TickDirective;
use picorne::sched::TickScheduler;
use picorne::DEBOUNCE_TIME;
use picorne::SCAN_TIME;

fn grid_with(cells: &[(u8, u8)]) -> Grid {
    let mut g = Grid::new();
    for &(r, c) in cells {
        g.set(r, c, true);
    }
    g
}

/// Run one tick of the scheduler around a body of the given duration and
/// return the alarm deadline left armed afterwards.
fn tick_once(fire_time: u64, body_duration: u64) -> u64 {
    let mut s = TickScheduler::start(SCAN_TIME, 0);
    s.on_timer_fire(fire_time);
    // the body runs here for `body_duration`; the scheduler state never
    // sees that duration
    let _ = body_duration;
    s.body_done();
    assert_eq!(s.phase, SchedPhase::Armed);
    s.alarm_deadline
}

#[test]
fn tick_rearms_before_body_independent_of_body_duration() {
    let fast = tick_once(SCAN_TIME as u64, 10);
    let slow = tick_once(SCAN_TIME as u64, 50_000);
    assert_eq!(fast, SCAN_TIME as u64 + SCAN_TIME as u64);
    assert_eq!(fast, slow);
}

#[test]
fn scheduler_start_arms_one_period_ahead() {
    let s = TickScheduler::start(SCAN_TIME, 0);
    assert_eq!(s.phase, SchedPhase::Armed);
    assert_eq!(s.alarm_deadline, SCAN_TIME as u64);
    assert!(s.alarm_deadline <= s.watchdog_deadline);
}

#[test]
fn watchdog_deadline_stays_ahead_of_alarm() {
    let mut s = TickScheduler::start(SCAN_TIME, 0);
    let mut now: u64 = SCAN_TIME as u64;
    for _ in 0..10 {
        s.on_timer_fire(now);
        s.body_done();
        assert_eq!(s.alarm_deadline, now + SCAN_TIME as u64);
        assert!(s.alarm_deadline <= s.watchdog_deadline);
        now = s.alarm_deadline;
    }
}

#[test]
fn directive_of_custom_actions() {
    assert_eq!(directive(None), TickDirective::Continue);
    assert_eq!(
        directive(Some(CustomAction::Reset)),
        TickDirective::HaltForWatchdog
    );
    assert_eq!(
        directive(Some(CustomAction::Bootsel)),
        TickDirective::EnterUpdateMode
    );
}

#[test]
fn primary_press_reaches_report_exactly_once() {
    // the primary unit's debouncer confirms Press at local (1, 2); the
    // unifier maps it to global (2, 4); the interpreter then reports one
    // active key, and exactly one differing report is handed out
    let mut p = PrimaryPipeline::new(DEBOUNCE_TIME);
    let pressed = grid_with(&[(1, 2)]);
    let no_bytes: Vec<u8> = Vec::new();
    let no_keys: Vec<u8> = Vec::new();
    for _ in 0..4 {
        let evs = p.collect_events(Some(&pressed), &no_bytes).unwrap();
        assert!(evs.is_empty());
        assert_eq!(p.finish_tick(&no_keys), None);
    }
    let evs = p.collect_events(Some(&pressed), &no_bytes).unwrap();
    assert_eq!(evs, vec![Event::Press(2, 4)]);
    // the interpreter consumes Press@(2,4) and reports key 20 active
    let keys: Vec<u8> = vec![20];
    let report = p.finish_tick(&keys).expect("changed report must be transmitted");
    assert_eq!(report, vec![0, 0, 20, 0, 0, 0, 0, 0]);
    // unchanged active set on the next tick: no transmission
    let evs = p.collect_events(Some(&pressed), &no_bytes).unwrap();
    assert!(evs.is_empty());
    assert_eq!(p.finish_tick(&keys), None);
}

#[test]
fn secondary_release_crosses_link_into_same_tick() {
    // the secondary unit confirms Release at local (0, 3) and writes
    // [RELEASE_TAG, 0, 3]; the primary drains exactly those bytes and
    // injects Release at global (3, 6) before its interpreter advances
    let mut s = SecondaryPipeline::new(DEBOUNCE_TIME);
    let pressed = grid_with(&[(0, 3)]);
    let released = Grid::new();
    for _ in 0..5 {
        s.tick_frames(Some(&pressed));
    }
    let mut wire: Vec<u8> = Vec::new();
    for _ in 0..4 {
        assert!(s.tick_frames(Some(&released)).is_empty());
    }
    wire.extend(s.tick_frames(Some(&released)));
    assert_eq!(wire, vec![254, 0, 3]);

    let mut p = PrimaryPipeline::new(DEBOUNCE_TIME);
    let evs = p.collect_events(None, &wire).unwrap();
    assert_eq!(evs, vec![Event::Release(3, 6)]);
    let no_keys: Vec<u8> = Vec::new();
    assert_eq!(p.finish_tick(&no_keys), None);
}

#[test]
fn partial_frame_defers_to_next_tick() {
    let mut p = PrimaryPipeline::new(DEBOUNCE_TIME);
    let no_keys: Vec<u8> = Vec::new();
    let head: Vec<u8> = vec![255, 2];
    let evs = p.collect_events(None, &head).unwrap();
    assert!(evs.is_empty());
    assert_eq!(p.finish_tick(&no_keys), None);
    let tail: Vec<u8> = vec![1];
    let evs = p.collect_events(None, &tail).unwrap();
    assert_eq!(evs, vec![Event::Press(1, 8)]);
    assert_eq!(p.finish_tick(&no_keys), None);
}

#[test]
fn scan_failure_skips_local_stage_only() {
    let mut p = PrimaryPipeline::new(1);
    let pressed = grid_with(&[(1, 2)]);
    let no_keys: Vec<u8> = Vec::new();
    // the remote side still gets through while the local scan fails
    let wire: Vec<u8> = vec![255, 0, 0];
    let evs = p.collect_events(None, &wire).unwrap();
    assert_eq!(evs, vec![Event::Press(0, 6)]);
    assert_eq!(p.finish_tick(&no_keys), None);
    // the skipped tick did not advance the debouncer
    let no_bytes: Vec<u8> = Vec::new();
    let evs = p.collect_events(Some(&pressed), &no_bytes).unwrap();
    assert_eq!(evs, vec![Event::Press(2, 4)]);
}
