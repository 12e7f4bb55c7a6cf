use keyberon::action::{k, l, Action};
use keyberon::key_code::KeyCode;
use keyberon::layout::{Layers, Layout};
use keyboard_pipeline::engine::Engine;

const HOLD_B: Action = Action::HoldTap {
    timeout: 200,
    hold: &k(KeyCode::LShift),
    tap: &k(KeyCode::B),
};
const LAYERS: Layers = &[&[&[k(KeyCode::A), k(KeyCode::C), HOLD_B]]];

fn rest() -> Vec<Vec<bool>> {
    vec![vec![false, false, false]]
}

fn engine() -> Engine {
    Engine::new(Layout::new(LAYERS), rest(), 5)
}

/// One tick; a report to write is taken as written.
fn run(e: &mut Engine, grid: Vec<Vec<bool>>) -> Option<Vec<u8>> {
    let r = e.tick(grid);
    if let Some(w) = &r {
        e.sent(w);
    }
    r
}

#[test]
fn engine_starts_with_empty_report() {
    let e = engine();
    assert_eq!(e.last_report(), &vec![0u8; 8]);
}

#[test]
fn engine_idle_scans_write_nothing() {
    let mut e = engine();
    for _ in 0..10 {
        assert_eq!(run(&mut e, rest()), None);
    }
}

#[test]
fn engine_press_needs_settled_scans() {
    let mut e = engine();
    let down = vec![vec![true, false, false]];
    for _ in 0..5 {
        assert_eq!(run(&mut e, down.clone()), None);
    }
    assert_eq!(run(&mut e, down.clone()), Some(vec![0, 0, 0x04, 0, 0, 0, 0, 0]));
    assert_eq!(run(&mut e, down.clone()), None);
    assert_eq!(e.last_report(), &vec![0, 0, 0x04, 0, 0, 0, 0, 0]);
}

#[test]
fn engine_bounce_emits_nothing() {
    let mut e = engine();
    let down = vec![vec![true, false, false]];
    for _ in 0..20 {
        for _ in 0..4 {
            assert_eq!(run(&mut e, down.clone()), None);
        }
        assert_eq!(run(&mut e, rest()), None);
    }
}

/// The layout engine takes one queued key change per tick, so two keys
/// confirmed by the same scan reach the report one tick apart, in row-major
/// order.
#[test]
fn engine_release_clears_report() {
    let mut e = engine();
    let down = vec![vec![true, true, false]];
    let mut writes = Vec::new();
    for _ in 0..10 {
        if let Some(r) = run(&mut e, down.clone()) {
            writes.push(r);
        }
    }
    assert_eq!(
        writes,
        vec![vec![0, 0, 0x04, 0, 0, 0, 0, 0], vec![0, 0, 0x04, 0x06, 0, 0, 0, 0]]
    );
    writes.clear();
    for _ in 0..10 {
        if let Some(r) = run(&mut e, rest()) {
            writes.push(r);
        }
    }
    assert_eq!(writes, vec![vec![0, 0, 0x06, 0, 0, 0, 0, 0], vec![0u8; 8]]);
}

#[test]
fn engine_hold_tap_held_resolves_hold() {
    let mut e = engine();
    let down = vec![vec![false, false, true]];
    let mut writes = Vec::new();
    for _ in 0..300 {
        if let Some(r) = run(&mut e, down.clone()) {
            writes.push(r);
        }
    }
    assert_eq!(writes, vec![vec![0x02, 0, 0, 0, 0, 0, 0, 0]]);
}

#[test]
fn engine_unwritten_report_is_offered_again() {
    let mut e = engine();
    let down = vec![vec![true, false, false]];
    for _ in 0..5 {
        assert_eq!(e.tick(down.clone()), None);
    }
    let first = e.tick(down.clone());
    assert_eq!(first, Some(vec![0, 0, 0x04, 0, 0, 0, 0, 0]));
    // not recorded as written: the next tick offers it again
    assert_eq!(e.tick(down.clone()), first);
    e.sent(&first.unwrap());
    assert_eq!(e.tick(down.clone()), None);
}

const L1_SP: Action = Action::HoldTap {
    timeout: 200,
    hold: &l(1),
    tap: &k(KeyCode::Space),
};
const SP_LAYERS: Layers = &[
    &[&[L1_SP, k(KeyCode::A)]],
    &[&[Action::Trans, k(KeyCode::Kb1)]],
];

/// The space / layer-one key held past its timeout: no space is ever sent,
/// layer one is active while it is held, and layer 0 comes back on release.
#[test]
fn engine_space_layer_key_held_never_sends_space() {
    let mut e = Engine::new(Layout::new(SP_LAYERS), vec![vec![false, false]], 5);
    let mut writes = Vec::new();
    let held = vec![vec![true, false]];
    for _ in 0..250 {
        if let Some(r) = run(&mut e, held.clone()) {
            writes.push(r);
        }
    }
    assert!(writes.is_empty());
    // layer one is active: the other key gives 1, not a
    let both = vec![vec![true, true]];
    for _ in 0..10 {
        if let Some(r) = run(&mut e, both.clone()) {
            writes.push(r);
        }
    }
    assert_eq!(writes, vec![vec![0, 0, 0x1E, 0, 0, 0, 0, 0]]);
    writes.clear();
    for _ in 0..10 {
        if let Some(r) = run(&mut e, vec![vec![false, false]]) {
            writes.push(r);
        }
    }
    assert_eq!(writes, vec![vec![0u8; 8]]);
    for _ in 0..10 {
        if let Some(r) = run(&mut e, vec![vec![false, true]]) {
            writes.push(r);
        }
    }
    assert_eq!(writes, vec![vec![0u8; 8], vec![0, 0, 0x04, 0, 0, 0, 0, 0]]);
    assert!(writes.iter().all(|w| !w.contains(&0x2C)));
}

#[test]
fn engine_five_agreeing_scans_confirm_nothing() {
    let mut e = engine();
    let down = vec![vec![false, true, false]];
    for _ in 0..5 {
        assert_eq!(run(&mut e, down.clone()), None);
    }
    assert_eq!(run(&mut e, rest()), None);
    for _ in 0..5 {
        assert_eq!(run(&mut e, down.clone()), None);
    }
    assert_eq!(run(&mut e, down.clone()), Some(vec![0, 0, 0x06, 0, 0, 0, 0, 0]));
}

#[test]
fn engine_events_only_for_changed_keys() {
    let mut e = engine();
    let a_down = vec![vec![true, false, false]];
    let mut writes = Vec::new();
    for _ in 0..10 {
        if let Some(r) = run(&mut e, a_down.clone()) {
            writes.push(r);
        }
    }
    let both = vec![vec![true, true, false]];
    for _ in 0..10 {
        if let Some(r) = run(&mut e, both.clone()) {
            writes.push(r);
        }
    }
    // a second press of a would add it twice: only c changed
    assert_eq!(
        writes,
        vec![vec![0, 0, 0x04, 0, 0, 0, 0, 0], vec![0, 0, 0x04, 0x06, 0, 0, 0, 0]]
    );
}
