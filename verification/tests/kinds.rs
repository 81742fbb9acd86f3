use grand_pattern_venue::agents::agents_after;
use grand_pattern_venue::kind::{kind_index, EventKind, KIND_COUNT};

const ALL: [EventKind; 7] = [
    EventKind::AgentEntered,
    EventKind::AgentSpoke,
    EventKind::AgentLeft,
    EventKind::Silence,
    EventKind::Conflict,
    EventKind::Harmony,
    EventKind::Surprise,
];

#[test]
fn silence_lower_weight_than_conflict() {
    assert!(EventKind::Silence.base_weight_tenths() < EventKind::Conflict.base_weight_tenths());
}

#[test]
fn surprise_highest_weight() {
    for kind in &[
        EventKind::AgentEntered,
        EventKind::AgentSpoke,
        EventKind::AgentLeft,
        EventKind::Silence,
        EventKind::Conflict,
        EventKind::Harmony,
    ] {
        assert!(EventKind::Surprise.base_weight_tenths() >= kind.base_weight_tenths());
    }
}

#[test]
fn base_weights_match_table() {
    let expected = [4u32, 5, 3, 1, 8, 6, 10];
    for (k, w) in ALL.iter().zip(expected.iter()) {
        assert_eq!(k.base_weight_tenths(), *w);
    }
    // The weight itself is the number of tenths over ten.
    assert_eq!(EventKind::Silence.base_weight_tenths() as f64 / 10.0, 0.1);
    assert_eq!(EventKind::Conflict.base_weight_tenths() as f64 / 10.0, 0.8);
}

#[test]
fn vibe_nudges_match_table() {
    let expected = [10i32, 3, -4, -1, -6, 7, 5];
    for (k, n) in ALL.iter().zip(expected.iter()) {
        assert_eq!(k.vibe_nudge_tenths(), *n);
    }
}

#[test]
fn silence_lowest_weight() {
    for k in ALL.iter() {
        assert!(EventKind::Silence.base_weight_tenths() <= k.base_weight_tenths());
    }
}

#[test]
fn kind_indices_are_slots_in_order() {
    for (i, k) in ALL.iter().enumerate() {
        assert_eq!(kind_index(k), i);
        assert!(kind_index(k) < KIND_COUNT);
    }
    assert_eq!(kind_index(&EventKind::Surprise), 6);
    assert_eq!(kind_index(&EventKind::Harmony), 5);
}

#[test]
fn agents_arrive_and_leave() {
    let mut n = 0usize;
    n = agents_after(n, &EventKind::AgentEntered);
    assert_eq!(n, 1);
    n = agents_after(n, &EventKind::Harmony);
    assert_eq!(n, 1);
    n = agents_after(n, &EventKind::AgentLeft);
    assert_eq!(n, 0);
    // Leaving an empty venue keeps it empty.
    n = agents_after(n, &EventKind::AgentLeft);
    assert_eq!(n, 0);
}

#[test]
fn agent_count_after_arrival_harmony_departure_is_zero() {
    let kinds = [EventKind::AgentEntered, EventKind::Harmony, EventKind::AgentLeft];
    let mut n = 0usize;
    for k in kinds.iter() {
        n = agents_after(n, k);
    }
    assert_eq!(n, 0);
}

#[test]
fn ten_arrivals_count_ten() {
    let mut n = 0usize;
    for _ in 0..10 {
        n = agents_after(n, &EventKind::AgentEntered);
    }
    assert_eq!(n, 10);
    let n = agents_after(usize::MAX, &EventKind::AgentLeft);
    assert_eq!(n, usize::MAX - 1);
}
