//! Event kinds, their personality slots, base weights and vibe nudges.

use vstd::prelude::*;

verus! {

/// Kinds of events a venue can absorb.
#[derive(Debug, Clone, Copy, PartialEq, Eq, Structural)]
pub enum EventKind {
    AgentEntered,
    AgentSpoke,
    AgentLeft,
    Silence,
    Conflict,
    Harmony,
    Surprise,
}

/// Number of event kinds, and so of personality dimensions.
pub const KIND_COUNT: usize = 7;

/// The personality slot of each kind, in declaration order.
pub open spec fn slot_of(kind: EventKind) -> nat {
    match kind {
        EventKind::AgentEntered => 0,
        EventKind::AgentSpoke => 1,
        EventKind::AgentLeft => 2,
        EventKind::Silence => 3,
        EventKind::Conflict => 4,
        EventKind::Harmony => 5,
        EventKind::Surprise => 6,
    }
}

/// Base weight of each kind, in tenths: surprise highest, silence lowest.
pub open spec fn base_tenths(kind: EventKind) -> nat {
    match kind {
        EventKind::Silence => 1,
        EventKind::AgentLeft => 3,
        EventKind::AgentEntered => 4,
        EventKind::AgentSpoke => 5,
        EventKind::Harmony => 6,
        EventKind::Conflict => 8,
        EventKind::Surprise => 10,
    }
}

/// Signed strength, in tenths, with which each kind nudges the vibe.
pub open spec fn nudge_tenths(kind: EventKind) -> int {
    match kind {
        EventKind::AgentEntered => 10,
        EventKind::AgentSpoke => 3,
        EventKind::AgentLeft => -4,
        EventKind::Silence => -1,
        EventKind::Conflict => -6,
        EventKind::Harmony => 7,
        EventKind::Surprise => 5,
    }
}

/// Index into the personality vector for a given event kind.
pub fn kind_index(kind: &EventKind) -> (i: usize)
    ensures
        i == slot_of(*kind),
        i < KIND_COUNT,
{
    match kind {
        EventKind::AgentEntered => 0,
        EventKind::AgentSpoke => 1,
        EventKind::AgentLeft => 2,
        EventKind::Silence => 3,
        EventKind::Conflict => 4,
        EventKind::Harmony => 5,
        EventKind::Surprise => 6,
    }
}

impl EventKind {
    /// Base weight of this kind in tenths (the weight is this over ten).
    pub fn base_weight_tenths(&self) -> (w: u32)
        ensures
            w == base_tenths(*self),
    {
        match self {
            EventKind::Silence => 1,
            EventKind::AgentLeft => 3,
            EventKind::AgentEntered => 4,
            EventKind::AgentSpoke => 5,
            EventKind::Harmony => 6,
            EventKind::Conflict => 8,
            EventKind::Surprise => 10,
        }
    }

    /// Signed vibe nudge of this kind in tenths; the change in vibe is this
    /// over ten, times the intensity, times a twentieth.
    pub fn vibe_nudge_tenths(&self) -> (n: i32)
        ensures
            n == nudge_tenths(*self),
    {
        match self {
            EventKind::AgentEntered => 10,
            EventKind::AgentSpoke => 3,
            EventKind::AgentLeft => -4,
            EventKind::Silence => -1,
            EventKind::Conflict => -6,
            EventKind::Harmony => 7,
            EventKind::Surprise => 5,
        }
    }
}

/// Every kind has its own personality slot.
pub proof fn lemma_slots_distinct(a: EventKind, b: EventKind)
    ensures
        slot_of(a) == slot_of(b) <==> a == b,
        slot_of(a) < KIND_COUNT,
{
}

/// Surprise weighs the most of all kinds, strictly more than any other.
pub proof fn lemma_surprise_weighs_most(k: EventKind)
    ensures
        base_tenths(k) <= base_tenths(EventKind::Surprise),
        k != EventKind::Surprise ==> base_tenths(k) < base_tenths(EventKind::Surprise),
{
}

/// Silence weighs the least of all kinds, strictly less than any other.
pub proof fn lemma_silence_weighs_least(k: EventKind)
    ensures
        base_tenths(EventKind::Silence) <= base_tenths(k),
        k != EventKind::Silence ==> base_tenths(EventKind::Silence) < base_tenths(k),
{
}

/// Every base weight lies in (0, 1]: between one and ten tenths.
pub proof fn lemma_weights_in_unit_range(k: EventKind)
    ensures
        1 <= base_tenths(k) <= 10,
{
}

/// Arrivals, speech, harmony and surprise lift the vibe; departures,
/// silence and conflict lower it.
pub proof fn lemma_nudge_direction(k: EventKind)
    ensures
        nudge_tenths(k) > 0 <==> (k == EventKind::AgentEntered || k == EventKind::AgentSpoke
            || k == EventKind::Harmony || k == EventKind::Surprise),
        nudge_tenths(k) != 0,
        -10 <= nudge_tenths(k) <= 10,
{
}

/// The kinds by rising base weight: silence, departure, arrival, speech,
/// harmony, conflict, surprise, each strictly heavier than the one before.
pub proof fn lemma_weight_ranking()
    ensures
        base_tenths(EventKind::Silence) < base_tenths(EventKind::AgentLeft),
        base_tenths(EventKind::AgentLeft) < base_tenths(EventKind::AgentEntered),
        base_tenths(EventKind::AgentEntered) < base_tenths(EventKind::AgentSpoke),
        base_tenths(EventKind::AgentSpoke) < base_tenths(EventKind::Harmony),
        base_tenths(EventKind::Harmony) < base_tenths(EventKind::Conflict),
        base_tenths(EventKind::Conflict) < base_tenths(EventKind::Surprise),
{
}

/// The kinds by rising vibe nudge: conflict pulls hardest down, then
/// departure, then silence; speech lifts least, then surprise, harmony, and
/// an arrival lifts most.
pub proof fn lemma_nudge_ranking()
    ensures
        nudge_tenths(EventKind::Conflict) < nudge_tenths(EventKind::AgentLeft),
        nudge_tenths(EventKind::AgentLeft) < nudge_tenths(EventKind::Silence),
        nudge_tenths(EventKind::Silence) < 0,
        0 < nudge_tenths(EventKind::AgentSpoke),
        nudge_tenths(EventKind::AgentSpoke) < nudge_tenths(EventKind::Surprise),
        nudge_tenths(EventKind::Surprise) < nudge_tenths(EventKind::Harmony),
        nudge_tenths(EventKind::Harmony) < nudge_tenths(EventKind::AgentEntered),
{
}

} // verus!
