//! Counting the agents inside a venue as arrivals and departures come in.

use vstd::prelude::*;
use crate::kind::EventKind;

verus! {

/// Agents inside after one event: an arrival adds one, a departure removes
/// one unless the venue is already empty, anything else changes nothing.
pub open spec fn agents_step(count: nat, kind: EventKind) -> nat {
    match kind {
        EventKind::AgentEntered => count + 1,
        EventKind::AgentLeft => if count > 0 { (count - 1) as nat } else { 0 },
        _ => count,
    }
}

/// Agents inside after a whole sequence of events, starting from `count`.
pub open spec fn agents_after_all(count: nat, kinds: Seq<EventKind>) -> nat
    decreases kinds.len(),
{
    if kinds.len() == 0 {
        count
    } else {
        agents_step(agents_after_all(count, kinds.drop_last()), kinds.last())
    }
}

/// Number of arrivals in a sequence of events.
pub open spec fn arrivals(kinds: Seq<EventKind>) -> nat
    decreases kinds.len(),
{
    if kinds.len() == 0 {
        0
    } else {
        arrivals(kinds.drop_last()) + if kinds.last() == EventKind::AgentEntered { 1nat } else { 0 }
    }
}

/// Number of departures in a sequence of events.
pub open spec fn departures(kinds: Seq<EventKind>) -> nat
    decreases kinds.len(),
{
    if kinds.len() == 0 {
        0
    } else {
        departures(kinds.drop_last()) + if kinds.last() == EventKind::AgentLeft { 1nat } else { 0 }
    }
}

/// The number of agents inside after `kind` happened to a venue holding `count`.
pub fn agents_after(count: usize, kind: &EventKind) -> (n: usize)
    requires
        *kind == EventKind::AgentEntered ==> count < usize::MAX,
    ensures
        n == agents_step(count as nat, *kind),
{
    match kind {
        EventKind::AgentEntered => count + 1,
        EventKind::AgentLeft => {
            if count > 0 {
                count - 1
            } else {
                count
            }
        },
        _ => count,
    }
}

/// An arrival followed by a departure leaves the count where it was.
pub proof fn lemma_arrival_then_departure(count: nat)
    ensures
        agents_step(agents_step(count, EventKind::AgentEntered), EventKind::AgentLeft) == count,
{
}

/// A departure from an empty venue leaves it empty.
pub proof fn lemma_departure_from_empty()
    ensures
        agents_step(0, EventKind::AgentLeft) == 0,
{
}

/// Starting empty, a venue never holds more agents than have arrived, and
/// never fewer than arrivals minus departures.
pub proof fn lemma_agents_bounded_by_arrivals(kinds: Seq<EventKind>)
    ensures
        agents_after_all(0, kinds) <= arrivals(kinds),
        agents_after_all(0, kinds) >= arrivals(kinds) - departures(kinds),
    decreases kinds.len(),
{
    if kinds.len() > 0 {
        lemma_agents_bounded_by_arrivals(kinds.drop_last());
    }
}

} // verus!
