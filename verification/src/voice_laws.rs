//! What the words of a venue say, stated over all inputs: every trait has
//! its own name and voice line, the vibe description follows the bands of
//! the vibe, and the greeting and the abstract of the moment carry the
//! description of the venue's own vibe.

use vstd::prelude::*;
use crate::kind::{slot_of, EventKind};
use crate::keys::{is_number, lemma_keys_order_values, value_lt, value_gt};
use crate::keys::keys_of;
use crate::ranking::{dominant_slot, lemma_echoes_iff_readings, running_max, top_echoes};
use crate::voice::{
    echoes_text, greeting_text, joined, moment_text, picked, summary_text, trait_text, vibe_text,
    voice_after, voice_line,
};

verus! {

/// The literal texts are told apart by their length and first character.
proof fn lemma_literal_shapes()
    ensures
        "This place comes alive when people arrive."@.len() == 42,
        "Words echo and shape the air here."@.len() == 34,
        "Departures linger like perfume."@.len() == 31,
        "Silence is a guest that never leaves."@.len() == 37,
        "Silence is a guest that never leaves."@[0] == 'S',
        "Conflict carved these walls."@.len() == 28,
        "Harmony hums through the floorboards."@.len() == 37,
        "Harmony hums through the floorboards."@[0] == 'H',
        "Surprise is the only constant."@.len() == 30,
        "A neutral space, waiting to be shaped."@.len() == 38,
        "arrival"@.len() == 7,
        "arrival"@[0] == 'a',
        "speech"@.len() == 6,
        "departure"@.len() == 9,
        "silence"@.len() == 7,
        "silence"@[0] == 's',
        "conflict"@.len() == 8,
        "conflict"@[0] == 'c',
        "harmony"@.len() == 7,
        "harmony"@[0] == 'h',
        "surprise"@.len() == 8,
        "surprise"@[0] == 's',
        "cold, hostile, repelling"@.len() == 24,
        "cold, hostile, repelling"@[0] == 'c',
        "tense, watchful, waiting"@.len() == 24,
        "tense, watchful, waiting"@[0] == 't',
        "neutral, calm, ambient"@.len() == 22,
        "warm, welcoming, humming"@.len() == 24,
        "warm, welcoming, humming"@[0] == 'w',
        "electric, alive, crackling"@.len() == 26,
{
    reveal_strlit("This place comes alive when people arrive.");
    reveal_strlit("Words echo and shape the air here.");
    reveal_strlit("Departures linger like perfume.");
    reveal_strlit("Silence is a guest that never leaves.");
    reveal_strlit("Conflict carved these walls.");
    reveal_strlit("Harmony hums through the floorboards.");
    reveal_strlit("Surprise is the only constant.");
    reveal_strlit("A neutral space, waiting to be shaped.");
    reveal_strlit("arrival");
    reveal_strlit("speech");
    reveal_strlit("departure");
    reveal_strlit("silence");
    reveal_strlit("conflict");
    reveal_strlit("harmony");
    reveal_strlit("surprise");
    reveal_strlit("cold, hostile, repelling");
    reveal_strlit("tense, watchful, waiting");
    reveal_strlit("neutral, calm, ambient");
    reveal_strlit("warm, welcoming, humming");
    reveal_strlit("electric, alive, crackling");
}

/// Each event kind's slot speaks its own line: arrivals bring the place
/// alive, speech echoes, departures linger, silence stays, conflict carves,
/// harmony hums, surprise is constant.
pub proof fn lemma_voice_line_of_kind(k: EventKind)
    ensures
        voice_line(slot_of(k) as int) == match k {
            EventKind::AgentEntered => "This place comes alive when people arrive."@,
            EventKind::AgentSpoke => "Words echo and shape the air here."@,
            EventKind::AgentLeft => "Departures linger like perfume."@,
            EventKind::Silence => "Silence is a guest that never leaves."@,
            EventKind::Conflict => "Conflict carved these walls."@,
            EventKind::Harmony => "Harmony hums through the floorboards."@,
            EventKind::Surprise => "Surprise is the only constant."@,
        },
{
}

/// The seven trait slots have seven different voice lines, none of them
/// the neutral line, which only a slot beyond the traits gets.
pub proof fn lemma_voice_lines_distinct(i: int, j: int)
    ensures
        0 <= i < 7 && 0 <= j < 7 && i != j ==> voice_line(i) != voice_line(j),
        0 <= i < 7 ==> voice_line(i) != "A neutral space, waiting to be shaped."@,
        i >= 7 ==> voice_line(i) == "A neutral space, waiting to be shaped."@,
{
    lemma_literal_shapes();
}

/// Each event kind's slot is named after its trait.
pub proof fn lemma_trait_name_of_kind(k: EventKind)
    ensures
        trait_text(slot_of(k) as int) == match k {
            EventKind::AgentEntered => "arrival"@,
            EventKind::AgentSpoke => "speech"@,
            EventKind::AgentLeft => "departure"@,
            EventKind::Silence => "silence"@,
            EventKind::Conflict => "conflict"@,
            EventKind::Harmony => "harmony"@,
            EventKind::Surprise => "surprise"@,
        },
{
}

/// The seven trait slots have seven different names.
pub proof fn lemma_trait_names_distinct(i: int, j: int)
    ensures
        0 <= i < 7 && 0 <= j < 7 && i != j ==> trait_text(i) != trait_text(j),
{
    lemma_literal_shapes();
}

proof fn lemma_running_max_in_range(bits: Seq<u64>, n: int)
    requires
        1 <= n,
    ensures
        0 <= running_max(bits, n) < n,
    decreases n,
{
    if n > 1 {
        lemma_running_max_in_range(bits, n - 1);
    }
}

/// The dominant slot of a seven-trait personality is one of its slots.
proof fn lemma_dominant_in_range(bits: Seq<u64>)
    requires
        bits.len() == 7,
    ensures
        0 <= dominant_slot(bits) < 7,
{
    lemma_running_max_in_range(bits, 7);
}

/// On every tenth develop cycle a seven-trait personality takes on the
/// voice of its dominant trait: the line of that trait's kind, never the
/// neutral line, and personalities with different dominant traits come to
/// speak differently.
pub proof fn lemma_tenth_cycle_voice(
    ticks: nat,
    bits: Seq<u64>,
    other: Seq<u64>,
    voice: Seq<char>,
    k: EventKind,
)
    requires
        ticks % 10 == 0,
        bits.len() == 7,
        other.len() == 7,
    ensures
        voice_after(ticks, bits, voice) != "A neutral space, waiting to be shaped."@,
        dominant_slot(bits) == slot_of(k) ==> voice_after(ticks, bits, voice) == match k {
            EventKind::AgentEntered => "This place comes alive when people arrive."@,
            EventKind::AgentSpoke => "Words echo and shape the air here."@,
            EventKind::AgentLeft => "Departures linger like perfume."@,
            EventKind::Silence => "Silence is a guest that never leaves."@,
            EventKind::Conflict => "Conflict carved these walls."@,
            EventKind::Harmony => "Harmony hums through the floorboards."@,
            EventKind::Surprise => "Surprise is the only constant."@,
        },
        dominant_slot(bits) != dominant_slot(other) ==> voice_after(ticks, bits, voice)
            != voice_after(ticks, other, voice),
{
    lemma_dominant_in_range(bits);
    lemma_dominant_in_range(other);
    lemma_voice_lines_distinct(dominant_slot(bits), dominant_slot(other));
    lemma_voice_line_of_kind(k);
}

/// The walls remember the dominant trait of a seven-trait personality: the
/// summary names the trait of that slot's kind, and personalities with
/// different dominant traits are summarized differently.
pub proof fn lemma_summary_names_dominant(bits: Seq<u64>, other: Seq<u64>, k: EventKind)
    requires
        bits.len() == 7,
        other.len() == 7,
    ensures
        dominant_slot(bits) == slot_of(k) ==> summary_text(bits) == match k {
            EventKind::AgentEntered => "arrival"@,
            EventKind::AgentSpoke => "speech"@,
            EventKind::AgentLeft => "departure"@,
            EventKind::Silence => "silence"@,
            EventKind::Conflict => "conflict"@,
            EventKind::Harmony => "harmony"@,
            EventKind::Surprise => "surprise"@,
        },
        dominant_slot(bits) != dominant_slot(other) ==> summary_text(bits) != summary_text(other),
{
    lemma_dominant_in_range(bits);
    lemma_dominant_in_range(other);
    lemma_trait_names_distinct(dominant_slot(bits), dominant_slot(other));
    lemma_trait_name_of_kind(k);
}

/// The abstract of the moment ends by naming what the walls remember: the
/// summary of the personality, and two moments that differ only in the
/// personality are equal exactly when the summaries are.
pub proof fn lemma_moment_remembers_summary(
    name: Seq<char>,
    vibe_bits: u64,
    contexts: Seq<Seq<char>>,
    weight_bits: Seq<u64>,
    bits: Seq<u64>,
    other: Seq<u64>,
)
    ensures
        ({
            let m = moment_text(name, vibe_bits, contexts, weight_bits, bits);
            let tail = ". The walls remember "@ + summary_text(bits) + "."@;
            &&& tail.len() <= m.len()
            &&& m.subrange(m.len() - tail.len(), m.len() as int) == tail
        }),
        moment_text(name, vibe_bits, contexts, weight_bits, bits) == moment_text(
            name,
            vibe_bits,
            contexts,
            weight_bits,
            other,
        ) <==> summary_text(bits) == summary_text(other),
{
    let head = "You enter the "@ + name + ". The room feels "@ + vibe_text(vibe_bits)
        + ". Recent echoes: "@ + echoes_text(contexts, weight_bits) + ". The walls remember "@;
    let m1 = moment_text(name, vibe_bits, contexts, weight_bits, bits);
    let m2 = moment_text(name, vibe_bits, contexts, weight_bits, other);
    let s1 = summary_text(bits);
    let s2 = summary_text(other);
    assert(m1 =~= head + s1 + "."@);
    assert(m2 =~= head + s2 + "."@);
    let tail = ". The walls remember "@ + s1 + "."@;
    assert(m1.subrange(m1.len() - tail.len(), m1.len() as int) =~= tail);
    if m1 == m2 {
        assert(s1.len() == s2.len());
        assert(m1.subrange(head.len() as int, (head.len() + s1.len()) as int) =~= s1);
        assert(m2.subrange(head.len() as int, (head.len() + s2.len()) as int) =~= s2);
    }
}

/// The abstract of the moment says how the room feels by the description of
/// the given vibe, right after "The room feels ", and two moments that
/// differ only in the vibe are equal exactly when the descriptions are.
pub proof fn lemma_moment_feels_vibe(
    name: Seq<char>,
    vibe_bits: u64,
    other_vibe: u64,
    contexts: Seq<Seq<char>>,
    weight_bits: Seq<u64>,
    personality_bits: Seq<u64>,
)
    ensures
        ({
            let m = moment_text(name, vibe_bits, contexts, weight_bits, personality_bits);
            let head = "You enter the "@ + name + ". The room feels "@;
            let d = vibe_text(vibe_bits);
            &&& head.len() + d.len() <= m.len()
            &&& m.subrange(0, head.len() as int) == head
            &&& m.subrange(head.len() as int, (head.len() + d.len()) as int) == d
        }),
        moment_text(name, vibe_bits, contexts, weight_bits, personality_bits) == moment_text(
            name,
            other_vibe,
            contexts,
            weight_bits,
            personality_bits,
        ) <==> vibe_text(vibe_bits) == vibe_text(other_vibe),
{
    let head = "You enter the "@ + name + ". The room feels "@;
    let rest = ". Recent echoes: "@ + echoes_text(contexts, weight_bits)
        + ". The walls remember "@ + summary_text(personality_bits) + "."@;
    let d1 = vibe_text(vibe_bits);
    let d2 = vibe_text(other_vibe);
    let m1 = moment_text(name, vibe_bits, contexts, weight_bits, personality_bits);
    let m2 = moment_text(name, other_vibe, contexts, weight_bits, personality_bits);
    assert(m1 =~= head + d1 + rest);
    assert(m2 =~= head + d2 + rest);
    assert(m1.subrange(0, head.len() as int) =~= head);
    assert(m1.subrange(head.len() as int, (head.len() + d1.len()) as int) =~= d1);
    if m1 == m2 {
        assert(d1.len() == d2.len());
        assert(m2.subrange(head.len() as int, (head.len() + d2.len()) as int) =~= d2);
    }
}

/// The greeting ends with the description of the venue's own vibe, and two
/// greetings that differ only in the vibe are equal exactly when the
/// descriptions are.
pub proof fn lemma_greeting_feels_vibe(
    name: Seq<char>,
    voice_prompt: Seq<char>,
    vibe_bits: u64,
    other_vibe: u64,
)
    ensures
        ({
            let g = greeting_text(name, voice_prompt, vibe_bits);
            let d = vibe_text(vibe_bits);
            &&& d.len() <= g.len()
            &&& g.subrange(g.len() - d.len(), g.len() as int) == d
        }),
        greeting_text(name, voice_prompt, vibe_bits) == greeting_text(
            name,
            voice_prompt,
            other_vibe,
        ) <==> vibe_text(vibe_bits) == vibe_text(other_vibe),
{
    let head = "Welcome to "@ + name + ". "@ + voice_prompt + " — "@;
    let d1 = vibe_text(vibe_bits);
    let d2 = vibe_text(other_vibe);
    let g1 = greeting_text(name, voice_prompt, vibe_bits);
    let g2 = greeting_text(name, voice_prompt, other_vibe);
    assert(g1 =~= head + d1);
    assert(g2 =~= head + d2);
    assert(g1.subrange(g1.len() - d1.len(), g1.len() as int) =~= d1);
    if g1 == g2 {
        assert(d1.len() == d2.len());
        assert(g2.subrange(head.len() as int, (head.len() + d2.len()) as int) =~= d2);
        assert(g1.subrange(head.len() as int, (head.len() + d1.len()) as int) =~= d1);
    }
}

/// How warm a vibe description is: 0 for cold up to 4 for electric, and -1
/// for any other text.
pub open spec fn warmth(t: Seq<char>) -> int {
    if t == "cold, hostile, repelling"@ {
        0
    } else if t == "tense, watchful, waiting"@ {
        1
    } else if t == "neutral, calm, ambient"@ {
        2
    } else if t == "warm, welcoming, humming"@ {
        3
    } else if t == "electric, alive, crackling"@ {
        4
    } else {
        -1
    }
}

proof fn lemma_thresholds_are_numbers()
    ensures
        is_number(0x3fc9_9999_9999_999au64),
        is_number(0x3fd9_9999_9999_999au64),
        is_number(0x3fe3_3333_3333_3333u64),
        is_number(0x3fe9_9999_9999_999au64),
        value_lt(0x3fc9_9999_9999_999au64, 0x3fd9_9999_9999_999au64),
        value_lt(0x3fd9_9999_9999_999au64, 0x3fe3_3333_3333_3333u64),
        value_lt(0x3fe3_3333_3333_3333u64, 0x3fe9_9999_9999_999au64),
{
    assert(value_lt(0x3fc9_9999_9999_999au64, 0x3fd9_9999_9999_999au64)) by (bit_vector);
    assert(value_lt(0x3fd9_9999_9999_999au64, 0x3fe3_3333_3333_3333u64)) by (bit_vector);
    assert(value_lt(0x3fe3_3333_3333_3333u64, 0x3fe9_9999_9999_999au64)) by (bit_vector);
    assert(0x3fc9_9999_9999_999au64 & 0x7fff_ffff_ffff_ffffu64 <= 0x7ff0_0000_0000_0000u64)
        by (bit_vector);
    assert(0x3fd9_9999_9999_999au64 & 0x7fff_ffff_ffff_ffffu64 <= 0x7ff0_0000_0000_0000u64)
        by (bit_vector);
    assert(0x3fe3_3333_3333_3333u64 & 0x7fff_ffff_ffff_ffffu64 <= 0x7ff0_0000_0000_0000u64)
        by (bit_vector);
    assert(0x3fe9_9999_9999_999au64 & 0x7fff_ffff_ffff_ffffu64 <= 0x7ff0_0000_0000_0000u64)
        by (bit_vector);
}

/// The vibe description follows the bands of the vibe: cold below 0.2,
/// tense from 0.2 below 0.4, neutral from 0.4 below 0.6, warm from 0.6
/// below 0.8, electric from 0.8 up, and electric for a NaN (the patterns
/// written here are those of 0.2, 0.4, 0.6 and 0.8).
pub proof fn lemma_vibe_bands(v: u64)
    ensures
        is_number(v) && value_lt(v, 0x3fc9_9999_9999_999au64) ==> vibe_text(v)
            == "cold, hostile, repelling"@,
        is_number(v) && !value_lt(v, 0x3fc9_9999_9999_999au64) && value_lt(
            v,
            0x3fd9_9999_9999_999au64,
        ) ==> vibe_text(v) == "tense, watchful, waiting"@,
        is_number(v) && !value_lt(v, 0x3fd9_9999_9999_999au64) && value_lt(
            v,
            0x3fe3_3333_3333_3333u64,
        ) ==> vibe_text(v) == "neutral, calm, ambient"@,
        is_number(v) && !value_lt(v, 0x3fe3_3333_3333_3333u64) && value_lt(
            v,
            0x3fe9_9999_9999_999au64,
        ) ==> vibe_text(v) == "warm, welcoming, humming"@,
        is_number(v) && !value_lt(v, 0x3fe9_9999_9999_999au64) ==> vibe_text(v)
            == "electric, alive, crackling"@,
        !is_number(v) ==> vibe_text(v) == "electric, alive, crackling"@,
{
    lemma_thresholds_are_numbers();
    if is_number(v) {
        lemma_keys_order_values(v, 0x3fc9_9999_9999_999au64);
        lemma_keys_order_values(v, 0x3fd9_9999_9999_999au64);
        lemma_keys_order_values(v, 0x3fe3_3333_3333_3333u64);
        lemma_keys_order_values(v, 0x3fe9_9999_9999_999au64);
        lemma_keys_order_values(0x3fc9_9999_9999_999au64, 0x3fd9_9999_9999_999au64);
        lemma_keys_order_values(0x3fd9_9999_9999_999au64, 0x3fe3_3333_3333_3333u64);
        lemma_keys_order_values(0x3fe3_3333_3333_3333u64, 0x3fe9_9999_9999_999au64);
    }
}

/// A warmer vibe is never described as colder: over numbers, the warmth of
/// the description never falls as the vibe rises, and every description is
/// one of the five bands.
pub proof fn lemma_vibe_description_monotone(a: u64, b: u64)
    requires
        is_number(a),
        is_number(b),
        !value_lt(b, a),
    ensures
        0 <= warmth(vibe_text(a)) <= warmth(vibe_text(b)) <= 4,
{
    lemma_literal_shapes();
    lemma_thresholds_are_numbers();
    lemma_keys_order_values(a, b);
    lemma_keys_order_values(b, a);
    lemma_keys_order_values(a, 0x3fc9_9999_9999_999au64);
    lemma_keys_order_values(a, 0x3fd9_9999_9999_999au64);
    lemma_keys_order_values(a, 0x3fe3_3333_3333_3333u64);
    lemma_keys_order_values(a, 0x3fe9_9999_9999_999au64);
    lemma_keys_order_values(b, 0x3fc9_9999_9999_999au64);
    lemma_keys_order_values(b, 0x3fd9_9999_9999_999au64);
    lemma_keys_order_values(b, 0x3fe3_3333_3333_3333u64);
    lemma_keys_order_values(b, 0x3fe9_9999_9999_999au64);
}

/// The recent echoes: the pristine line when nothing has happened;
/// otherwise the text of the heaviest reading first and, when there are
/// two or more readings, "; " and the text of the next heaviest after it.
pub proof fn lemma_echoes_shape(contexts: Seq<Seq<char>>, weight_bits: Seq<u64>)
    requires
        contexts.len() == weight_bits.len(),
        weight_bits.len() <= usize::MAX,
    ensures
        contexts.len() == 0 ==> echoes_text(contexts, weight_bits)
            == "Nothing yet — the space is pristine."@,
        contexts.len() >= 1 ==> ({
            let e = echoes_text(contexts, weight_bits);
            let first = contexts[top_echoes(keys_of(weight_bits))[0] as int];
            &&& first.len() <= e.len()
            &&& e.subrange(0, first.len() as int) == first
        }),
        contexts.len() >= 2 ==> ({
            let e = echoes_text(contexts, weight_bits);
            let top = top_echoes(keys_of(weight_bits));
            let two = contexts[top[0] as int] + "; "@ + contexts[top[1] as int];
            &&& two.len() <= e.len()
            &&& e.subrange(0, two.len() as int) == two
        }),
{
    let keys = keys_of(weight_bits);
    lemma_echoes_iff_readings(keys);
    let top = top_echoes(keys);
    let parts = picked(contexts, top);
    let sep = "; "@;
    if contexts.len() >= 1 {
        let e = joined(parts, sep);
        assert(e == echoes_text(contexts, weight_bits));
        if top.len() == 1 {
            assert(e == parts[0]);
            assert(e.subrange(0, parts[0].len() as int) =~= parts[0]);
        } else if top.len() == 2 {
            assert(parts.drop_last().drop_last().len() == 0);
            assert(joined(parts.drop_last(), sep) == parts.drop_last()[0]);
            assert(e =~= parts[0] + sep + parts[1]);
            assert(e.subrange(0, parts[0].len() as int) =~= parts[0]);
            assert(e.subrange(0, (parts[0] + sep + parts[1]).len() as int) =~= parts[0] + sep
                + parts[1]);
        } else {
            let p2 = parts.drop_last();
            assert(p2.drop_last().len() == 1);
            assert(joined(p2.drop_last(), sep) == p2.drop_last()[0]);
            assert(joined(p2, sep) =~= parts[0] + sep + parts[1]);
            assert(e =~= parts[0] + sep + parts[1] + sep + parts[2]);
            assert(e.subrange(0, parts[0].len() as int) =~= parts[0]);
            assert(e.subrange(0, (parts[0] + sep + parts[1]).len() as int) =~= parts[0] + sep
                + parts[1]);
        }
    }
}

/// An empty personality leaves the walls remembering nothing defined.
pub proof fn lemma_summary_of_empty(bits: Seq<u64>)
    requires
        bits.len() == 0,
    ensures
        summary_text(bits) == "undefined"@,
{
}

/// The greeting welcomes the visitor to the venue by name and then speaks
/// the venue's voice prompt, before the description of the vibe.
pub proof fn lemma_greeting_opens_with_name_and_voice(
    name: Seq<char>,
    voice_prompt: Seq<char>,
    vibe_bits: u64,
)
    ensures
        ({
            let g = greeting_text(name, voice_prompt, vibe_bits);
            let head = "Welcome to "@ + name + ". "@ + voice_prompt + " — "@;
            &&& head.len() <= g.len()
            &&& g.subrange(0, head.len() as int) == head
        }),
{
    let g = greeting_text(name, voice_prompt, vibe_bits);
    let head = "Welcome to "@ + name + ". "@ + voice_prompt + " — "@;
    assert(g =~= head + vibe_text(vibe_bits));
    assert(g.subrange(0, head.len() as int) =~= head);
}

} // verus!
