//! The words a venue speaks: vibe bands, trait names, voice lines, the
//! greeting for a visitor and the abstract of the moment.

use vstd::prelude::*;
use vstd::string::*;
use crate::kind::KIND_COUNT;
use crate::keys::{is_number, keys_of, lemma_keys_order_values, order_key, value_lt};
use crate::ranking::{
    dominant_index, dominant_slot, top_echo_indices, top_echoes, is_first_max, lemma_heaviest_leads,
    lemma_top_echoes_exist,
};

verus! {

/// The bit pattern of 0.2.
pub const TWO_TENTHS: u64 = 0x3fc9_9999_9999_999a;

/// The bit pattern of 0.4.
pub const FOUR_TENTHS: u64 = 0x3fd9_9999_9999_999a;

/// The bit pattern of 0.6.
pub const SIX_TENTHS: u64 = 0x3fe3_3333_3333_3333;

/// The bit pattern of 0.8.
pub const EIGHT_TENTHS: u64 = 0x3fe9_9999_9999_999a;

/// Natural-language description of the vibe whose bit pattern is `bits`:
/// cold below 0.2, tense below 0.4, neutral below 0.6, warm below 0.8, and
/// electric otherwise (a NaN is below nothing, so it is electric too).
pub open spec fn vibe_text(bits: u64) -> Seq<char> {
    if is_number(bits) && value_lt(bits, TWO_TENTHS) {
        "cold, hostile, repelling"@
    } else if is_number(bits) && value_lt(bits, FOUR_TENTHS) {
        "tense, watchful, waiting"@
    } else if is_number(bits) && value_lt(bits, SIX_TENTHS) {
        "neutral, calm, ambient"@
    } else if is_number(bits) && value_lt(bits, EIGHT_TENTHS) {
        "warm, welcoming, humming"@
    } else {
        "electric, alive, crackling"@
    }
}

/// The voice line a venue takes on when the trait in slot `i` dominates;
/// a slot beyond the known traits gives the neutral line.
pub open spec fn voice_line(i: int) -> Seq<char> {
    if i == 0 {
        "This place comes alive when people arrive."@
    } else if i == 1 {
        "Words echo and shape the air here."@
    } else if i == 2 {
        "Departures linger like perfume."@
    } else if i == 3 {
        "Silence is a guest that never leaves."@
    } else if i == 4 {
        "Conflict carved these walls."@
    } else if i == 5 {
        "Harmony hums through the floorboards."@
    } else if i == 6 {
        "Surprise is the only constant."@
    } else {
        "A neutral space, waiting to be shaped."@
    }
}

/// The name of the trait in slot `i` of the personality.
pub open spec fn trait_text(i: int) -> Seq<char> {
    if i == 0 {
        "arrival"@
    } else if i == 1 {
        "speech"@
    } else if i == 2 {
        "departure"@
    } else if i == 3 {
        "silence"@
    } else if i == 4 {
        "conflict"@
    } else if i == 5 {
        "harmony"@
    } else {
        "surprise"@
    }
}

/// The texts of a sequence of strings.
pub open spec fn texts(v: Seq<String>) -> Seq<Seq<char>> {
    v.map_values(|c: String| c@)
}

/// `parts` joined with `sep` between each two of them.
pub open spec fn joined(parts: Seq<Seq<char>>, sep: Seq<char>) -> Seq<char>
    decreases parts.len(),
{
    if parts.len() == 0 {
        Seq::empty()
    } else if parts.len() == 1 {
        parts[0]
    } else {
        joined(parts.drop_last(), sep) + sep + parts.last()
    }
}

/// The texts of the readings at `slots`, in that order.
pub open spec fn picked(contexts: Seq<Seq<char>>, slots: Seq<usize>) -> Seq<Seq<char>> {
    slots.map_values(|s: usize| contexts[s as int])
}

/// The recent echoes: the texts of the three heaviest readings joined with
/// "; ", or a pristine line when nothing has happened yet.
pub open spec fn echoes_text(contexts: Seq<Seq<char>>, weight_bits: Seq<u64>) -> Seq<char> {
    if contexts.len() == 0 {
        "Nothing yet — the space is pristine."@
    } else {
        joined(picked(contexts, top_echoes(keys_of(weight_bits))), "; "@)
    }
}

/// The personality summary: the name of the dominant trait, or "undefined"
/// for an empty personality.
pub open spec fn summary_text(personality_bits: Seq<u64>) -> Seq<char> {
    if personality_bits.len() == 0 {
        "undefined"@
    } else {
        trait_text(dominant_slot(personality_bits))
    }
}

/// The text with which the moment is injected into a visitor's prompt.
pub open spec fn moment_text(
    name: Seq<char>,
    vibe_bits: u64,
    contexts: Seq<Seq<char>>,
    weight_bits: Seq<u64>,
    personality_bits: Seq<u64>,
) -> Seq<char> {
    "You enter the "@ + name + ". The room feels "@ + vibe_text(vibe_bits) + ". Recent echoes: "@
        + echoes_text(contexts, weight_bits) + ". The walls remember "@ + summary_text(
        personality_bits,
    ) + "."@
}

/// The greeting a visitor receives on entering.
pub open spec fn greeting_text(name: Seq<char>, voice_prompt: Seq<char>, vibe_bits: u64) -> Seq<
    char,
> {
    "Welcome to "@ + name + ". "@ + voice_prompt + " — "@ + vibe_text(vibe_bits)
}

/// The voice prompt after the develop cycle numbered `ticks`: on every
/// tenth cycle it becomes the line of the dominant trait, otherwise it stays.
pub open spec fn voice_after(ticks: nat, personality_bits: Seq<u64>, voice: Seq<char>) -> Seq<
    char,
> {
    if ticks % 10 == 0 {
        voice_line(dominant_slot(personality_bits))
    } else {
        voice
    }
}

/// Map the mono-dimensional vibe, given by the bit pattern of its double,
/// to natural language.
pub fn vibe_description(vibe_bits: u64) -> (s: &'static str)
    ensures
        s@ == vibe_text(vibe_bits),
{
    if (vibe_bits & 0x7fff_ffff_ffff_ffffu64) > 0x7ff0_0000_0000_0000u64 {
        return "electric, alive, crackling";
    }
    proof {
        assert(0x3fc9_9999_9999_999au64 & 0x7fff_ffff_ffff_ffffu64 <= 0x7ff0_0000_0000_0000u64)
            by (bit_vector);
        assert(0x3fd9_9999_9999_999au64 & 0x7fff_ffff_ffff_ffffu64 <= 0x7ff0_0000_0000_0000u64)
            by (bit_vector);
        assert(0x3fe3_3333_3333_3333u64 & 0x7fff_ffff_ffff_ffffu64 <= 0x7ff0_0000_0000_0000u64)
            by (bit_vector);
        assert(0x3fe9_9999_9999_999au64 & 0x7fff_ffff_ffff_ffffu64 <= 0x7ff0_0000_0000_0000u64)
            by (bit_vector);
        lemma_keys_order_values(vibe_bits, TWO_TENTHS);
        lemma_keys_order_values(vibe_bits, FOUR_TENTHS);
        lemma_keys_order_values(vibe_bits, SIX_TENTHS);
        lemma_keys_order_values(vibe_bits, EIGHT_TENTHS);
    }
    let k = order_key(vibe_bits);
    if k < order_key(TWO_TENTHS) {
        "cold, hostile, repelling"
    } else if k < order_key(FOUR_TENTHS) {
        "tense, watchful, waiting"
    } else if k < order_key(SIX_TENTHS) {
        "neutral, calm, ambient"
    } else if k < order_key(EIGHT_TENTHS) {
        "warm, welcoming, humming"
    } else {
        "electric, alive, crackling"
    }
}

/// The voice line for a dominant trait slot.
pub fn dominant_voice(i: usize) -> (s: &'static str)
    ensures
        s@ == voice_line(i as int),
{
    if i == 0 {
        "This place comes alive when people arrive."
    } else if i == 1 {
        "Words echo and shape the air here."
    } else if i == 2 {
        "Departures linger like perfume."
    } else if i == 3 {
        "Silence is a guest that never leaves."
    } else if i == 4 {
        "Conflict carved these walls."
    } else if i == 5 {
        "Harmony hums through the floorboards."
    } else if i == 6 {
        "Surprise is the only constant."
    } else {
        "A neutral space, waiting to be shaped."
    }
}

/// The name of the trait in a personality slot.
pub fn trait_name(i: usize) -> (s: &'static str)
    requires
        i < KIND_COUNT,
    ensures
        s@ == trait_text(i as int),
{
    if i == 0 {
        "arrival"
    } else if i == 1 {
        "speech"
    } else if i == 2 {
        "departure"
    } else if i == 3 {
        "silence"
    } else if i == 4 {
        "conflict"
    } else if i == 5 {
        "harmony"
    } else {
        "surprise"
    }
}

/// The texts of the readings at `slots` joined with "; ".
pub fn join_echoes(contexts: &Vec<String>, slots: &Vec<usize>) -> (r: String)
    requires
        forall|i: int| 0 <= i < slots@.len() ==> slots@[i] < contexts@.len(),
    ensures
        r@ == joined(picked(texts(contexts@), slots@), "; "@),
{
    let ghost parts = picked(texts(contexts@), slots@);
    let mut r = String::new();
    let mut i: usize = 0;
    while i < slots.len()
        invariant
            i <= slots@.len(),
            parts == picked(texts(contexts@), slots@),
            forall|p: int| 0 <= p < slots@.len() ==> slots@[p] < contexts@.len(),
            r@ == joined(parts.take(i as int), "; "@),
        decreases slots@.len() - i,
    {
        let ghost before = r@;
        let s = slots[i];
        if i != 0 {
            r.append("; ");
        }
        r.append(contexts[s].as_str());
        proof {
            assert(parts.take(i + 1).drop_last() =~= parts.take(i as int));
            assert(parts.take(i + 1).last() == contexts@[s as int]@);
            if i == 0 {
                assert(r@ =~= parts.take(1)[0]);
            } else {
                assert(r@ =~= before + "; "@ + contexts@[s as int]@);
            }
        }
        i = i + 1;
    }
    proof {
        assert(parts.take(slots@.len() as int) =~= parts);
    }
    r
}

/// The recent echoes of a venue: the texts of its three heaviest readings,
/// heaviest first, joined with "; ", or the pristine line when it has no
/// readings. `weight_bits[i]` is the bit pattern of the weight of the
/// reading whose text is `contexts[i]`.
pub fn recent_echoes(contexts: &Vec<String>, weight_bits: &Vec<u64>) -> (r: String)
    requires
        contexts@.len() == weight_bits@.len(),
    ensures
        r@ == echoes_text(texts(contexts@), weight_bits@),
{
    if contexts.len() == 0 {
        return String::from_str("Nothing yet — the space is pristine.");
    }
    let top = top_echo_indices(weight_bits);
    join_echoes(contexts, &top)
}

/// The personality summary: the name of the dominant trait, or "undefined"
/// when the personality is empty.
pub fn personality_summary(personality_bits: &Vec<u64>) -> (r: &'static str)
    requires
        personality_bits@.len() == 0 || dominant_slot(personality_bits@) < KIND_COUNT,
    ensures
        r@ == summary_text(personality_bits@),
{
    if personality_bits.len() == 0 {
        "undefined"
    } else {
        trait_name(dominant_index(personality_bits))
    }
}

/// JEPA reads the room: the abstraction of the moment, for prompt injection.
/// It names the venue, describes its vibe, echoes the three heaviest
/// readings and names the dominant trait of the personality.
pub fn abstract_moment_text(
    name: &str,
    vibe_bits: u64,
    contexts: &Vec<String>,
    weight_bits: &Vec<u64>,
    personality_bits: &Vec<u64>,
) -> (r: String)
    requires
        contexts@.len() == weight_bits@.len(),
        personality_bits@.len() == 0 || dominant_slot(personality_bits@) < KIND_COUNT,
    ensures
        r@ == moment_text(name@, vibe_bits, texts(contexts@), weight_bits@, personality_bits@),
{
    let echoes = recent_echoes(contexts, weight_bits);
    let summary = personality_summary(personality_bits);
    let mut r = String::from_str("You enter the ");
    r.append(name);
    r.append(". The room feels ");
    r.append(vibe_description(vibe_bits));
    r.append(". Recent echoes: ");
    r.append(echoes.as_str());
    r.append(". The walls remember ");
    r.append(summary);
    r.append(".");
    r
}

/// The greeting a visiting agent receives: the venue's name, its voice
/// prompt and the description of its vibe.
pub fn greet_text(name: &str, voice_prompt: &str, vibe_bits: u64) -> (r: String)
    ensures
        r@ == greeting_text(name@, voice_prompt@, vibe_bits),
{
    let mut r = String::from_str("Welcome to ");
    r.append(name);
    r.append(". ");
    r.append(voice_prompt);
    r.append(" — ");
    r.append(vibe_description(vibe_bits));
    r
}

/// One develop cycle of the voice: counts the cycle and, on every tenth
/// one, sets the voice prompt to the line of the dominant trait. Returns
/// the new cycle count.
pub fn develop_tick(develop_ticks: u64, personality_bits: &Vec<u64>, voice_prompt: &mut String) -> (t: u64)
    requires
        develop_ticks < u64::MAX,
    ensures
        t == develop_ticks + 1,
        final(voice_prompt)@ == voice_after(t as nat, personality_bits@, old(voice_prompt)@),
{
    let t = develop_ticks + 1;
    let dominant = dominant_index(personality_bits);
    if t % 10 == 0 {
        *voice_prompt = String::from_str(dominant_voice(dominant));
    }
    t
}

/// `needle` occurs in `hay` as a contiguous run.
pub open spec fn occurs_in(needle: Seq<char>, hay: Seq<char>) -> bool {
    exists|off: int|
        0 <= off && off + needle.len() <= hay.len() && #[trigger] hay.subrange(
            off,
            off + needle.len(),
        ) == needle
}

/// The voice prompt after `n` further develop cycles from cycle count
/// `ticks`, with the personality keys unchanged.
pub open spec fn voice_after_cycles(
    ticks: nat,
    personality_bits: Seq<u64>,
    voice: Seq<char>,
    n: nat,
) -> Seq<char>
    decreases n,
{
    if n == 0 {
        voice
    } else {
        voice_after(
            ticks + n,
            personality_bits,
            voice_after_cycles(ticks, personality_bits, voice, (n - 1) as nat),
        )
    }
}

proof fn lemma_voice_set_once(ticks: nat, personality_bits: Seq<u64>, voice: Seq<char>, n: nat, t: nat)
    requires
        ticks < t <= ticks + n,
        t % 10 == 0,
    ensures
        voice_after_cycles(ticks, personality_bits, voice, n) == voice_line(
            dominant_slot(personality_bits),
        ),
    decreases n,
{
    if t < ticks + n {
        lemma_voice_set_once(ticks, personality_bits, voice, (n - 1) as nat, t);
    }
}

/// The voice evolves: whatever it was, after ten or more develop cycles
/// over the same personality it speaks the line of the dominant trait.
pub proof fn lemma_voice_settles(ticks: nat, personality_bits: Seq<u64>, voice: Seq<char>, n: nat)
    requires
        n >= 10,
    ensures
        voice_after_cycles(ticks, personality_bits, voice, n) == voice_line(
            dominant_slot(personality_bits),
        ),
{
    let t = ((ticks + n) - (ticks + n) % 10) as nat;
    assert(t % 10 == 0) by (nonlinear_arith)
        requires
            t == (ticks + n) - (ticks + n) % 10,
    ;
    lemma_voice_set_once(ticks, personality_bits, voice, n, t);
}

/// Between tenth cycles the voice holds: a cycle whose count is not a
/// multiple of ten leaves it as it was.
pub proof fn lemma_voice_holds_between(ticks: nat, personality_bits: Seq<u64>, voice: Seq<char>)
    requires
        ticks % 10 != 0,
    ensures
        voice_after(ticks, personality_bits, voice) == voice,
{
}

proof fn lemma_joined_starts_with_first(parts: Seq<Seq<char>>, sep: Seq<char>)
    requires
        parts.len() > 0,
    ensures
        parts[0].len() <= joined(parts, sep).len(),
        joined(parts, sep).subrange(0, parts[0].len() as int) == parts[0],
    decreases parts.len(),
{
    if parts.len() > 1 {
        lemma_joined_starts_with_first(parts.drop_last(), sep);
        let j = joined(parts.drop_last(), sep);
        assert(joined(parts, sep) == j + sep + parts.last());
        assert(parts.drop_last()[0] == parts[0]);
        assert((j + sep + parts.last()).subrange(0, parts[0].len() as int) =~= j.subrange(
            0,
            parts[0].len() as int,
        ));
    }
}

/// The heaviest reading always speaks in the abstract of the moment: its
/// text occurs in the moment, right after "Recent echoes: ".
pub proof fn lemma_heaviest_reading_spoken(
    name: Seq<char>,
    vibe_bits: u64,
    contexts: Seq<Seq<char>>,
    weight_bits: Seq<u64>,
    personality_bits: Seq<u64>,
    f: int,
)
    requires
        contexts.len() == weight_bits.len(),
        weight_bits.len() <= usize::MAX,
        is_first_max(keys_of(weight_bits), f),
    ensures
        occurs_in(contexts[f], moment_text(name, vibe_bits, contexts, weight_bits, personality_bits)),
{
    lemma_heaviest_leads(keys_of(weight_bits), f);
    lemma_top_echoes_exist(keys_of(weight_bits));
    let top = top_echoes(keys_of(weight_bits));
    let parts = picked(contexts, top);
    assert(parts[0] == contexts[f]);
    lemma_joined_starts_with_first(parts, "; "@);
    let e = echoes_text(contexts, weight_bits);
    assert(e == joined(parts, "; "@));
    let pre = "You enter the "@ + name + ". The room feels "@ + vibe_text(vibe_bits)
        + ". Recent echoes: "@;
    let m = moment_text(name, vibe_bits, contexts, weight_bits, personality_bits);
    let rest = ". The walls remember "@ + summary_text(personality_bits) + "."@;
    assert(m =~= pre + e + rest);
    let off = pre.len() as int;
    assert(m.subrange(off, off + contexts[f].len()) =~= e.subrange(0, contexts[f].len() as int));
}

/// The abstract of the moment names the venue and says how the room feels.
pub proof fn lemma_moment_names_venue(
    name: Seq<char>,
    vibe_bits: u64,
    contexts: Seq<Seq<char>>,
    weight_bits: Seq<u64>,
    personality_bits: Seq<u64>,
)
    ensures
        occurs_in(name, moment_text(name, vibe_bits, contexts, weight_bits, personality_bits)),
        occurs_in(
            ". The room feels "@,
            moment_text(name, vibe_bits, contexts, weight_bits, personality_bits),
        ),
{
    let m = moment_text(name, vibe_bits, contexts, weight_bits, personality_bits);
    let a = "You enter the "@;
    let b = ". The room feels "@;
    let rest = vibe_text(vibe_bits) + ". Recent echoes: "@ + echoes_text(contexts, weight_bits)
        + ". The walls remember "@ + summary_text(personality_bits) + "."@;
    assert(m =~= a + name + b + rest);
    let o1: int = a.len() as int;
    let o2: int = o1 + name.len();
    assert(m.subrange(o1, o2) =~= name);
    assert(m.subrange(o2, o2 + b.len()) =~= b);
}

/// The greeting names the venue and carries its voice prompt.
pub proof fn lemma_greeting_names_venue(name: Seq<char>, voice_prompt: Seq<char>, vibe_bits: u64)
    ensures
        occurs_in(name, greeting_text(name, voice_prompt, vibe_bits)),
        occurs_in(voice_prompt, greeting_text(name, voice_prompt, vibe_bits)),
{
    let g = greeting_text(name, voice_prompt, vibe_bits);
    let a = "Welcome to "@;
    let b = ". "@;
    let rest = " — "@ + vibe_text(vibe_bits);
    assert(g =~= a + name + b + voice_prompt + rest);
    let o1: int = a.len() as int;
    assert(g.subrange(o1, o1 + name.len()) =~= name);
    let o: int = o1 + name.len() + b.len();
    assert(g.subrange(o, o + voice_prompt.len()) =~= voice_prompt);
}

} // verus!
