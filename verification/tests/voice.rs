use grand_pattern_venue::voice::{
    abstract_moment_text, develop_tick, dominant_voice, greet_text, join_echoes,
    personality_summary, recent_echoes, trait_name, vibe_description,
};

fn bits(x: f64) -> u64 {
    x.to_bits()
}

fn texts(v: &[&str]) -> Vec<String> {
    v.iter().map(|s| s.to_string()).collect()
}

fn uniform() -> Vec<u64> {
    vec![bits(1.0 / 7.0); 7]
}

#[test]
fn vibe_description_maps_correctly() {
    assert_eq!(vibe_description(0.1f64.to_bits()), "cold, hostile, repelling");
    assert_eq!(vibe_description(0.3f64.to_bits()), "tense, watchful, waiting");
    assert_eq!(vibe_description(0.5f64.to_bits()), "neutral, calm, ambient");
    assert_eq!(vibe_description(0.7f64.to_bits()), "warm, welcoming, humming");
    assert_eq!(vibe_description(0.9f64.to_bits()), "electric, alive, crackling");
}

#[test]
fn vibe_description_band_edges() {
    assert_eq!(vibe_description(0.2f64.to_bits()), "tense, watchful, waiting");
    assert_eq!(vibe_description(0.4f64.to_bits()), "neutral, calm, ambient");
    assert_eq!(vibe_description(0.6f64.to_bits()), "warm, welcoming, humming");
    assert_eq!(vibe_description(0.8f64.to_bits()), "electric, alive, crackling");
    assert_eq!(vibe_description(0.19999999999999998f64.to_bits()), "cold, hostile, repelling");
    assert_eq!(vibe_description((-0.0f64).to_bits()), "cold, hostile, repelling");
    assert_eq!(vibe_description(f64::NEG_INFINITY.to_bits()), "cold, hostile, repelling");
    assert_eq!(vibe_description(f64::INFINITY.to_bits()), "electric, alive, crackling");
    assert_eq!(vibe_description(f64::NAN.to_bits()), "electric, alive, crackling");
    assert_eq!(vibe_description((-f64::NAN).to_bits()), "electric, alive, crackling");
}

#[test]
fn voice_lines_per_trait() {
    assert_eq!(dominant_voice(0), "This place comes alive when people arrive.");
    assert_eq!(dominant_voice(4), "Conflict carved these walls.");
    assert_eq!(dominant_voice(5), "Harmony hums through the floorboards.");
    assert_eq!(dominant_voice(6), "Surprise is the only constant.");
    assert_eq!(dominant_voice(7), "A neutral space, waiting to be shaped.");
    assert_eq!(trait_name(0), "arrival");
    assert_eq!(trait_name(3), "silence");
    assert_eq!(trait_name(6), "surprise");
}

#[test]
fn echoes_joined_with_semicolons() {
    let c = texts(&["a", "bb", "ccc"]);
    assert_eq!(join_echoes(&c, &vec![2, 0]), "ccc; a");
    assert_eq!(join_echoes(&c, &vec![1]), "bb");
    assert_eq!(join_echoes(&c, &vec![]), "");
}

#[test]
fn recent_echoes_pristine_when_empty() {
    assert_eq!(recent_echoes(&vec![], &vec![]), "Nothing yet — the space is pristine.");
}

#[test]
fn recent_echoes_keep_three_heaviest() {
    let c = texts(&["one", "two", "three", "four"]);
    let w = vec![bits(0.1), bits(0.8), bits(0.4), bits(0.8)];
    assert_eq!(recent_echoes(&c, &w), "two; four; three");
}

#[test]
fn summary_names_dominant_trait() {
    assert_eq!(personality_summary(&vec![]), "undefined");
    assert_eq!(personality_summary(&uniform()), "surprise");
    let mut p = uniform();
    p[5] = bits(0.3);
    assert_eq!(personality_summary(&p), "harmony");
}

#[test]
fn moment_text_exact() {
    let c = texts(&["a stranger arrives"]);
    let w = vec![bits(0.4)];
    let mut p = uniform();
    p[0] = bits(0.2);
    let m = abstract_moment_text("The Grand Hall", 0.5f64.to_bits(), &c, &w, &p);
    assert_eq!(
        m,
        "You enter the The Grand Hall. The room feels neutral, calm, ambient. \
         Recent echoes: a stranger arrives. The walls remember arrival."
    );
    assert!(m.contains("The Grand Hall"));
    assert!(m.contains("room feels"));
}

#[test]
fn moment_of_empty_venue() {
    let m = abstract_moment_text("Empty", 0.5f64.to_bits(), &vec![], &vec![], &uniform());
    assert_eq!(
        m,
        "You enter the Empty. The room feels neutral, calm, ambient. \
         Recent echoes: Nothing yet — the space is pristine.. The walls remember surprise."
    );
    let m = abstract_moment_text("Bare", 0.0f64.to_bits(), &vec![], &vec![], &vec![]);
    assert!(m.ends_with("The walls remember undefined."));
}

#[test]
fn heavier_reading_speaks_in_moment() {
    // Silence at intensity 0.1 weighs 0.01; surprise at 1.0 weighs 1.0.
    let c = texts(&["quiet", "explosion!"]);
    let w = vec![bits(0.1 * 0.1), bits(1.0 * 1.0)];
    let m = abstract_moment_text("Hall", 0.5f64.to_bits(), &c, &w, &uniform());
    assert!(m.contains("Recent echoes: explosion!; quiet."));
}

#[test]
fn moment_includes_pilgrim_and_choir() {
    let c = texts(&["a pilgrim enters", "choir sings"]);
    let w = vec![bits(0.4 * 0.8), bits(0.6 * 0.9)];
    let m = abstract_moment_text("Cathedral", 0.7f64.to_bits(), &c, &w, &uniform());
    assert!(m.contains("choir sings; a pilgrim enters"));
}

#[test]
fn greeting_exact() {
    let g = greet_text("The Tavern", "A neutral space, waiting to be shaped.", 0.5f64.to_bits());
    assert_eq!(
        g,
        "Welcome to The Tavern. A neutral space, waiting to be shaped. — neutral, calm, ambient"
    );
    assert!(g.contains("The Tavern"));
}

#[test]
fn voice_changes_only_on_tenth_cycle() {
    let mut p = uniform();
    p[6] = bits(0.9);
    let mut voice = String::from("A neutral space, waiting to be shaped.");
    let mut t = 0u64;
    for _ in 0..9 {
        t = develop_tick(t, &p, &mut voice);
        assert_eq!(voice, "A neutral space, waiting to be shaped.");
    }
    t = develop_tick(t, &p, &mut voice);
    assert_eq!(t, 10);
    assert_eq!(voice, "Surprise is the only constant.");
    p[6] = bits(0.0);
    p[4] = bits(0.9);
    t = develop_tick(t, &p, &mut voice);
    assert_eq!(t, 11);
    assert_eq!(voice, "Surprise is the only constant.");
}

#[test]
fn voice_after_thirty_cycles_differs_from_initial() {
    let mut p = uniform();
    p[6] = bits(0.5);
    let initial = String::from("A neutral space, waiting to be shaped.");
    let mut voice = initial.clone();
    let mut t = 0u64;
    for _ in 0..30 {
        t = develop_tick(t, &p, &mut voice);
    }
    assert_eq!(t, 30);
    assert_ne!(voice, initial);
}
