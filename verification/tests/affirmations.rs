use shell_mommy::affirmations::{
    embedded_affirmations, load_affirmations, load_affirmations_with_mood, mix, resolve_mood,
    AffirmationsFile, MoodSet,
};

#[test]
fn test_embedded_affirmations_some() {
    let affirmations = load_affirmations_with_mood("chill");

    // Expect: loaded affirmations to be Some(_)
    assert!(
        affirmations.is_some(),
        "expected embedded affirmations to be Some(_)"
    );
}

#[test]
fn test_embedded_affirmations_content() {
    let affirmations = load_affirmations_with_mood("chill").expect("embedded table didn't load");

    // Expect: at least one positive and one negative
    assert!(
        !affirmations.positive.is_empty(),
        "expected at least one positive affirmation"
    );
    assert!(
        !affirmations.negative.is_empty(),
        "expected at least one negative affirmation"
    );

    // Expect: one specific affirmation from the embedded table
    assert!(affirmations
        .positive
        .iter()
        .any(|s| s == "*boops your nose* {emotes}"));
}

#[test]
fn load_custom_affirmations_ok() {
    let aff = load_affirmations_with_mood("chill").unwrap();

    // Expect: one valid positive and negative affirmations
    assert!(aff
        .positive
        .iter()
        .any(|s| s == "you're such a smart cookie~ {emotes}"));
    assert!(aff
        .negative
        .iter()
        .any(|s| s == "{roles} believes in you~ {emotes}"));
}

#[test]
fn test_mood_ominous() {
    let affirmations =
        load_affirmations_with_mood("ominous").expect("failed to load ominous mood");

    // Expect: at least one positive and one negative
    assert!(
        !affirmations.positive.is_empty(),
        "expected at least one positive affirmation in ominous"
    );
    assert!(
        !affirmations.negative.is_empty(),
        "expected at least one negative affirmation in ominous"
    );

    // Expect: ominous-specific content
    assert!(
        affirmations
            .positive
            .iter()
            .any(|s| s.contains("aeons") || s.contains("feared")),
        "expected ominous-themed positive affirmations"
    );
}

#[test]
fn test_mood_thirsty() {
    let affirmations =
        load_affirmations_with_mood("thirsty").expect("failed to load thirsty mood");

    // Expect: at least one positive and one negative
    assert!(
        !affirmations.positive.is_empty(),
        "expected at least one positive affirmation in thirsty"
    );
    assert!(
        !affirmations.negative.is_empty(),
        "expected at least one negative affirmation in thirsty"
    );
}

#[test]
fn test_mood_fallback_on_invalid() {
    let affirmations =
        load_affirmations_with_mood("nonexistent").expect("should fallback to default");

    // Expect: falls back to the chill set
    assert!(
        !affirmations.positive.is_empty(),
        "expected fallback positive affirmations"
    );
    assert!(
        !affirmations.negative.is_empty(),
        "expected fallback negative affirmations"
    );
}

#[test]
fn test_load_affirmations_top_level() {
    let aff = load_affirmations().unwrap();
    assert!(!aff.positive.is_empty());
    assert!(!aff.negative.is_empty());
}

fn tiny_table() -> AffirmationsFile {
    AffirmationsFile {
        moods: vec![(
            "chill".to_string(),
            MoodSet {
                positive: vec!["cp".to_string()],
                negative: vec!["cn".to_string()],
            },
        )],
        positive: vec!["tp".to_string()],
        negative: vec!["tn".to_string()],
    }
}

#[test]
fn test_resolution_falls_back_to_chill() {
    let file = tiny_table();
    let aff = resolve_mood(&file, "other");
    assert_eq!(aff.positive, vec!["cp"]);
    assert_eq!(aff.negative, vec!["cn"]);
}

#[test]
fn test_resolution_falls_back_to_top_level() {
    let file = AffirmationsFile {
        moods: Vec::new(),
        positive: vec!["tp".to_string()],
        negative: Vec::new(),
    };
    let aff = resolve_mood(&file, "other");
    assert_eq!(aff.positive, vec!["tp"]);
    assert!(aff.negative.is_empty());
}

#[test]
fn test_resolution_exact_match_wins() {
    let file = tiny_table();
    let aff = resolve_mood(&file, "chill");
    assert_eq!(aff.positive, vec!["cp"]);
}

#[test]
fn test_mix_certain_appends() {
    let file = embedded_affirmations();
    let primary = resolve_mood(&file, "ominous");
    let secondary = resolve_mood(&file, "thirsty");
    let mixed = mix(&file, "ominous", "thirsty", 5, 5).expect("both moods exist");

    assert_eq!(mixed.positive.len(), primary.positive.len());
    let changed: Vec<usize> = (0..mixed.positive.len())
        .filter(|&i| mixed.positive[i] != primary.positive[i])
        .collect();
    assert_eq!(changed.len(), 1, "exactly one positive phrase gains an append");
    let i = changed[0];
    let found = secondary
        .positive
        .iter()
        .any(|s| mixed.positive[i] == format!("{} {}", primary.positive[i], s));
    assert!(found, "the appended text is a secondary positive phrase");

    let changed_neg: Vec<usize> = (0..mixed.negative.len())
        .filter(|&i| mixed.negative[i] != primary.negative[i])
        .collect();
    assert_eq!(changed_neg.len(), 1, "exactly one negative phrase gains an append");
}

#[test]
fn test_mix_never_appends_at_zero() {
    let file = embedded_affirmations();
    let primary = resolve_mood(&file, "ominous");
    let mixed = mix(&file, "ominous", "thirsty", 0, 5).expect("both moods exist");
    assert_eq!(mixed.positive, primary.positive);
    assert_eq!(mixed.negative, primary.negative);
}

#[test]
fn test_mix_unknown_mood_fails() {
    let file = embedded_affirmations();
    assert!(mix(&file, "unknown", "thirsty", 5, 5).is_none());
    assert!(mix(&file, "ominous", "unknown", 5, 5).is_none());
}
