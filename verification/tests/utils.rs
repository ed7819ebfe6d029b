use shell_mommy::config::load_config;
use shell_mommy::utils::{fill_template, parse_string, random_string_pick, random_vec_pick};

#[test]
fn test_parse_string() {
    let s = "one/two/three";
    let v = parse_string(s);
    assert_eq!(v, vec!["one", "two", "three"]);
}

#[test]
fn test_parse_string_with_spaces() {
    let s = "one    / two/      three ";
    let v = parse_string(s);
    assert_eq!(v, vec!["one", "two", "three"]);
}

#[test]
fn test_parse_empty_string() {
    let s = "///   / ";
    let v = parse_string(s);
    assert!(v.is_empty());
}

#[test]
fn test_parse_string_mixed_spacing() {
    let v = parse_string("one / two/three ");
    assert_eq!(v, vec!["one", "two", "three"]);
}

#[test]
fn test_parse_string_only_separators() {
    let v = parse_string("/// /");
    assert!(v.is_empty());
}

#[test]
fn test_parse_string_lowercases() {
    let v = parse_string("One/TWO");
    assert_eq!(v, vec!["one", "two"]);
}

#[test]
fn test_pick_empty_string() {
    assert!(random_string_pick("").is_none());
    assert!(random_string_pick("   ///   ").is_none());
}

#[test]
fn test_pick_some_string() {
    fastrand::seed(42);
    let pick = random_string_pick("one/two/three").unwrap();
    let pick2 = random_string_pick("one/two/three").unwrap();
    let pick3 = random_string_pick("one/two/three").unwrap();

    assert_eq!(pick, "three");
    assert_eq!(pick2, "two");
    assert_eq!(pick3, "three");
}

#[test]
fn test_pick_is_member() {
    let list = vec!["a".to_string(), "b".to_string(), "c".to_string()];
    for _ in 0..50 {
        let picked = random_vec_pick(&list).unwrap();
        assert!(list.iter().any(|s| s == picked));
    }
    let empty: Vec<String> = Vec::new();
    assert!(random_vec_pick(&empty).is_none());
}

#[test]
fn test_fill_template() {
    fastrand::seed(42);
    let env: Vec<(String, String)> = Vec::new();
    let mut config = load_config(&env, "mommy");
    config.roles = vec!["daddy".to_string(), "mommy".to_string()];
    config.pronouns = vec!["his".to_string(), "her".to_string()];
    config.little = vec!["baby".to_string()];
    config.emotes = vec!["\u{2764}\u{fe0f}\u{200d}\u{1f525}".to_string(), "\u{1f913}".to_string()];

    let template = fill_template(
        "{roles} thinks {pronouns} {little} earned a big hug~ {emotes}",
        &config,
    );
    assert_eq!(
        template,
        "mommy thinks his baby earned a big hug~ \u{2764}\u{fe0f}\u{200d}\u{1f525}"
    );
}

#[test]
fn test_fill_template_singletons_fixed() {
    let env: Vec<(String, String)> = Vec::new();
    let mut config = load_config(&env, "mommy");
    config.roles = vec!["mommy".to_string()];
    config.pronouns = vec!["her".to_string()];
    config.little = vec!["girl".to_string()];
    config.emotes = vec!["e".to_string()];
    for _ in 0..20 {
        let filled = fill_template("{roles} {pronouns} {little} {emotes}", &config);
        assert_eq!(filled, "mommy her girl e");
    }
}

#[test]
fn test_fill_template_newlines_become_spaces() {
    let env: Vec<(String, String)> = Vec::new();
    let mut config = load_config(&env, "mommy");
    config.roles = vec!["mommy".to_string()];
    let filled = fill_template("a\nb {roles}\n", &config);
    assert_eq!(filled, "a b mommy ");
}

#[test]
fn test_fill_template_unknown_braces_pass_through() {
    let env: Vec<(String, String)> = Vec::new();
    let config = load_config(&env, "mommy");
    let filled = fill_template("{nope} stays", &config);
    assert_eq!(filled, "{nope} stays");
}

#[test]
fn test_fill_template_empty_lists_use_defaults() {
    let env: Vec<(String, String)> = Vec::new();
    let mut config = load_config(&env, "mommy");
    config.roles = Vec::new();
    config.pronouns = Vec::new();
    config.little = Vec::new();
    let filled = fill_template("{roles}/{pronouns}/{little}", &config);
    assert_eq!(filled, "mommy/her/girl");
}
