use shell_mommy::config::{
    env_with_fallback, get_env_prefix, load_config, role_from_name, ConfigMommy,
};

fn env_of(pairs: &[(&str, &str)]) -> Vec<(String, String)> {
    pairs
        .iter()
        .map(|(k, v)| (k.to_string(), v.to_string()))
        .collect()
}

#[test]
fn test_env_with_fallback_prefers_primary_key() {
    let env = env_of(&[
        ("CARGO_MOMMYS_PRONOUNS", "their"),
        ("SHELL_MOMMYS_PRONOUNS", "her"),
    ]);

    let value = env_with_fallback(&env, "CARGO_MOMMYS", "PRONOUNS");
    assert_eq!(value.as_deref(), Some("their"));
}

#[test]
fn test_env_with_fallback_uses_shell_backup() {
    let env = env_of(&[("SHELL_MOMMYS_PRONOUNS", "hers")]);

    let value = env_with_fallback(&env, "CARGO_MOMMYS", "PRONOUNS");
    assert_eq!(value.as_deref(), Some("hers"));
}

#[test]
fn test_env_with_fallback_no_backup_for_legacy_prefix() {
    let env = env_of(&[("SHELL_MOMMYS_PRONOUNS", "hers")]);
    let value = env_with_fallback(&env, "OTHER", "PRONOUNS");
    assert_eq!(value, None);
}

#[test]
fn test_default_vars() {
    let env: Vec<(String, String)> = Vec::new();
    let config: ConfigMommy = load_config(&env, "mommy");

    // Expect: all defaults
    assert_eq!(config.pronouns, vec!["her"]);
    assert!(config.roles == vec!["mommy"] || config.roles == vec!["daddy"]);
    assert_eq!(config.little, vec!["girl"]);
    assert_eq!(
        config.emotes,
        vec!["\u{1f496}", "\u{1f497}", "\u{1f493}", "\u{1f49e}"]
    );
    assert_eq!(config.colors, vec!["white"]);
    assert_eq!(config.styles, vec![vec!["bold"]]);
    assert_eq!(config.color_rgb, None);
    assert_eq!(config.aliases, None);
    assert_eq!(config.affirmations, None);
    assert!(!config.needy);
    assert!(!config.only_negative);
    assert_eq!(config.moods, vec!["chill"]);
    assert!(!config.quiet);
    assert_eq!(config.recursion_limit, 0);
}

#[test]
fn test_custom_vars() {
    let env = env_of(&[
        ("SHELL_MOMMYS_PRONOUNS", "his"),
        ("SHELL_MOMMYS_ROLES", "daddy"),
        ("SHELL_MOMMYS_COLOR_RGB", "255,255,255"),
        ("SHELL_MOMMYS_NEEDY", "1"),
        ("SHELL_MOMMY_ONLY_NEGATIVE", "1"),
        ("SHELL_MOMMYS_MOODS", "ominous/thirsty"),
    ]);
    let config = load_config(&env, "mommy");

    // Expect: pronouns: his; role: daddy; color_rgb: 255,255,255; needy: 1;
    // only_negative: 1; moods: ominous/thirsty
    assert_eq!(config.pronouns, vec!["his"]);
    assert_eq!(config.roles, vec!["daddy"]);
    assert_eq!(config.color_rgb, Some(vec!["255,255,255".to_string()]));
    assert!(config.needy, "expected 1, got {:#?}", config.needy);
    assert!(
        config.only_negative,
        "expected 1, got {:#?}",
        config.only_negative
    );
    assert_eq!(config.moods, vec!["ominous", "thirsty"]);
}

#[test]
fn test_cargo_prefix_vars() {
    let env = env_of(&[
        ("CARGO_MOMMYS_PRONOUNS", "their"),
        ("CARGO_MOMMYS_ROLES", "parent"),
        ("CARGO_MOMMYS_LITTLE", "child"),
    ]);
    let config = load_config(&env, "cargo-mommy");

    assert!(!config.pronouns.is_empty());
    assert!(!config.roles.is_empty());
    assert!(!config.little.is_empty());
}

#[test]
fn test_cargo_prefix_values_apply() {
    let env = env_of(&[
        ("CARGO_MOMMYS_PRONOUNS", "their"),
        ("CARGO_MOMMYS_ROLES", "parent"),
        ("CARGO_MOMMYS_LITTLE", "child"),
    ]);
    let config = load_config(&env, "cargo-mommy");
    assert_eq!(config.pronouns, vec!["their"]);
    assert_eq!(config.roles, vec!["parent"]);
    assert_eq!(config.little, vec!["child"]);
    assert!(config.is_cargo);
}

#[test]
fn test_role_detection() {
    assert_eq!(role_from_name("mommy"), "mommy");
    assert_eq!(role_from_name("cargo-mommy"), "mommy");
    assert_eq!(role_from_name("cargo-daddy"), "daddy");
    assert_eq!(role_from_name("daddy"), "daddy");
    assert_eq!(role_from_name("something-else"), "mommy");
}

#[test]
fn test_env_prefix_by_binary() {
    assert_eq!(get_env_prefix("cargo-mommy"), "CARGO_MOMMYS");
    assert_eq!(get_env_prefix("cargo-daddy"), "CARGO_DADDYS");
    assert_eq!(get_env_prefix("mommy"), "SHELL_MOMMYS");
    assert_eq!(get_env_prefix("anything"), "SHELL_MOMMYS");
}

#[test]
fn test_recursion_counter_parsing() {
    let env = env_of(&[("CARGO_MOMMY_RECURSION_LIMIT", "42")]);
    assert_eq!(load_config(&env, "mommy").recursion_limit, 42);

    let env = env_of(&[("SHELL_MOMMY_RECURSION_LIMIT", "7")]);
    assert_eq!(load_config(&env, "mommy").recursion_limit, 7);

    let env = env_of(&[("CARGO_MOMMY_RECURSION_LIMIT", "abc")]);
    assert_eq!(load_config(&env, "mommy").recursion_limit, 0);
}

#[test]
fn test_flag_requires_exact_one() {
    let env = env_of(&[("SHELL_MOMMYS_NEEDY", "true")]);
    assert!(!load_config(&env, "mommy").needy);
    let env = env_of(&[("SHELL_MOMMYS_MOOD_MIXING", "1")]);
    assert!(load_config(&env, "mommy").mood_mixing);
}

#[test]
fn test_style_combinations_parse() {
    let env = env_of(&[("SHELL_MOMMYS_STYLE", "bold, italic / underline /  ")]);
    let config = load_config(&env, "mommy");
    assert_eq!(
        config.styles,
        vec![vec!["bold".to_string(), "italic".to_string()], vec!["underline".to_string()]]
    );
}

#[test]
fn test_empty_list_gets_default_token() {
    let env = env_of(&[("SHELL_MOMMYS_PRONOUNS", "///   / ")]);
    let config = load_config(&env, "mommy");
    assert_eq!(config.pronouns, vec!["her"]);
}
