use shell_mommy::affirmations::{embedded_affirmations, resolve_mood, Affirmations};
use shell_mommy::config::load_config;
use shell_mommy::mommy::{
    check_role_transformation, compose_message, is_quiet_mode_enabled, join_args, plan_run,
    recursion_exceeded, select_affirmations, shell_command, transformed_binary_name,
    usage_message, RunPlan,
};

fn strings(parts: &[&str]) -> Vec<String> {
    parts.iter().map(|s| s.to_string()).collect()
}

#[test]
fn test_recursion_guard() {
    assert!(!recursion_exceeded(0));
    assert!(!recursion_exceeded(99));
    assert!(recursion_exceeded(100));
    assert!(recursion_exceeded(200));
}

#[test]
fn test_quiet_detection() {
    assert!(is_quiet_mode_enabled(&strings(&["mommy", "ls", "--quiet"])));
    assert!(is_quiet_mode_enabled(&strings(&["mommy", "-q", "ls"])));
    assert!(!is_quiet_mode_enabled(&strings(&["mommy", "ls"])));
}

#[test]
fn test_role_transformation_request() {
    let args = strings(&["mommy", "i", "mean", "daddy"]);
    assert_eq!(check_role_transformation(&args).as_deref(), Some("daddy"));
    let args = strings(&["mommy", "echo", "i", "mean", "grandma"]);
    assert_eq!(check_role_transformation(&args).as_deref(), Some("grandma"));
    let args = strings(&["mommy", "i", "mean"]);
    assert_eq!(check_role_transformation(&args), None);
    let args = strings(&["mommy", "echo", "hi"]);
    assert_eq!(check_role_transformation(&args), None);
}

#[test]
fn test_transformed_binary_name() {
    assert_eq!(transformed_binary_name("daddy", true), "cargo-daddy");
    assert_eq!(transformed_binary_name("daddy", false), "daddy");
}

#[test]
fn test_join_and_shell_command() {
    let parts = strings(&["echo", "a", "b"]);
    assert_eq!(join_args(&parts), "echo a b");
    assert_eq!(shell_command(&parts, &None), "echo a b");
    assert_eq!(
        shell_command(&parts, &Some("/tmp/aliases.sh".to_string())),
        "shopt -s expand_aliases; source \"/tmp/aliases.sh\"; eval echo a b"
    );
}

#[test]
fn test_usage_lines() {
    assert_eq!(
        usage_message("mommy", "mommy", false, false),
        "mommy <command> [args ...]"
    );
    assert_eq!(
        usage_message("mommy", "mommy", false, true),
        "mommy <exit_code>"
    );
    assert_eq!(
        usage_message("cargo-mommy", "mommy", true, false),
        "cargo mommy <cargo-command> [args...]"
    );
}

#[test]
fn test_plan_recursion_limit_wins() {
    let env = vec![("SHELL_MOMMY_RECURSION_LIMIT".to_string(), "100".to_string())];
    let config = load_config(&env, "mommy");
    let plan = plan_run(&config, &strings(&["mommy", "ls"]));
    assert!(matches!(plan, RunPlan::RecursionExceeded));
}

#[test]
fn test_plan_usage_on_missing_args() {
    let env: Vec<(String, String)> = Vec::new();
    let config = load_config(&env, "mommy");
    let plan = plan_run(&config, &strings(&["mommy"]));
    match plan {
        RunPlan::Usage(u) => assert_eq!(u, "mommy <command> [args ...]"),
        _ => panic!("expected a usage plan"),
    }
}

#[test]
fn test_plan_transform() {
    let env: Vec<(String, String)> = Vec::new();
    let config = load_config(&env, "mommy");
    let plan = plan_run(&config, &strings(&["mommy", "i", "mean", "daddy"]));
    match plan {
        RunPlan::Transform(role) => assert_eq!(role, "daddy"),
        _ => panic!("expected a transform plan"),
    }
}

#[test]
fn test_plan_needy_zero_spawns_nothing() {
    let env = vec![("SHELL_MOMMYS_NEEDY".to_string(), "1".to_string())];
    let config = load_config(&env, "mommy");
    let plan = plan_run(&config, &strings(&["mommy", "0"]));
    match plan {
        RunPlan::NeedyExit(code) => assert_eq!(code, 0),
        _ => panic!("expected a needy exit"),
    }
}

#[test]
fn test_plan_needy_non_numeric_is_error() {
    let env = vec![("SHELL_MOMMYS_NEEDY".to_string(), "1".to_string())];
    let config = load_config(&env, "mommy");
    let plan = plan_run(&config, &strings(&["mommy", "zero"]));
    assert!(matches!(plan, RunPlan::NeedyError));
}

#[test]
fn test_plan_shell_command() {
    let env: Vec<(String, String)> = Vec::new();
    let config = load_config(&env, "mommy");
    let plan = plan_run(&config, &strings(&["mommy", "echo", "please", "hi"]));
    match plan {
        RunPlan::ShellCmd(cmd) => assert_eq!(cmd, "echo hi"),
        _ => panic!("expected a shell plan"),
    }
}

#[test]
fn test_plan_cargo_command() {
    let env = vec![("CARGO_MOMMY_RECURSION_LIMIT".to_string(), "3".to_string())];
    let config = load_config(&env, "cargo-mommy");
    let plan = plan_run(&config, &strings(&["cargo-mommy", "cargo", "build"]));
    match plan {
        RunPlan::CargoCmd(args, counter) => {
            assert_eq!(args, vec!["build"]);
            assert_eq!(counter, 4);
        },
        _ => panic!("expected a cargo plan"),
    }
}

fn singleton_config() -> shell_mommy::config::ConfigMommy {
    let env: Vec<(String, String)> = Vec::new();
    let mut config = load_config(&env, "mommy");
    config.roles = vec!["mommy".to_string()];
    config.pronouns = vec!["her".to_string()];
    config.little = vec!["girl".to_string()];
    config.emotes = vec!["e".to_string()];
    config
}

#[test]
fn test_compose_quiet_suppresses_output() {
    let mut config = singleton_config();
    config.quiet = true;
    let aff = Affirmations {
        positive: vec!["yay {roles}".to_string()],
        negative: vec!["aw {roles}".to_string()],
    };
    assert_eq!(compose_message(&config, 0, Some(&aff)), None);
    assert_eq!(compose_message(&config, 1, Some(&aff)), None);
}

#[test]
fn test_compose_only_negative_skips_success() {
    let mut config = singleton_config();
    config.only_negative = true;
    let aff = Affirmations {
        positive: vec!["yay {roles}".to_string()],
        negative: vec!["aw {roles}".to_string()],
    };
    assert_eq!(compose_message(&config, 0, Some(&aff)), None);
    // Failure still speaks.
    assert_eq!(
        compose_message(&config, 1, Some(&aff)).as_deref(),
        Some("aw mommy")
    );
}

#[test]
fn test_compose_success_uses_positive() {
    let config = singleton_config();
    let aff = Affirmations {
        positive: vec!["yay {roles}".to_string()],
        negative: vec!["aw {roles}".to_string()],
    };
    assert_eq!(
        compose_message(&config, 0, Some(&aff)).as_deref(),
        Some("yay mommy")
    );
}

#[test]
fn test_compose_failure_uses_negative() {
    let config = singleton_config();
    let aff = Affirmations {
        positive: vec!["yay {roles}".to_string()],
        negative: vec!["aw {roles}".to_string()],
    };
    assert_eq!(
        compose_message(&config, 3, Some(&aff)).as_deref(),
        Some("aw mommy")
    );
}

#[test]
fn test_compose_fallback_phrase() {
    let config = singleton_config();
    assert_eq!(
        compose_message(&config, 0, None).as_deref(),
        Some("mommy failed to load any affirmations, girl~ e")
    );
    let empty = Affirmations {
        positive: Vec::new(),
        negative: vec!["aw {roles}".to_string()],
    };
    assert_eq!(
        compose_message(&config, 0, Some(&empty)).as_deref(),
        Some("mommy failed to load any affirmations, girl~ e")
    );
}

#[test]
fn test_select_affirmations_plain() {
    let env: Vec<(String, String)> = Vec::new();
    let mut config = load_config(&env, "mommy");
    config.moods = vec!["chill".to_string()];
    let file = embedded_affirmations();
    let selected = select_affirmations(&file, &config);
    let chill = resolve_mood(&file, "chill");
    assert_eq!(selected.positive, chill.positive);
    assert_eq!(selected.negative, chill.negative);
}
