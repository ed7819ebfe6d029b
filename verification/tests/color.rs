use shell_mommy::color::{
    apply_style_attr, color_from_name, color_from_rgb, random_style_pick, Color, StyleDescriptor,
};
use shell_mommy::config::load_config;

#[test]
fn test_color_names() {
    // Make sure all colors are correctly evaluated:
    assert_eq!(color_from_name("black"), Some(Color::Black));
    assert_eq!(color_from_name("red"), Some(Color::Red));
    assert_eq!(color_from_name("green"), Some(Color::Green));
    assert_eq!(color_from_name("yellow"), Some(Color::Yellow));
    assert_eq!(color_from_name("blue"), Some(Color::Blue));
    assert_eq!(color_from_name("purple"), Some(Color::Purple));
    assert_eq!(color_from_name("magenta"), Some(Color::Purple));
    assert_eq!(color_from_name("cyan"), Some(Color::Cyan));
    assert_eq!(color_from_name("white"), Some(Color::White));
}

#[test]
fn test_invalid_color() {
    // Not valid color name:
    assert_eq!(color_from_name("not a color"), None);
    assert_eq!(color_from_name(""), None);
}

#[test]
fn test_rgb_color_ok() {
    // Well-formatted:
    let c = color_from_rgb("10,20,30");
    assert_eq!(c, Some(Color::Rgb(10, 20, 30)));

    // With random spaces:
    let c2 = color_from_rgb("  0 ,255, 128  ");
    assert_eq!(c2, Some(Color::Rgb(0, 255, 128)));
}

#[test]
fn test_rgb_color_plus_and_zeros() {
    // The standard unsigned parse accepts a leading plus and extra zeros.
    assert_eq!(color_from_rgb("+10, 020 ,30"), Some(Color::Rgb(10, 20, 30)));
    assert_eq!(color_from_rgb("255,255,255"), Some(Color::Rgb(255, 255, 255)));
}

#[test]
fn test_rgb_color_err() {
    // Wrong amount:
    assert_eq!(color_from_rgb("10,20"), None);
    assert_eq!(color_from_rgb("1,2,3,4"), None);

    // Non-numeric:
    assert_eq!(color_from_rgb("a,b,c"), None);

    // Out of range:
    assert_eq!(color_from_rgb("256,0,0"), None);
}

fn render(d: &StyleDescriptor) -> ansi_term::Style {
    let mut style = ansi_term::Style::new();
    if let Some(c) = d.color {
        let ac = match c {
            Color::Black => ansi_term::Color::Black,
            Color::Red => ansi_term::Color::Red,
            Color::Green => ansi_term::Color::Green,
            Color::Yellow => ansi_term::Color::Yellow,
            Color::Blue => ansi_term::Color::Blue,
            Color::Purple => ansi_term::Color::Purple,
            Color::Cyan => ansi_term::Color::Cyan,
            Color::White => ansi_term::Color::White,
            Color::Rgb(r, g, b) => ansi_term::Color::RGB(r, g, b),
        };
        style = style.fg(ac);
    }
    if d.bold {
        style = style.bold();
    }
    if d.italic {
        style = style.italic();
    }
    if d.dimmed {
        style = style.dimmed();
    }
    if d.underline {
        style = style.underline();
    }
    if d.blink {
        style = style.blink();
    }
    if d.reverse {
        style = style.reverse();
    }
    if d.hidden {
        style = style.hidden();
    }
    style
}

#[test]
fn test_color_style() {
    // Not RGB and bold:
    let env: Vec<(String, String)> = Vec::new();
    let mut config = load_config(&env, "mommy");
    config.colors = vec!["red".to_string()];
    config.styles = vec![vec!["bold".to_string()]];
    config.color_rgb = None;

    let styled = random_style_pick(&config);
    let output = render(&styled).paint("Test").to_string();

    // 1 = bold, 31 = red
    // Expect: \x1b[1;31mTest\x1b[0m
    assert!(
        output.starts_with("\x1b[1;31m"),
        "expected string start: '\x1b[1;31m'"
    );
    assert!(
        output.ends_with("Test\x1b[0m"),
        "expected string end: 'Test\x1b[0m'"
    );
}

#[test]
fn test_rgb_with_two_styles() {
    // RGB and two styles:
    let env: Vec<(String, String)> = Vec::new();
    let mut config = load_config(&env, "mommy");
    config.styles = vec![vec!["underline".to_string(), "italic".to_string()]];
    config.color_rgb = Some(vec!["128,0,255".to_string()]);

    let styled = random_style_pick(&config);
    let output = render(&styled).paint("Test").to_string();

    // italic = 3, underline = 4, RGB = 38;2;R;G;B
    // Expect: \x1b[3;4;38;2;128;0;255m
    assert!(
        output.starts_with("\x1b[3;4;38;2;128;0;255m"),
        "expected string start: '\x1b[3;4;38;2;128;0;255m'"
    );
    assert!(
        output.ends_with("Test\x1b[0m"),
        "expected string end: 'Test\x1b[0m'"
    );
}

#[test]
fn test_apply_style_attr_tokens() {
    let d = StyleDescriptor::plain();
    let d = apply_style_attr(d, "bold");
    let d = apply_style_attr(d, "unknown");
    let d = apply_style_attr(d, "blink");
    assert!(d.bold && d.blink);
    assert!(!d.italic && !d.dimmed && !d.underline && !d.reverse && !d.hidden);
    assert_eq!(d.color, None);
}

#[test]
fn test_rgb_takes_precedence_over_names() {
    let env: Vec<(String, String)> = Vec::new();
    let mut config = load_config(&env, "mommy");
    config.colors = vec!["red".to_string()];
    config.color_rgb = Some(vec!["1,2,3".to_string()]);
    let styled = random_style_pick(&config);
    assert_eq!(styled.color, Some(Color::Rgb(1, 2, 3)));
}

#[test]
fn test_bad_rgb_candidate_sets_no_color() {
    let env: Vec<(String, String)> = Vec::new();
    let mut config = load_config(&env, "mommy");
    config.color_rgb = Some(vec!["256,0,0".to_string()]);
    let styled = random_style_pick(&config);
    assert_eq!(styled.color, None);
}
