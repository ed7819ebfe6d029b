//! Colors and style attributes as plain values.
//!
//! A style descriptor holds everything the terminal renderer needs: an
//! optional foreground color and the recognized attribute flags.  Turning
//! a descriptor into escape sequences is the renderer's business, outside
//! this library.

use crate::config::ConfigMommy;
use crate::numbers::{parse_u8_chars, parse_u8_spec};
use crate::rand::random_below;
use crate::strings::{chars_of, raw_split, raw_split_chars, str_eq, trim_chars, trim_ws};
use vstd::prelude::*;

verus! {

/// A foreground color: one of the eight named terminal colors, or an
/// exact RGB triple.
#[derive(Clone, Copy, Debug, PartialEq, Eq, Structural)]
pub enum Color {
    Black,
    Red,
    Green,
    Yellow,
    Blue,
    Purple,
    Cyan,
    White,
    Rgb(u8, u8, u8),
}

/// A renderable style: an optional foreground color plus attribute flags.
#[derive(Clone, Copy, Debug, PartialEq, Eq, Structural)]
pub struct StyleDescriptor {
    pub color: Option<Color>,
    pub bold: bool,
    pub italic: bool,
    pub dimmed: bool,
    pub underline: bool,
    pub blink: bool,
    pub reverse: bool,
    pub hidden: bool,
}

impl StyleDescriptor {
    /// The plain style: no color, no attributes.
    pub fn plain() -> (r: StyleDescriptor)
        ensures
            r == (StyleDescriptor {
                color: None,
                bold: false,
                italic: false,
                dimmed: false,
                underline: false,
                blink: false,
                reverse: false,
                hidden: false,
            }),
    {
        StyleDescriptor {
            color: None,
            bold: false,
            italic: false,
            dimmed: false,
            underline: false,
            blink: false,
            reverse: false,
            hidden: false,
        }
    }
}

/// The color a name denotes in the fixed table; both "purple" and
/// "magenta" denote the same color, and unknown names denote none.
pub open spec fn color_of_name(name: Seq<char>) -> Option<Color> {
    if name == "black"@ {
        Some(Color::Black)
    } else if name == "red"@ {
        Some(Color::Red)
    } else if name == "green"@ {
        Some(Color::Green)
    } else if name == "yellow"@ {
        Some(Color::Yellow)
    } else if name == "blue"@ {
        Some(Color::Blue)
    } else if name == "purple"@ || name == "magenta"@ {
        Some(Color::Purple)
    } else if name == "cyan"@ {
        Some(Color::Cyan)
    } else if name == "white"@ {
        Some(Color::White)
    } else {
        None
    }
}

/// Maps a color name through the fixed table.
pub fn color_from_name(name: &str) -> (r: Option<Color>)
    ensures
        r == color_of_name(name@),
{
    if str_eq(name, "black") {
        Some(Color::Black)
    } else if str_eq(name, "red") {
        Some(Color::Red)
    } else if str_eq(name, "green") {
        Some(Color::Green)
    } else if str_eq(name, "yellow") {
        Some(Color::Yellow)
    } else if str_eq(name, "blue") {
        Some(Color::Blue)
    } else if str_eq(name, "purple") || str_eq(name, "magenta") {
        Some(Color::Purple)
    } else if str_eq(name, "cyan") {
        Some(Color::Cyan)
    } else if str_eq(name, "white") {
        Some(Color::White)
    } else {
        None
    }
}

/// The triple an "R,G,B" string denotes: exactly three comma-separated
/// pieces, each a trimmed decimal that fits in eight bits.
pub open spec fn rgb_spec(s: Seq<char>) -> Option<(u8, u8, u8)> {
    let ps = raw_split(s, ',');
    if ps.len() == 3 {
        match (parse_u8_spec(trim_ws(ps[0])), parse_u8_spec(trim_ws(ps[1])), parse_u8_spec(
            trim_ws(ps[2]),
        )) {
            (Some(a), Some(b), Some(c)) => Some((a, b, c)),
            _ => None,
        }
    } else {
        None
    }
}

/// The color an "R,G,B" string denotes, if any.
pub open spec fn rgb_color_opt(s: Seq<char>) -> Option<Color> {
    match rgb_spec(s) {
        Some((a, b, c)) => Some(Color::Rgb(a, b, c)),
        None => None,
    }
}

/// Parses an "R,G,B" string: any other arity, a non-numeric piece, or an
/// out-of-range value yields `None`.
pub fn color_from_rgb(rgb_str: &str) -> (r: Option<Color>)
    ensures
        r == rgb_color_opt(rgb_str@),
{
    let v = chars_of(rgb_str);
    let parts = raw_split_chars(&v, ',');
    if parts.len() != 3 {
        return None;
    }
    assert(parts.deep_view()[0] == parts@[0]@);
    assert(parts.deep_view()[1] == parts@[1]@);
    assert(parts.deep_view()[2] == parts@[2]@);
    let t0 = trim_chars(&parts[0]);
    let t1 = trim_chars(&parts[1]);
    let t2 = trim_chars(&parts[2]);
    let a = parse_u8_chars(&t0);
    let b = parse_u8_chars(&t1);
    let c = parse_u8_chars(&t2);
    match (a, b, c) {
        (Some(a), Some(b), Some(c)) => Some(Color::Rgb(a, b, c)),
        _ => None,
    }
}

/// One attribute token applied to a style: the seven recognized tokens
/// set their flag; every other token leaves the style unchanged.
pub open spec fn apply_attr_spec(st: StyleDescriptor, attr: Seq<char>) -> StyleDescriptor {
    if attr == "bold"@ {
        StyleDescriptor { bold: true, ..st }
    } else if attr == "italic"@ {
        StyleDescriptor { italic: true, ..st }
    } else if attr == "dimmed"@ {
        StyleDescriptor { dimmed: true, ..st }
    } else if attr == "underline"@ {
        StyleDescriptor { underline: true, ..st }
    } else if attr == "blink"@ {
        StyleDescriptor { blink: true, ..st }
    } else if attr == "reverse"@ {
        StyleDescriptor { reverse: true, ..st }
    } else if attr == "hidden"@ {
        StyleDescriptor { hidden: true, ..st }
    } else {
        st
    }
}

/// Applies one style-attribute token; unrecognized tokens are ignored.
pub fn apply_style_attr(style: StyleDescriptor, attr: &str) -> (r: StyleDescriptor)
    ensures
        r == apply_attr_spec(style, attr@),
{
    if str_eq(attr, "bold") {
        StyleDescriptor { bold: true, ..style }
    } else if str_eq(attr, "italic") {
        StyleDescriptor { italic: true, ..style }
    } else if str_eq(attr, "dimmed") {
        StyleDescriptor { dimmed: true, ..style }
    } else if str_eq(attr, "underline") {
        StyleDescriptor { underline: true, ..style }
    } else if str_eq(attr, "blink") {
        StyleDescriptor { blink: true, ..style }
    } else if str_eq(attr, "reverse") {
        StyleDescriptor { reverse: true, ..style }
    } else if str_eq(attr, "hidden") {
        StyleDescriptor { hidden: true, ..style }
    } else {
        style
    }
}

/// A whole combination applied in order.
pub open spec fn apply_combo_spec(st: StyleDescriptor, attrs: Seq<Seq<char>>) -> StyleDescriptor
    decreases attrs.len(),
{
    if attrs.len() == 0 {
        st
    } else {
        apply_combo_spec(apply_attr_spec(st, attrs[0]), attrs.skip(1))
    }
}

/// How the color axis may be drawn from the configuration: one of the
/// RGB candidates when that list is present and non-empty, else one of
/// the named colors when that list is non-empty, else no color.
pub open spec fn color_choice(c: ConfigMommy, col: Option<Color>) -> bool {
    match c.color_rgb {
        Some(list) => if list@.len() > 0 {
            exists|i: int| 0 <= i < list@.len() && col == rgb_color_opt(#[trigger] list@[i]@)
        } else {
            col is None
        },
        None => if c.colors@.len() > 0 {
            exists|i: int| 0 <= i < c.colors@.len() && col == color_of_name(#[trigger] c.colors@[i]@)
        } else {
            col is None
        },
    }
}

/// How the final style relates to a drawn color: one configured
/// combination applied to it, or unchanged when none is configured.
pub open spec fn styled_from(c: ConfigMommy, col: Option<Color>, r: StyleDescriptor) -> bool {
    let base = StyleDescriptor {
        color: col,
        bold: false,
        italic: false,
        dimmed: false,
        underline: false,
        blink: false,
        reverse: false,
        hidden: false,
    };
    if c.styles@.len() > 0 {
        exists|j: int|
            0 <= j < c.styles@.len() && r == apply_combo_spec(
                base,
                #[trigger] c.styles@[j].deep_view(),
            )
    } else {
        r == base
    }
}

/// A style resolved from the configuration by independent draws.
pub open spec fn style_pick_rel(c: ConfigMommy, r: StyleDescriptor) -> bool {
    exists|col: Option<Color>| #[trigger] color_choice(c, col) && styled_from(c, col, r)
}

/// Draws a color and a style combination from the configuration and
/// composes the resulting descriptor.  RGB candidates take precedence
/// over named colors; a candidate that fails to parse, or an unknown
/// color name, sets no color.
pub fn random_style_pick(config: &ConfigMommy) -> (r: StyleDescriptor)
    ensures
        style_pick_rel(*config, r),
{
    let mut col: Option<Color> = None;
    match &config.color_rgb {
        Some(list) => {
            if list.len() > 0 {
                let idx = random_below(list.len());
                col = color_from_rgb(list[idx].as_str());
            }
        },
        None => {
            if config.colors.len() > 0 {
                let idx = random_below(config.colors.len());
                col = color_from_name(config.colors[idx].as_str());
            }
        },
    }
    assert(color_choice(*config, col));
    let base = StyleDescriptor {
        color: col,
        bold: false,
        italic: false,
        dimmed: false,
        underline: false,
        blink: false,
        reverse: false,
        hidden: false,
    };
    let mut st = base;
    if config.styles.len() > 0 {
        let j = random_below(config.styles.len());
        let combo = &config.styles[j];
        let ghost dv = combo.deep_view();
        let mut k: usize = 0;
        assert(dv.skip(0) =~= dv);
        while k < combo.len()
            invariant
                k <= combo@.len(),
                dv == combo.deep_view(),
                apply_combo_spec(base, dv) == apply_combo_spec(st, dv.skip(k as int)),
            decreases combo@.len() - k,
        {
            assert(dv.skip(k as int)[0] == dv[k as int]);
            assert(dv.skip(k as int).skip(1) =~= dv.skip(k + 1 as int));
            st = apply_style_attr(st, combo[k].as_str());
            k += 1;
        }
        assert(dv.skip(k as int).len() == 0);
        assert(styled_from(*config, col, st));
    } else {
        assert(styled_from(*config, col, st));
    }
    st
}

} // verus!
