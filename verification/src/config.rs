//! The layered configuration snapshot.
//!
//! All values come from a snapshot of the environment, handed in as a
//! list of key/value pairs, together with the name of the running binary.
//! Lookups try the prefix derived from the binary name first and fall
//! back to the legacy `SHELL_MOMMYS` prefix; absent or unusable values
//! fall back to documented defaults, so loading never fails.

use crate::numbers::{parse_usize, parse_usize_spec};
use crate::strings::{
    contains_seq, split_trim, split_trim_chars, starts_with_seq, str_contains, str_eq,
    str_starts_with, chars_of,
};
use crate::utils::{parse_string, parse_tokens};
use vstd::prelude::*;
use vstd::string::StrSliceExecFns;
use vstd::string::StringExecFns;

verus! {

/// The immutable configuration snapshot, built once per run.
pub struct ConfigMommy {
    /// Selection lists; each is non-empty after defaulting.
    pub pronouns: Vec<String>,
    pub roles: Vec<String>,
    pub little: Vec<String>,
    pub emotes: Vec<String>,
    pub colors: Vec<String>,
    pub moods: Vec<String>,
    /// RGB candidates, present only when the source provided them.
    pub color_rgb: Option<Vec<String>>,
    /// Style combinations: each a list of attribute tokens.
    pub styles: Vec<Vec<String>>,
    pub aliases: Option<String>,
    pub affirmations: Option<String>,
    pub needy: bool,
    pub only_negative: bool,
    pub quiet: bool,
    pub mood_mixing: bool,
    /// The recursion counter read from the environment.
    pub recursion_limit: usize,
    /// Binary identity: the detected role and whether the binary runs as
    /// a package-manager subcommand.
    pub role: String,
    pub is_cargo: bool,
}

impl ConfigMommy {
    /// Every selection list is non-empty, so a random pick over any of
    /// them always yields an element.
    pub open spec fn wf(&self) -> bool {
        &&& self.pronouns@.len() > 0
        &&& self.roles@.len() > 0
        &&& self.little@.len() > 0
        &&& self.emotes@.len() > 0
        &&& self.colors@.len() > 0
        &&& self.moods@.len() > 0
        &&& self.styles@.len() > 0
    }
}

/// The role a binary name denotes: "daddy" when the name (after an
/// optional "cargo-" prefix) holds that word, "mommy" otherwise.
pub open spec fn role_of_name(name: Seq<char>) -> Seq<char> {
    let base = if starts_with_seq(name, "cargo-"@) {
        name.skip("cargo-"@.len() as int)
    } else {
        name
    };
    if contains_seq(base, "daddy"@) {
        "daddy"@
    } else {
        "mommy"@
    }
}

/// Whether the binary runs as a package-manager subcommand, by naming
/// convention.
pub open spec fn is_cargo_name(name: Seq<char>) -> bool {
    starts_with_seq(name, "cargo-"@)
}

/// The role detected from a binary file name.
pub fn role_from_name(name: &str) -> (r: String)
    ensures
        r@ == role_of_name(name@),
{
    proof {
        reveal_strlit("cargo-");
    }
    let base: &str = if str_starts_with(name, "cargo-") {
        let n = name.unicode_len();
        let rest = name.substring_char(6, n);
        proof {
            assert(name@.subrange(6, name@.len() as int) =~= name@.skip(6));
        }
        rest
    } else {
        name
    };
    if str_contains(base, "daddy") {
        String::from_str("daddy")
    } else {
        String::from_str("mommy")
    }
}

/// Whether the binary name follows the subcommand convention.
pub fn is_cargo_binary_name(name: &str) -> (r: bool)
    ensures
        r == is_cargo_name(name@),
{
    str_starts_with(name, "cargo-")
}

/// The primary environment-variable prefix for a binary name.
pub open spec fn env_prefix_of(name: Seq<char>) -> Seq<char> {
    if is_cargo_name(name) {
        if role_of_name(name) == "daddy"@ {
            "CARGO_DADDYS"@
        } else {
            "CARGO_MOMMYS"@
        }
    } else {
        "SHELL_MOMMYS"@
    }
}

/// The environment-variable prefix: the subcommand form with the role
/// upper-cased when running as a subcommand, the legacy prefix otherwise.
pub fn get_env_prefix(name: &str) -> (r: String)
    ensures
        r@ == env_prefix_of(name@),
{
    proof {
        reveal_strlit("mommy");
        reveal_strlit("daddy");
    }
    if is_cargo_binary_name(name) {
        let role = role_from_name(name);
        if str_eq(role.as_str(), "daddy") {
            String::from_str("CARGO_DADDYS")
        } else {
            String::from_str("CARGO_MOMMYS")
        }
    } else {
        String::from_str("SHELL_MOMMYS")
    }
}

/// The value of the first pair whose key matches.
pub open spec fn env_lookup(env: Seq<(String, String)>, key: Seq<char>) -> Option<Seq<char>>
    decreases env.len(),
{
    if env.len() == 0 {
        None
    } else if env[0].0@ == key {
        Some(env[0].1@)
    } else {
        env_lookup(env.skip(1), key)
    }
}

/// Looks a key up in the environment snapshot.
pub fn env_get<'a>(env: &'a Vec<(String, String)>, key: &str) -> (r: Option<&'a String>)
    ensures
        match r {
            Some(v) => env_lookup(env@, key@) == Some(v@),
            None => env_lookup(env@, key@) is None,
        },
{
    let mut i: usize = 0;
    assert(env@.skip(0) =~= env@);
    while i < env.len()
        invariant
            i <= env@.len(),
            env_lookup(env@, key@) == env_lookup(env@.skip(i as int), key@),
        decreases env@.len() - i,
    {
        assert(env@.skip(i as int)[0] == env@[i as int]);
        assert(env@.skip(i as int).skip(1) =~= env@.skip(i + 1 as int));
        if str_eq(env[i].0.as_str(), key) {
            return Some(&env[i].1);
        }
        i += 1;
    }
    None
}

/// The view of an optional string.
pub open spec fn opt_str_view(r: Option<String>) -> Option<Seq<char>> {
    match r {
        Some(v) => Some(v@),
        None => None,
    }
}

/// The layered lookup: `<prefix>_<suffix>` first; when that is absent and
/// the prefix is a subcommand prefix, the legacy `SHELL_MOMMYS_<suffix>`.
pub open spec fn fallback_lookup(
    env: Seq<(String, String)>,
    prefix: Seq<char>,
    suffix: Seq<char>,
) -> Option<Seq<char>> {
    let primary = env_lookup(env, prefix + "_"@ + suffix);
    if primary is Some {
        primary
    } else if starts_with_seq(prefix, "CARGO_"@) {
        env_lookup(env, "SHELL_MOMMYS_"@ + suffix)
    } else {
        None
    }
}

/// Reads `<prefix>_<suffix>` with legacy fallback.
pub fn env_with_fallback(env: &Vec<(String, String)>, prefix: &str, suffix: &str) -> (r: Option<
    String,
>)
    ensures
        opt_str_view(r) == fallback_lookup(env@, prefix@, suffix@),
{
    let mut key = String::from_str(prefix);
    key.append("_");
    key.append(suffix);
    match env_get(env, key.as_str()) {
        Some(v) => Some(v.clone()),
        None => {
            if str_starts_with(prefix, "CARGO_") {
                let mut legacy = String::from_str("SHELL_MOMMYS_");
                legacy.append(suffix);
                match env_get(env, legacy.as_str()) {
                    Some(v) => Some(v.clone()),
                    None => None,
                }
            } else {
                None
            }
        },
    }
}

/// The source string for a setting: the environment value, or the default.
pub open spec fn source_or(
    env: Seq<(String, String)>,
    prefix: Seq<char>,
    suffix: Seq<char>,
    d: Seq<char>,
) -> Seq<char> {
    match fallback_lookup(env, prefix, suffix) {
        Some(v) => v,
        None => d,
    }
}

/// A selection list: the parsed tokens of the source string, or the
/// one-element default list when parsing leaves nothing.
pub open spec fn cfg_list(
    env: Seq<(String, String)>,
    prefix: Seq<char>,
    suffix: Seq<char>,
    dsrc: Seq<char>,
    dtok: Seq<char>,
) -> Seq<Seq<char>> {
    let toks = parse_tokens(source_or(env, prefix, suffix, dsrc));
    if toks.len() > 0 {
        toks
    } else {
        seq![dtok]
    }
}

/// A boolean flag: set exactly when the matched value is the literal "1".
pub open spec fn flag_set(env: Seq<(String, String)>, prefix: Seq<char>, suffix: Seq<char>) -> bool {
    fallback_lookup(env, prefix, suffix) == Some("1"@)
}

fn list_setting(
    env: &Vec<(String, String)>,
    prefix: &str,
    suffix: &str,
    dsrc: &str,
    dtok: &str,
) -> (r: Vec<String>)
    ensures
        r.deep_view() == cfg_list(env@, prefix@, suffix@, dsrc@, dtok@),
        r@.len() > 0,
{
    let src: String = match env_with_fallback(env, prefix, suffix) {
        Some(v) => v,
        None => String::from_str(dsrc),
    };
    let toks = parse_string(src.as_str());
    if toks.len() > 0 {
        toks
    } else {
        let mut one: Vec<String> = Vec::new();
        one.push(String::from_str(dtok));
        assert(one.deep_view() =~= seq![dtok@]);
        one
    }
}

fn flag_setting(env: &Vec<(String, String)>, prefix: &str, suffix: &str) -> (r: bool)
    ensures
        r == flag_set(env@, prefix@, suffix@),
{
    match env_with_fallback(env, prefix, suffix) {
        Some(v) => str_eq(v.as_str(), "1"),
        None => false,
    }
}

/// One style combination contributes its trimmed, non-empty attribute
/// tokens; combinations with no tokens are dropped.
pub open spec fn close_combo(cur: Seq<char>) -> Seq<Seq<Seq<char>>> {
    let c = split_trim(cur, ',');
    if c.len() > 0 {
        seq![c]
    } else {
        Seq::empty()
    }
}

/// The style combinations of `s` with the run `cur` already read.
pub open spec fn combos_acc(s: Seq<char>, cur: Seq<char>) -> Seq<Seq<Seq<char>>>
    decreases s.len(),
{
    if s.len() == 0 {
        close_combo(cur)
    } else if s[0] == '/' {
        close_combo(cur) + combos_acc(s.skip(1), Seq::empty())
    } else {
        combos_acc(s.skip(1), cur.push(s[0]))
    }
}

/// The style combinations of a source string: outer split on `/`, inner
/// split on `,`, tokens trimmed, empty tokens and combinations dropped.
pub open spec fn style_combos(s: Seq<char>) -> Seq<Seq<Seq<char>>> {
    combos_acc(s, Seq::empty())
}

/// The configured style combinations, defaulting to a single bold one.
pub open spec fn cfg_styles(env: Seq<(String, String)>, prefix: Seq<char>) -> Seq<Seq<Seq<char>>> {
    let combos = style_combos(source_or(env, prefix, "STYLE"@, "bold"@));
    if combos.len() > 0 {
        combos
    } else {
        seq![seq!["bold"@]]
    }
}

fn push_combo(r: &mut Vec<Vec<String>>, cur: &Vec<char>)
    ensures
        final(r).deep_view() == old(r).deep_view() + close_combo(cur@),
{
    let combo = split_trim_chars(cur, ',');
    let ghost r0 = r.deep_view();
    if combo.len() > 0 {
        let ghost cv = combo.deep_view();
        r.push(combo);
        assert(r.deep_view() =~= r0.push(cv));
        assert(r.deep_view() =~= r0 + close_combo(cur@));
    } else {
        assert(combo.deep_view().len() == 0);
        assert(r.deep_view() =~= r0 + close_combo(cur@));
    }
}

/// Splits a style source string into combinations.
pub fn parse_style_combos(s: &str) -> (r: Vec<Vec<String>>)
    ensures
        r.deep_view() == style_combos(s@),
{
    let v = chars_of(s);
    let mut r: Vec<Vec<String>> = Vec::new();
    let mut cur: Vec<char> = Vec::new();
    let mut i: usize = 0;
    assert(v@.skip(0) =~= v@);
    assert(r.deep_view() + combos_acc(v@, cur@) =~= combos_acc(v@, cur@));
    while i < v.len()
        invariant
            i <= v@.len(),
            style_combos(s@) == r.deep_view() + combos_acc(v@.skip(i as int), cur@),
            v@ == s@,
        decreases v@.len() - i,
    {
        let c = v[i];
        assert(v@.skip(i as int)[0] == c);
        assert(v@.skip(i as int).skip(1) =~= v@.skip(i + 1 as int));
        if c == '/' {
            let ghost oc = cur@;
            let ghost r0 = r.deep_view();
            push_combo(&mut r, &cur);
            cur = Vec::new();
            assert((r0 + close_combo(oc)) + combos_acc(v@.skip(i + 1 as int), Seq::empty()) =~= r0
                + (close_combo(oc) + combos_acc(v@.skip(i + 1 as int), Seq::empty())));
        } else {
            cur.push(c);
        }
        i += 1;
    }
    assert(v@.skip(i as int).len() == 0);
    push_combo(&mut r, &cur);
    r
}

fn style_setting(env: &Vec<(String, String)>, prefix: &str) -> (r: Vec<Vec<String>>)
    ensures
        r.deep_view() == cfg_styles(env@, prefix@),
        r@.len() > 0,
{
    let src: String = match env_with_fallback(env, prefix, "STYLE") {
        Some(v) => v,
        None => String::from_str("bold"),
    };
    let combos = parse_style_combos(src.as_str());
    if combos.len() > 0 {
        combos
    } else {
        let mut attrs: Vec<String> = Vec::new();
        attrs.push(String::from_str("bold"));
        let mut one: Vec<Vec<String>> = Vec::new();
        assert(attrs.deep_view() =~= seq!["bold"@]);
        one.push(attrs);
        assert(one.deep_view() =~= seq![seq!["bold"@]]);
        one
    }
}

/// The value of the only-negative switch, which bypasses prefix fallback
/// and answers to two fixed names.
pub open spec fn only_negative_value(env: Seq<(String, String)>) -> bool {
    env_lookup(env, "SHELL_MOMMY_ONLY_NEGATIVE"@) == Some("1"@) || env_lookup(
        env,
        "CARGO_MOMMY_ONLY_NEGATIVE"@,
    ) == Some("1"@)
}

/// The recursion counter: the first of two fixed names that is present,
/// read as an unsigned integer; unparsable or absent means zero.
pub open spec fn recursion_value(env: Seq<(String, String)>) -> usize {
    let rv = if env_lookup(env, "CARGO_MOMMY_RECURSION_LIMIT"@) is Some {
        env_lookup(env, "CARGO_MOMMY_RECURSION_LIMIT"@)
    } else {
        env_lookup(env, "SHELL_MOMMY_RECURSION_LIMIT"@)
    };
    match rv {
        Some(v) => match parse_usize_spec(v) {
            Some(n) => n,
            None => 0,
        },
        None => 0,
    }
}

fn eq_one(v: Option<&String>) -> (r: bool)
    ensures
        r == (match v {
            Some(s) => s@ == "1"@,
            None => false,
        }),
{
    match v {
        Some(s) => str_eq(s.as_str(), "1"),
        None => false,
    }
}

/// Builds the configuration snapshot from the environment pairs and the
/// name of the running binary.  Never fails: absent or malformed inputs
/// fall back to the documented defaults.
pub fn load_config(env: &Vec<(String, String)>, binary_name: &str) -> (c: ConfigMommy)
    ensures
        ({
            let p = env_prefix_of(binary_name@);
            &&& c.pronouns.deep_view() == cfg_list(env@, p, "PRONOUNS"@, "her"@, "her"@)
            &&& c.roles.deep_view() == cfg_list(
                env@,
                p,
                "ROLES"@,
                role_of_name(binary_name@),
                role_of_name(binary_name@),
            )
            &&& c.little.deep_view() == cfg_list(env@, p, "LITTLE"@, "girl"@, "girl"@)
            &&& c.emotes.deep_view() == cfg_list(
                env@,
                p,
                "EMOTES"@,
                "\u{1f496}/\u{1f497}/\u{1f493}/\u{1f49e}"@,
                "\u{1f496}"@,
            )
            &&& c.colors.deep_view() == cfg_list(env@, p, "COLOR"@, "white"@, "white"@)
            &&& c.moods.deep_view() == cfg_list(env@, p, "MOODS"@, "chill"@, "chill"@)
            &&& (match c.color_rgb {
                Some(v) => exists|src: Seq<char>|
                    fallback_lookup(env@, p, "COLOR_RGB"@) == Some(src) && v.deep_view()
                        == #[trigger] parse_tokens(src),
                None => fallback_lookup(env@, p, "COLOR_RGB"@) is None,
            })
            &&& c.styles.deep_view() == cfg_styles(env@, p)
            &&& opt_str_view(c.aliases) == fallback_lookup(env@, p, "ALIASES"@)
            &&& opt_str_view(c.affirmations) == fallback_lookup(env@, p, "AFFIRMATIONS"@)
            &&& c.needy == flag_set(env@, p, "NEEDY"@)
            &&& c.mood_mixing == flag_set(env@, p, "MOOD_MIXING"@)
            &&& c.only_negative == only_negative_value(env@)
            &&& c.recursion_limit == recursion_value(env@)
            &&& c.quiet == false
            &&& c.role@ == role_of_name(binary_name@)
            &&& c.is_cargo == is_cargo_name(binary_name@)
            &&& c.wf()
        }),
{
    let role = role_from_name(binary_name);
    let is_cargo = is_cargo_binary_name(binary_name);
    let prefix = get_env_prefix(binary_name);
    let p = prefix.as_str();
    let pronouns = list_setting(env, p, "PRONOUNS", "her", "her");
    let roles = list_setting(env, p, "ROLES", role.as_str(), role.as_str());
    let little = list_setting(env, p, "LITTLE", "girl", "girl");
    let emotes = list_setting(
        env,
        p,
        "EMOTES",
        "\u{1f496}/\u{1f497}/\u{1f493}/\u{1f49e}",
        "\u{1f496}",
    );
    let colors = list_setting(env, p, "COLOR", "white", "white");
    let moods = list_setting(env, p, "MOODS", "chill", "chill");
    let color_rgb = match env_with_fallback(env, p, "COLOR_RGB") {
        Some(v) => Some(parse_string(v.as_str())),
        None => None,
    };
    let styles = style_setting(env, p);
    let aliases = env_with_fallback(env, p, "ALIASES");
    let affirmations = env_with_fallback(env, p, "AFFIRMATIONS");
    let needy = flag_setting(env, p, "NEEDY");
    let mood_mixing = flag_setting(env, p, "MOOD_MIXING");
    let only_negative = eq_one(env_get(env, "SHELL_MOMMY_ONLY_NEGATIVE")) || eq_one(
        env_get(env, "CARGO_MOMMY_ONLY_NEGATIVE"),
    );
    let recursion_limit = match env_get(env, "CARGO_MOMMY_RECURSION_LIMIT") {
        Some(v) => match parse_usize(v.as_str()) {
            Some(n) => n,
            None => 0,
        },
        None => match env_get(env, "SHELL_MOMMY_RECURSION_LIMIT") {
            Some(v) => match parse_usize(v.as_str()) {
                Some(n) => n,
                None => 0,
            },
            None => 0,
        },
    };
    ConfigMommy {
        pronouns,
        roles,
        little,
        emotes,
        colors,
        moods,
        color_rgb,
        styles,
        aliases,
        affirmations,
        needy,
        only_negative,
        quiet: false,
        mood_mixing,
        recursion_limit,
        role,
        is_cargo,
    }
}

} // verus!
