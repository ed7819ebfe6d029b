//! The decisions of one run: what to execute for the given arguments and
//! configuration, and what to print once the wrapped command has exited.
//!
//! Everything here is a pure function from plain values to plain values;
//! spawning processes, touching the file system and writing to the
//! terminal stay with the caller.

use crate::affirmations::{
    mix, mixed_sets, mood_lookup, resolve_mood, resolved_sets, Affirmations, AffirmationsFile,
};
use crate::config::{opt_str_view, ConfigMommy};
use crate::numbers::{parse_i32, parse_i32_spec};
use crate::rand::random_below;
use crate::strings::str_eq;
use crate::utils::{eff_list, fill_rel, fill_template, random_vec_pick};
use vstd::prelude::*;
use vstd::string::StringExecFns;

verus! {

/// A run in package-manager-subcommand mode may re-enter this binary;
/// runs whose counter has reached this value are refused.
pub const RECURSION_LIMIT: usize = 100;

/// The numerator of the fixed mixing probability.
pub const MIX_NUM: usize = 1;

/// The denominator of the fixed mixing probability.
pub const MIX_DEN: usize = 5;

/// True when the recursion counter has reached the limit, in which case
/// no command is run.
pub fn recursion_exceeded(counter: usize) -> (r: bool)
    ensures
        r == (counter >= RECURSION_LIMIT),
{
    counter >= RECURSION_LIMIT
}

/// Whether a quiet flag stands anywhere among the arguments.
pub open spec fn quiet_flag(args: Seq<String>) -> bool {
    exists|i: int|
        0 <= i < args.len() && ((#[trigger] args[i])@ == "--quiet"@ || args[i]@ == "-q"@)
}

/// Scans the arguments for `--quiet` or `-q`.
pub fn is_quiet_mode_enabled(args: &[String]) -> (r: bool)
    ensures
        r == quiet_flag(args@),
{
    let mut i: usize = 0;
    while i < args.len()
        invariant
            i <= args@.len(),
            forall|j: int|
                0 <= j < i ==> (#[trigger] args@[j])@ != "--quiet"@ && args@[j]@ != "-q"@,
        decreases args@.len() - i,
    {
        if str_eq(args[i].as_str(), "--quiet") || str_eq(args[i].as_str(), "-q") {
            return true;
        }
        i += 1;
    }
    false
}

/// The first role named by the token run `"i" "mean" <role>` at or after
/// position `i`, if any.
pub open spec fn transform_from(args: Seq<String>, i: nat) -> Option<Seq<char>>
    decreases args.len() - i,
{
    if i + 2 >= args.len() {
        None
    } else if args[i as int]@ == "i"@ && args[i + 1 as int]@ == "mean"@ {
        Some(args[i + 2 as int]@)
    } else {
        transform_from(args, i + 1)
    }
}

/// Looks for the literal token run `"i" "mean" <new-role>` anywhere in
/// the arguments; the first match names the new role.
pub fn check_role_transformation(args: &[String]) -> (r: Option<String>)
    ensures
        match r {
            Some(role) => transform_from(args@, 0) == Some(role@),
            None => transform_from(args@, 0) is None,
        },
{
    let n = args.len();
    if n < 3 {
        return None;
    }
    let mut i: usize = 0;
    while i < n - 2
        invariant
            n == args@.len(),
            3 <= n,
            i <= n - 2,
            transform_from(args@, 0) == transform_from(args@, i as nat),
        decreases n - i,
    {
        if str_eq(args[i].as_str(), "i") && str_eq(args[i + 1].as_str(), "mean") {
            return Some(args[i + 2].clone());
        }
        i += 1;
    }
    None
}

/// The argument views left after dropping every literal "please".
pub open spec fn filter_please(s: Seq<String>) -> Seq<Seq<char>>
    decreases s.len(),
{
    if s.len() == 0 {
        Seq::empty()
    } else if s[0]@ == "please"@ {
        filter_please(s.skip(1))
    } else {
        seq![s[0]@] + filter_please(s.skip(1))
    }
}

/// The command arguments of a run: the program name dropped, one leading
/// "cargo" token dropped in subcommand mode, and every "please" dropped.
pub open spec fn stripped_args(args: Seq<String>, is_cargo: bool) -> Seq<Seq<char>> {
    let rest = args.skip(1);
    let rest2 = if is_cargo && rest.len() > 0 && rest[0]@ == "cargo"@ {
        rest.skip(1)
    } else {
        rest
    };
    filter_please(rest2)
}

/// Strips the program name, a leading "cargo" token in subcommand mode,
/// and every "please" token.
pub fn prepare_command_args(args: &Vec<String>, is_cargo: bool) -> (r: Vec<String>)
    requires
        args@.len() >= 1,
    ensures
        r.deep_view() == stripped_args(args@, is_cargo),
{
    let mut start: usize = 1;
    if is_cargo && args.len() > 1 && str_eq(args[1].as_str(), "cargo") {
        start = 2;
    }
    proof {
        if args@.len() > 1 {
            assert(args@.skip(1)[0] == args@[1]);
        }
        if start == 2 {
            assert(args@.skip(1).skip(1) =~= args@.skip(2));
        }
    }
    let ghost rest2 = args@.skip(start as int);
    let mut r: Vec<String> = Vec::new();
    let mut i: usize = start;
    assert(args@.skip(start as int) =~= rest2);
    assert(r.deep_view() + filter_please(rest2) =~= filter_please(rest2));
    while i < args.len()
        invariant
            start <= i <= args@.len(),
            rest2 == args@.skip(start as int),
            filter_please(rest2) == r.deep_view() + filter_please(args@.skip(i as int)),
        decreases args@.len() - i,
    {
        assert(args@.skip(i as int)[0] == args@[i as int]);
        assert(args@.skip(i as int).skip(1) =~= args@.skip(i + 1 as int));
        if !str_eq(args[i].as_str(), "please") {
            let ghost r0 = r.deep_view();
            let ghost av = args@[i as int]@;
            r.push(args[i].clone());
            assert(r.deep_view() =~= r0.push(av));
            assert((r0.push(av)) + filter_please(args@.skip(i + 1 as int)) =~= r0 + (seq![av]
                + filter_please(args@.skip(i + 1 as int))));
        }
        i += 1;
    }
    assert(args@.skip(i as int).len() == 0);
    assert(filter_please(args@.skip(i as int)) =~= Seq::<Seq<char>>::empty());
    assert(r.deep_view() =~= filter_please(rest2));
    r
}

/// The tail of a space-joined command line: a space before each part.
pub open spec fn join_rest(parts: Seq<Seq<char>>) -> Seq<char>
    decreases parts.len(),
{
    if parts.len() == 0 {
        Seq::empty()
    } else {
        " "@ + parts[0] + join_rest(parts.skip(1))
    }
}

/// The parts joined with single spaces.
pub open spec fn join_spaces(parts: Seq<Seq<char>>) -> Seq<char> {
    if parts.len() == 0 {
        Seq::empty()
    } else {
        parts[0] + join_rest(parts.skip(1))
    }
}

/// Joins the parts with single spaces.
pub fn join_args(parts: &Vec<String>) -> (r: String)
    ensures
        r@ == join_spaces(parts.deep_view()),
{
    let ghost dv = parts.deep_view();
    if parts.len() == 0 {
        return String::new();
    }
    let mut r = parts[0].clone();
    let mut i: usize = 1;
    assert(dv.skip(0) =~= dv);
    assert(dv.skip(1) == dv.skip(0).skip(1));
    while i < parts.len()
        invariant
            1 <= i <= dv.len(),
            dv == parts.deep_view(),
            join_spaces(dv) == r@ + join_rest(dv.skip(i as int)),
        decreases dv.len() - i,
    {
        assert(dv.skip(i as int)[0] == dv[i as int]);
        assert(dv.skip(i as int).skip(1) =~= dv.skip(i + 1 as int));
        r.append(" ");
        r.append(parts[i].as_str());
        i += 1;
    }
    assert(dv.skip(i as int).len() == 0);
    assert(join_rest(dv.skip(i as int)) =~= Seq::<char>::empty());
    assert(r@ =~= join_spaces(dv));
    r
}

/// The usage line for the way the tool was invoked.
pub open spec fn usage_spec(argv0: Seq<char>, role: Seq<char>, is_cargo: bool, needy: bool) -> Seq<
    char,
> {
    if is_cargo {
        "cargo "@ + role + " <cargo-command> [args...]"@
    } else if needy {
        argv0 + " <exit_code>"@
    } else {
        argv0 + " <command> [args ...]"@
    }
}

/// Builds the usage line.
pub fn usage_message(argv0: &str, role: &str, is_cargo: bool, needy: bool) -> (r: String)
    ensures
        r@ == usage_spec(argv0@, role@, is_cargo, needy),
{
    if is_cargo {
        let mut r = String::from_str("cargo ");
        r.append(role);
        r.append(" <cargo-command> [args...]");
        assert(r@ =~= usage_spec(argv0@, role@, is_cargo, needy));
        r
    } else if needy {
        let mut r = String::from_str(argv0);
        r.append(" <exit_code>");
        r
    } else {
        let mut r = String::from_str(argv0);
        r.append(" <command> [args ...]");
        r
    }
}

/// The sibling binary name a role transformation produces, following the
/// subcommand naming convention.
pub fn transformed_binary_name(new_role: &str, is_cargo: bool) -> (r: String)
    ensures
        is_cargo ==> r@ == "cargo-"@ + new_role@,
        !is_cargo ==> r@ == new_role@,
{
    if is_cargo {
        let mut r = String::from_str("cargo-");
        r.append(new_role);
        r
    } else {
        String::from_str(new_role)
    }
}

/// The command line handed to the shell: the joined arguments, wrapped
/// in alias-expansion directives when an alias script is configured.
pub open spec fn shell_command_spec(parts: Seq<Seq<char>>, aliases: Option<Seq<char>>) -> Seq<
    char,
> {
    let raw = join_spaces(parts);
    match aliases {
        Some(path) => "shopt -s expand_aliases; source \""@ + path + "\"; eval "@ + raw,
        None => raw,
    }
}

/// Composes the shell command line.
pub fn shell_command(parts: &Vec<String>, aliases: &Option<String>) -> (r: String)
    ensures
        r@ == shell_command_spec(parts.deep_view(), opt_str_view(*aliases)),
{
    let raw = join_args(parts);
    match aliases {
        Some(path) => {
            let mut r = String::from_str("shopt -s expand_aliases; source \"");
            r.append(path.as_str());
            r.append("\"; eval ");
            r.append(raw.as_str());
            assert(r@ =~= shell_command_spec(parts.deep_view(), opt_str_view(*aliases)));
            r
        },
        None => raw,
    }
}

/// What one run should do, decided from the configuration and the raw
/// arguments before anything is executed.
pub enum RunPlan {
    /// The recursion counter reached the limit: warn and exit with the
    /// distinguished code, running nothing.
    RecursionExceeded,
    /// Too few arguments: print this usage line and exit with an error.
    Usage(String),
    /// A role transformation was requested: copy the binary for this new
    /// role and exit successfully, running nothing.
    Transform(String),
    /// Needy mode with this literal exit code.
    NeedyExit(i32),
    /// Needy mode whose argument is missing or not an integer: an error.
    NeedyError,
    /// Subcommand mode with no command left: an error.
    MissingCargoCommand,
    /// Run the package manager with these arguments, with the incremented
    /// recursion counter injected into its environment.
    CargoCmd(Vec<String>, usize),
    /// Run this composed command line through a shell.
    ShellCmd(String),
}

/// Decides what a run does.  The recursion guard comes first; then the
/// usage check, the role-transformation check, and finally the mode of
/// execution with the stripped arguments.
pub fn plan_run(config: &ConfigMommy, args: &Vec<String>) -> (r: RunPlan)
    requires
        args@.len() >= 1,
    ensures
        config.recursion_limit >= RECURSION_LIMIT ==> r is RecursionExceeded,
        config.recursion_limit < RECURSION_LIMIT && args@.len() < 2 ==> (r matches RunPlan::Usage(
            u,
        ) && u@ == usage_spec(args@[0]@, config.role@, config.is_cargo, config.needy)),
        config.recursion_limit < RECURSION_LIMIT && args@.len() >= 2 ==> match transform_from(
            args@,
            0,
        ) {
            Some(role) => r matches RunPlan::Transform(t) && t@ == role,
            None => ({
                let f = stripped_args(args@, config.is_cargo);
                if config.needy {
                    if f.len() == 0 {
                        r is NeedyError
                    } else {
                        match parse_i32_spec(f[0]) {
                            Some(code) => r matches RunPlan::NeedyExit(c) && c == code,
                            None => r is NeedyError,
                        }
                    }
                } else if config.is_cargo {
                    if f.len() == 0 {
                        r is MissingCargoCommand
                    } else {
                        r matches RunPlan::CargoCmd(a, n) && a.deep_view() == f && n
                            == config.recursion_limit + 1
                    }
                } else {
                    r matches RunPlan::ShellCmd(s) && s@ == shell_command_spec(
                        f,
                        opt_str_view(config.aliases),
                    )
                }
            }),
        },
{
    if recursion_exceeded(config.recursion_limit) {
        return RunPlan::RecursionExceeded;
    }
    if args.len() < 2 {
        let u = usage_message(
            args[0].as_str(),
            config.role.as_str(),
            config.is_cargo,
            config.needy,
        );
        return RunPlan::Usage(u);
    }
    if let Some(new_role) = check_role_transformation(args.as_slice()) {
        return RunPlan::Transform(new_role);
    }
    let filtered = prepare_command_args(args, config.is_cargo);
    if config.needy {
        if filtered.len() == 0 {
            return RunPlan::NeedyError;
        }
        assert(filtered.deep_view()[0] == filtered@[0]@);
        match parse_i32(filtered[0].as_str()) {
            Some(code) => RunPlan::NeedyExit(code),
            None => RunPlan::NeedyError,
        }
    } else if config.is_cargo {
        if filtered.len() == 0 {
            return RunPlan::MissingCargoCommand;
        }
        RunPlan::CargoCmd(filtered, config.recursion_limit + 1)
    } else {
        let cmd = shell_command(&filtered, &config.aliases);
        RunPlan::ShellCmd(cmd)
    }
}

/// How a mood may be drawn from the configuration: a member of the mood
/// list, or "chill" when the list is empty.
pub open spec fn mood_pick(c: ConfigMommy, m: Seq<char>) -> bool {
    if c.moods@.len() > 0 {
        exists|k: int| 0 <= k < c.moods@.len() && m == (#[trigger] c.moods@[k])@
    } else {
        m == "chill"@
    }
}

/// How selected affirmations relate to the table and a drawn mood: mood
/// mixing, when enabled, applies to the fixed pair with "ominous" as the
/// drawn mood and both keys present; everything else is plain resolution.
pub open spec fn selected_rel(
    file: AffirmationsFile,
    c: ConfigMommy,
    m: Seq<char>,
    r: Affirmations,
) -> bool {
    let pm = mood_lookup(file.moods@, "ominous"@);
    let sm = mood_lookup(file.moods@, "thirsty"@);
    if c.mood_mixing && m == "ominous"@ && pm is Some && sm is Some {
        mixed_sets(
            pm->0.positive.deep_view(),
            pm->0.negative.deep_view(),
            sm->0.positive.deep_view(),
            sm->0.negative.deep_view(),
            r.positive.deep_view(),
            r.negative.deep_view(),
        )
    } else {
        r.positive.deep_view() == resolved_sets(file, m).0 && r.negative.deep_view()
            == resolved_sets(file, m).1
    }
}

/// Draws a mood from the configuration and resolves its affirmation
/// sets from the table, mixing the fixed "ominous"/"thirsty" pair at the
/// fixed probability when mixing is enabled and "ominous" was drawn.
pub fn select_affirmations(file: &AffirmationsFile, config: &ConfigMommy) -> (r: Affirmations)
    ensures
        exists|m: Seq<char>| #[trigger] mood_pick(*config, m) && selected_rel(*file, *config, m, r),
{
    let mood: String = match random_vec_pick(&config.moods) {
        Some(s) => String::from_str(s),
        None => String::from_str("chill"),
    };
    let ghost mv = mood@;
    assert(mood_pick(*config, mv));
    if config.mood_mixing && str_eq(mood.as_str(), "ominous") {
        match mix(file, "ominous", "thirsty", MIX_NUM, MIX_DEN) {
            Some(a) => {
                assert(selected_rel(*file, *config, mv, a));
                a
            },
            None => {
                let a = resolve_mood(file, mood.as_str());
                assert(selected_rel(*file, *config, mv, a));
                a
            },
        }
    } else {
        let a = resolve_mood(file, mood.as_str());
        assert(selected_rel(*file, *config, mv, a));
        a
    }
}

/// Picks one template, each equally likely, from the given list when one
/// is given, and from the fixed default list otherwise.
pub fn choose_template<'a>(
    json_template: Option<&'a Vec<String>>,
    default_template: &'a Vec<String>,
) -> (r: &'a str)
    requires
        match json_template {
            Some(v) => v@.len() > 0,
            None => default_template@.len() > 0,
        },
    ensures
        json_template matches Some(v) ==> exists|k: int|
            0 <= k < v.deep_view().len() && r@ == #[trigger] v.deep_view()[k],
        json_template is None ==> exists|k: int|
            0 <= k < default_template.deep_view().len() && r@ == #[trigger] default_template.deep_view()[k],
{
    match json_template {
        Some(v) => {
            let k = random_below(v.len());
            assert(v.deep_view()[k as int] == v@[k as int]@);
            v[k].as_str()
        },
        None => {
            let k = random_below(default_template.len());
            assert(default_template.deep_view()[k as int] == default_template@[k as int]@);
            default_template[k].as_str()
        },
    }
}

/// The phrase shown when no affirmation data or an empty list was
/// resolved.
pub open spec fn fallback_phrase() -> Seq<char> {
    "{roles} failed to load any affirmations, {little}~ {emotes}"@
}

/// A member of the list when it has one, the fixed fallback phrase
/// otherwise.
pub open spec fn member_or_fallback(list: Seq<Seq<char>>, t: Seq<char>) -> bool {
    if list.len() > 0 {
        exists|k: int| 0 <= k < list.len() && t == #[trigger] list[k]
    } else {
        t == fallback_phrase()
    }
}

/// How the template may be chosen for an outcome: from the positive list
/// on success and the negative list on failure, and the fixed fallback
/// phrase when no data or an empty list was resolved.
pub open spec fn template_choice(
    aff: Option<&Affirmations>,
    exit_zero: bool,
    t: Seq<char>,
) -> bool {
    match aff {
        Some(a) => if exit_zero {
            member_or_fallback(a.positive.deep_view(), t)
        } else {
            member_or_fallback(a.negative.deep_view(), t)
        },
        None => t == fallback_phrase(),
    }
}

/// A filled message for an outcome: some template chosen for the outcome,
/// filled against the configuration's selection lists.
pub open spec fn message_ok(
    config: ConfigMommy,
    aff: Option<&Affirmations>,
    exit_zero: bool,
    m: Seq<char>,
) -> bool {
    exists|t: Seq<char>|
        template_choice(aff, exit_zero, t) && #[trigger] fill_rel(
            t,
            eff_list(config.roles.deep_view(), "mommy"@),
            eff_list(config.pronouns.deep_view(), "her"@),
            eff_list(config.little.deep_view(), "girl"@),
            eff_list(config.emotes.deep_view(), "\u{1f496}"@),
            m,
        )
}

proof fn lemma_message_ok(
    config: ConfigMommy,
    aff: Option<&Affirmations>,
    exit_zero: bool,
    t: Seq<char>,
    m: Seq<char>,
)
    requires
        template_choice(aff, exit_zero, t),
        fill_rel(
            t,
            eff_list(config.roles.deep_view(), "mommy"@),
            eff_list(config.pronouns.deep_view(), "her"@),
            eff_list(config.little.deep_view(), "girl"@),
            eff_list(config.emotes.deep_view(), "\u{1f496}"@),
            m,
        ),
    ensures
        message_ok(config, aff, exit_zero, m),
{
}

/// Composes the styled message's text for a finished run, or nothing:
/// quiet mode suppresses all output, and a successful run under
/// only-negative mode ends silently.  Otherwise one template is drawn
/// from the list matching the outcome and filled.
pub fn compose_message(config: &ConfigMommy, exit_code: i32, affirmations: Option<
    &Affirmations,
>) -> (r: Option<String>)
    ensures
        config.quiet ==> r is None,
        !config.quiet && exit_code == 0 && config.only_negative ==> r is None,
        !config.quiet && !(exit_code == 0 && config.only_negative) ==> (r matches Some(m)
            && message_ok(*config, affirmations, exit_code == 0, m@)),
{
    if config.quiet {
        return None;
    }
    if exit_code == 0 && config.only_negative {
        return None;
    }
    let fallback: Vec<String> = vec![
        String::from_str("{roles} failed to load any affirmations, {little}~ {emotes}"),
    ];
    assert(fallback.deep_view() =~= seq![fallback_phrase()]);
    match affirmations {
        Some(a) => {
            let l = if exit_code == 0 {
                &a.positive
            } else {
                &a.negative
            };
            if l.len() > 0 {
                let template = choose_template(Some(l), &fallback);
                let ghost t = template@;
                proof {
                    if exit_code == 0 {
                        assert(l.deep_view() =~~= a.positive.deep_view());
                    } else {
                        assert(l.deep_view() =~~= a.negative.deep_view());
                    }
                    assert(l.deep_view().len() > 0);
                    assert(exists|k: int|
                        0 <= k < l.deep_view().len() && t == #[trigger] l.deep_view()[k]);
                }
                assert(template_choice(affirmations, exit_code == 0, t));
                let msg = fill_template(template, config);
                proof {
                    lemma_message_ok(*config, affirmations, exit_code == 0, t, msg@);
                }
                Some(msg)
            } else {
                let template = choose_template(None, &fallback);
                let ghost t = template@;
                assert(t == fallback_phrase());
                assert(template_choice(affirmations, exit_code == 0, t));
                let msg = fill_template(template, config);
                proof {
                    lemma_message_ok(*config, affirmations, exit_code == 0, t, msg@);
                }
                Some(msg)
            }
        },
        None => {
            let template = choose_template(None, &fallback);
            let ghost t = template@;
            assert(t == fallback_phrase());
            assert(template_choice(affirmations, exit_code == 0, t));
            let msg = fill_template(template, config);
                proof {
                    lemma_message_ok(*config, affirmations, exit_code == 0, t, msg@);
                }
            Some(msg)
        },
    }
}

} // verus!
