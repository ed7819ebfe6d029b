//! Delimited-list parsing and uniform random selection.

use crate::config::ConfigMommy;
use crate::rand::random_below;
use crate::strings::{
    chars_of, lower_of, starts_with_seq, string_from_chars, to_lowercase, trim_chars, trim_ws,
};
use vstd::prelude::*;

verus! {

/// The token a buffered run of characters contributes: its trimmed,
/// lowercased form when that is non-empty, and nothing otherwise.
pub open spec fn close_token(cur: Seq<char>) -> Seq<Seq<char>> {
    let t = lower_of(trim_ws(cur));
    if t.len() > 0 {
        seq![t]
    } else {
        Seq::empty()
    }
}

/// The tokens of `s` when a run `cur` has already been read: characters
/// accumulate until a `/`, and each run contributes `close_token` of itself.
pub open spec fn tokens_acc(s: Seq<char>, cur: Seq<char>) -> Seq<Seq<char>>
    decreases s.len(),
{
    if s.len() == 0 {
        close_token(cur)
    } else if s[0] == '/' {
        close_token(cur) + tokens_acc(s.skip(1), Seq::empty())
    } else {
        tokens_acc(s.skip(1), cur.push(s[0]))
    }
}

/// The selection tokens of a slash-delimited source string: split on `/`,
/// trimmed, lowercased, empty tokens dropped, order kept.
pub open spec fn parse_tokens(s: Seq<char>) -> Seq<Seq<char>> {
    tokens_acc(s, Seq::empty())
}

/// Splits on `/`, trims and lowercases each piece, and drops the pieces
/// that end up empty.
pub fn parse_string(s: &str) -> (r: Vec<String>)
    ensures
        r.deep_view() == parse_tokens(s@),
{
    let v = chars_of(s);
    let mut r: Vec<String> = Vec::new();
    let mut cur: Vec<char> = Vec::new();
    let mut i: usize = 0;
    assert(v@.skip(0) =~= v@);
    assert(r.deep_view() + tokens_acc(s@, cur@) =~= tokens_acc(s@, cur@));
    while i < v.len()
        invariant
            i <= v@.len(),
            v@ == s@,
            parse_tokens(s@) == r.deep_view() + tokens_acc(v@.skip(i as int), cur@),
        decreases v@.len() - i,
    {
        let c = v[i];
        assert(v@.skip(i as int)[0] == c);
        assert(v@.skip(i as int).skip(1) =~= v@.skip(i + 1 as int));
        if c == '/' {
            let ghost oc = cur@;
            let token = finish_token(&cur);
            let ghost r0 = r.deep_view();
            if let Some(t) = token {
                let ghost tv = t@;
                r.push(t);
                assert(r.deep_view() =~= r0.push(tv));
                assert(r.deep_view() =~= r0 + close_token(oc));
            } else {
                assert(r.deep_view() =~= r0 + close_token(oc));
            }
            cur = Vec::new();
            assert((r0 + close_token(oc)) + tokens_acc(v@.skip(i + 1 as int), Seq::empty())
                =~= r0 + (close_token(oc) + tokens_acc(v@.skip(i + 1 as int), Seq::empty())));
        } else {
            cur.push(c);
        }
        i += 1;
    }
    assert(v@.skip(i as int).len() == 0);
    let token = finish_token(&cur);
    let ghost r0 = r.deep_view();
    if let Some(t) = token {
        let ghost tv = t@;
        r.push(t);
        assert(r.deep_view() =~= r0.push(tv));
        assert(r.deep_view() =~= r0 + close_token(cur@));
    } else {
        assert(r.deep_view() =~= r0 + close_token(cur@));
    }
    r
}

/// The trimmed, lowercased form of a buffered run, or `None` when that
/// form is empty.
fn finish_token(cur: &Vec<char>) -> (r: Option<String>)
    ensures
        match r {
            Some(t) => close_token(cur@) == seq![t@] && t@ == lower_of(trim_ws(cur@)),
            None => close_token(cur@) == Seq::<Seq<char>>::empty(),
        },
{
    let trimmed = trim_chars(cur);
    let word = string_from_chars(&trimmed);
    let token = to_lowercase(word.as_str());
    if token.as_str().is_empty() {
        None
    } else {
        Some(token)
    }
}

/// Picks one element of a list, each equally likely.  Returns `None`
/// exactly when the list is empty, and a member of the list otherwise.
pub fn random_vec_pick<'a>(vec: &'a Vec<String>) -> (r: Option<&'a str>)
    ensures
        r is None <==> vec@.len() == 0,
        r matches Some(s) ==> exists|k: int| 0 <= k < vec@.len() && s@ == #[trigger] vec@[k]@,
{
    if vec.len() == 0 {
        None
    } else {
        let idx = random_below(vec.len());
        Some(vec[idx].as_str())
    }
}

/// Parses a slash-delimited string and picks one of its tokens, each
/// equally likely; `None` exactly when no token is left after parsing.
pub fn random_string_pick(input: &str) -> (r: Option<String>)
    ensures
        r is None <==> parse_tokens(input@).len() == 0,
        r matches Some(s) ==> exists|k: int|
            0 <= k < parse_tokens(input@).len() && s@ == #[trigger] parse_tokens(input@)[k],
{
    let parts = parse_string(input);
    if parts.len() == 0 {
        None
    } else {
        let idx = random_below(parts.len());
        let picked = parts[idx].clone();
        assert(picked@ == parts.deep_view()[idx as int]);
        Some(picked)
    }
}

/// The placeholder tokens, as character sequences.
pub open spec fn roles_tok() -> Seq<char> {
    seq!['{', 'r', 'o', 'l', 'e', 's', '}']
}

pub open spec fn pronouns_tok() -> Seq<char> {
    seq!['{', 'p', 'r', 'o', 'n', 'o', 'u', 'n', 's', '}']
}

pub open spec fn little_tok() -> Seq<char> {
    seq!['{', 'l', 'i', 't', 't', 'l', 'e', '}']
}

pub open spec fn emotes_tok() -> Seq<char> {
    seq!['{', 'e', 'm', 'o', 't', 'e', 's', '}']
}

/// How a literal template character appears in the output: newlines
/// become single spaces, everything else passes through.
pub open spec fn lit_char(c: char) -> char {
    if c == '\n' {
        ' '
    } else {
        c
    }
}

/// The effective selection list: the configured one, or the one-element
/// fixed default when it is empty.
pub open spec fn eff_list(l: Seq<Seq<char>>, d: Seq<char>) -> Seq<Seq<char>> {
    if l.len() > 0 {
        l
    } else {
        seq![d]
    }
}

/// How an output relates to a template: scanning left to right, each
/// placeholder is replaced by some member of its list (one independent
/// draw per occurrence), and every other character passes through with
/// newlines turned into spaces.
pub open spec fn fill_rel(
    tpl: Seq<char>,
    roles: Seq<Seq<char>>,
    pros: Seq<Seq<char>>,
    lits: Seq<Seq<char>>,
    emos: Seq<Seq<char>>,
    out: Seq<char>,
) -> bool
    decreases tpl.len(),
{
    if tpl.len() == 0 {
        out.len() == 0
    } else if starts_with_seq(tpl, roles_tok()) {
        exists|k: int|
            #![trigger roles[k]]
            {
                &&& 0 <= k < roles.len()
                &&& starts_with_seq(out, roles[k])
                &&& fill_rel(tpl.skip(7), roles, pros, lits, emos, out.skip(roles[k].len() as int))
            }
    } else if starts_with_seq(tpl, pronouns_tok()) {
        exists|k: int|
            #![trigger pros[k]]
            {
                &&& 0 <= k < pros.len()
                &&& starts_with_seq(out, pros[k])
                &&& fill_rel(tpl.skip(10), roles, pros, lits, emos, out.skip(pros[k].len() as int))
            }
    } else if starts_with_seq(tpl, little_tok()) {
        exists|k: int|
            #![trigger lits[k]]
            {
                &&& 0 <= k < lits.len()
                &&& starts_with_seq(out, lits[k])
                &&& fill_rel(tpl.skip(8), roles, pros, lits, emos, out.skip(lits[k].len() as int))
            }
    } else if starts_with_seq(tpl, emotes_tok()) {
        exists|k: int|
            #![trigger emos[k]]
            {
                &&& 0 <= k < emos.len()
                &&& starts_with_seq(out, emos[k])
                &&& fill_rel(tpl.skip(8), roles, pros, lits, emos, out.skip(emos[k].len() as int))
            }
    } else {
        &&& out.len() >= 1
        &&& out[0] == lit_char(tpl[0])
        &&& fill_rel(tpl.skip(1), roles, pros, lits, emos, out.skip(1))
    }
}

/// Whether the token list stands at position `i`.
fn matches_tok(tpl: &Vec<char>, i: usize, tok: &Vec<char>) -> (b: bool)
    requires
        i <= tpl@.len(),
    ensures
        b == starts_with_seq(tpl@.skip(i as int), tok@),
{
    let m = tok.len();
    if tpl.len() - i < m {
        return false;
    }
    let mut j: usize = 0;
    while j < m
        invariant
            i + m <= tpl@.len(),
            tpl@.len() <= usize::MAX,
            j <= m,
            m == tok@.len(),
            forall|q: int| 0 <= q < j ==> tpl@.skip(i as int)[q] == tok@[q],
        decreases m - j,
    {
        if tpl[i + j] != tok[j] {
            assert(tpl@.skip(i as int)[j as int] != tok@[j as int]);
            return false;
        }
        j += 1;
    }
    assert(tpl@.skip(i as int).take(m as int) =~= tok@);
    true
}

/// One pick from the effective list: a member of the configured list,
/// or the fixed default when the list is empty.
fn pick_or<'a>(list: &'a Vec<String>, d: &'a str) -> (r: &'a str)
    ensures
        exists|k: int|
            0 <= k < eff_list(list.deep_view(), d@).len() && r@ == #[trigger] eff_list(
                list.deep_view(),
                d@,
            )[k],
{
    if list.len() == 0 {
        let ghost e = eff_list(list.deep_view(), d@);
        assert(e[0] == d@);
        d
    } else {
        let idx = random_below(list.len());
        let ghost e = eff_list(list.deep_view(), d@);
        assert(e[idx as int] == list.deep_view()[idx as int]);
        list[idx].as_str()
    }
}

fn fill_from(
    tpl: &Vec<char>,
    i: usize,
    rt: &Vec<char>,
    pt: &Vec<char>,
    lt: &Vec<char>,
    et: &Vec<char>,
    roles: &Vec<String>,
    pros: &Vec<String>,
    lits: &Vec<String>,
    emos: &Vec<String>,
) -> (out: Vec<char>)
    requires
        i <= tpl@.len(),
        rt@ == roles_tok(),
        pt@ == pronouns_tok(),
        lt@ == little_tok(),
        et@ == emotes_tok(),
    ensures
        fill_rel(
            tpl@.skip(i as int),
            eff_list(roles.deep_view(), "mommy"@),
            eff_list(pros.deep_view(), "her"@),
            eff_list(lits.deep_view(), "girl"@),
            eff_list(emos.deep_view(), "\u{1f496}"@),
            out@,
        ),
    decreases tpl@.len() - i,
{
    let ghost er = eff_list(roles.deep_view(), "mommy"@);
    let ghost ep = eff_list(pros.deep_view(), "her"@);
    let ghost el = eff_list(lits.deep_view(), "girl"@);
    let ghost ee = eff_list(emos.deep_view(), "\u{1f496}"@);
    if i == tpl.len() {
        let out: Vec<char> = Vec::new();
        assert(tpl@.skip(i as int).len() == 0);
        return out;
    }
    if matches_tok(tpl, i, rt) {
        let picked = pick_or(roles, "mommy");
        let mut out = chars_of(picked);
        let mut rest = fill_from(tpl, i + 7, rt, pt, lt, et, roles, pros, lits, emos);
        let ghost restv = rest@;
        out.append(&mut rest);
        proof {
            let k = choose|k: int| 0 <= k < er.len() && picked@ == #[trigger] er[k];
            assert(out@.take(er[k].len() as int) =~= picked@);
            assert(out@.skip(er[k].len() as int) =~= restv);
            assert(tpl@.skip(i as int).skip(7) =~= tpl@.skip(i + 7 as int));
            assert(starts_with_seq(out@, er[k]));
        }
        return out;
    }
    if matches_tok(tpl, i, pt) {
        let picked = pick_or(pros, "her");
        let mut out = chars_of(picked);
        let mut rest = fill_from(tpl, i + 10, rt, pt, lt, et, roles, pros, lits, emos);
        let ghost restv = rest@;
        out.append(&mut rest);
        proof {
            let k = choose|k: int| 0 <= k < ep.len() && picked@ == #[trigger] ep[k];
            assert(out@.take(ep[k].len() as int) =~= picked@);
            assert(out@.skip(ep[k].len() as int) =~= restv);
            assert(tpl@.skip(i as int).skip(10) =~= tpl@.skip(i + 10 as int));
            assert(starts_with_seq(out@, ep[k]));
        }
        return out;
    }
    if matches_tok(tpl, i, lt) {
        let picked = pick_or(lits, "girl");
        let mut out = chars_of(picked);
        let mut rest = fill_from(tpl, i + 8, rt, pt, lt, et, roles, pros, lits, emos);
        let ghost restv = rest@;
        out.append(&mut rest);
        proof {
            let k = choose|k: int| 0 <= k < el.len() && picked@ == #[trigger] el[k];
            assert(out@.take(el[k].len() as int) =~= picked@);
            assert(out@.skip(el[k].len() as int) =~= restv);
            assert(tpl@.skip(i as int).skip(8) =~= tpl@.skip(i + 8 as int));
            assert(starts_with_seq(out@, el[k]));
        }
        return out;
    }
    if matches_tok(tpl, i, et) {
        let picked = pick_or(emos, "\u{1f496}");
        let mut out = chars_of(picked);
        let mut rest = fill_from(tpl, i + 8, rt, pt, lt, et, roles, pros, lits, emos);
        let ghost restv = rest@;
        out.append(&mut rest);
        proof {
            let k = choose|k: int| 0 <= k < ee.len() && picked@ == #[trigger] ee[k];
            assert(out@.take(ee[k].len() as int) =~= picked@);
            assert(out@.skip(ee[k].len() as int) =~= restv);
            assert(tpl@.skip(i as int).skip(8) =~= tpl@.skip(i + 8 as int));
            assert(starts_with_seq(out@, ee[k]));
        }
        return out;
    }
    let c = tpl[i];
    let c2: char = if c == '\n' {
        ' '
    } else {
        c
    };
    let mut out: Vec<char> = Vec::new();
    out.push(c2);
    let mut rest = fill_from(tpl, i + 1, rt, pt, lt, et, roles, pros, lits, emos);
    let ghost restv = rest@;
    out.append(&mut rest);
    proof {
        assert(tpl@.skip(i as int)[0] == c);
        assert(out@[0] == lit_char(tpl@.skip(i as int)[0]));
        assert(out@.skip(1) =~= restv);
        assert(tpl@.skip(i as int).skip(1) =~= tpl@.skip(i + 1 as int));
    }
    out
}

/// Substitutes the four placeholders in a template, each occurrence by
/// its own independent draw from the corresponding configuration list
/// (with a fixed default when the list is empty), and turns literal
/// newlines into single spaces.
pub fn fill_template(template: &str, config: &ConfigMommy) -> (r: String)
    ensures
        fill_rel(
            template@,
            eff_list(config.roles.deep_view(), "mommy"@),
            eff_list(config.pronouns.deep_view(), "her"@),
            eff_list(config.little.deep_view(), "girl"@),
            eff_list(config.emotes.deep_view(), "\u{1f496}"@),
            r@,
        ),
{
    let tpl = chars_of(template);
    let rt: Vec<char> = vec!['{', 'r', 'o', 'l', 'e', 's', '}'];
    let pt: Vec<char> = vec!['{', 'p', 'r', 'o', 'n', 'o', 'u', 'n', 's', '}'];
    let lt: Vec<char> = vec!['{', 'l', 'i', 't', 't', 'l', 'e', '}'];
    let et: Vec<char> = vec!['{', 'e', 'm', 'o', 't', 'e', 's', '}'];
    assert(rt@ =~= roles_tok());
    assert(pt@ =~= pronouns_tok());
    assert(lt@ =~= little_tok());
    assert(et@ =~= emotes_tok());
    let out = fill_from(
        &tpl,
        0,
        &rt,
        &pt,
        &lt,
        &et,
        &config.roles,
        &config.pronouns,
        &config.little,
        &config.emotes,
    );
    assert(tpl@.skip(0) =~= tpl@);
    string_from_chars(&out)
}

/// The one output filling can produce when every list holds exactly one
/// element.
pub open spec fn fill_det(tpl: Seq<char>, r: Seq<char>, p: Seq<char>, l: Seq<char>, e: Seq<
    char,
>) -> Seq<char>
    decreases tpl.len(),
{
    if tpl.len() == 0 {
        Seq::empty()
    } else if starts_with_seq(tpl, roles_tok()) {
        r + fill_det(tpl.skip(7), r, p, l, e)
    } else if starts_with_seq(tpl, pronouns_tok()) {
        p + fill_det(tpl.skip(10), r, p, l, e)
    } else if starts_with_seq(tpl, little_tok()) {
        l + fill_det(tpl.skip(8), r, p, l, e)
    } else if starts_with_seq(tpl, emotes_tok()) {
        e + fill_det(tpl.skip(8), r, p, l, e)
    } else {
        seq![lit_char(tpl[0])] + fill_det(tpl.skip(1), r, p, l, e)
    }
}

/// With single-element lists there is exactly one output: filling is
/// deterministic regardless of the random draws.
pub proof fn lemma_fill_unique(
    tpl: Seq<char>,
    r: Seq<char>,
    p: Seq<char>,
    l: Seq<char>,
    e: Seq<char>,
    out: Seq<char>,
)
    requires
        fill_rel(tpl, seq![r], seq![p], seq![l], seq![e], out),
    ensures
        out == fill_det(tpl, r, p, l, e),
    decreases tpl.len(),
{
    if tpl.len() == 0 {
        assert(out =~= fill_det(tpl, r, p, l, e));
    } else if starts_with_seq(tpl, roles_tok()) {
        let k = choose|k: int|
            0 <= k < seq![r].len() && starts_with_seq(out, #[trigger] seq![r][k]) && fill_rel(
                tpl.skip(7),
                seq![r],
                seq![p],
                seq![l],
                seq![e],
                out.skip(seq![r][k].len() as int),
            );
        assert(seq![r][k] == r);
        lemma_fill_unique(tpl.skip(7), r, p, l, e, out.skip(r.len() as int));
        assert(out =~= out.take(r.len() as int) + out.skip(r.len() as int));
    } else if starts_with_seq(tpl, pronouns_tok()) {
        let k = choose|k: int|
            0 <= k < seq![p].len() && starts_with_seq(out, #[trigger] seq![p][k]) && fill_rel(
                tpl.skip(10),
                seq![r],
                seq![p],
                seq![l],
                seq![e],
                out.skip(seq![p][k].len() as int),
            );
        assert(seq![p][k] == p);
        lemma_fill_unique(tpl.skip(10), r, p, l, e, out.skip(p.len() as int));
        assert(out =~= out.take(p.len() as int) + out.skip(p.len() as int));
    } else if starts_with_seq(tpl, little_tok()) {
        let k = choose|k: int|
            0 <= k < seq![l].len() && starts_with_seq(out, #[trigger] seq![l][k]) && fill_rel(
                tpl.skip(8),
                seq![r],
                seq![p],
                seq![l],
                seq![e],
                out.skip(seq![l][k].len() as int),
            );
        assert(seq![l][k] == l);
        lemma_fill_unique(tpl.skip(8), r, p, l, e, out.skip(l.len() as int));
        assert(out =~= out.take(l.len() as int) + out.skip(l.len() as int));
    } else if starts_with_seq(tpl, emotes_tok()) {
        let k = choose|k: int|
            0 <= k < seq![e].len() && starts_with_seq(out, #[trigger] seq![e][k]) && fill_rel(
                tpl.skip(8),
                seq![r],
                seq![p],
                seq![l],
                seq![e],
                out.skip(seq![e][k].len() as int),
            );
        assert(seq![e][k] == e);
        lemma_fill_unique(tpl.skip(8), r, p, l, e, out.skip(e.len() as int));
        assert(out =~= out.take(e.len() as int) + out.skip(e.len() as int));
    } else {
        lemma_fill_unique(tpl.skip(1), r, p, l, e, out.skip(1));
        assert(out =~= seq![out[0]] + out.skip(1));
    }
}

proof fn lemma_mismatch(s: Seq<char>, tok: Seq<char>, j: int)
    requires
        0 <= j < tok.len(),
        j < s.len(),
        s[j] != tok[j],
    ensures
        !starts_with_seq(s, tok),
{
    if starts_with_seq(s, tok) {
        assert(s.take(tok.len() as int)[j] == s[j]);
    }
}

/// Filling the template that names all four placeholders once, with the
/// single-element lists "mommy", "her", "girl" and "e", always yields
/// "mommy her girl e", whatever the random draws.
pub proof fn lemma_fill_singletons(out: Seq<char>)
    requires
        fill_rel(
            "{roles} {pronouns} {little} {emotes}"@,
            seq!["mommy"@],
            seq!["her"@],
            seq!["girl"@],
            seq!["e"@],
            out,
        ),
    ensures
        out == "mommy her girl e"@,
{
    reveal_strlit("{roles} {pronouns} {little} {emotes}");
    reveal_strlit("mommy her girl e");
    let tpl = "{roles} {pronouns} {little} {emotes}"@;
    let r = "mommy"@;
    let p = "her"@;
    let l = "girl"@;
    let e = "e"@;
    lemma_fill_unique(tpl, r, p, l, e, out);
    assert(tpl.len() == 36);
    // "{roles}" stands at the front.
    assert(tpl.take(7) =~= roles_tok());
    let t1 = tpl.skip(7);
    assert(fill_det(tpl, r, p, l, e) == r + fill_det(t1, r, p, l, e));
    // A space: no token starts with a space.
    assert(t1[0] == ' ');
    lemma_mismatch(t1, roles_tok(), 0);
    lemma_mismatch(t1, pronouns_tok(), 0);
    lemma_mismatch(t1, little_tok(), 0);
    lemma_mismatch(t1, emotes_tok(), 0);
    let t2 = t1.skip(1);
    assert(fill_det(t1, r, p, l, e) == seq![' '] + fill_det(t2, r, p, l, e));
    assert(t2 =~= tpl.skip(8));
    // "{pronouns}" stands next; it is not "{roles}".
    assert(t2[1] == 'p');
    lemma_mismatch(t2, roles_tok(), 1);
    assert(t2.take(10) =~= pronouns_tok());
    let t3 = t2.skip(10);
    assert(fill_det(t2, r, p, l, e) == p + fill_det(t3, r, p, l, e));
    assert(t3 =~= tpl.skip(18));
    // A space again.
    assert(t3[0] == ' ');
    lemma_mismatch(t3, roles_tok(), 0);
    lemma_mismatch(t3, pronouns_tok(), 0);
    lemma_mismatch(t3, little_tok(), 0);
    lemma_mismatch(t3, emotes_tok(), 0);
    let t4 = t3.skip(1);
    assert(fill_det(t3, r, p, l, e) == seq![' '] + fill_det(t4, r, p, l, e));
    assert(t4 =~= tpl.skip(19));
    // "{little}" stands next.
    assert(t4[1] == 'l');
    lemma_mismatch(t4, roles_tok(), 1);
    lemma_mismatch(t4, pronouns_tok(), 1);
    assert(t4.take(8) =~= little_tok());
    let t5 = t4.skip(8);
    assert(fill_det(t4, r, p, l, e) == l + fill_det(t5, r, p, l, e));
    assert(t5 =~= tpl.skip(27));
    // A space again.
    assert(t5[0] == ' ');
    lemma_mismatch(t5, roles_tok(), 0);
    lemma_mismatch(t5, pronouns_tok(), 0);
    lemma_mismatch(t5, little_tok(), 0);
    lemma_mismatch(t5, emotes_tok(), 0);
    let t6 = t5.skip(1);
    assert(fill_det(t5, r, p, l, e) == seq![' '] + fill_det(t6, r, p, l, e));
    assert(t6 =~= tpl.skip(28));
    // "{emotes}" ends the template.
    assert(t6[1] == 'e');
    lemma_mismatch(t6, roles_tok(), 1);
    lemma_mismatch(t6, pronouns_tok(), 1);
    lemma_mismatch(t6, little_tok(), 1);
    assert(t6.take(8) =~= emotes_tok());
    let t7 = t6.skip(8);
    assert(t7.len() == 0);
    assert(fill_det(t6, r, p, l, e) == e + fill_det(t7, r, p, l, e));
    assert(fill_det(t7, r, p, l, e) == Seq::<char>::empty());
    reveal_strlit("mommy");
    reveal_strlit("her");
    reveal_strlit("girl");
    reveal_strlit("e");
    assert(fill_det(tpl, r, p, l, e) =~= "mommy her girl e"@);
}

} // verus!
