//! Mood-keyed affirmation sets: resolution with fallback, and
//! probabilistic mixing of two moods.

use crate::rand::{chance, random_below};
use crate::strings::str_eq;
use vstd::prelude::*;
use vstd::string::StringExecFns;

verus! {

/// The two phrase lists of one mood.
#[derive(Debug)]
pub struct MoodSet {
    pub positive: Vec<String>,
    pub negative: Vec<String>,
}

/// A whole affirmation table: mood-keyed sets plus the top-level lists
/// used as the ultimate fallback.
#[derive(Debug)]
pub struct AffirmationsFile {
    pub moods: Vec<(String, MoodSet)>,
    pub positive: Vec<String>,
    pub negative: Vec<String>,
}

/// The phrase lists resolved for one mood.
#[derive(Debug)]
pub struct Affirmations {
    pub positive: Vec<String>,
    pub negative: Vec<String>,
}

/// The set stored under the first matching mood key.
pub open spec fn mood_lookup(moods: Seq<(String, MoodSet)>, key: Seq<char>) -> Option<MoodSet>
    decreases moods.len(),
{
    if moods.len() == 0 {
        None
    } else if moods[0].0@ == key {
        Some(moods[0].1)
    } else {
        mood_lookup(moods.skip(1), key)
    }
}

/// The lists resolution yields, first match wins: the requested mood's
/// set, else the "chill" set, else the top-level lists.
pub open spec fn resolved_sets(file: AffirmationsFile, mood: Seq<char>) -> (Seq<Seq<char>>, Seq<
    Seq<char>,
>) {
    match mood_lookup(file.moods@, mood) {
        Some(ms) => (ms.positive.deep_view(), ms.negative.deep_view()),
        None => match mood_lookup(file.moods@, "chill"@) {
            Some(ms) => (ms.positive.deep_view(), ms.negative.deep_view()),
            None => (file.positive.deep_view(), file.negative.deep_view()),
        },
    }
}

/// The resolution order, spelled out: a missing mood falls back to the
/// "chill" set when that key exists, and to the top-level lists, which
/// may be empty but are never absent, when it does not.
pub proof fn lemma_resolution_fallback(file: AffirmationsFile, mood: Seq<char>)
    requires
        mood_lookup(file.moods@, mood) is None,
    ensures
        mood_lookup(file.moods@, "chill"@) matches Some(ms) ==> resolved_sets(file, mood) == (
            ms.positive.deep_view(),
            ms.negative.deep_view(),
        ),
        mood_lookup(file.moods@, "chill"@) is None ==> resolved_sets(file, mood) == (
            file.positive.deep_view(),
            file.negative.deep_view(),
        ),
{
}

/// Finds the set stored under a mood key.
fn find_mood<'a>(file: &'a AffirmationsFile, key: &str) -> (r: Option<&'a MoodSet>)
    ensures
        match r {
            Some(ms) => mood_lookup(file.moods@, key@) == Some(*ms),
            None => mood_lookup(file.moods@, key@) is None,
        },
{
    let mut i: usize = 0;
    assert(file.moods@.skip(0) =~= file.moods@);
    while i < file.moods.len()
        invariant
            i <= file.moods@.len(),
            mood_lookup(file.moods@, key@) == mood_lookup(file.moods@.skip(i as int), key@),
        decreases file.moods@.len() - i,
    {
        assert(file.moods@.skip(i as int)[0] == file.moods@[i as int]);
        assert(file.moods@.skip(i as int).skip(1) =~= file.moods@.skip(i + 1 as int));
        if str_eq(file.moods[i].0.as_str(), key) {
            return Some(&file.moods[i].1);
        }
        i += 1;
    }
    None
}

/// A copy of a phrase list.
fn clone_phrases(v: &Vec<String>) -> (r: Vec<String>)
    ensures
        r@ == v@,
{
    let mut r: Vec<String> = Vec::new();
    let mut i: usize = 0;
    while i < v.len()
        invariant
            i <= v@.len(),
            r@ == v@.subrange(0, i as int),
        decreases v@.len() - i,
    {
        r.push(v[i].clone());
        assert(v@.subrange(0, i as int).push(v@[i as int]) =~= v@.subrange(0, i + 1 as int));
        i += 1;
    }
    assert(r@ =~= v@);
    r
}

/// Resolves the phrase lists for a mood out of a table.
pub fn resolve_mood(file: &AffirmationsFile, mood: &str) -> (r: Affirmations)
    ensures
        r.positive.deep_view() == resolved_sets(*file, mood@).0,
        r.negative.deep_view() == resolved_sets(*file, mood@).1,
{
    match find_mood(file, mood) {
        Some(ms) => Affirmations {
            positive: clone_phrases(&ms.positive),
            negative: clone_phrases(&ms.negative),
        },
        None => match find_mood(file, "chill") {
            Some(ms) => Affirmations {
                positive: clone_phrases(&ms.positive),
                negative: clone_phrases(&ms.negative),
            },
            None => Affirmations {
                positive: clone_phrases(&file.positive),
                negative: clone_phrases(&file.negative),
            },
        },
    }
}

/// One phrase of `p` with one phrase of `s` appended, space-joined.
pub open spec fn appended_rel(p: Seq<Seq<char>>, s: Seq<Seq<char>>, out: Seq<Seq<char>>) -> bool {
    exists|i: int, j: int|
        #![trigger p[i], s[j]]
        0 <= i < p.len() && 0 <= j < s.len() && out == p.update(i, p[i] + " "@ + s[j])
}

/// An append always lengthens one phrase, so an unchanged list is never
/// in the appended relation with itself.
pub proof fn lemma_unchanged_not_appended(p: Seq<Seq<char>>, s: Seq<Seq<char>>)
    ensures
        !appended_rel(p, s, p),
{
    reveal_strlit(" ");
    if appended_rel(p, s, p) {
        let (i, j) = choose|i: int, j: int|
            #![trigger p[i], s[j]]
            0 <= i < p.len() && 0 <= j < s.len() && p == p.update(i, p[i] + " "@ + s[j]);
        assert(p.update(i, p[i] + " "@ + s[j])[i] == p[i] + " "@ + s[j]);
        assert(p[i].len() == p[i].len() + 1 + s[j].len());
    }
}

/// How mixed lists relate to the primary lists `pp`/`pn` and the
/// secondary lists `sp`/`sn`: each side is unchanged or got one append,
/// and a side whose primary or secondary list is empty is unchanged.
pub open spec fn mixed_sets(
    pp: Seq<Seq<char>>,
    pn: Seq<Seq<char>>,
    sp: Seq<Seq<char>>,
    sn: Seq<Seq<char>>,
    ap: Seq<Seq<char>>,
    an: Seq<Seq<char>>,
) -> bool {
    &&& (ap == pp || appended_rel(pp, sp, ap))
    &&& (an == pn || appended_rel(pn, sn, an))
    &&& (pp.len() == 0 || sp.len() == 0 ==> ap == pp)
    &&& (pn.len() == 0 || sn.len() == 0 ==> an == pn)
}

/// Copies the primary mood's lists and, behind one draw that succeeds
/// with probability `prob_num / prob_den`, appends one random secondary
/// phrase to one random primary phrase, independently on the positive
/// and the negative side.  Yields `None` exactly when either mood key is
/// absent from the table.
pub fn mix(
    file: &AffirmationsFile,
    primary: &str,
    secondary: &str,
    prob_num: usize,
    prob_den: usize,
) -> (r: Option<Affirmations>)
    requires
        prob_den > 0,
    ensures
        r is Some <==> (mood_lookup(file.moods@, primary@) is Some && mood_lookup(
            file.moods@,
            secondary@,
        ) is Some),
        r matches Some(a) ==> ({
            let pm = mood_lookup(file.moods@, primary@)->0;
            let sm = mood_lookup(file.moods@, secondary@)->0;
            let pp = pm.positive.deep_view();
            let pn = pm.negative.deep_view();
            let sp = sm.positive.deep_view();
            let sn = sm.negative.deep_view();
            &&& mixed_sets(pp, pn, sp, sn, a.positive.deep_view(), a.negative.deep_view())
            &&& (prob_num == 0 ==> a.positive.deep_view() == pp && a.negative.deep_view() == pn)
            &&& (prob_num >= prob_den && pp.len() > 0 && sp.len() > 0 ==> appended_rel(
                pp,
                sp,
                a.positive.deep_view(),
            ))
            &&& (prob_num >= prob_den && pn.len() > 0 && sn.len() > 0 ==> appended_rel(
                pn,
                sn,
                a.negative.deep_view(),
            ))
            &&& (pp.len() > 0 && sp.len() > 0 && pn.len() > 0 && sn.len() > 0 ==> (appended_rel(
                pp,
                sp,
                a.positive.deep_view(),
            ) <==> appended_rel(pn, sn, a.negative.deep_view())))
        }),
{
    let pm = match find_mood(file, primary) {
        Some(ms) => ms,
        None => {
            return None;
        },
    };
    let sm = match find_mood(file, secondary) {
        Some(ms) => ms,
        None => {
            return None;
        },
    };
    let mut positive = clone_phrases(&pm.positive);
    let mut negative = clone_phrases(&pm.negative);
    let hit = chance(prob_num, prob_den);
    if hit {
        if positive.len() > 0 && sm.positive.len() > 0 {
            let j = random_below(sm.positive.len());
            let i = random_below(positive.len());
            let mut joined = positive[i].clone();
            joined.append(" ");
            joined.append(sm.positive[j].as_str());
            let ghost p0 = positive.deep_view();
            positive[i] = joined;
            assert(positive.deep_view() =~~= p0.update(
                i as int,
                p0[i as int] + " "@ + sm.positive.deep_view()[j as int],
            ));
        }
        if negative.len() > 0 && sm.negative.len() > 0 {
            let j = random_below(sm.negative.len());
            let i = random_below(negative.len());
            let mut joined = negative[i].clone();
            joined.append(" ");
            joined.append(sm.negative[j].as_str());
            let ghost n0 = negative.deep_view();
            negative[i] = joined;
            assert(negative.deep_view() =~~= n0.update(
                i as int,
                n0[i as int] + " "@ + sm.negative.deep_view()[j as int],
            ));
        }
    }
    proof {
        lemma_unchanged_not_appended(pm.positive.deep_view(), sm.positive.deep_view());
        lemma_unchanged_not_appended(pm.negative.deep_view(), sm.negative.deep_view());
    }
    Some(Affirmations { positive, negative })
}

/// The chill phrases of the embedded table.
pub open spec fn chill_positive() -> Seq<Seq<char>> {
    seq![
        "*pats your head* what a good {little}~"@,
        "you're such a smart cookie~ {emotes}"@,
        "*boops your nose* {emotes}"@,
        "{roles} is so proud of {pronouns} {little}~ {emotes}"@,
    ]
}

pub open spec fn chill_negative() -> Seq<Seq<char>> {
    seq![
        "{roles} believes in you~ {emotes}"@,
        "it's ok, {roles} still loves you~ {emotes}"@,
        "just a little stumble, {little}~ try again for {roles}~"@,
    ]
}

/// The ominous phrases of the embedded table.
pub open spec fn ominous_positive() -> Seq<Seq<char>> {
    seq![
        "as was written aeons ago, {pronouns} {little} prevails~"@,
        "{roles}'s {little} shall be feared among compilers~"@,
        "the stars align for {pronouns} {little}~"@,
    ]
}

pub open spec fn ominous_negative() -> Seq<Seq<char>> {
    seq![
        "the void has taken note of this failure, {little}~"@,
        "even aeons of retries would not appease the machine~"@,
    ]
}

/// The thirsty phrases of the embedded table.
pub open spec fn thirsty_positive() -> Seq<Seq<char>> {
    seq![
        "{roles} can't take {pronouns} eyes off {pronouns} clever {little}~ {emotes}"@,
        "such a capable {little}~ come get your reward~ {emotes}"@,
    ]
}

pub open spec fn thirsty_negative() -> Seq<Seq<char>> {
    seq![
        "come here, {little}, let {roles} make it all better~ {emotes}"@,
        "don't worry, {roles} still wants {pronouns} {little}~"@,
    ]
}

/// The top-level fallback phrases of the embedded table.
pub open spec fn base_positive() -> Seq<Seq<char>> {
    seq!["good {little}~ {emotes}"@, "{roles} is proud of {pronouns} {little}~"@]
}

pub open spec fn base_negative() -> Seq<Seq<char>> {
    seq![
        "{roles} still loves {pronouns} {little}~ {emotes}"@,
        "everyone stumbles sometimes, {little}~"@,
    ]
}

/// What the embedded table holds: the three moods in order, and the
/// top-level fallback lists.
pub open spec fn embedded_table(f: AffirmationsFile) -> bool {
    &&& f.moods@.len() == 3
    &&& f.moods@[0].0@ == "chill"@
    &&& f.moods@[0].1.positive.deep_view() == chill_positive()
    &&& f.moods@[0].1.negative.deep_view() == chill_negative()
    &&& f.moods@[1].0@ == "ominous"@
    &&& f.moods@[1].1.positive.deep_view() == ominous_positive()
    &&& f.moods@[1].1.negative.deep_view() == ominous_negative()
    &&& f.moods@[2].0@ == "thirsty"@
    &&& f.moods@[2].1.positive.deep_view() == thirsty_positive()
    &&& f.moods@[2].1.negative.deep_view() == thirsty_negative()
    &&& f.positive.deep_view() == base_positive()
    &&& f.negative.deep_view() == base_negative()
}

/// What resolution yields from the embedded table: the requested mood's
/// lists for its three moods, and the chill lists for any other name.
pub open spec fn embedded_resolved(mood: Seq<char>) -> (Seq<Seq<char>>, Seq<Seq<char>>) {
    if mood == "ominous"@ {
        (ominous_positive(), ominous_negative())
    } else if mood == "thirsty"@ {
        (thirsty_positive(), thirsty_negative())
    } else {
        (chill_positive(), chill_negative())
    }
}

proof fn lemma_embedded_resolution(f: AffirmationsFile, mood: Seq<char>)
    requires
        embedded_table(f),
    ensures
        resolved_sets(f, mood) == embedded_resolved(mood),
{
    reveal_strlit("chill");
    reveal_strlit("ominous");
    reveal_strlit("thirsty");
    assert("chill"@.len() == 5);
    assert("ominous"@.len() == 7);
    assert("thirsty"@.len() == 7);
    assert("ominous"@[0] == 'o');
    assert("thirsty"@[0] == 't');
    assert("chill"@ != "ominous"@);
    assert("chill"@ != "thirsty"@);
    assert("ominous"@ != "thirsty"@);
    let m = f.moods@;
    assert(m.skip(1).len() == 2);
    assert(m.skip(1)[0] == m[1]);
    assert(m.skip(1).skip(1).len() == 1);
    assert(m.skip(1).skip(1)[0] == m[2]);
    assert(m.skip(1).skip(1).skip(1).len() == 0);
    if mood == "chill"@ {
        assert(mood_lookup(m, mood) == Some(m[0].1));
        assert(resolved_sets(f, mood) == embedded_resolved(mood));
    } else if mood == "ominous"@ {
        assert(mood_lookup(m, mood) == mood_lookup(m.skip(1), mood));
        assert(mood_lookup(m.skip(1), mood) == Some(m[1].1));
        assert(resolved_sets(f, mood) == embedded_resolved(mood));
    } else if mood == "thirsty"@ {
        assert(mood_lookup(m, mood) == mood_lookup(m.skip(1), mood));
        assert(mood_lookup(m.skip(1), mood) == mood_lookup(m.skip(1).skip(1), mood));
        assert(mood_lookup(m.skip(1).skip(1), mood) == Some(m[2].1));
        assert(resolved_sets(f, mood) == embedded_resolved(mood));
    } else {
        assert(mood_lookup(m, mood) == mood_lookup(m.skip(1), mood));
        assert(mood_lookup(m.skip(1), mood) == mood_lookup(m.skip(1).skip(1), mood));
        assert(mood_lookup(m.skip(1).skip(1), mood) == mood_lookup(m.skip(1).skip(1).skip(1), mood));
        assert(mood_lookup(m, mood) is None);
        assert(mood_lookup(m, "chill"@) == Some(m[0].1));
        assert(resolved_sets(f, mood) == embedded_resolved(mood));
    }
}

fn push_phrase(v: &mut Vec<String>, s: &str)
    ensures
        final(v).deep_view() == old(v).deep_view().push(s@),
{
    let ghost v0 = v.deep_view();
    let phrase = String::from_str(s);
    let ghost pv = phrase@;
    v.push(phrase);
    assert(v.deep_view() =~= v0.push(pv));
}

/// Builds the embedded default table.
pub fn embedded_affirmations() -> (f: AffirmationsFile)
    ensures
        embedded_table(f),
{
    let mut cp: Vec<String> = Vec::new();
    push_phrase(&mut cp, "*pats your head* what a good {little}~");
    push_phrase(&mut cp, "you're such a smart cookie~ {emotes}");
    push_phrase(&mut cp, "*boops your nose* {emotes}");
    push_phrase(&mut cp, "{roles} is so proud of {pronouns} {little}~ {emotes}");
    assert(cp.deep_view() =~= chill_positive());
    let mut cn: Vec<String> = Vec::new();
    push_phrase(&mut cn, "{roles} believes in you~ {emotes}");
    push_phrase(&mut cn, "it's ok, {roles} still loves you~ {emotes}");
    push_phrase(&mut cn, "just a little stumble, {little}~ try again for {roles}~");
    assert(cn.deep_view() =~= chill_negative());
    let mut op: Vec<String> = Vec::new();
    push_phrase(&mut op, "as was written aeons ago, {pronouns} {little} prevails~");
    push_phrase(&mut op, "{roles}'s {little} shall be feared among compilers~");
    push_phrase(&mut op, "the stars align for {pronouns} {little}~");
    assert(op.deep_view() =~= ominous_positive());
    let mut on: Vec<String> = Vec::new();
    push_phrase(&mut on, "the void has taken note of this failure, {little}~");
    push_phrase(&mut on, "even aeons of retries would not appease the machine~");
    assert(on.deep_view() =~= ominous_negative());
    let mut tp: Vec<String> = Vec::new();
    push_phrase(&mut tp, "{roles} can't take {pronouns} eyes off {pronouns} clever {little}~ {emotes}");
    push_phrase(&mut tp, "such a capable {little}~ come get your reward~ {emotes}");
    assert(tp.deep_view() =~= thirsty_positive());
    let mut tn: Vec<String> = Vec::new();
    push_phrase(&mut tn, "come here, {little}, let {roles} make it all better~ {emotes}");
    push_phrase(&mut tn, "don't worry, {roles} still wants {pronouns} {little}~");
    assert(tn.deep_view() =~= thirsty_negative());
    let mut bp: Vec<String> = Vec::new();
    push_phrase(&mut bp, "good {little}~ {emotes}");
    push_phrase(&mut bp, "{roles} is proud of {pronouns} {little}~");
    assert(bp.deep_view() =~= base_positive());
    let mut bn: Vec<String> = Vec::new();
    push_phrase(&mut bn, "{roles} still loves {pronouns} {little}~ {emotes}");
    push_phrase(&mut bn, "everyone stumbles sometimes, {little}~");
    assert(bn.deep_view() =~= base_negative());
    let mut moods: Vec<(String, MoodSet)> = Vec::new();
    moods.push((String::from_str("chill"), MoodSet { positive: cp, negative: cn }));
    moods.push((String::from_str("ominous"), MoodSet { positive: op, negative: on }));
    moods.push((String::from_str("thirsty"), MoodSet { positive: tp, negative: tn }));
    AffirmationsFile { moods, positive: bp, negative: bn }
}

/// Loads the embedded affirmations without mood support: the top-level
/// lists, always present.
pub fn load_affirmations() -> (r: Option<Affirmations>)
    ensures
        r matches Some(a) ==> a.positive.deep_view() == base_positive()
            && a.negative.deep_view() == base_negative(),
        r is Some,
{
    let f = embedded_affirmations();
    Some(Affirmations { positive: f.positive, negative: f.negative })
}

/// Loads the embedded affirmations resolved for a mood; the embedded
/// table is always valid, so this never yields `None`.
pub fn load_affirmations_with_mood(mood: &str) -> (r: Option<Affirmations>)
    ensures
        r matches Some(a) ==> a.positive.deep_view() == embedded_resolved(mood@).0
            && a.negative.deep_view() == embedded_resolved(mood@).1,
        r is Some,
{
    let f = embedded_affirmations();
    let a = resolve_mood(&f, mood);
    proof {
        lemma_embedded_resolution(f, mood@);
    }
    Some(a)
}

} // verus!
