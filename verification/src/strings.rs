//! Character-level helpers shared by the parsing and templating code.
//!
//! Strings are modelled as their `Seq<char>` views.  Case folding and the
//! Unicode whitespace test are taken from the standard library through
//! trusted wrappers; everything built on top of them is verified.

use vstd::prelude::*;
use vstd::string::StrSliceExecFns;

verus! {

/// The sequence of characters that `str::to_lowercase` returns for a given
/// input; it depends on the input characters alone.
pub uninterp spec fn lower_of(s: Seq<char>) -> Seq<char>;

/// Whether `char::is_whitespace` holds of a character.
pub uninterp spec fn is_whitespace_char(c: char) -> bool;

/// Relies on char::is_whitespace: the Unicode whitespace test.
#[verifier::external_body]
pub fn char_is_whitespace(c: char) -> (r: bool)
    ensures
        r == is_whitespace_char(c),
{
    c.is_whitespace()
}

/// Relies on str::to_lowercase: Unicode lowercasing, a function of the
/// characters alone; an empty string stays empty.
#[verifier::external_body]
pub fn to_lowercase(s: &str) -> (r: String)
    ensures
        r@ == lower_of(s@),
        s@.len() == 0 ==> r@.len() == 0,
{
    s.to_lowercase()
}

/// Relies on String::push: appends one character at the end.
#[verifier::external_body]
pub fn push_char(s: &mut String, c: char)
    ensures
        final(s)@ == old(s)@.push(c),
{
    s.push(c);
}

/// The characters of a string slice, as a vector.
pub fn chars_of(s: &str) -> (r: Vec<char>)
    ensures
        r@ == s@,
{
    let n = s.unicode_len();
    let mut r: Vec<char> = Vec::new();
    let mut i: usize = 0;
    while i < n
        invariant
            i <= n,
            n == s@.len(),
            r@ == s@.subrange(0, i as int),
        decreases n - i,
    {
        let c = s.get_char(i);
        r.push(c);
        assert(s@.subrange(0, i as int).push(c) =~= s@.subrange(0, i + 1 as int));
        i += 1;
    }
    assert(r@ =~= s@);
    r
}

/// A string made of the given characters.
pub fn string_from_chars(v: &Vec<char>) -> (r: String)
    ensures
        r@ == v@,
{
    let mut r = String::new();
    let mut i: usize = 0;
    while i < v.len()
        invariant
            i <= v.len(),
            r@ == v@.subrange(0, i as int),
        decreases v.len() - i,
    {
        push_char(&mut r, v[i]);
        assert(v@.subrange(0, i as int).push(v@[i as int]) =~= v@.subrange(0, i + 1 as int));
        i += 1;
    }
    assert(r@ =~= v@);
    r
}

/// Character-wise string equality.
pub fn str_eq(a: &str, b: &str) -> (r: bool)
    ensures
        r == (a@ == b@),
{
    let na = a.unicode_len();
    let nb = b.unicode_len();
    if na != nb {
        return false;
    }
    let mut i: usize = 0;
    while i < na
        invariant
            i <= na,
            na == a@.len(),
            na == b@.len(),
            forall|j: int| 0 <= j < i ==> a@[j] == b@[j],
        decreases na - i,
    {
        if a.get_char(i) != b.get_char(i) {
            return false;
        }
        i += 1;
    }
    assert(a@ =~= b@);
    true
}

/// The characters left after dropping leading whitespace.
pub open spec fn trim_front(s: Seq<char>) -> Seq<char>
    decreases s.len(),
{
    if s.len() > 0 && is_whitespace_char(s[0]) {
        trim_front(s.skip(1))
    } else {
        s
    }
}

/// The characters left after dropping trailing whitespace.
pub open spec fn trim_back(s: Seq<char>) -> Seq<char>
    decreases s.len(),
{
    if s.len() > 0 && is_whitespace_char(s[s.len() - 1]) {
        trim_back(s.take(s.len() - 1))
    } else {
        s
    }
}

/// The characters left after dropping whitespace at both ends, as
/// `str::trim` does.
pub open spec fn trim_ws(s: Seq<char>) -> Seq<char> {
    trim_back(trim_front(s))
}

/// The trimmed middle of a character vector.
pub fn trim_chars(v: &Vec<char>) -> (r: Vec<char>)
    ensures
        r@ == trim_ws(v@),
{
    let n = v.len();
    let mut st: usize = 0;
    assert(v@.skip(0) =~= v@);
    while st < n && char_is_whitespace(v[st])
        invariant
            st <= n,
            n == v@.len(),
            trim_front(v@) == trim_front(v@.skip(st as int)),
        decreases n - st,
    {
        assert(v@.skip(st as int).skip(1) =~= v@.skip(st + 1 as int));
        st += 1;
    }
    let t = Ghost(v@.skip(st as int));
    assert(trim_front(v@) == t@);
    let mut end: usize = n - st;
    assert(t@.take(end as int) =~= t@);
    while end > 0 && char_is_whitespace(v[st + end - 1])
        invariant
            end <= n - st,
            st <= n,
            n == v@.len(),
            t@ == v@.skip(st as int),
            trim_back(t@) == trim_back(t@.take(end as int)),
        decreases end,
    {
        assert(t@.take(end as int)[end - 1] == v@[st + end - 1]);
        assert(t@.take(end as int).take(end - 1) =~= t@.take(end - 1));
        end -= 1;
    }
    assert(trim_ws(v@) == t@.take(end as int));
    let mut r: Vec<char> = Vec::new();
    let mut i: usize = 0;
    while i < end
        invariant
            i <= end,
            end <= n - st,
            st <= n,
            n == v@.len(),
            r@ == v@.subrange(st as int, st + i as int),
        decreases end - i,
    {
        r.push(v[st + i]);
        assert(v@.subrange(st as int, st + i as int).push(v@[st + i]) =~= v@.subrange(
            st as int,
            st + i + 1 as int,
        ));
        i += 1;
    }
    assert(r@ =~= t@.take(end as int));
    r
}

/// The token a buffered run contributes when splitting without case
/// folding: its trimmed form when non-empty, nothing otherwise.
pub open spec fn close_trimmed(cur: Seq<char>) -> Seq<Seq<char>> {
    if trim_ws(cur).len() > 0 {
        seq![trim_ws(cur)]
    } else {
        Seq::empty()
    }
}

/// The trimmed, non-empty tokens of `s` split on `sep`, with the run
/// `cur` already read.
pub open spec fn split_trim_acc(s: Seq<char>, sep: char, cur: Seq<char>) -> Seq<Seq<char>>
    decreases s.len(),
{
    if s.len() == 0 {
        close_trimmed(cur)
    } else if s[0] == sep {
        close_trimmed(cur) + split_trim_acc(s.skip(1), sep, Seq::empty())
    } else {
        split_trim_acc(s.skip(1), sep, cur.push(s[0]))
    }
}

/// The trimmed, non-empty tokens of `s` split on `sep`, order kept.
pub open spec fn split_trim(s: Seq<char>, sep: char) -> Seq<Seq<char>> {
    split_trim_acc(s, sep, Seq::empty())
}

/// Splits on `sep` and trims each piece, dropping the pieces that end
/// up empty.
pub fn split_trim_chars(v: &Vec<char>, sep: char) -> (r: Vec<String>)
    ensures
        r.deep_view() == split_trim(v@, sep),
{
    let mut r: Vec<String> = Vec::new();
    let mut cur: Vec<char> = Vec::new();
    let mut i: usize = 0;
    assert(v@.skip(0) =~= v@);
    assert(r.deep_view() + split_trim_acc(v@, sep, cur@) =~= split_trim_acc(v@, sep, cur@));
    while i < v.len()
        invariant
            i <= v@.len(),
            split_trim(v@, sep) == r.deep_view() + split_trim_acc(v@.skip(i as int), sep, cur@),
        decreases v@.len() - i,
    {
        let c = v[i];
        assert(v@.skip(i as int)[0] == c);
        assert(v@.skip(i as int).skip(1) =~= v@.skip(i + 1 as int));
        if c == sep {
            let ghost oc = cur@;
            let ghost r0 = r.deep_view();
            push_trimmed(&mut r, &cur);
            cur = Vec::new();
            assert((r0 + close_trimmed(oc)) + split_trim_acc(v@.skip(i + 1 as int), sep,
                Seq::empty()) =~= r0 + (close_trimmed(oc) + split_trim_acc(
                v@.skip(i + 1 as int),
                sep,
                Seq::empty(),
            )));
        } else {
            cur.push(c);
        }
        i += 1;
    }
    assert(v@.skip(i as int).len() == 0);
    push_trimmed(&mut r, &cur);
    r
}

/// Appends the trimmed form of a run when it is non-empty.
fn push_trimmed(r: &mut Vec<String>, cur: &Vec<char>)
    ensures
        final(r).deep_view() == old(r).deep_view() + close_trimmed(cur@),
{
    let trimmed = trim_chars(cur);
    let ghost r0 = r.deep_view();
    if trimmed.len() > 0 {
        let word = string_from_chars(&trimmed);
        let ghost wv = word@;
        r.push(word);
        assert(r.deep_view() =~= r0.push(wv));
        assert(r.deep_view() =~= r0 + close_trimmed(cur@));
    } else {
        assert(r.deep_view() =~= r0 + close_trimmed(cur@));
    }
}

/// The pieces of `s` split on `sep` with the run `cur` already read:
/// every piece is kept, empty or not, as `str::split` keeps them.
pub open spec fn raw_split_acc(s: Seq<char>, sep: char, cur: Seq<char>) -> Seq<Seq<char>>
    decreases s.len(),
{
    if s.len() == 0 {
        seq![cur]
    } else if s[0] == sep {
        seq![cur] + raw_split_acc(s.skip(1), sep, Seq::empty())
    } else {
        raw_split_acc(s.skip(1), sep, cur.push(s[0]))
    }
}

/// The pieces of `s` split on `sep`: one more piece than separators.
pub open spec fn raw_split(s: Seq<char>, sep: char) -> Seq<Seq<char>> {
    raw_split_acc(s, sep, Seq::empty())
}

/// Splits on `sep`, keeping every piece.
pub fn raw_split_chars(v: &Vec<char>, sep: char) -> (r: Vec<Vec<char>>)
    ensures
        r.deep_view() == raw_split(v@, sep),
{
    let mut r: Vec<Vec<char>> = Vec::new();
    let mut cur: Vec<char> = Vec::new();
    let mut i: usize = 0;
    assert(v@.skip(0) =~= v@);
    assert(r.deep_view() + raw_split_acc(v@, sep, cur@) =~= raw_split_acc(v@, sep, cur@));
    while i < v.len()
        invariant
            i <= v@.len(),
            raw_split(v@, sep) == r.deep_view() + raw_split_acc(v@.skip(i as int), sep, cur@),
        decreases v@.len() - i,
    {
        let c = v[i];
        assert(v@.skip(i as int)[0] == c);
        assert(v@.skip(i as int).skip(1) =~= v@.skip(i + 1 as int));
        if c == sep {
            let ghost oc = cur@;
            let ghost r0 = r.deep_view();
            r.push(cur);
            assert(r.deep_view() =~~= r0.push(oc));
            cur = Vec::new();
            assert((r0.push(oc)) + raw_split_acc(v@.skip(i + 1 as int), sep, Seq::empty()) =~= r0
                + (seq![oc] + raw_split_acc(v@.skip(i + 1 as int), sep, Seq::empty())));
        } else {
            cur.push(c);
        }
        i += 1;
    }
    assert(v@.skip(i as int).len() == 0);
    let ghost oc = cur@;
    let ghost r0 = r.deep_view();
    r.push(cur);
    assert(r.deep_view() =~~= r0.push(oc));
    assert(r0.push(oc) =~= r0 + seq![oc]);
    r
}

/// Whether `p` stands at the front of `s`.
pub open spec fn starts_with_seq(s: Seq<char>, p: Seq<char>) -> bool {
    p.len() <= s.len() && s.take(p.len() as int) == p
}

/// Whether `sub` occurs somewhere in `s`.
pub open spec fn contains_seq(s: Seq<char>, sub: Seq<char>) -> bool {
    exists|k: int|
        0 <= k && k + sub.len() <= s.len() && #[trigger] s.subrange(k, k + sub.len() as int)
            == sub
}

/// Whether the string begins with the given prefix.
pub fn str_starts_with(s: &str, p: &str) -> (r: bool)
    ensures
        r == starts_with_seq(s@, p@),
{
    let ns = s.unicode_len();
    let np = p.unicode_len();
    if np > ns {
        assert(!starts_with_seq(s@, p@));
        return false;
    }
    let mut i: usize = 0;
    while i < np
        invariant
            i <= np,
            np <= ns,
            ns == s@.len(),
            np == p@.len(),
            forall|j: int| 0 <= j < i ==> s@[j] == p@[j],
        decreases np - i,
    {
        if s.get_char(i) != p.get_char(i) {
            assert(s@.take(np as int)[i as int] != p@[i as int]);
            return false;
        }
        i += 1;
    }
    assert(s@.take(np as int) =~= p@);
    true
}

/// Whether the string holds the given substring.
pub fn str_contains(s: &str, sub: &str) -> (r: bool)
    ensures
        r == contains_seq(s@, sub@),
{
    let ns = s.unicode_len();
    let nsub = sub.unicode_len();
    if nsub > ns {
        return false;
    }
    if nsub == 0 {
        assert(s@.subrange(0, 0 + sub@.len() as int) =~= sub@);
        return true;
    }
    let mut k: usize = 0;
    while k <= ns - nsub
        invariant
            1 <= nsub <= ns,
            ns == s@.len(),
            nsub == sub@.len(),
            k <= ns - nsub + 1,
            forall|k2: int|
                0 <= k2 < k ==> #[trigger] s@.subrange(k2, k2 + sub@.len() as int) != sub@,
        decreases ns - nsub + 1 - k,
    {
        let mut i: usize = 0;
        let mut matched = true;
        while i < nsub
            invariant
                i <= nsub,
                k + nsub <= ns,
                ns == s@.len(),
                nsub == sub@.len(),
                matched ==> forall|j: int| 0 <= j < i ==> s@[k + j] == sub@[j],
                !matched ==> s@.subrange(k as int, k + sub@.len() as int) != sub@,
            decreases nsub - i,
        {
            if s.get_char(k + i) != sub.get_char(i) {
                assert(s@.subrange(k as int, k + sub@.len() as int)[i as int] == s@[k + i]);
                matched = false;
                i = nsub;
            } else {
                i += 1;
            }
        }
        if matched {
            assert(s@.subrange(k as int, k + sub@.len() as int) =~= sub@);
            return true;
        }
        k += 1;
    }
    assert forall|k2: int| 0 <= k2 && k2 + sub@.len() <= s@.len() implies #[trigger] s@.subrange(
        k2,
        k2 + sub@.len() as int,
    ) != sub@ by {
        assert(k2 < k);
    }
    false
}

} // verus!
