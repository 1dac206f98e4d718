//! Character-level helpers on strings: what the host and the stock modules
//! need of `str`, proved here against short statements of std's behaviour.

use vstd::prelude::*;
use vstd::string::*;
use vstd::utf8::*;

verus! {

// ---------------------------------------------------------------------------
// What std gives, stated over characters
// ---------------------------------------------------------------------------

/// Whether `c` has the Unicode `White_Space` property, the set that
/// `char::is_whitespace` and `str::trim*` go by: U+0009 to U+000D, U+0020,
/// U+0085, U+00A0, U+1680, U+2000 to U+200A, U+2028, U+2029, U+202F, U+205F
/// and U+3000.
pub open spec fn white_space(c: char) -> bool {
    ||| ('\u{9}' <= c && c <= '\u{d}')
    ||| c == '\u{20}'
    ||| c == '\u{85}'
    ||| c == '\u{a0}'
    ||| c == '\u{1680}'
    ||| ('\u{2000}' <= c && c <= '\u{200a}')
    ||| c == '\u{2028}'
    ||| c == '\u{2029}'
    ||| c == '\u{202f}'
    ||| c == '\u{205f}'
    ||| c == '\u{3000}'
}

/// Whether `c` is white space (`char::is_whitespace`).
pub fn is_whitespace(c: char) -> (b: bool)
    ensures
        b == white_space(c),
{
    ('\u{9}' <= c && c <= '\u{d}') || c == '\u{20}' || c == '\u{85}' || c == '\u{a0}'
        || c == '\u{1680}' || ('\u{2000}' <= c && c <= '\u{200a}') || c == '\u{2028}'
        || c == '\u{2029}' || c == '\u{202f}' || c == '\u{205f}' || c == '\u{3000}'
}

/// The text that `String::from_utf8_lossy` makes of `bytes`: its UTF-8
/// decoding, each invalid sequence replaced by U+FFFD.
pub uninterp spec fn utf8_lossy(bytes: Seq<u8>) -> Seq<char>;

/// Decodes `bytes` as `String::from_utf8_lossy` does. Trusted: the result is
/// `utf8_lossy(bytes)`, and on valid UTF-8 it is the plain decoding, as std's
/// documentation states.
#[verifier::external_body]
pub fn decode_lossy(bytes: &[u8]) -> (s: String)
    ensures
        s@ == utf8_lossy(bytes@),
        valid_utf8(bytes@) ==> s@ == decode_utf8(bytes@),
{
    String::from_utf8_lossy(bytes).into_owned()
}

/// Appends one character (`String::push`). Trusted: the text grows by `c`.
#[verifier::external_body]
pub fn push_char(s: &mut String, c: char)
    ensures
        final(s)@ == old(s)@.push(c),
{
    s.push(c)
}

/// The lines of `s` as `str::lines` yields them: split at each `\n`, a `\r`
/// right before that `\n` dropped with it, and no empty line after a final
/// `\n`.
pub open spec fn lines_spec(s: Seq<char>) -> Seq<Seq<char>>
    decreases s.len(),
{
    if s.len() == 0 {
        seq![]
    } else {
        let i = first_index_of(s, seq!['\n']);
        if 0 <= i < s.len() {
            seq![strip_cr(s.take(i))] + lines_spec(s.skip(i + 1))
        } else {
            seq![s]
        }
    }
}

/// A line as `str::lines` hands it out: one trailing `\r` removed.
pub open spec fn strip_cr(l: Seq<char>) -> Seq<char> {
    if l.len() > 0 && l.last() == '\r' {
        l.drop_last()
    } else {
        l
    }
}

proof fn lemma_first_char_at(t: Seq<char>, c: char, k: int)
    requires
        0 <= k < t.len(),
        t[k] == c,
        forall|m: int| 0 <= m < k ==> t[m] != c,
    ensures
        first_index_of(t, seq![c]) == k,
{
    assert(t.subrange(k, k + 1) =~= seq![c]);
    assert forall|m: int| 0 <= m < k implies !#[trigger] match_at(t, seq![c], m) by {
        if match_at(t, seq![c], m) {
            assert(t.subrange(m, m + 1)[0] == t[m]);
        }
    }
    lemma_first_index_of_is(t, seq![c], k);
}

pub proof fn lemma_char_absent(t: Seq<char>, c: char)
    requires
        forall|m: int| 0 <= m < t.len() ==> t[m] != c,
    ensures
        first_index_of(t, seq![c]) == -1,
{
    assert forall|m: int| !#[trigger] match_at(t, seq![c], m) by {
        if match_at(t, seq![c], m) {
            assert(t.subrange(m, m + 1)[0] == t[m]);
        }
    }
    lemma_first_index_of_absent(t, seq![c]);
}

/// The lines of `s`, as `str::lines` yields them.
pub fn lines_of(s: &str) -> (v: Vec<String>)
    ensures
        v.deep_view() == lines_spec(s@),
{
    let cs = chars_of(s);
    let ghost t = s@;
    let mut v: Vec<String> = Vec::new();
    let mut cur: Vec<char> = Vec::new();
    let mut start: usize = 0;
    let mut i: usize = 0;
    assert(t.skip(0) =~= t);
    while i < cs.len()
        invariant
            cs@ == t,
            start <= i <= cs.len(),
            cur@ == t.subrange(start as int, i as int),
            forall|m: int| start <= m < i ==> t[m] != '\n',
            v.deep_view() + lines_spec(t.skip(start as int)) == lines_spec(t),
        decreases cs.len() - i,
    {
        let c = cs[i];
        if c == '\n' {
            proof {
                let rest = t.skip(start as int);
                lemma_first_char_at(rest, '\n', i - start);
                assert(rest.take(i - start) =~= cur@);
                assert(rest.skip(i - start + 1) =~= t.skip(i + 1));
                assert(lines_spec(rest) == seq![strip_cr(cur@)] + lines_spec(t.skip(i + 1)));
            }
            if cur.len() > 0 && cur[cur.len() - 1] == '\r' {
                cur.pop();
            }
            let ghost before = v.deep_view();
            v.push(string_of(&cur));
            assert(v.deep_view() =~= before.push(cur@));
            assert(v.deep_view() + lines_spec(t.skip(i + 1)) =~= before + (seq![cur@]
                + lines_spec(t.skip(i + 1))));
            cur = Vec::new();
            start = i + 1;
        } else {
            cur.push(c);
            assert(cur@ =~= t.subrange(start as int, i + 1));
        }
        i = i + 1;
    }
    proof {
        let rest = t.skip(start as int);
        assert(rest =~= cur@);
        lemma_char_absent(rest, '\n');
    }
    if cur.len() > 0 {
        let ghost before = v.deep_view();
        v.push(string_of(&cur));
        assert(v.deep_view() =~= before.push(cur@));
        assert(v.deep_view() =~= before + seq![cur@]);
    } else {
        assert(lines_spec(t.skip(start as int)) =~= Seq::<Seq<char>>::empty());
        assert(v.deep_view() =~= v.deep_view() + Seq::<Seq<char>>::empty());
    }
    v
}

// ---------------------------------------------------------------------------
// Searching
// ---------------------------------------------------------------------------

/// `pat` occurs in `s` at position `k`.
pub open spec fn match_at(s: Seq<char>, pat: Seq<char>, k: int) -> bool {
    0 <= k && k + pat.len() <= s.len() && s.subrange(k, k + pat.len()) == pat
}

/// `k` is the first position where `pat` occurs in `s`.
pub open spec fn is_first_match(s: Seq<char>, pat: Seq<char>, k: int) -> bool {
    &&& match_at(s, pat, k)
    &&& forall|m: int| 0 <= m < k ==> !#[trigger] match_at(s, pat, m)
}

/// The first position of `pat` in `s`, or -1 where it does not occur.
pub open spec fn first_index_of(s: Seq<char>, pat: Seq<char>) -> int {
    if exists|k: int| #[trigger] is_first_match(s, pat, k) {
        choose|k: int| #[trigger] is_first_match(s, pat, k)
    } else {
        -1
    }
}

pub proof fn lemma_first_index_of_is(s: Seq<char>, pat: Seq<char>, k: int)
    requires
        is_first_match(s, pat, k),
    ensures
        first_index_of(s, pat) == k,
{
    let c = choose|j: int| #[trigger] is_first_match(s, pat, j);
    assert(is_first_match(s, pat, c));
    if c < k {
        assert(match_at(s, pat, c));
    } else if c > k {
        assert(match_at(s, pat, k));
    }
}

pub proof fn lemma_first_index_of_absent(s: Seq<char>, pat: Seq<char>)
    requires
        forall|m: int| !#[trigger] match_at(s, pat, m),
    ensures
        first_index_of(s, pat) == -1,
{
    if exists|k: int| #[trigger] is_first_match(s, pat, k) {
        let c = choose|j: int| #[trigger] is_first_match(s, pat, j);
        assert(match_at(s, pat, c));
    }
}

pub proof fn lemma_first_index_of_facts(s: Seq<char>, pat: Seq<char>)
    ensures
        first_index_of(s, pat) >= -1,
        first_index_of(s, pat) >= 0 ==> is_first_match(s, pat, first_index_of(s, pat)),
        first_index_of(s, pat) == -1 ==> forall|m: int| !#[trigger] match_at(s, pat, m),
{
    if exists|k: int| #[trigger] is_first_match(s, pat, k) {
        let c = choose|j: int| #[trigger] is_first_match(s, pat, j);
        assert(is_first_match(s, pat, c));
    } else {
        assert forall|m: int| !#[trigger] match_at(s, pat, m) by {
            if match_at(s, pat, m) {
                lemma_least_match(s, pat, m);
            }
        }
    }
}

proof fn lemma_least_match(s: Seq<char>, pat: Seq<char>, m: int)
    requires
        match_at(s, pat, m),
    ensures
        exists|k: int| #[trigger] is_first_match(s, pat, k),
    decreases m,
{
    if forall|j: int| 0 <= j < m ==> !#[trigger] match_at(s, pat, j) {
        assert(is_first_match(s, pat, m));
    } else {
        let j = choose|j: int| 0 <= j < m && #[trigger] match_at(s, pat, j);
        lemma_least_match(s, pat, j);
    }
}

/// The first position of `pat` in `v`, if it occurs.
pub fn index_of(v: &Vec<char>, pat: &Vec<char>) -> (r: Option<usize>)
    ensures
        match r {
            Some(i) => first_index_of(v@, pat@) == i as int,
            None => first_index_of(v@, pat@) == -1,
        },
{
    if pat.len() > v.len() {
        proof {
            assert forall|m: int| !#[trigger] match_at(v@, pat@, m) by {}
            lemma_first_index_of_absent(v@, pat@);
        }
        return None;
    }
    let last = v.len() - pat.len();
    let mut i: usize = 0;
    while i <= last
        invariant
            last == v.len() - pat.len(),
            pat.len() <= v.len(),
            i <= last + 1,
            forall|m: int| 0 <= m < i ==> !#[trigger] match_at(v@, pat@, m),
        decreases last + 1 - i,
    {
        let mut j: usize = 0;
        let mut same = true;
        while j < pat.len()
            invariant
                i <= last,
                last == v.len() - pat.len(),
                j <= pat.len(),
                same == (forall|t: int| 0 <= t < j ==> v@[i + t] == pat@[t]),
            decreases pat.len() - j,
        {
            if v[i + j] != pat[j] {
                same = false;
            }
            j = j + 1;
        }
        if same {
            proof {
                assert(v@.subrange(i as int, i + pat.len()) =~= pat@);
                lemma_first_index_of_is(v@, pat@, i as int);
            }
            return Some(i);
        }
        proof {
            if match_at(v@, pat@, i as int) {
                assert(forall|t: int| 0 <= t < pat.len() ==> v@[i + t] == #[trigger] v@.subrange(i as int, i + pat.len())[t]);
            }
        }
        i = i + 1;
    }
    proof {
        assert forall|m: int| !#[trigger] match_at(v@, pat@, m) by {
            if 0 <= m && m < i {
            }
        }
        lemma_first_index_of_absent(v@, pat@);
    }
    None
}

/// Whether `v` begins with `p`.
pub fn has_prefix(v: &Vec<char>, p: &Vec<char>) -> (b: bool)
    ensures
        b == (p@.len() <= v@.len() && v@.take(p@.len() as int) == p@),
{
    if p.len() > v.len() {
        return false;
    }
    let mut j: usize = 0;
    while j < p.len()
        invariant
            p.len() <= v.len(),
            j <= p.len(),
            forall|t: int| 0 <= t < j ==> v@[t] == p@[t],
        decreases p.len() - j,
    {
        if v[j] != p[j] {
            proof {
                assert(v@.take(p@.len() as int)[j as int] != p@[j as int]);
            }
            return false;
        }
        j = j + 1;
    }
    assert(v@.take(p@.len() as int) =~= p@);
    true
}

/// Whether two character sequences are equal.
pub fn chars_eq(a: &Vec<char>, b: &Vec<char>) -> (r: bool)
    ensures
        r == (a@ == b@),
{
    if a.len() != b.len() {
        return false;
    }
    let r = has_prefix(a, b);
    proof {
        assert(a@.take(b@.len() as int) =~= a@);

    }
    r
}

// ---------------------------------------------------------------------------
// Building
// ---------------------------------------------------------------------------

/// Collects the characters of `s` in order.
pub fn chars_of(s: &str) -> (v: Vec<char>)
    ensures
        v@ == s@,
{
    let mut v: Vec<char> = Vec::new();
    for c in it: s.chars()
        invariant
            v@ == it.seq().take(it.index()),
    {
        v.push(c);
    }
    v
}

/// The characters of `v` from `from` up to `to`.
pub fn sub_chars(v: &Vec<char>, from: usize, to: usize) -> (r: Vec<char>)
    requires
        from <= to <= v.len(),
    ensures
        r@ == v@.subrange(from as int, to as int),
{
    let mut r: Vec<char> = Vec::new();
    let mut i: usize = from;
    while i < to
        invariant
            from <= i <= to <= v.len(),
            r@ == v@.subrange(from as int, i as int),
        decreases to - i,
    {
        r.push(v[i]);
        assert(v@.subrange(from as int, i + 1) =~= v@.subrange(from as int, i as int).push(v@[i as int]));
        i = i + 1;
    }
    r
}

/// A string holding the characters of `v`.
pub fn string_of(v: &Vec<char>) -> (s: String)
    ensures
        s@ == v@,
{
    let mut s = String::new();
    let mut i: usize = 0;
    while i < v.len()
        invariant
            i <= v.len(),
            s@ == v@.take(i as int),
        decreases v.len() - i,
    {
        push_char(&mut s, v[i]);
        assert(v@.take(i + 1) =~= v@.take(i as int).push(v@[i as int]));
        i = i + 1;
    }
    assert(v@.take(v.len() as int) =~= v@);
    s
}

// ---------------------------------------------------------------------------
// White space
// ---------------------------------------------------------------------------

/// Every character of `s` is white space (so `s.trim()` is empty).
pub open spec fn blank(s: Seq<char>) -> bool {
    forall|i: int| 0 <= i < s.len() ==> white_space(#[trigger] s[i])
}

/// Whether every character of `v` is white space.
pub fn is_blank(v: &Vec<char>) -> (b: bool)
    ensures
        b == blank(v@),
{
    let mut i: usize = 0;
    while i < v.len()
        invariant
            i <= v.len(),
            forall|k: int| 0 <= k < i ==> white_space(#[trigger] v@[k]),
        decreases v.len() - i,
    {
        if !is_whitespace(v[i]) {
            return false;
        }
        i = i + 1;
    }
    true
}

/// Length of `s` once trailing white space is dropped.
pub open spec fn trimmed_end_len(s: Seq<char>) -> nat
    decreases s.len(),
{
    if s.len() == 0 {
        0
    } else if white_space(s.last()) {
        trimmed_end_len(s.drop_last())
    } else {
        s.len()
    }
}

/// `s` without its trailing white space (`str::trim_end`).
pub open spec fn trim_end_spec(s: Seq<char>) -> Seq<char> {
    s.take(trimmed_end_len(s) as int)
}

/// Number of white-space characters that `s` begins with.
pub open spec fn leading_ws_len(s: Seq<char>) -> nat
    decreases s.len(),
{
    if s.len() == 0 {
        0
    } else if white_space(s[0]) {
        1 + leading_ws_len(s.drop_first())
    } else {
        0
    }
}

/// `s` without leading and trailing white space (`str::trim`).
pub open spec fn trim_spec(s: Seq<char>) -> Seq<char> {
    trim_end_spec(s.skip(leading_ws_len(s) as int))
}

pub proof fn lemma_trimmed_end_len_bound(s: Seq<char>)
    ensures
        trimmed_end_len(s) <= s.len(),
    decreases s.len(),
{
    if s.len() > 0 && white_space(s.last()) {
        lemma_trimmed_end_len_bound(s.drop_last());
    }
}

/// `str::trim_end` removes exactly the trailing white space: what it keeps
/// is a prefix of `s` that is empty or ends in a character that is not white
/// space, and every character it drops is white space.
pub proof fn trim_end_drops_exactly_trailing_white_space(s: Seq<char>)
    ensures
        trimmed_end_len(s) <= s.len(),
        trim_end_spec(s) == s.take(trimmed_end_len(s) as int),
        trim_end_spec(s).len() == 0 || !white_space(trim_end_spec(s).last()),
        forall|i: int| trimmed_end_len(s) <= i < s.len() ==> white_space(#[trigger] s[i]),
    decreases s.len(),
{
    lemma_trimmed_end_len_bound(s);
    if s.len() > 0 && white_space(s.last()) {
        let d = s.drop_last();
        trim_end_drops_exactly_trailing_white_space(d);
        assert(trim_end_spec(s) =~= trim_end_spec(d));
        assert forall|i: int| trimmed_end_len(s) <= i < s.len() implies white_space(#[trigger] s[i]) by {
            if i < s.len() - 1 {
                assert(s[i] == d[i]);
            }
        }
    }
}

proof fn lemma_leading_ws_len(s: Seq<char>, i: int)
    requires
        0 <= i <= s.len(),
        forall|k: int| 0 <= k < i ==> white_space(#[trigger] s[k]),
        i == s.len() || !white_space(s[i]),
    ensures
        leading_ws_len(s) == i,
    decreases i,
{
    if i > 0 {
        assert forall|k: int| 0 <= k < i - 1 implies white_space(#[trigger] s.drop_first()[k]) by {
            assert(s.drop_first()[k] == s[k + 1]);
        }
        lemma_leading_ws_len(s.drop_first(), i - 1);
    }
}

/// Position just past the last non-white-space character of `v` within
/// `v[from..]`, or `from` where there is none.
fn trimmed_end(v: &Vec<char>, from: usize) -> (keep: usize)
    requires
        from <= v.len(),
    ensures
        keep == from + trimmed_end_len(v@.skip(from as int)),
        keep <= v.len(),
{
    let mut keep: usize = from;
    let mut i: usize = from;
    while i < v.len()
        invariant
            from <= i <= v.len(),
            from <= keep <= i,
            keep == from + trimmed_end_len(v@.subrange(from as int, i as int)),
        decreases v.len() - i,
    {
        assert(v@.subrange(from as int, i + 1).drop_last() =~= v@.subrange(from as int, i as int));
        if !is_whitespace(v[i]) {
            keep = i + 1;
        }
        i = i + 1;
    }
    assert(v@.subrange(from as int, i as int) =~= v@.skip(from as int));
    keep
}

/// `s` with trailing white space removed, as `str::trim_end` gives it.
pub fn trim_end(s: &str) -> (r: String)
    ensures
        r@ == trim_end_spec(s@),
{
    let cs = chars_of(s);
    let keep = trimmed_end(&cs, 0);
    assert(cs@.skip(0) =~= cs@);
    string_of(&sub_chars(&cs, 0, keep))
}

/// `s` with leading and trailing white space removed, as `str::trim` gives it.
pub fn trim(s: &str) -> (r: String)
    ensures
        r@ == trim_spec(s@),
{
    let cs = chars_of(s);
    let mut lead: usize = 0;
    while lead < cs.len() && is_whitespace(cs[lead])
        invariant
            lead <= cs.len(),
            forall|k: int| 0 <= k < lead ==> white_space(#[trigger] cs@[k]),
        decreases cs.len() - lead,
    {
        lead = lead + 1;
    }
    proof {
        lemma_leading_ws_len(cs@, lead as int);
    }
    let keep = trimmed_end(&cs, lead);
    let r = sub_chars(&cs, lead, keep);
    assert(r@ =~= trim_end_spec(s@.skip(lead as int)));
    string_of(&r)
}

} // verus!
