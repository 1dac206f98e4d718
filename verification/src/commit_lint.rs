//! Conventional-commit linter for the commit-msg hook: the rules that decide
//! whether a commit message is accepted.

use vstd::prelude::*;
use vstd::string::*;
use vstd::utf8::*;
use crate::text::{
    blank, chars_eq, chars_of, first_index_of, has_prefix, index_of, is_blank, lines_of,
    lines_spec, match_at, is_first_match, lemma_first_index_of_is, string_of, strip_cr,
    sub_chars, white_space,
};

verus! {

/// Longest header accepted, in UTF-8 bytes.
pub const MAX_HEADER: usize = 100;

/// The header prefixes of messages that git itself writes; such messages
/// pass as they are.
#[derive(Debug, Clone, Copy, PartialEq, Eq, Structural)]
pub enum Bypass {
    Merge,
    Revert,
    Fixup,
    Squash,
}

impl Bypass {
    /// The header prefix this bypass is recognised by.
    pub open spec fn prefix(self) -> Seq<char> {
        match self {
            Bypass::Merge => "Merge "@,
            Bypass::Revert => "Revert "@,
            Bypass::Fixup => "fixup! "@,
            Bypass::Squash => "squash! "@,
        }
    }

    /// The prefix without its trailing space, as the hook reports it.
    pub fn label(&self) -> (s: &'static str)
        ensures
            s@ == match *self {
                Bypass::Merge => "Merge"@,
                Bypass::Revert => "Revert"@,
                Bypass::Fixup => "fixup!"@,
                Bypass::Squash => "squash!"@,
            },
    {
        match self {
            Bypass::Merge => "Merge",
            Bypass::Revert => "Revert",
            Bypass::Fixup => "fixup!",
            Bypass::Squash => "squash!",
        }
    }
}

/// Why a message was accepted.
#[derive(Debug, Clone, Copy, PartialEq, Eq, Structural)]
pub enum LintOk {
    /// The header follows `type(scope)?: subject`.
    Conventional,
    /// A message that git writes itself.
    GitGenerated(Bypass),
}

/// Why a message was refused.
#[derive(Debug, PartialEq, Eq)]
pub enum LintError {
    /// No line that is neither blank nor a `#` comment.
    EmptyMessage,
    /// The header is longer than `MAX_HEADER` bytes.
    HeaderTooLong { bytes: usize },
    /// The header has no `": "`.
    MissingSeparator,
    /// Nothing but white space after `": "`.
    EmptySubject,
    /// A `(` in the prefix whose scope does not end in `)`.
    UnclosedScope,
    /// The type is not one of the conventional types.
    UnknownType { found: String },
}

/// `LintError` over mathematical values.
pub enum LintRejection {
    EmptyMessage,
    HeaderTooLong(nat),
    MissingSeparator,
    EmptySubject,
    UnclosedScope,
    UnknownType(Seq<char>),
}

impl View for LintError {
    type V = LintRejection;

    open spec fn view(&self) -> LintRejection {
        match self {
            LintError::EmptyMessage => LintRejection::EmptyMessage,
            LintError::HeaderTooLong { bytes } => LintRejection::HeaderTooLong(*bytes as nat),
            LintError::MissingSeparator => LintRejection::MissingSeparator,
            LintError::EmptySubject => LintRejection::EmptySubject,
            LintError::UnclosedScope => LintRejection::UnclosedScope,
            LintError::UnknownType { found } => LintRejection::UnknownType(found@),
        }
    }
}

/// A lint result over mathematical values.
pub open spec fn verdict_view(r: Result<LintOk, LintError>) -> Result<LintOk, LintRejection> {
    match r {
        Ok(o) => Ok(o),
        Err(e) => Err(e@),
    }
}

/// The conventional commit types.
pub open spec fn conventional_types() -> Seq<Seq<char>> {
    seq![
        "feat"@,
        "fix"@,
        "docs"@,
        "style"@,
        "refactor"@,
        "perf"@,
        "test"@,
        "build"@,
        "ci"@,
        "chore"@,
        "revert"@,
    ]
}

/// `s` begins with `p`.
pub open spec fn starts_with(s: Seq<char>, p: Seq<char>) -> bool {
    p.len() <= s.len() && s.take(p.len() as int) == p
}

/// A line that can be the header: neither blank nor a `#` comment.
pub open spec fn is_header_line(l: Seq<char>) -> bool {
    !blank(l) && !(l.len() > 0 && l[0] == '#')
}

/// The first line of `ls` that can be the header.
pub open spec fn header_of(ls: Seq<Seq<char>>) -> Option<Seq<char>>
    decreases ls.len(),
{
    if ls.len() == 0 {
        None
    } else if is_header_line(ls[0]) {
        Some(ls[0])
    } else {
        header_of(ls.drop_first())
    }
}

/// The git-generated prefix that `h` begins with, if any.
pub open spec fn bypass_of(h: Seq<char>) -> Option<Bypass> {
    if starts_with(h, Bypass::Merge.prefix()) {
        Some(Bypass::Merge)
    } else if starts_with(h, Bypass::Revert.prefix()) {
        Some(Bypass::Revert)
    } else if starts_with(h, Bypass::Fixup.prefix()) {
        Some(Bypass::Fixup)
    } else if starts_with(h, Bypass::Squash.prefix()) {
        Some(Bypass::Squash)
    } else {
        None
    }
}

/// The type prefix with its breaking-change marker `!` removed.
pub open spec fn strip_bang(p: Seq<char>) -> Seq<char> {
    if p.len() > 0 && p.last() == '!' {
        p.drop_last()
    } else {
        p
    }
}

/// The text after `(` closes the scope.
pub open spec fn closes_scope(scope: Seq<char>) -> bool {
    scope.len() > 0 && scope.last() == ')'
}

/// The rules for a header that git did not generate.
pub open spec fn header_rule(h: Seq<char>) -> Result<LintOk, LintRejection> {
    let n = encode_utf8(h).len();
    if n > MAX_HEADER {
        Err(LintRejection::HeaderTooLong(n))
    } else {
        let i = first_index_of(h, seq![':', ' ']);
        if i < 0 {
            Err(LintRejection::MissingSeparator)
        } else if blank(h.skip(i + 2)) {
            Err(LintRejection::EmptySubject)
        } else {
            let prefix = strip_bang(h.take(i));
            let j = first_index_of(prefix, seq!['(']);
            if j >= 0 && !closes_scope(prefix.skip(j + 1)) {
                Err(LintRejection::UnclosedScope)
            } else {
                let ty = if j >= 0 { prefix.take(j) } else { prefix };
                if conventional_types().contains(ty) {
                    Ok(LintOk::Conventional)
                } else {
                    Err(LintRejection::UnknownType(ty))
                }
            }
        }
    }
}

/// What the hook decides of a header `h`.
pub open spec fn header_verdict(h: Seq<char>) -> Result<LintOk, LintRejection> {
    match bypass_of(h) {
        Some(b) => Ok(LintOk::GitGenerated(b)),
        None => header_rule(h),
    }
}

/// What the commit-msg hook decides of a message `text`.
pub open spec fn lint_spec(text: Seq<char>) -> Result<LintOk, LintRejection> {
    match header_of(lines_spec(text)) {
        None => Err(LintRejection::EmptyMessage),
        Some(h) => header_verdict(h),
    }
}

fn conventional_type(i: usize) -> (s: &'static str)
    requires
        i < 11,
    ensures
        s@ == conventional_types()[i as int],
{
    match i {
        0 => "feat",
        1 => "fix",
        2 => "docs",
        3 => "style",
        4 => "refactor",
        5 => "perf",
        6 => "test",
        7 => "build",
        8 => "ci",
        9 => "chore",
        _ => "revert",
    }
}

/// The conventional commit types, in the order the hook lists them.
pub fn allowed_types() -> (v: Vec<&'static str>)
    ensures
        v.deep_view() == conventional_types(),
{
    let mut v: Vec<&'static str> = Vec::new();
    let mut i: usize = 0;
    while i < 11
        invariant
            i <= 11,
            v.deep_view() == conventional_types().take(i as int),
        decreases 11 - i,
    {
        v.push(conventional_type(i));
        assert(conventional_types().take(i + 1) =~= conventional_types().take(i as int).push(
            conventional_types()[i as int],
        ));
        assert(v.deep_view() =~= conventional_types().take(i + 1));
        i = i + 1;
    }
    assert(conventional_types().take(11) =~= conventional_types());
    v
}

fn is_conventional_type(ty: &Vec<char>) -> (b: bool)
    ensures
        b == conventional_types().contains(ty@),
{
    let mut i: usize = 0;
    while i < 11
        invariant
            i <= 11,
            forall|m: int| 0 <= m < i ==> conventional_types()[m] != ty@,
        decreases 11 - i,
    {
        let name = chars_of(conventional_type(i));
        if chars_eq(ty, &name) {
            return true;
        }
        i = i + 1;
    }
    false
}

fn bypass_prefix(hv: &Vec<char>) -> (r: Option<Bypass>)
    ensures
        r == bypass_of(hv@),
{
    if has_prefix(hv, &chars_of("Merge ")) {
        Some(Bypass::Merge)
    } else if has_prefix(hv, &chars_of("Revert ")) {
        Some(Bypass::Revert)
    } else if has_prefix(hv, &chars_of("fixup! ")) {
        Some(Bypass::Fixup)
    } else if has_prefix(hv, &chars_of("squash! ")) {
        Some(Bypass::Squash)
    } else {
        None
    }
}

/// Checks a header line against the rules.
pub fn lint_header(header: &str) -> (r: Result<LintOk, LintError>)
    ensures
        verdict_view(r) == header_verdict(header@),
{
    let hv = chars_of(header);
    if let Some(b) = bypass_prefix(&hv) {
        return Ok(LintOk::GitGenerated(b));
    }
    let n = header.as_bytes().len();
    if n > MAX_HEADER {
        return Err(LintError::HeaderTooLong { bytes: n });
    }
    let sep = vec![':', ' '];
    assert(sep@ =~= seq![':', ' ']);
    let i = match index_of(&hv, &sep) {
        None => {
            return Err(LintError::MissingSeparator);
        },
        Some(i) => i,
    };
    proof {
        crate::text::lemma_first_index_of_facts(hv@, sep@);
        assert(match_at(hv@, sep@, i as int));
        assert(i + 2 <= hv.len());
    }
    let subject = sub_chars(&hv, i + 2, hv.len());
    assert(subject@ =~= hv@.skip(i + 2));
    if is_blank(&subject) {
        return Err(LintError::EmptySubject);
    }
    let mut plen = i;
    if plen > 0 && hv[plen - 1] == '!' {
        plen = plen - 1;
    }
    let prefix = sub_chars(&hv, 0, plen);
    assert(prefix@ =~= strip_bang(hv@.take(i as int)));
    let open = vec!['('];
    assert(open@ =~= seq!['(']);
    let tlen = match index_of(&prefix, &open) {
        Some(j) => {
            proof {
                crate::text::lemma_first_index_of_facts(prefix@, open@);
                assert(match_at(prefix@, open@, j as int));
            }
            if !(plen > j + 1 && prefix[plen - 1] == ')') {
                return Err(LintError::UnclosedScope);
            }
            j
        },
        None => plen,
    };
    let ty = sub_chars(&hv, 0, tlen);
    assert(ty@ =~= (if first_index_of(prefix@, seq!['(']) >= 0 {
        prefix@.take(first_index_of(prefix@, seq!['(']))
    } else {
        prefix@
    }));
    if is_conventional_type(&ty) {
        Ok(LintOk::Conventional)
    } else {
        Err(LintError::UnknownType { found: string_of(&ty) })
    }
}

/// Lints a commit message: finds the header (the first line that is neither
/// blank nor a `#` comment) and checks it.
pub fn lint_commit_message(text: &str) -> (r: Result<LintOk, LintError>)
    ensures
        verdict_view(r) == lint_spec(text@),
        // a one-line message that does not begin with '#' and is not blank is
        // its own header, whatever '#' it holds further on
        (!text@.contains('\n') && text@.len() > 0 && text@[0] != '#' && exists|i: int|
            0 <= i < text@.len() && !white_space(#[trigger] text@[i])) ==> verdict_view(r)
            == header_verdict(text@),
{
    let lines = lines_of(text);
    let ghost ls = lines_spec(text@);
    let mut k: usize = 0;
    assert(ls.skip(0) =~= ls);
    while k < lines.len()
        invariant
            lines.deep_view() == ls,
            ls == lines_spec(text@),
            k <= lines.len(),
            header_of(ls) == header_of(ls.skip(k as int)),
        decreases lines.len() - k,
    {
        assert(ls.skip(k as int)[0] == ls[k as int]);
        assert(ls.skip(k as int).drop_first() =~= ls.skip(k + 1));
        let line = lines[k].as_str();
        assert(line@ == ls[k as int]);
        let cs = chars_of(line);
        if !is_blank(&cs) && !(cs.len() > 0 && cs[0] == '#') {
            proof {
                if !text@.contains('\n') && text@.len() > 0 && text@[0] != '#' && exists|i: int|
                    0 <= i < text@.len() && !white_space(#[trigger] text@[i]) {
                    one_line_message_is_judged_by_header_rules(text@);
                }
            }
            return lint_header(line);
        }
        k = k + 1;
    }
    assert(ls.skip(k as int) =~= Seq::<Seq<char>>::empty());
    proof {
        if !text@.contains('\n') && text@.len() > 0 && text@[0] != '#' && exists|i: int|
            0 <= i < text@.len() && !white_space(#[trigger] text@[i]) {
            one_line_message_is_judged_by_header_rules(text@);
        }
    }
    Err(LintError::EmptyMessage)
}

// ---------------------------------------------------------------------------
// Laws
// ---------------------------------------------------------------------------

/// The header is the first line that is neither blank nor begins with '#';
/// every line before it is blank or begins with '#'. Where there is no
/// header, every line is blank or begins with '#'. A '#' elsewhere in a line
/// does not make it a comment.
pub proof fn header_is_first_line_neither_blank_nor_comment(ls: Seq<Seq<char>>)
    ensures
        match header_of(ls) {
            Some(h) => exists|k: int|
                0 <= k < ls.len() && ls[k] == h && !blank(h) && !(h.len() > 0 && h[0] == '#')
                    && forall|j: int|
                    0 <= j < k ==> (blank(#[trigger] ls[j]) || (ls[j].len() > 0 && ls[j][0]
                        == '#')),
            None => forall|j: int|
                0 <= j < ls.len() ==> (blank(#[trigger] ls[j]) || (ls[j].len() > 0 && ls[j][0]
                    == '#')),
        },
    decreases ls.len(),
{
    if ls.len() > 0 && !is_header_line(ls[0]) {
        let rest = ls.drop_first();
        header_is_first_line_neither_blank_nor_comment(rest);
        match header_of(rest) {
            Some(h) => {
                let k = choose|k: int|
                    0 <= k < rest.len() && rest[k] == h && !blank(h) && !(h.len() > 0 && h[0]
                        == '#') && forall|j: int|
                        0 <= j < k ==> (blank(#[trigger] rest[j]) || (rest[j].len() > 0
                            && rest[j][0] == '#'));
                assert(ls[k + 1] == h);
                assert forall|j: int| 0 <= j < k + 1 implies (blank(#[trigger] ls[j]) || (
                ls[j].len() > 0 && ls[j][0] == '#')) by {
                    if j > 0 {
                        assert(ls[j] == rest[j - 1]);
                    }
                }
            },
            None => {
                assert forall|j: int| 0 <= j < ls.len() implies (blank(#[trigger] ls[j]) || (
                ls[j].len() > 0 && ls[j][0] == '#')) by {
                    if j > 0 {
                        assert(ls[j] == rest[j - 1]);
                    }
                }
            },
        }
    } else if ls.len() > 0 {
        assert(header_of(ls) == Some(ls[0]));
    }
}

/// A one-line message that is not blank and does not begin with '#' is its
/// own header: it is judged by the header rules on the whole line, whatever
/// '#' characters it holds after its first character.
pub proof fn one_line_message_is_judged_by_header_rules(h: Seq<char>)
    requires
        !h.contains('\n'),
        h.len() > 0,
        h[0] != '#',
        exists|i: int| 0 <= i < h.len() && !white_space(#[trigger] h[i]),
    ensures
        lint_spec(h) == header_verdict(h),
{
    crate::text::lemma_char_absent(h, '\n');
    assert(lines_spec(h) == seq![h]);
    assert(!blank(h));
    assert(header_of(seq![h]) == Some(h));
}

/// A message whose header begins with a prefix that git writes itself
/// ("Merge ", "Revert ", "fixup! ", "squash! ") is accepted as it is,
/// whatever its length or form.
pub proof fn git_generated_headers_pass(text: Seq<char>, b: Bypass)
    requires
        header_of(lines_spec(text)) matches Some(h) && starts_with(h, b.prefix()),
    ensures
        lint_spec(text) == Ok::<LintOk, LintRejection>(LintOk::GitGenerated(b)),
{
    reveal_strlit("Merge ");
    reveal_strlit("Revert ");
    reveal_strlit("fixup! ");
    reveal_strlit("squash! ");
    let h = header_of(lines_spec(text))->Some_0;
    assert(h[0] == b.prefix()[0]);
}

/// An accepted message that git did not write has a header of at most
/// `MAX_HEADER` bytes, holding `": "`, with a subject that is not blank and a
/// type among the conventional types.
pub proof fn conventional_headers_are_well_formed(text: Seq<char>)
    requires
        lint_spec(text) == Ok::<LintOk, LintRejection>(LintOk::Conventional),
    ensures
        header_of(lines_spec(text)) matches Some(h) && {
            let i = first_index_of(h, seq![':', ' ']);
            let prefix = strip_bang(h.take(i));
            let j = first_index_of(prefix, seq!['(']);
            &&& bypass_of(h) is None
            &&& encode_utf8(h).len() <= MAX_HEADER
            &&& match_at(h, seq![':', ' '], i)
            &&& !blank(h.skip(i + 2))
            &&& conventional_types().contains(if j >= 0 { prefix.take(j) } else { prefix })
        },
{
    let h = header_of(lines_spec(text))->Some_0;
    crate::text::lemma_first_index_of_facts(h, seq![':', ' ']);
}

/// Blank lines and `#` comment lines before the header do not change the
/// verdict.
pub proof fn leading_blank_and_comment_lines_are_ignored(l: Seq<char>, t: Seq<char>)
    requires
        !l.contains('\n'),
        blank(l) || (l.len() > 0 && l[0] == '#'),
    ensures
        lint_spec(l + seq!['\n'] + t) == lint_spec(t),
{
    let s = l + seq!['\n'] + t;
    let nl = seq!['\n'];
    assert(s.subrange(l.len() as int, l.len() + 1int) =~= nl);
    assert forall|m: int| 0 <= m < l.len() implies !#[trigger] match_at(s, nl, m) by {
        assert(s.subrange(m, m + 1)[0] == l[m]);
    }
    assert(is_first_match(s, nl, l.len() as int));
    lemma_first_index_of_is(s, nl, l.len() as int);
    assert(s.take(l.len() as int) =~= l);
    assert(s.skip(l.len() + 1int) =~= t);
    let ls = lines_spec(s);
    assert(ls == seq![strip_cr(l)] + lines_spec(t));
    assert(!is_header_line(strip_cr(l))) by {
        if blank(l) {
            assert forall|i: int| 0 <= i < strip_cr(l).len() implies white_space(
                #[trigger] strip_cr(l)[i],
            ) by {
                assert(strip_cr(l)[i] == l[i]);
            }
        } else {
            if l.len() == 1 {
                assert(l.last() == '#');
            }
            assert(strip_cr(l)[0] == l[0]);
        }
    }
    assert(ls.drop_first() =~= lines_spec(t));
}

/// Only the header decides: the lines after it (the body) do not change the
/// verdict.
pub proof fn body_does_not_change_verdict(h: Seq<char>, body: Seq<char>)
    requires
        !h.contains('\n'),
        is_header_line(h),
        !(h.len() > 0 && h.last() == '\r'),
    ensures
        lint_spec(h + seq!['\n'] + body) == lint_spec(h),
{
    let s = h + seq!['\n'] + body;
    let nl = seq!['\n'];
    assert(s.subrange(h.len() as int, h.len() + 1int) =~= nl);
    assert forall|m: int| 0 <= m < h.len() implies !#[trigger] match_at(s, nl, m) by {
        assert(s.subrange(m, m + 1)[0] == h[m]);
    }
    assert(is_first_match(s, nl, h.len() as int));
    lemma_first_index_of_is(s, nl, h.len() as int);
    assert(s.take(h.len() as int) =~= h);
    assert(lines_spec(s)[0] == h);
    assert forall|m: int| !#[trigger] match_at(h, nl, m) by {
        if match_at(h, nl, m) {
            assert(h.subrange(m, m + 1)[0] == h[m]);
        }
    }
    crate::text::lemma_first_index_of_absent(h, nl);
    assert(h.len() > 0);
    assert(lines_spec(h) == seq![h]);
}

} // verus!
