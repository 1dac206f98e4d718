//! Pre-commit secret scanner: the credential patterns, and which lines of a
//! staged file match which of them.

use vstd::prelude::*;
use crate::text::{decode_lossy, lines_of, lines_spec, utf8_lossy};

verus! {

#[verifier::external_type_specification]
#[verifier::external_body]
pub struct ExRegex(regex::Regex);

#[verifier::external_type_specification]
#[verifier::external_body]
pub struct ExRegexError(regex::Error);

/// Whether `regex::Regex::new` accepts `pattern` (valid syntax, within the
/// default size limit).
pub uninterp spec fn regex_compiles(pattern: Seq<char>) -> bool;

/// Whether the regex compiled from `pattern` matches somewhere in
/// `haystack` (`regex::Regex::is_match`).
pub uninterp spec fn regex_is_match(pattern: Seq<char>, haystack: Seq<char>) -> bool;

/// A regular expression together with the source text it was compiled from.
/// Its fields are private and only `compile_regex` builds one, from the
/// source it records, so the two always agree.
pub struct CompiledPattern {
    source: String,
    re: regex::Regex,
}

impl View for CompiledPattern {
    type V = Seq<char>;

    /// The source text of the pattern.
    closed spec fn view(&self) -> Seq<char> {
        self.source@
    }
}

/// Compiles `pattern` with `regex::Regex::new`. Trusted: compilation
/// succeeds exactly when `regex_compiles(pattern)`, and the compiled pattern
/// records `pattern` as its source.
#[verifier::external_body]
fn compile_regex(pattern: &str) -> (r: Result<CompiledPattern, regex::Error>)
    ensures
        r is Ok <==> regex_compiles(pattern@),
        r matches Ok(c) ==> c@ == pattern@,
{
    match regex::Regex::new(pattern) {
        Ok(re) => Ok(CompiledPattern { source: pattern.to_owned(), re }),
        Err(e) => Err(e),
    }
}

/// Runs `regex::Regex::is_match`. Trusted: the answer is
/// `regex_is_match(p, haystack)` for the source `p` of the pattern.
#[verifier::external_body]
fn regex_match(p: &CompiledPattern, haystack: &str) -> (b: bool)
    ensures
        b == regex_is_match(p@, haystack@),
{
    p.re.is_match(haystack)
}

/// A pattern that did not compile.
#[derive(Debug)]
pub struct PatternError {
    pub pattern: String,
}

/// Compiles one pattern.
pub fn compile_pattern(pattern: &str) -> (r: Result<CompiledPattern, PatternError>)
    ensures
        r is Ok <==> regex_compiles(pattern@),
        match r {
            Ok(c) => c@ == pattern@,
            Err(e) => e.pattern@ == pattern@,
        },
{
    match compile_regex(pattern) {
        Ok(c) => Ok(c),
        Err(_) => Err(PatternError { pattern: pattern.to_owned() }),
    }
}

/// Whether `p` matches somewhere in `haystack`.
pub fn is_match(p: &CompiledPattern, haystack: &str) -> (b: bool)
    ensures
        b == regex_is_match(p@, haystack@),
{
    regex_match(p, haystack)
}

/// Files larger than this many bytes are not scanned.
pub const MAX_FILE_BYTES: u64 = 1_000_000;

/// The credential patterns: a name for the report and the regex source.
pub open spec fn secret_rules() -> Seq<(Seq<char>, Seq<char>)> {
    seq![
        ("AWS access key ID"@, r"\bAKIA[0-9A-Z]{16}\b"@),
        ("GitHub token"@, r"\bgh[pousr]_[A-Za-z0-9]{36,}\b"@),
        ("Slack token"@, r"\bxox[baprs]-[A-Za-z0-9-]{10,}\b"@),
        (
            "private key block"@,
            r"-----BEGIN (RSA |EC |OPENSSH |DSA |PGP )?PRIVATE KEY( BLOCK)?-----"@,
        ),
        (
            "hardcoded credential"@,
            r#"(?i)\b(api[_-]?key|secret|password)\b\s*[:=]\s*["'][^"']{12,}["']"#@,
        ),
    ]
}

fn secret_rule(i: usize) -> (r: (&'static str, &'static str))
    requires
        i < 5,
    ensures
        r.0@ == secret_rules()[i as int].0,
        r.1@ == secret_rules()[i as int].1,
{
    match i {
        0 => ("AWS access key ID", r"\bAKIA[0-9A-Z]{16}\b"),
        1 => ("GitHub token", r"\bgh[pousr]_[A-Za-z0-9]{36,}\b"),
        2 => ("Slack token", r"\bxox[baprs]-[A-Za-z0-9-]{10,}\b"),
        3 => (
            "private key block",
            r"-----BEGIN (RSA |EC |OPENSSH |DSA |PGP )?PRIVATE KEY( BLOCK)?-----",
        ),
        _ => (
            "hardcoded credential",
            r#"(?i)\b(api[_-]?key|secret|password)\b\s*[:=]\s*["'][^"']{12,}["']"#,
        ),
    }
}

/// A credential pattern of the scanner.
pub struct SecretPattern {
    pub name: &'static str,
    pub pattern: CompiledPattern,
}

/// The regex sources of `ps`, in order.
pub open spec fn pattern_sources(ps: Seq<SecretPattern>) -> Seq<Seq<char>> {
    ps.map_values(|p: SecretPattern| p.pattern@)
}

/// Compiles the credential patterns, in the order of `secret_rules()`.
pub fn patterns() -> (r: Result<Vec<SecretPattern>, PatternError>)
    ensures
        r is Ok <==> forall|i: int| 0 <= i < 5 ==> regex_compiles(#[trigger] secret_rules()[i].1),
        match r {
            Ok(v) => {
                &&& v.len() == 5
                &&& forall|i: int|
                    0 <= i < 5 ==> (#[trigger] v@[i]).name@ == secret_rules()[i].0
                        && v@[i].pattern@ == secret_rules()[i].1
                &&& v@[0].name@ == "AWS access key ID"@
                &&& v@[0].pattern@ == r"\bAKIA[0-9A-Z]{16}\b"@
                &&& v@[1].name@ == "GitHub token"@
                &&& v@[1].pattern@ == r"\bgh[pousr]_[A-Za-z0-9]{36,}\b"@
                &&& v@[2].name@ == "Slack token"@
                &&& v@[2].pattern@ == r"\bxox[baprs]-[A-Za-z0-9-]{10,}\b"@
                &&& v@[3].name@ == "private key block"@
                &&& v@[3].pattern@ == r"-----BEGIN (RSA |EC |OPENSSH |DSA |PGP )?PRIVATE KEY( BLOCK)?-----"@
                &&& v@[4].name@ == "hardcoded credential"@
                &&& v@[4].pattern@ == r#"(?i)\b(api[_-]?key|secret|password)\b\s*[:=]\s*["'][^"']{12,}["']"#@
            },
            Err(e) => exists|i: int|
                0 <= i < 5 && !regex_compiles(#[trigger] secret_rules()[i].1) && e.pattern@
                    == secret_rules()[i].1 && forall|k: int|
                    0 <= k < i ==> regex_compiles(#[trigger] secret_rules()[k].1),
        },
{
    let mut v: Vec<SecretPattern> = Vec::new();
    let mut i: usize = 0;
    while i < 5
        invariant
            i <= 5,
            v.len() == i,
            forall|k: int| 0 <= k < i ==> regex_compiles(#[trigger] secret_rules()[k].1),
            forall|k: int|
                0 <= k < i ==> (#[trigger] v@[k]).name@ == secret_rules()[k].0 && v@[k].pattern@
                    == secret_rules()[k].1,
        decreases 5 - i,
    {
        let (name, source) = secret_rule(i);
        match compile_pattern(source) {
            Ok(pattern) => {
                v.push(SecretPattern { name, pattern });
            },
            Err(e) => {
                return Err(e);
            },
        }
        i = i + 1;
    }
    Ok(v)
}

/// Whether a file of `size` bytes is scanned at all.
pub fn within_size_limit(size: u64) -> (b: bool)
    ensures
        b == (size <= MAX_FILE_BYTES),
{
    size <= MAX_FILE_BYTES
}

/// A line (numbered from 1) that matches a pattern (its index).
#[derive(Debug, Clone, Copy, PartialEq, Eq)]
pub struct Finding {
    pub line: usize,
    pub rule: usize,
}

/// Findings as pairs of line number and pattern index.
pub open spec fn findings_view(fs: Seq<Finding>) -> Seq<(nat, nat)> {
    fs.map_values(|f: Finding| (f.line as nat, f.rule as nat))
}

/// The findings in `line` (numbered `line_no`) among the first `k` patterns,
/// in pattern order.
pub open spec fn line_hits(pats: Seq<Seq<char>>, line: Seq<char>, line_no: nat, k: nat) -> Seq<
    (nat, nat),
>
    decreases k,
{
    if k == 0 {
        seq![]
    } else {
        let prev = line_hits(pats, line, line_no, (k - 1) as nat);
        if regex_is_match(pats[k - 1], line) {
            prev.push((line_no, (k - 1) as nat))
        } else {
            prev
        }
    }
}

/// The findings in the first `n` of `lines`, line by line.
pub open spec fn text_hits(pats: Seq<Seq<char>>, lines: Seq<Seq<char>>, n: nat) -> Seq<(nat, nat)>
    decreases n,
{
    if n == 0 {
        seq![]
    } else {
        text_hits(pats, lines, (n - 1) as nat) + line_hits(pats, lines[n - 1], n, pats.len())
    }
}

/// The content holds a NUL byte, which marks it as binary.
pub open spec fn is_binary(bytes: Seq<u8>) -> bool {
    exists|i: int| 0 <= i < bytes.len() && bytes[i] == 0
}

/// The lines of a file's content as the scanner reads them.
pub open spec fn scanned_lines(bytes: Seq<u8>) -> Seq<Seq<char>> {
    lines_spec(utf8_lossy(bytes))
}

/// What the scanner reports of a file's content: nothing for binary
/// content, else every (line, pattern) pair that matches.
pub open spec fn scan_spec(pats: Seq<Seq<char>>, bytes: Seq<u8>) -> Seq<(nat, nat)> {
    if is_binary(bytes) {
        seq![]
    } else {
        text_hits(pats, scanned_lines(bytes), scanned_lines(bytes).len())
    }
}

fn has_nul(bytes: &[u8]) -> (b: bool)
    ensures
        b == is_binary(bytes@),
{
    let mut i: usize = 0;
    while i < bytes.len()
        invariant
            i <= bytes.len(),
            forall|k: int| 0 <= k < i ==> bytes@[k] != 0,
        decreases bytes.len() - i,
    {
        if bytes[i] == 0 {
            return true;
        }
        i = i + 1;
    }
    false
}

/// Scans the content of one staged file against the patterns.
pub fn scan_contents(patterns: &Vec<SecretPattern>, bytes: &[u8]) -> (fs: Vec<Finding>)
    ensures
        findings_view(fs@) == scan_spec(pattern_sources(patterns@), bytes@),
        (exists|i: int| 0 <= i < bytes@.len() && bytes@[i] == 0u8) ==> fs.len() == 0,
        (forall|i: int| 0 <= i < bytes@.len() ==> bytes@[i] != 0u8) ==> findings_view(fs@)
            == text_hits(
            pattern_sources(patterns@),
            scanned_lines(bytes@),
            scanned_lines(bytes@).len(),
        ),
{
    proof {
        only_a_nul_byte_marks_content_binary(pattern_sources(patterns@), bytes@);
    }
    let mut fs: Vec<Finding> = Vec::new();
    if has_nul(bytes) {
        assert(findings_view(fs@) =~= Seq::<(nat, nat)>::empty());
        return fs;
    }
    let ghost pats = pattern_sources(patterns@);
    let text = decode_lossy(bytes);
    let lines = lines_of(text.as_str());
    let ghost ls = scanned_lines(bytes@);
    let mut n: usize = 0;
    while n < lines.len()
        invariant
            pats == pattern_sources(patterns@),
            lines.deep_view() == ls,
            n <= lines.len(),
            findings_view(fs@) == text_hits(pats, ls, n as nat),
        decreases lines.len() - n,
    {
        let line = lines[n].as_str();
        assert(line@ == ls[n as int]);
        let ghost before = findings_view(fs@);
        let mut k: usize = 0;
        while k < patterns.len()
            invariant
                pats == pattern_sources(patterns@),
                lines.deep_view() == ls,
                line@ == ls[n as int],
                n < lines.len(),
                k <= patterns.len(),
                findings_view(fs@) == before + line_hits(pats, line@, (n + 1) as nat, k as nat),
            decreases patterns.len() - k,
        {
            assert(pats[k as int] == patterns@[k as int].pattern@);
            let ghost prev = fs@;
            if is_match(&patterns[k].pattern, line) {
                fs.push(Finding { line: n + 1, rule: k });
                assert(findings_view(fs@) =~= findings_view(prev).push(((n + 1) as nat, k as nat)));
                assert(findings_view(fs@) =~= before + line_hits(
                    pats,
                    line@,
                    (n + 1) as nat,
                    (k + 1) as nat,
                ));
            }
            k = k + 1;
        }
        assert(findings_view(fs@) =~= text_hits(pats, ls, (n + 1) as nat));
        n = n + 1;
    }
    fs
}

/// Whether findings block the commit.
pub fn blocks_commit(findings: usize) -> (b: bool)
    ensures
        b == (findings > 0),
{
    findings > 0
}

// ---------------------------------------------------------------------------
// Laws
// ---------------------------------------------------------------------------

/// The scanner looks for exactly these five patterns, in this order.
pub proof fn credential_patterns_are_fixed()
    ensures
        secret_rules().len() == 5,
        secret_rules()[0] == ("AWS access key ID"@, r"\bAKIA[0-9A-Z]{16}\b"@),
        secret_rules()[1] == ("GitHub token"@, r"\bgh[pousr]_[A-Za-z0-9]{36,}\b"@),
        secret_rules()[2] == ("Slack token"@, r"\bxox[baprs]-[A-Za-z0-9-]{10,}\b"@),
        secret_rules()[3] == ("private key block"@, r"-----BEGIN (RSA |EC |OPENSSH |DSA |PGP )?PRIVATE KEY( BLOCK)?-----"@),
        secret_rules()[4] == ("hardcoded credential"@, r#"(?i)\b(api[_-]?key|secret|password)\b\s*[:=]\s*["'][^"']{12,}["']"#@),
{
}

/// Only a NUL byte marks content as binary: content with a NUL byte yields
/// no findings, and content without one (tabs and other control bytes
/// included) has all its matching lines reported.
pub proof fn only_a_nul_byte_marks_content_binary(pats: Seq<Seq<char>>, bytes: Seq<u8>)
    ensures
        is_binary(bytes) <==> exists|i: int| 0 <= i < bytes.len() && bytes[i] == 0u8,
        (exists|i: int| 0 <= i < bytes.len() && bytes[i] == 0u8) ==> scan_spec(pats, bytes).len()
            == 0,
        (forall|i: int| 0 <= i < bytes.len() ==> bytes[i] != 0u8) ==> scan_spec(pats, bytes)
            == text_hits(pats, scanned_lines(bytes), scanned_lines(bytes).len()),
{
}

/// Binary content (holding a NUL byte) yields no findings.
pub proof fn binary_content_has_no_findings(pats: Seq<Seq<char>>, bytes: Seq<u8>)
    requires
        is_binary(bytes),
    ensures
        scan_spec(pats, bytes).len() == 0,
{
}

proof fn lemma_line_hits(pats: Seq<Seq<char>>, line: Seq<char>, line_no: nat, k: nat)
    requires
        k <= pats.len(),
    ensures
        forall|t: int|
            0 <= t < line_hits(pats, line, line_no, k).len() ==> {
                let h = #[trigger] line_hits(pats, line, line_no, k)[t];
                &&& h.0 == line_no
                &&& h.1 < k
                &&& regex_is_match(pats[h.1 as int], line)
            },
        forall|j: int|
            0 <= j < k && regex_is_match(#[trigger] pats[j], line) ==> line_hits(
                pats,
                line,
                line_no,
                k,
            ).contains((line_no, j as nat)),
    decreases k,
{
    if k > 0 {
        lemma_line_hits(pats, line, line_no, (k - 1) as nat);
        let prev = line_hits(pats, line, line_no, (k - 1) as nat);
        assert forall|j: int|
            0 <= j < k && regex_is_match(#[trigger] pats[j], line) implies line_hits(
            pats,
            line,
            line_no,
            k,
        ).contains((line_no, j as nat)) by {
            if j < k - 1 {
                let t = choose|t: int| 0 <= t < prev.len() && prev[t] == (line_no, j as nat);
                if regex_is_match(pats[k - 1], line) {
                    assert(prev.push((line_no, (k - 1) as nat))[t] == (line_no, j as nat));
                }
            } else {
                let cur = line_hits(pats, line, line_no, k);
                assert(cur[cur.len() - 1] == (line_no, j as nat));
            }
        }
    }
}

proof fn lemma_text_hits(pats: Seq<Seq<char>>, lines: Seq<Seq<char>>, n: nat)
    requires
        n <= lines.len(),
    ensures
        forall|t: int|
            0 <= t < text_hits(pats, lines, n).len() ==> {
                let h = #[trigger] text_hits(pats, lines, n)[t];
                &&& 1 <= h.0 <= n
                &&& h.1 < pats.len()
                &&& regex_is_match(pats[h.1 as int], lines[h.0 - 1])
            },
        forall|i: int, j: int|
            0 <= i < n && 0 <= j < pats.len() && regex_is_match(#[trigger] pats[j], #[trigger] lines[i])
                ==> text_hits(pats, lines, n).contains(((i + 1) as nat, j as nat)),
    decreases n,
{
    if n > 0 {
        lemma_text_hits(pats, lines, (n - 1) as nat);
        lemma_line_hits(pats, lines[n - 1], n, pats.len());
        let prev = text_hits(pats, lines, (n - 1) as nat);
        let cur = line_hits(pats, lines[n - 1], n, pats.len());
        let all = text_hits(pats, lines, n);
        assert(all == prev + cur);
        assert forall|t: int| 0 <= t < all.len() implies {
            let h = #[trigger] all[t];
            &&& 1 <= h.0 <= n
            &&& h.1 < pats.len()
            &&& regex_is_match(pats[h.1 as int], lines[h.0 - 1])
        } by {
            if t < prev.len() {
                assert(all[t] == prev[t]);
            } else {
                assert(all[t] == cur[t - prev.len()]);
            }
        }
        assert forall|i: int, j: int|
            0 <= i < n && 0 <= j < pats.len() && regex_is_match(#[trigger] pats[j], #[trigger] lines[i])
            implies all.contains(((i + 1) as nat, j as nat)) by {
            if i < n - 1 {
                let t = choose|t: int| 0 <= t < prev.len() && prev[t] == ((i + 1) as nat, j as nat);
                assert(all[t] == prev[t]);
            } else {
                let t = choose|t: int| 0 <= t < cur.len() && cur[t] == ((i + 1) as nat, j as nat);
                assert(all[prev.len() + t] == cur[t]);
            }
        }
    }
}

/// Every finding names a line of the content and a pattern that matches
/// that line; and every line that matches a pattern is reported with it,
/// unless the content is binary.
pub proof fn findings_are_exactly_the_matching_lines(pats: Seq<Seq<char>>, bytes: Seq<u8>)
    ensures
        forall|t: int|
            0 <= t < scan_spec(pats, bytes).len() ==> {
                let h = #[trigger] scan_spec(pats, bytes)[t];
                &&& !is_binary(bytes)
                &&& 1 <= h.0 <= scanned_lines(bytes).len()
                &&& h.1 < pats.len()
                &&& regex_is_match(pats[h.1 as int], scanned_lines(bytes)[h.0 - 1])
            },
        forall|i: int, j: int|
            !is_binary(bytes) && 0 <= i < scanned_lines(bytes).len() && 0 <= j < pats.len()
                && regex_is_match(#[trigger] pats[j], #[trigger] scanned_lines(bytes)[i])
                ==> scan_spec(pats, bytes).contains(((i + 1) as nat, j as nat)),
{
    let ls = scanned_lines(bytes);
    lemma_text_hits(pats, ls, ls.len());
}

/// A commit is blocked by a file exactly when the file is not binary and
/// some line of it matches some pattern.
pub proof fn content_blocks_iff_some_line_matches(pats: Seq<Seq<char>>, bytes: Seq<u8>)
    ensures
        scan_spec(pats, bytes).len() > 0 <==> (!is_binary(bytes) && exists|i: int, j: int|
            0 <= i < scanned_lines(bytes).len() && 0 <= j < pats.len() && regex_is_match(
                #[trigger] pats[j],
                #[trigger] scanned_lines(bytes)[i],
            )),
{
    findings_are_exactly_the_matching_lines(pats, bytes);
    if scan_spec(pats, bytes).len() > 0 {
        let h = scan_spec(pats, bytes)[0];
        assert(regex_is_match(pats[h.1 as int], scanned_lines(bytes)[h.0 - 1]));
    }
}

} // verus!
