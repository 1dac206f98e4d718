use gitwasm::secret_scan::{
    blocks_commit, compile_pattern, is_match, patterns, scan_contents, within_size_limit, Finding,
    MAX_FILE_BYTES,
};

/// An AWS-style access key id, built at run time.
fn aws_key() -> String {
    format!("{}{}", "AK", "IAABCDEFGHIJKLMNOP")
}

/// A GitHub-style token, built at run time.
fn github_token() -> String {
    format!("gh{}_{}{}", "p", "abcdefghijklmnopqrstuvwxyz", "0123456789")
}

/// A Slack-style token, built at run time.
fn slack_token() -> String {
    format!("xo{}-{}", "xb", "1234567890-abc")
}

/// The first line of a PEM private key block, built at run time.
fn private_key_line() -> String {
    format!("{} RSA {} KEY{}", "-----BEGIN", "PRIVATE", "-----")
}

fn rules() -> Vec<gitwasm::secret_scan::SecretPattern> {
    match patterns() {
        Ok(p) => p,
        Err(e) => panic!("pattern {} does not compile", e.pattern),
    }
}

#[test]
fn patterns_compile_in_order() {
    let names: Vec<&str> = rules().iter().map(|p| p.name).collect();
    assert_eq!(
        names,
        vec![
            "AWS access key ID",
            "GitHub token",
            "Slack token",
            "private key block",
            "hardcoded credential"
        ]
    );
}

#[test]
fn aws_key_is_found() {
    let text = format!("const KEY: &str = \"{}\";\n", aws_key());
    let fs = scan_contents(&rules(), text.as_bytes());
    assert_eq!(fs, vec![Finding { line: 1, rule: 0 }]);
}

#[test]
fn findings_carry_line_numbers() {
    let text = format!("fn main() {{}}\n// token below\nlet t = \"{}\";\n", github_token());
    let fs = scan_contents(&rules(), text.as_bytes());
    assert_eq!(fs, vec![Finding { line: 3, rule: 1 }]);
}

#[test]
fn several_patterns_on_one_line_are_reported_in_pattern_order() {
    let text = format!("password = \"{}\"\n", aws_key());
    let fs = scan_contents(&rules(), text.as_bytes());
    assert_eq!(fs, vec![Finding { line: 1, rule: 0 }, Finding { line: 1, rule: 4 }]);
}

#[test]
fn slack_and_private_key_are_found() {
    let text = format!("x\r\n{}\r\n{}\r\n", slack_token(), private_key_line());
    let fs = scan_contents(&rules(), text.as_bytes());
    assert_eq!(fs, vec![Finding { line: 2, rule: 2 }, Finding { line: 3, rule: 3 }]);
}

#[test]
fn hardcoded_credential_needs_twelve_characters() {
    let long = format!("api_key: '{}'", "abcdefghijkl");
    let short = format!("api_key: '{}'", "abcdefghijk");
    let upper = format!("SECRET = \"{}\"", "0123456789abcdef");
    assert_eq!(scan_contents(&rules(), long.as_bytes()), vec![Finding { line: 1, rule: 4 }]);
    assert_eq!(scan_contents(&rules(), short.as_bytes()), vec![]);
    assert_eq!(scan_contents(&rules(), upper.as_bytes()), vec![Finding { line: 1, rule: 4 }]);
}

#[test]
fn clean_content_has_no_findings() {
    assert_eq!(scan_contents(&rules(), b"just some text\nAKIA-not-a-key\n"), vec![]);
    assert_eq!(scan_contents(&rules(), b""), vec![]);
}

#[test]
fn binary_content_is_skipped() {
    let mut bytes = format!("{}\n", aws_key()).into_bytes();
    bytes.push(0);
    assert_eq!(scan_contents(&rules(), &bytes), vec![]);
}

#[test]
fn invalid_utf8_is_scanned_lossily() {
    let mut bytes = b"\xff\xfe ".to_vec();
    bytes.extend_from_slice(format!("{}\n", aws_key()).as_bytes());
    assert_eq!(scan_contents(&rules(), &bytes), vec![Finding { line: 1, rule: 0 }]);
}

#[test]
fn size_limit() {
    assert_eq!(MAX_FILE_BYTES, 1_000_000);
    assert!(within_size_limit(0));
    assert!(within_size_limit(1_000_000));
    assert!(!within_size_limit(1_000_001));
}

#[test]
fn findings_block_the_commit() {
    assert!(!blocks_commit(0));
    assert!(blocks_commit(1));
    assert!(blocks_commit(7));
}

#[test]
fn invalid_pattern_is_reported() {
    match compile_pattern("foo(bar") {
        Ok(_) => panic!("an unclosed group must not compile"),
        Err(e) => assert_eq!(e.pattern, "foo(bar"),
    }
}

#[test]
fn compiled_pattern_matches() {
    let p = match compile_pattern(r"\d{3}") {
        Ok(p) => p,
        Err(_) => panic!("valid pattern"),
    };
    assert!(is_match(&p, "abc 123"));
    assert!(!is_match(&p, "abc 12"));
}
