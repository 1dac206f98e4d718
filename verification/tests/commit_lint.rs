use gitwasm::commit_lint::{allowed_types, lint_commit_message, lint_header, Bypass, LintError, LintOk};

#[test]
fn conventional_header_is_accepted() {
    assert_eq!(lint_commit_message("feat(api): add retry"), Ok(LintOk::Conventional));
    assert_eq!(lint_commit_message("fix: handle empty input\n\nLonger body.\n"), Ok(LintOk::Conventional));
}

#[test]
fn breaking_change_marker_is_accepted() {
    assert_eq!(lint_commit_message("feat!: drop the old flag"), Ok(LintOk::Conventional));
    assert_eq!(lint_commit_message("refactor(core)!: rename"), Ok(LintOk::Conventional));
}

#[test]
fn every_conventional_type_is_accepted() {
    for t in allowed_types() {
        let msg = format!("{t}: subject");
        assert_eq!(lint_commit_message(&msg), Ok(LintOk::Conventional), "{msg}");
    }
}

#[test]
fn allowed_types_are_listed_in_order() {
    assert_eq!(
        allowed_types(),
        vec!["feat", "fix", "docs", "style", "refactor", "perf", "test", "build", "ci", "chore", "revert"]
    );
}

#[test]
fn empty_message_is_refused() {
    assert_eq!(lint_commit_message(""), Err(LintError::EmptyMessage));
    assert_eq!(lint_commit_message("\n \t\n"), Err(LintError::EmptyMessage));
    assert_eq!(lint_commit_message("# Please enter the commit message\n#\n"), Err(LintError::EmptyMessage));
    assert_eq!(lint_commit_message("#feat: looks valid but is a comment"), Err(LintError::EmptyMessage));
}

#[test]
fn comments_and_blank_lines_before_header_are_skipped() {
    let msg = "# Please enter the commit message\n\n   \nfix: typo\n";
    assert_eq!(lint_commit_message(msg), Ok(LintOk::Conventional));
    assert_eq!(lint_commit_message("\n\nnot conventional"), Err(LintError::MissingSeparator));
}

#[test]
fn crlf_line_endings_are_handled() {
    assert_eq!(lint_commit_message("docs: readme\r\n\r\nbody\r\n"), Ok(LintOk::Conventional));
}

#[test]
fn git_generated_messages_pass() {
    assert_eq!(
        lint_commit_message("Merge branch 'main' into feature"),
        Ok(LintOk::GitGenerated(Bypass::Merge))
    );
    assert_eq!(
        lint_commit_message("Revert \"feat: thing\"\n\nThis reverts commit abc."),
        Ok(LintOk::GitGenerated(Bypass::Revert))
    );
    assert_eq!(lint_commit_message("fixup! feat: thing"), Ok(LintOk::GitGenerated(Bypass::Fixup)));
    assert_eq!(lint_commit_message("squash! whatever"), Ok(LintOk::GitGenerated(Bypass::Squash)));
    let long = format!("Merge {}", "x".repeat(200));
    assert_eq!(lint_commit_message(&long), Ok(LintOk::GitGenerated(Bypass::Merge)));
}

#[test]
fn bypass_labels() {
    assert_eq!(Bypass::Merge.label(), "Merge");
    assert_eq!(Bypass::Revert.label(), "Revert");
    assert_eq!(Bypass::Fixup.label(), "fixup!");
    assert_eq!(Bypass::Squash.label(), "squash!");
}

#[test]
fn prefix_without_trailing_space_is_not_git_generated() {
    assert_eq!(lint_commit_message("Merged things"), Err(LintError::MissingSeparator));
}

#[test]
fn header_length_limit_counts_bytes() {
    let ok = format!("feat: {}", "a".repeat(94));
    assert_eq!(ok.len(), 100);
    assert_eq!(lint_commit_message(&ok), Ok(LintOk::Conventional));
    let long = format!("feat: {}", "a".repeat(95));
    assert_eq!(lint_commit_message(&long), Err(LintError::HeaderTooLong { bytes: 101 }));
    let wide = format!("feat: {}", "é".repeat(50));
    assert_eq!(lint_commit_message(&wide), Err(LintError::HeaderTooLong { bytes: 106 }));
}

#[test]
fn missing_separator_is_refused() {
    assert_eq!(lint_commit_message("add retry"), Err(LintError::MissingSeparator));
    assert_eq!(lint_commit_message("feat:add retry"), Err(LintError::MissingSeparator));
}

#[test]
fn empty_subject_is_refused() {
    assert_eq!(lint_commit_message("feat:  "), Err(LintError::EmptySubject));
    assert_eq!(lint_header("fix: \t"), Err(LintError::EmptySubject));
}

#[test]
fn unclosed_scope_is_refused() {
    assert_eq!(lint_commit_message("feat(api: add retry"), Err(LintError::UnclosedScope));
    assert_eq!(lint_commit_message("feat(: x"), Err(LintError::UnclosedScope));
}

#[test]
fn unknown_type_is_refused() {
    assert_eq!(
        lint_commit_message("feature: add retry"),
        Err(LintError::UnknownType { found: "feature".to_string() })
    );
    assert_eq!(
        lint_commit_message("Feat(api)!: add retry"),
        Err(LintError::UnknownType { found: "Feat".to_string() })
    );
    assert_eq!(lint_commit_message(": nothing"), Err(LintError::UnknownType { found: String::new() }));
}

#[test]
fn first_separator_splits_header() {
    assert_eq!(lint_commit_message("fix: a: b"), Ok(LintOk::Conventional));
    assert_eq!(
        lint_commit_message("fix a: b: c"),
        Err(LintError::UnknownType { found: "fix a".to_string() })
    );
}

#[test]
fn body_does_not_change_verdict() {
    assert_eq!(lint_commit_message("fix: y\nfeature: not a header"), lint_commit_message("fix: y"));
    assert_eq!(
        lint_commit_message("feature: x\n\nfix: y"),
        Err(LintError::UnknownType { found: "feature".to_string() })
    );
}

#[test]
fn leading_comment_does_not_change_verdict() {
    assert_eq!(lint_commit_message("# note\nchore: tidy"), lint_commit_message("chore: tidy"));
    assert_eq!(lint_commit_message(" \t\nbad header"), lint_commit_message("bad header"));
}
