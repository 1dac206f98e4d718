use gitwasm::commands::{
    direct_sandbox, hook_sandbox, hook_shim, hooks_path_for_git, install_config, merge_attribute_line,
    hook_argv, hook_input, merge_sandbox, merge_verdict, plan_hook, staged_blob, staged_paths, HookInput,
    HookPlan, MergeVerdict, COMMIT_MSG_FILE, COMMIT_MSG_HOOK,
};
use gitwasm::gitutil::{git_output, join_args};
use gitwasm::git_string;
use gitwasm::runner::{exit_code, permissions, DirAccess, FileAccess, Limits, ModuleTrapped, Permissions, RunOutcome};
use std::path::Path;

const LIMITS: Limits = Limits { fuel: 1_000_000, memory_bytes: 64 * 1024 * 1024 };

#[test]
fn git_string_drops_trailing_newline() {
    assert_eq!(git_string(b"/home/user/repo\n"), "/home/user/repo");
    assert_eq!(git_string(b"abc \t\r\n\n"), "abc");
    assert_eq!(git_string(b"  keep leading"), "  keep leading");
    assert_eq!(git_string(b""), "");
    assert_eq!(git_string(b"\n\n"), "");
}

#[test]
fn git_string_decodes_lossily() {
    assert_eq!(git_string(b"\xffx\n"), "\u{FFFD}x");
    assert_eq!(git_string("héllo\n".as_bytes()), "héllo");
}

#[test]
fn git_output_passes_stdout_on_success() {
    let r = git_output(&["status"], true, b"ok\n".to_vec(), b"ignored");
    assert_eq!(r.unwrap(), b"ok\n".to_vec());
}

#[test]
fn git_output_names_command_on_failure() {
    let r = git_output(
        &["rev-parse", "--show-toplevel"],
        false,
        Vec::new(),
        b"  fatal: not a git repository (or any of the parent directories): .git\n",
    );
    match r {
        Ok(_) => panic!("a failed git run must be an error"),
        Err(e) => assert_eq!(
            e.message,
            "git rev-parse --show-toplevel failed: fatal: not a git repository (or any of the parent directories): .git"
        ),
    }
}

#[test]
fn join_args_separates_with_spaces() {
    assert_eq!(join_args(&[]), "");
    assert_eq!(join_args(&["diff"]), "diff");
    assert_eq!(join_args(&["diff", "--cached", "-z"]), "diff --cached -z");
}

#[test]
fn hook_shim_execs_gitwasm() {
    assert_eq!(hook_shim("pre-commit"), "#!/bin/sh\nexec gitwasm hook pre-commit \"$@\"\n");
}

#[test]
fn hooks_path_uses_forward_slashes() {
    assert_eq!(hooks_path_for_git("C:\\repo\\.gitwasm\\hooks"), "C:/repo/.gitwasm/hooks");
    assert_eq!(hooks_path_for_git("/repo/.gitwasm/hooks"), "/repo/.gitwasm/hooks");
}

#[test]
fn install_sets_hooks_path_and_merge_driver() {
    let cmds = install_config("/r/.gitwasm/hooks");
    assert_eq!(
        cmds,
        vec![
            vec!["config".to_string(), "core.hooksPath".to_string(), "/r/.gitwasm/hooks".to_string()],
            vec![
                "config".to_string(),
                "merge.gitwasm.driver".to_string(),
                "gitwasm merge %O %A %B %P".to_string()
            ],
            vec![
                "config".to_string(),
                "merge.gitwasm.name".to_string(),
                "gitwasm sandboxed wasm merge driver".to_string()
            ],
        ]
    );
}

#[test]
fn merge_attribute_line_routes_to_driver() {
    assert_eq!(merge_attribute_line("package-lock.json"), "package-lock.json merge=gitwasm");
}

#[test]
fn staged_paths_split_on_nul() {
    assert_eq!(staged_paths(b"a.txt\0dir/b.rs\0"), vec!["a.txt".to_string(), "dir/b.rs".to_string()]);
    assert_eq!(staged_paths(b"only"), vec!["only".to_string()]);
    assert_eq!(staged_paths(b"\0\0x\0\0"), vec!["x".to_string()]);
    assert_eq!(staged_paths(b""), Vec::<String>::new());
    assert_eq!(staged_paths(b"with space.txt\0"), vec!["with space.txt".to_string()]);
}

#[test]
fn staged_blob_names_index_entry() {
    assert_eq!(staged_blob("src/lib.rs"), ":src/lib.rs");
}

#[test]
fn hook_sandbox_is_read_only() {
    let dir = Path::new("/tmp/snapshot");
    let sb = hook_sandbox(dir, "pre-commit", "secret-scan.wasm", LIMITS);
    assert!(!sb.writable);
    assert_eq!(sb.dir, dir);
    assert_eq!(sb.argv, vec!["secret-scan.wasm".to_string()]);
    assert_eq!(sb.limits, LIMITS);
    assert_eq!(permissions(sb.writable), Permissions { dir: DirAccess::Read, file: FileAccess::Read });
}

#[test]
fn merge_sandbox_is_writable() {
    let dir = Path::new("/tmp/merge");
    let sb = merge_sandbox(dir, "lockfile-merge.wasm", "package-lock.json", LIMITS);
    assert!(sb.writable);
    assert_eq!(
        sb.argv,
        vec!["lockfile-merge.wasm", "base", "ours", "theirs", "result", "package-lock.json"]
            .into_iter()
            .map(String::from)
            .collect::<Vec<_>>()
    );
    assert_eq!(
        permissions(sb.writable),
        Permissions { dir: DirAccess::ReadMutate, file: FileAccess::ReadWrite }
    );
}

#[test]
fn direct_sandbox_passes_arguments() {
    let dir = Path::new(".");
    let args = vec!["COMMIT_MSG".to_string(), "-v".to_string()];
    let sb = direct_sandbox(dir, "commit-lint.wasm", &args, LIMITS);
    assert!(!sb.writable);
    assert_eq!(sb.argv, vec!["commit-lint.wasm".to_string(), "COMMIT_MSG".to_string(), "-v".to_string()]);
}

#[test]
fn exit_codes() {
    assert_eq!(exit_code(RunOutcome::Completed), Ok(0));
    assert_eq!(exit_code(RunOutcome::Exited(3)), Ok(3));
    assert_eq!(exit_code(RunOutcome::Exited(0)), Ok(0));
    assert_eq!(exit_code(RunOutcome::Trapped), Err(ModuleTrapped));
}

#[test]
fn merge_needs_success_and_result() {
    assert_eq!(merge_verdict(0, true), MergeVerdict::Merged);
    assert_eq!(merge_verdict(0, false), MergeVerdict::Conflict);
    assert_eq!(merge_verdict(1, true), MergeVerdict::Conflict);
    assert_eq!(MergeVerdict::Merged.status(), 0);
    assert_eq!(MergeVerdict::Conflict.status(), 1);
}

#[test]
fn hook_plan_allows_empty_staged_set() {
    assert!(matches!(plan_hook(b""), HookPlan::Allow));
    assert!(matches!(plan_hook(b"\0\0"), HookPlan::Allow));
    match plan_hook(b"a\0b\0") {
        HookPlan::Allow => panic!("staged files must be scanned"),
        HookPlan::Scan(paths) => assert_eq!(paths, vec!["a".to_string(), "b".to_string()]),
    }
}

#[test]
fn commit_msg_hook_gets_the_message() {
    assert_eq!(COMMIT_MSG_HOOK, "commit-msg");
    assert_eq!(COMMIT_MSG_FILE, "COMMIT_MSG");
    assert_eq!(hook_input("commit-msg"), HookInput::CommitMessage);
    assert_eq!(
        hook_argv("commit-msg", "commit-lint.wasm"),
        vec!["commit-lint.wasm".to_string(), "COMMIT_MSG".to_string()]
    );
    let dir = Path::new("/tmp/message");
    let sb = hook_sandbox(dir, "commit-msg", "commit-lint.wasm", LIMITS);
    assert!(!sb.writable);
    assert_eq!(sb.argv, vec!["commit-lint.wasm".to_string(), "COMMIT_MSG".to_string()]);
}

#[test]
fn other_hooks_get_the_staged_tree() {
    assert_eq!(hook_input("pre-commit"), HookInput::StagedTree);
    assert_eq!(hook_input("commit-msg2"), HookInput::StagedTree);
    assert_eq!(hook_input("commit"), HookInput::StagedTree);
    assert_eq!(hook_argv("pre-push", "m.wasm"), vec!["m.wasm".to_string()]);
}
