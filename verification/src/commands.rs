//! The host's decisions for `install`, `hook`, `merge` and `run`: what it
//! writes into git's configuration, which staged files a hook sees, how each
//! module's sandbox is set up, and what a merge driver's run comes to.

use vstd::prelude::*;
use vstd::string::*;
use std::path::Path;
use crate::runner::{permissions_spec, DirAccess, FileAccess, Limits, Sandbox};
use crate::text::{chars_eq, chars_of, decode_lossy, push_char, string_of, utf8_lossy};

verus! {

// ---------------------------------------------------------------------------
// install
// ---------------------------------------------------------------------------

/// The shell shim that git runs for a hook: it hands the hook to gitwasm.
pub open spec fn hook_shim_spec(hook_name: Seq<char>) -> Seq<char> {
    "#!/bin/sh\nexec gitwasm hook "@ + hook_name + " \"$@\"\n"@
}

/// The content of the shim for `hook_name` (LF line endings: git for
/// Windows runs hooks through its bundled sh).
pub fn hook_shim(hook_name: &str) -> (s: String)
    ensures
        s@ == hook_shim_spec(hook_name@),
        s@ == "#!/bin/sh\nexec gitwasm hook "@ + hook_name@ + " \"$@\"\n"@,
{
    let mut s = "#!/bin/sh\nexec gitwasm hook ".to_owned();
    s.append(hook_name);
    s.append(" \"$@\"\n");
    s
}

/// `path` with every backslash turned into a slash.
pub open spec fn forward_slashes(path: Seq<char>) -> Seq<char> {
    path.map_values(|c: char| if c == '\\' { '/' } else { c })
}

/// The hooks directory as git's `core.hooksPath` takes it: with forward
/// slashes on every platform.
pub fn hooks_path_for_git(path: &str) -> (s: String)
    ensures
        s@ == forward_slashes(path@),
        s@.len() == path@.len(),
        forall|i: int|
            0 <= i < path@.len() ==> #[trigger] s@[i] == if path@[i] == '\\' {
                '/'
            } else {
                path@[i]
            },
{
    let cs = chars_of(path);
    let mut s = String::new();
    let mut i: usize = 0;
    while i < cs.len()
        invariant
            cs@ == path@,
            i <= cs.len(),
            s@ == forward_slashes(path@.take(i as int)),
        decreases cs.len() - i,
    {
        let c = cs[i];
        if c == '\\' {
            push_char(&mut s, '/');
        } else {
            push_char(&mut s, c);
        }
        assert(forward_slashes(path@.take(i + 1)) =~= forward_slashes(path@.take(i as int)).push(
            if c == '\\' { '/' } else { c },
        ));
        i = i + 1;
    }
    assert(path@.take(cs.len() as int) =~= path@);
    s
}

/// The git configuration that activates a repository's modules in a clone:
/// the hooks directory, and the merge driver with its name.
pub open spec fn install_config_spec(hooks_path: Seq<char>) -> Seq<Seq<Seq<char>>> {
    seq![
        seq!["config"@, "core.hooksPath"@, hooks_path],
        seq!["config"@, "merge.gitwasm.driver"@, "gitwasm merge %O %A %B %P"@],
        seq!["config"@, "merge.gitwasm.name"@, "gitwasm sandboxed wasm merge driver"@],
    ]
}

fn three(a: &str, b: &str, c: &str) -> (v: Vec<String>)
    ensures
        v.deep_view() == seq![a@, b@, c@],
{
    let mut v: Vec<String> = Vec::new();
    v.push(a.to_owned());
    v.push(b.to_owned());
    v.push(c.to_owned());
    assert(v.deep_view() =~= seq![a@, b@, c@]);
    v
}

/// The `git` invocations that `install` makes, in order.
pub fn install_config(hooks_path: &str) -> (cmds: Vec<Vec<String>>)
    ensures
        cmds.deep_view() == install_config_spec(hooks_path@),
        cmds.deep_view().len() == 3,
        cmds.deep_view()[0] == seq!["config"@, "core.hooksPath"@, hooks_path@],
        cmds.deep_view()[1] == seq!["config"@, "merge.gitwasm.driver"@, "gitwasm merge %O %A %B %P"@],
        cmds.deep_view()[2] == seq![
            "config"@,
            "merge.gitwasm.name"@,
            "gitwasm sandboxed wasm merge driver"@,
        ],
{
    let mut cmds: Vec<Vec<String>> = Vec::new();
    cmds.push(three("config", "core.hooksPath", hooks_path));
    cmds.push(three("config", "merge.gitwasm.driver", "gitwasm merge %O %A %B %P"));
    cmds.push(three("config", "merge.gitwasm.name", "gitwasm sandboxed wasm merge driver"));
    assert(cmds.deep_view() =~= install_config_spec(hooks_path@));
    cmds
}

/// `install` points git at the hooks directory exactly as given (no quoting
/// or other rewriting) and registers the gitwasm merge driver.
pub proof fn install_sets_hooks_path_unchanged(hooks_path: Seq<char>)
    ensures
        install_config_spec(hooks_path).len() == 3,
        install_config_spec(hooks_path)[0] == seq!["config"@, "core.hooksPath"@, hooks_path],
        install_config_spec(hooks_path)[1] == seq![
            "config"@,
            "merge.gitwasm.driver"@,
            "gitwasm merge %O %A %B %P"@,
        ],
        install_config_spec(hooks_path)[2] == seq![
            "config"@,
            "merge.gitwasm.name"@,
            "gitwasm sandboxed wasm merge driver"@,
        ],
{
}

/// The hooks path git is given keeps every character but turns each
/// backslash into a slash: it has the same length, holds no backslash, and
/// agrees with the path wherever the path has no backslash.
pub proof fn hooks_path_only_flips_backslashes(path: Seq<char>)
    ensures
        forward_slashes(path).len() == path.len(),
        forall|i: int| 0 <= i < path.len() ==> #[trigger] forward_slashes(path)[i] != '\\',
        forall|i: int|
            0 <= i < path.len() && path[i] != '\\' ==> #[trigger] forward_slashes(path)[i]
                == path[i],
        forall|i: int|
            0 <= i < path.len() && path[i] == '\\' ==> #[trigger] forward_slashes(path)[i]
                == '/',
{
}

/// The shim git runs for a hook execs `gitwasm hook` with the hook's name
/// and passes on all of its arguments.
pub proof fn hook_shim_execs_gitwasm_with_the_hook_name(hook_name: Seq<char>)
    ensures
        hook_shim_spec(hook_name) == "#!/bin/sh\nexec gitwasm hook "@ + hook_name
            + " \"$@\"\n"@,
{
}

/// The `.gitattributes` line that routes files matching `pattern` to the
/// gitwasm merge driver.
pub fn merge_attribute_line(pattern: &str) -> (s: String)
    ensures
        s@ == pattern@ + " merge=gitwasm"@,
{
    let mut s = pattern.to_owned();
    s.append(" merge=gitwasm");
    s
}

// ---------------------------------------------------------------------------
// hook
// ---------------------------------------------------------------------------

/// `s` split at every `sep` (`str::split`): one field more than there are
/// separators, empty fields included.
pub open spec fn split_spec(s: Seq<char>, sep: char) -> Seq<Seq<char>>
    decreases s.len(),
{
    if s.len() == 0 {
        seq![seq![]]
    } else {
        let prev = split_spec(s.drop_last(), sep);
        if s.last() == sep {
            prev.push(seq![])
        } else {
            prev.update(prev.len() - 1, prev.last().push(s.last()))
        }
    }
}

/// The fields that are not empty, in order.
pub open spec fn nonempty_fields(fields: Seq<Seq<char>>) -> Seq<Seq<char>> {
    fields.filter(|f: Seq<char>| f.len() > 0)
}

/// The staged paths in `git diff --cached --name-only -z` output: the
/// non-empty NUL-separated fields of its lossy decoding.
pub open spec fn staged_paths_spec(listing: Seq<u8>) -> Seq<Seq<char>> {
    nonempty_fields(split_spec(utf8_lossy(listing), '\0'))
}

proof fn lemma_split_len(s: Seq<char>, sep: char)
    ensures
        split_spec(s, sep).len() >= 1,
    decreases s.len(),
{
    if s.len() > 0 {
        lemma_split_len(s.drop_last(), sep);
    }
}

proof fn lemma_nonempty_push(fields: Seq<Seq<char>>, f: Seq<char>)
    ensures
        nonempty_fields(fields.push(f)) == if f.len() > 0 {
            nonempty_fields(fields).push(f)
        } else {
            nonempty_fields(fields)
        },
{
    reveal(Seq::filter);
    assert(fields.push(f).drop_last() =~= fields);
}

proof fn lemma_split_fields_lack_sep(s: Seq<char>, sep: char)
    ensures
        forall|k: int|
            0 <= k < split_spec(s, sep).len() ==> !(#[trigger] split_spec(s, sep)[k]).contains(sep),
    decreases s.len(),
{
    lemma_split_len(s, sep);
    if s.len() > 0 {
        let prev = split_spec(s.drop_last(), sep);
        lemma_split_fields_lack_sep(s.drop_last(), sep);
        lemma_split_len(s.drop_last(), sep);
        let cur = split_spec(s, sep);
        assert forall|k: int| 0 <= k < cur.len() implies !(#[trigger] cur[k]).contains(sep) by {
            if s.last() != sep && k == prev.len() - 1 {
                let f = prev.last().push(s.last());
                assert(cur[k] == f);
                if f.contains(sep) {
                    let t = choose|t: int| 0 <= t < f.len() && f[t] == sep;
                    assert(prev.last()[t] == sep);
                }
            } else if k < prev.len() {
                assert(cur[k] == prev[k]);
            } else {
                assert(cur[k] =~= Seq::<char>::empty());
            }
        }
    }
}

/// Every staged path is non-empty and holds no NUL character.
pub proof fn staged_paths_are_nonempty_and_nul_free(listing: Seq<u8>)
    ensures
        forall|k: int|
            0 <= k < staged_paths_spec(listing).len() ==> {
                let p = #[trigger] staged_paths_spec(listing)[k];
                p.len() > 0 && !p.contains('\0')
            },
{
    broadcast use vstd::seq_lib::group_filter_ensures;

    let fields = split_spec(utf8_lossy(listing), '\0');
    lemma_split_fields_lack_sep(utf8_lossy(listing), '\0');
    let paths = staged_paths_spec(listing);
    assert forall|k: int| 0 <= k < paths.len() implies {
        let p = #[trigger] paths[k];
        p.len() > 0 && !p.contains('\0')
    } by {
        let p = paths[k];
        assert(paths.contains(p));
        fields.lemma_filter_contains_rev(|f: Seq<char>| f.len() > 0, p);
        let j = choose|j: int| 0 <= j < fields.len() && fields[j] == p;
        assert(!fields[j].contains('\0'));
    }
}

/// The paths staged for commit, from the output of
/// `git diff --cached --name-only --diff-filter=ACM -z`.
pub fn staged_paths(listing: &[u8]) -> (paths: Vec<String>)
    ensures
        paths.deep_view() == staged_paths_spec(listing@),
{
    let text = decode_lossy(listing);
    let cs = chars_of(text.as_str());
    let ghost s = utf8_lossy(listing@);
    let mut paths: Vec<String> = Vec::new();
    let mut cur: Vec<char> = Vec::new();
    let mut i: usize = 0;
    proof {
        assert(s.take(0) =~= Seq::<char>::empty());
    }
    while i < cs.len()
        invariant
            cs@ == s,
            i <= cs.len(),
            split_spec(s.take(i as int), '\0').len() >= 1,
            split_spec(s.take(i as int), '\0').last() == cur@,
            paths.deep_view() == nonempty_fields(split_spec(s.take(i as int), '\0').drop_last()),
        decreases cs.len() - i,
    {
        let ghost prev = split_spec(s.take(i as int), '\0');
        assert(s.take(i + 1).drop_last() =~= s.take(i as int));
        assert(s.take(i + 1).last() == cs@[i as int]);
        let c = cs[i];
        if c == '\0' {
            proof {
                assert(prev.push(seq![]).drop_last() =~= prev);
                assert(prev =~= prev.drop_last().push(prev.last()));
                lemma_nonempty_push(prev.drop_last(), prev.last());
            }
            if cur.len() > 0 {
                paths.push(string_of(&cur));
                assert(paths.deep_view() =~= nonempty_fields(prev.drop_last()).push(cur@));
            }
            cur = Vec::new();
        } else {
            cur.push(c);
            proof {
                let next = prev.update(prev.len() - 1, prev.last().push(c));
                assert(next.drop_last() =~= prev.drop_last());
            }
        }
        i = i + 1;
    }
    proof {
        let all = split_spec(s.take(i as int), '\0');
        assert(s.take(i as int) =~= s);
        assert(all =~= all.drop_last().push(all.last()));
        lemma_nonempty_push(all.drop_last(), all.last());
    }
    if cur.len() > 0 {
        paths.push(string_of(&cur));
    }
    proof {
        let all = split_spec(s, '\0');
        assert(paths.deep_view() =~= nonempty_fields(all));
    }
    paths
}

/// What a hook run does with the staged set.
pub enum HookPlan {
    /// Nothing staged: the hook allows without running its module.
    Allow,
    /// Snapshot these staged paths and run the module over them.
    Scan(Vec<String>),
}

/// Decides a run of a hook over the staged tree from the staged listing:
/// with no staged path the hook allows at once, else it scans the staged
/// paths.
pub fn plan_hook(listing: &[u8]) -> (plan: HookPlan)
    ensures
        match plan {
            HookPlan::Allow => staged_paths_spec(listing@).len() == 0,
            HookPlan::Scan(paths) => paths.deep_view() == staged_paths_spec(listing@)
                && paths.len() > 0,
        },
{
    let paths = staged_paths(listing);
    if paths.len() == 0 {
        HookPlan::Allow
    } else {
        HookPlan::Scan(paths)
    }
}

/// The blob name under which git shows the staged content of `path`.
pub fn staged_blob(path: &str) -> (s: String)
    ensures
        s@ == ":"@ + path@,
{
    let mut s = ":".to_owned();
    s.append(path);
    s
}

/// Hook modules and modules run by hand get a mount that they can read and
/// not change; only merge drivers may write.
pub proof fn read_only_sandboxes_grant_no_writes(writable: bool)
    ensures
        !writable ==> permissions_spec(writable).dir == DirAccess::Read
            && permissions_spec(writable).file == FileAccess::Read,
        writable ==> permissions_spec(writable).dir == DirAccess::ReadMutate
            && permissions_spec(writable).file == FileAccess::ReadWrite,
{
}

/// The hook whose module lints the commit message rather than the staged
/// tree.
pub const COMMIT_MSG_HOOK: &'static str = "commit-msg";

/// The name under which the commit message is copied into the sandbox of the
/// commit-msg hook.
pub const COMMIT_MSG_FILE: &'static str = "COMMIT_MSG";

/// What the sandbox of a hook holds.
#[derive(Debug, Clone, Copy, PartialEq, Eq, Structural)]
pub enum HookInput {
    /// The commit message, copied from the hook's first argument as
    /// `COMMIT_MSG`; the module always runs.
    CommitMessage,
    /// A snapshot of the staged tree, as `plan_hook` decides it.
    StagedTree,
}

/// What the sandbox of the hook `hook_name` holds: the commit message for
/// commit-msg, the staged tree for every other hook.
pub open spec fn hook_input_spec(hook_name: Seq<char>) -> HookInput {
    if hook_name == COMMIT_MSG_HOOK@ {
        HookInput::CommitMessage
    } else {
        HookInput::StagedTree
    }
}

/// Decides what the sandbox of the hook `hook_name` holds.
pub fn hook_input(hook_name: &str) -> (r: HookInput)
    ensures
        r == hook_input_spec(hook_name@),
{
    if chars_eq(&chars_of(hook_name), &chars_of(COMMIT_MSG_HOOK)) {
        HookInput::CommitMessage
    } else {
        HookInput::StagedTree
    }
}

/// The argv of a hook module: its name, followed by `COMMIT_MSG` for the
/// commit-msg hook.
pub open spec fn hook_argv_spec(hook_name: Seq<char>, module_name: Seq<char>) -> Seq<Seq<char>> {
    match hook_input_spec(hook_name) {
        HookInput::CommitMessage => seq![module_name, COMMIT_MSG_FILE@],
        HookInput::StagedTree => seq![module_name],
    }
}

/// The argv with which the hook `hook_name` runs `module_name`.
pub fn hook_argv(hook_name: &str, module_name: &str) -> (v: Vec<String>)
    ensures
        v.deep_view() == hook_argv_spec(hook_name@, module_name@),
{
    let mut v: Vec<String> = Vec::new();
    v.push(module_name.to_owned());
    match hook_input(hook_name) {
        HookInput::CommitMessage => {
            v.push(COMMIT_MSG_FILE.to_owned());
            assert(v.deep_view() =~= seq![module_name@, COMMIT_MSG_FILE@]);
        },
        HookInput::StagedTree => {
            assert(v.deep_view() =~= seq![module_name@]);
        },
    }
    v
}

/// The sandbox of a hook module: `dir` holds what `hook_input` decides (the
/// commit message or the staged snapshot) and is mounted read-only; argv is
/// `hook_argv`.
pub fn hook_sandbox<'a>(dir: &'a Path, hook_name: &str, module_name: &str, limits: Limits) -> (sb:
    Sandbox<'a>)
    ensures
        sb.dir == dir,
        !sb.writable,
        sb.argv.deep_view() == hook_argv_spec(hook_name@, module_name@),
        sb.limits == limits,
{
    Sandbox { dir, writable: false, argv: hook_argv(hook_name, module_name), limits }
}

/// The commit-msg hook hands its module the commit message: argv is the
/// module's name and `COMMIT_MSG`, on a read-only mount.
pub proof fn commit_msg_hook_passes_the_message(module_name: Seq<char>)
    ensures
        hook_input_spec(COMMIT_MSG_HOOK@) == HookInput::CommitMessage,
        hook_argv_spec(COMMIT_MSG_HOOK@, module_name) == seq![module_name, COMMIT_MSG_FILE@],
        permissions_spec(false).file == FileAccess::Read,
{
}

// ---------------------------------------------------------------------------
// merge
// ---------------------------------------------------------------------------

/// Names of the three inputs and of the output in a merge sandbox.
pub const MERGE_BASE: &'static str = "base";
pub const MERGE_OURS: &'static str = "ours";
pub const MERGE_THEIRS: &'static str = "theirs";
pub const MERGE_RESULT: &'static str = "result";

/// The argv of a merge module: its name, the three inputs, the output, and
/// the repo-relative path being merged.
pub open spec fn merge_argv_spec(module_name: Seq<char>, path: Seq<char>) -> Seq<Seq<char>> {
    seq![module_name, MERGE_BASE@, MERGE_OURS@, MERGE_THEIRS@, MERGE_RESULT@, path]
}

/// The sandbox of a merge module: `dir` holds exactly base, ours and
/// theirs and is mounted writable, so that the module can write its result.
pub fn merge_sandbox<'a>(dir: &'a Path, module_name: &str, path: &str, limits: Limits) -> (sb:
    Sandbox<'a>)
    ensures
        sb.dir == dir,
        sb.writable,
        sb.argv.deep_view() == merge_argv_spec(module_name@, path@),
        sb.argv.deep_view() == seq![module_name@, "base"@, "ours"@, "theirs"@, "result"@, path@],
        sb.argv.len() == 6,
        sb.argv@[5]@ == path@,
        sb.limits == limits,
{
    let mut argv: Vec<String> = Vec::new();
    argv.push(module_name.to_owned());
    argv.push(MERGE_BASE.to_owned());
    argv.push(MERGE_OURS.to_owned());
    argv.push(MERGE_THEIRS.to_owned());
    argv.push(MERGE_RESULT.to_owned());
    argv.push(path.to_owned());
    assert(argv.deep_view() =~= merge_argv_spec(module_name@, path@));
    Sandbox { dir, writable: true, argv, limits }
}

/// A merge module's argv is its name, the fixed names "base", "ours",
/// "theirs", "result", and last the merged path exactly as given.
pub proof fn merge_argv_ends_with_the_path_as_given(module_name: Seq<char>, path: Seq<char>)
    ensures
        merge_argv_spec(module_name, path).len() == 6,
        merge_argv_spec(module_name, path)[0] == module_name,
        merge_argv_spec(module_name, path)[1] == "base"@,
        merge_argv_spec(module_name, path)[2] == "ours"@,
        merge_argv_spec(module_name, path)[3] == "theirs"@,
        merge_argv_spec(module_name, path)[4] == "result"@,
        merge_argv_spec(module_name, path)[5] == path,
{
}

/// What a merge driver run comes to.
#[derive(Debug, Clone, Copy, PartialEq, Eq, Structural)]
pub enum MergeVerdict {
    /// The module's result is copied back over "ours".
    Merged,
    /// A real conflict is left for the user.
    Conflict,
}

impl MergeVerdict {
    /// The exit status that git reads from the merge driver.
    pub fn status(&self) -> (code: i32)
        ensures
            code == match *self {
                MergeVerdict::Merged => 0i32,
                MergeVerdict::Conflict => 1i32,
            },
    {
        match self {
            MergeVerdict::Merged => 0,
            MergeVerdict::Conflict => 1,
        }
    }
}

/// A merge succeeds exactly when the module exits with 0 and has written
/// its result.
pub fn merge_verdict(exit_code: i32, result_written: bool) -> (v: MergeVerdict)
    ensures
        v == if exit_code == 0 && result_written {
            MergeVerdict::Merged
        } else {
            MergeVerdict::Conflict
        },
{
    if exit_code == 0 && result_written {
        MergeVerdict::Merged
    } else {
        MergeVerdict::Conflict
    }
}

// ---------------------------------------------------------------------------
// run
// ---------------------------------------------------------------------------

/// The sandbox of a module run by hand: `dir` mounted read-only, argv the
/// module's path followed by the given arguments.
pub fn direct_sandbox<'a>(dir: &'a Path, wasm: &str, args: &Vec<String>, limits: Limits) -> (sb:
    Sandbox<'a>)
    ensures
        sb.dir == dir,
        !sb.writable,
        sb.argv.deep_view() == seq![wasm@] + args.deep_view(),
        sb.limits == limits,
{
    let mut argv: Vec<String> = Vec::new();
    argv.push(wasm.to_owned());
    let mut i: usize = 0;
    while i < args.len()
        invariant
            i <= args.len(),
            argv.deep_view() == seq![wasm@] + args.deep_view().take(i as int),
        decreases args.len() - i,
    {
        let ghost before = argv.deep_view();
        let a = args[i].clone();
        assert(a@ == args.deep_view()[i as int]);
        argv.push(a);
        assert(argv.deep_view() =~= before.push(a@));
        assert(args.deep_view().take(i + 1) =~= args.deep_view().take(i as int).push(
            args.deep_view()[i as int],
        ));
        assert(argv.deep_view() =~= seq![wasm@] + args.deep_view().take(i + 1));
        i = i + 1;
    }
    assert(args.deep_view().take(args.len() as int) =~= args.deep_view());
    Sandbox { dir, writable: false, argv, limits }
}

} // verus!
