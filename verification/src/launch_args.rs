//! The launcher's argument normalisation: what of the user's `omx` arguments reaches
//! `codex`, and in what form.
use vstd::prelude::*;
use crate::text::{chars_eq, chars_of, chars_starts_with, has_prefix};

verus! {

/// The flag that tells codex to skip approvals and its sandbox.
pub open spec fn bypass_flag() -> Seq<char> {
    "--dangerously-bypass-approvals-and-sandbox"@
}

/// The config key that carries the reasoning effort.
pub open spec fn reasoning_setting(mode: Seq<char>) -> Seq<char> {
    "model_reasoning_effort=\""@ + mode + "\""@
}

/// Flags that choose the launch runtime and are not codex's.
pub open spec fn is_runtime_flag(a: Seq<char>) -> bool {
    a == "--tmux"@ || a == "--no-tmux"@
}

/// Flags that take a worktree value.
pub open spec fn is_worktree_flag(a: Seq<char>) -> bool {
    a == "-w"@ || a == "--worktree"@
}

/// Flags that ask for the bypass without naming codex's own flag.
pub open spec fn is_madmax_flag(a: Seq<char>) -> bool {
    a == "--madmax"@ || a == "--madmax-spark"@
}

/// Flags meant for workers and notifications, which the leader drops.
pub open spec fn is_dropped_flag(a: Seq<char>) -> bool {
    a == "--spark"@ || a == "--notify-temp"@ || a == "--discord"@ || a == "--slack"@ || a
        == "--telegram"@
}

/// An argument that the launcher hands to codex unchanged and without looking further.
pub open spec fn is_plain_arg(a: Seq<char>) -> bool {
    &&& !is_runtime_flag(a)
    &&& !is_worktree_flag(a)
    &&& !has_prefix(a, "--worktree="@)
    &&& !is_madmax_flag(a)
    &&& a != bypass_flag()
    &&& a != "--high"@
    &&& a != "--xhigh"@
    &&& !is_dropped_flag(a)
    &&& a != "--custom"@
    &&& !has_prefix(a, "--custom="@)
}

/// What the scan has gathered so far.
pub struct ArgScan {
    /// The arguments kept so far, in order.
    pub kept: Seq<Seq<char>>,
    /// Some argument asked for the bypass.
    pub wants_bypass: bool,
    /// The bypass flag itself is among `kept`.
    pub has_bypass: bool,
    /// The reasoning effort that the last reasoning flag asked for.
    pub reasoning: Option<Seq<char>>,
}

/// The scan before any argument.
pub open spec fn empty_scan() -> ArgScan {
    ArgScan { kept: seq![], wants_bypass: false, has_bypass: false, reasoning: None }
}

/// The argument after position `i` is a value (it does not start with `-`).
pub open spec fn next_is_value(args: Seq<Seq<char>>, i: int) -> bool {
    i + 1 < args.len() && !has_prefix(args[i + 1], "-"@)
}

/// The scan of `args` from position `i` on, left to right.
pub open spec fn scan_args(args: Seq<Seq<char>>, i: int, st: ArgScan) -> ArgScan
    decreases args.len() - i,
{
    if i < 0 || i >= args.len() {
        st
    } else {
        let a = args[i];
        if is_runtime_flag(a) {
            scan_args(args, i + 1, st)
        } else if is_worktree_flag(a) || a == "--custom"@ {
            if next_is_value(args, i) {
                scan_args(args, i + 2, st)
            } else {
                scan_args(args, i + 1, st)
            }
        } else if has_prefix(a, "--worktree="@) || has_prefix(a, "--custom="@) || is_dropped_flag(
            a,
        ) {
            scan_args(args, i + 1, st)
        } else if is_madmax_flag(a) {
            scan_args(args, i + 1, ArgScan { wants_bypass: true, ..st })
        } else if a == bypass_flag() {
            if st.has_bypass {
                scan_args(args, i + 1, ArgScan { wants_bypass: true, ..st })
            } else {
                scan_args(
                    args,
                    i + 1,
                    ArgScan { kept: st.kept.push(a), wants_bypass: true, has_bypass: true, ..st },
                )
            }
        } else if a == "--high"@ {
            scan_args(args, i + 1, ArgScan { reasoning: Some("high"@), ..st })
        } else if a == "--xhigh"@ {
            scan_args(args, i + 1, ArgScan { reasoning: Some("xhigh"@), ..st })
        } else {
            scan_args(args, i + 1, ArgScan { kept: st.kept.push(a), ..st })
        }
    }
}

/// The arguments that a finished scan hands to codex: those kept, then the bypass flag
/// where it was asked for and not given, then the reasoning setting where one was asked for.
pub open spec fn finish_scan(st: ArgScan) -> Seq<Seq<char>> {
    let with_bypass = if st.wants_bypass && !st.has_bypass {
        st.kept.push(bypass_flag())
    } else {
        st.kept
    };
    match st.reasoning {
        Some(mode) => with_bypass.push("-c"@).push(reasoning_setting(mode)),
        None => with_bypass,
    }
}

/// The codex arguments for the user's launch arguments `args`.
pub open spec fn normalized_args(args: Seq<Seq<char>>) -> Seq<Seq<char>> {
    finish_scan(scan_args(args, 0, empty_scan()))
}

/// The character sequences of a sequence of strings.
pub open spec fn string_views(v: Seq<String>) -> Seq<Seq<char>> {
    v.map_values(|s: String| s@)
}

/// Whether `a` is the text `lit`.
fn is_lit(a: &[char], lit: &str) -> (r: bool)
    ensures
        r == (a@ == lit@),
{
    let l = chars_of(lit);
    chars_eq(a, l.as_slice())
}

/// Whether `a` begins with `lit`.
fn has_lit_prefix(a: &[char], lit: &str) -> (r: bool)
    ensures
        r == has_prefix(a@, lit@),
{
    let l = chars_of(lit);
    chars_starts_with(a, l.as_slice())
}

/// The reasoning setting `model_reasoning_effort="<mode>"`.
fn reasoning_setting_string(mode: &str) -> (s: String)
    ensures
        s@ == reasoning_setting(mode@),
{
    let mut s = String::new();
    s.append("model_reasoning_effort=\"");
    s.append(mode);
    s.append("\"");
    s
}

/// The arguments that `omx` hands to codex for the launch arguments `args`.
///
/// Runtime flags (`--tmux`, `--no-tmux`), worktree flags with their value
/// (`-w`/`--worktree <value>`, `--worktree=<value>`), `--custom <value>`,
/// `--custom=<value>`, `--spark` and the notification flags are dropped. `--madmax`
/// and `--madmax-spark` ask for codex's bypass flag, which then appears once, where the
/// user first wrote it or else at the end. `--high`/`--xhigh` become
/// `-c model_reasoning_effort="<mode>"` at the end (the last one wins). Everything else
/// passes through in order.
pub fn normalize_launch_args(args: &[String]) -> (out: Vec<String>)
    ensures
        string_views(out@) == normalized_args(string_views(args@)),
{
    let ghost sargs = string_views(args@);
    let mut normalized: Vec<String> = Vec::new();
    let mut wants_bypass = false;
    let mut has_bypass = false;
    let mut reasoning: Option<&str> = None;
    let mut index: usize = 0;
    assert(string_views(normalized@) =~= seq![]);
    while index < args.len()
        invariant
            sargs == string_views(args@),
            index <= args.len(),
            scan_args(sargs, 0, empty_scan()) == scan_args(
                sargs,
                index as int,
                ArgScan {
                    kept: string_views(normalized@),
                    wants_bypass,
                    has_bypass,
                    reasoning: match reasoning {
                        Some(m) => Some(m@),
                        None => None,
                    },
                },
            ),
        decreases args.len() - index,
    {
        let ghost st = ArgScan {
            kept: string_views(normalized@),
            wants_bypass,
            has_bypass,
            reasoning: match reasoning {
                Some(m) => Some(m@),
                None => None,
            },
        };
        assert(sargs[index as int] == args@[index as int]@);
        let arg = &args[index];
        let a = chars_of(arg.as_str());
        let ghost before = normalized@;
        if is_lit(a.as_slice(), "--tmux") || is_lit(a.as_slice(), "--no-tmux") {
        } else if is_lit(a.as_slice(), "-w") || is_lit(a.as_slice(), "--worktree") || is_lit(
            a.as_slice(),
            "--custom",
        ) {
            if index + 1 < args.len() {
                assert(sargs[index + 1] == args@[index + 1]@);
                let next = chars_of(args[index + 1].as_str());
                if !has_lit_prefix(next.as_slice(), "-") {
                    index += 1;
                }
            }
        } else if has_lit_prefix(a.as_slice(), "--worktree=") || has_lit_prefix(
            a.as_slice(),
            "--custom=",
        ) || is_lit(a.as_slice(), "--spark") || is_lit(a.as_slice(), "--notify-temp") || is_lit(
            a.as_slice(),
            "--discord",
        ) || is_lit(a.as_slice(), "--slack") || is_lit(a.as_slice(), "--telegram") {
        } else if is_lit(a.as_slice(), "--madmax") || is_lit(a.as_slice(), "--madmax-spark") {
            wants_bypass = true;
        } else if is_lit(a.as_slice(), "--dangerously-bypass-approvals-and-sandbox") {
            wants_bypass = true;
            if !has_bypass {
                normalized.push(arg.clone());
                assert(string_views(normalized@) =~= st.kept.push(sargs[index as int]));
                has_bypass = true;
            }
        } else if is_lit(a.as_slice(), "--high") {
            reasoning = Some("high");
        } else if is_lit(a.as_slice(), "--xhigh") {
            reasoning = Some("xhigh");
        } else {
            normalized.push(arg.clone());
            assert(string_views(normalized@) =~= st.kept.push(sargs[index as int]));
        }
        index += 1;
    }
    let ghost st = ArgScan {
        kept: string_views(normalized@),
        wants_bypass,
        has_bypass,
        reasoning: match reasoning {
            Some(m) => Some(m@),
            None => None,
        },
    };
    let ghost kept = normalized@;
    if wants_bypass && !has_bypass {
        normalized.push("--dangerously-bypass-approvals-and-sandbox".to_owned());
        assert(string_views(normalized@) =~= st.kept.push(bypass_flag()));
    }
    let ghost mid = normalized@;
    if let Some(mode) = reasoning {
        normalized.push("-c".to_owned());
        normalized.push(reasoning_setting_string(mode));
        assert(string_views(normalized@) =~= string_views(mid).push("-c"@).push(
            reasoning_setting(mode@),
        ));
    }
    normalized
}

// ---------------------------------------------------------------------------
// Laws
// ---------------------------------------------------------------------------

/// A sequence of codex arguments that the launcher would hand on unchanged: every
/// argument is plain or the bypass flag, and the bypass flag occurs at most once.
pub open spec fn is_clean(s: Seq<Seq<char>>) -> bool {
    &&& forall|i: int| 0 <= i < s.len() ==> is_plain_arg(#[trigger] s[i]) || s[i] == bypass_flag()
    &&& forall|i: int, j: int|
        0 <= i < s.len() && 0 <= j < s.len() && #[trigger] s[i] == bypass_flag() && #[trigger] s[j]
            == bypass_flag() ==> i == j
}

/// The texts of the launcher's flags, character by character.
proof fn lemma_flag_texts()
    ensures
        "--tmux"@ == seq!['-', '-', 't', 'm', 'u', 'x'],
        "--no-tmux"@ == seq!['-', '-', 'n', 'o', '-', 't', 'm', 'u', 'x'],
        "-w"@ == seq!['-', 'w'],
        "--worktree"@ == seq!['-', '-', 'w', 'o', 'r', 'k', 't', 'r', 'e', 'e'],
        "--worktree="@ == seq!['-', '-', 'w', 'o', 'r', 'k', 't', 'r', 'e', 'e', '='],
        "--madmax"@ == seq!['-', '-', 'm', 'a', 'd', 'm', 'a', 'x'],
        "--madmax-spark"@ == seq!['-', '-', 'm', 'a', 'd', 'm', 'a', 'x', '-', 's', 'p', 'a', 'r', 'k'],
        "--dangerously-bypass-approvals-and-sandbox"@ == seq!['-', '-', 'd', 'a', 'n', 'g', 'e', 'r', 'o', 'u', 's', 'l', 'y', '-', 'b', 'y', 'p', 'a', 's', 's', '-', 'a', 'p', 'p', 'r', 'o', 'v', 'a', 'l', 's', '-', 'a', 'n', 'd', '-', 's', 'a', 'n', 'd', 'b', 'o', 'x'],
        "--high"@ == seq!['-', '-', 'h', 'i', 'g', 'h'],
        "--xhigh"@ == seq!['-', '-', 'x', 'h', 'i', 'g', 'h'],
        "--spark"@ == seq!['-', '-', 's', 'p', 'a', 'r', 'k'],
        "--notify-temp"@ == seq!['-', '-', 'n', 'o', 't', 'i', 'f', 'y', '-', 't', 'e', 'm', 'p'],
        "--discord"@ == seq!['-', '-', 'd', 'i', 's', 'c', 'o', 'r', 'd'],
        "--slack"@ == seq!['-', '-', 's', 'l', 'a', 'c', 'k'],
        "--telegram"@ == seq!['-', '-', 't', 'e', 'l', 'e', 'g', 'r', 'a', 'm'],
        "--custom"@ == seq!['-', '-', 'c', 'u', 's', 't', 'o', 'm'],
        "--custom="@ == seq!['-', '-', 'c', 'u', 's', 't', 'o', 'm', '='],
        "-c"@ == seq!['-', 'c'],
        "-"@ == seq!['-'],
        "model_reasoning_effort=\""@ == seq!['m', 'o', 'd', 'e', 'l', '_', 'r', 'e', 'a', 's', 'o', 'n', 'i', 'n', 'g', '_', 'e', 'f', 'f', 'o', 'r', 't', '=', '"'],
        "\""@ == seq!['"'],
{
    reveal_strlit("--tmux");
    reveal_strlit("--no-tmux");
    reveal_strlit("-w");
    reveal_strlit("--worktree");
    reveal_strlit("--worktree=");
    reveal_strlit("--madmax");
    reveal_strlit("--madmax-spark");
    reveal_strlit("--dangerously-bypass-approvals-and-sandbox");
    reveal_strlit("--high");
    reveal_strlit("--xhigh");
    reveal_strlit("--spark");
    reveal_strlit("--notify-temp");
    reveal_strlit("--discord");
    reveal_strlit("--slack");
    reveal_strlit("--telegram");
    reveal_strlit("--custom");
    reveal_strlit("--custom=");
    reveal_strlit("-c");
    reveal_strlit("-");
    reveal_strlit("model_reasoning_effort=\"");
    reveal_strlit("\"");
}

/// The bypass flag is no other flag that the launcher looks at.
proof fn lemma_bypass_flag_is_special()
    ensures
        !is_runtime_flag(bypass_flag()),
        !is_worktree_flag(bypass_flag()),
        bypass_flag() != "--custom"@,
        !has_prefix(bypass_flag(), "--worktree="@),
        !has_prefix(bypass_flag(), "--custom="@),
        !is_dropped_flag(bypass_flag()),
        !is_madmax_flag(bypass_flag()),
        bypass_flag() != "--high"@,
        bypass_flag() != "--xhigh"@,
{
    lemma_flag_texts();
    let b = bypass_flag();
    assert(b.take(11)[2] == b[2]);
    assert(b.take(9)[2] == b[2]);
    assert(b.len() == 42);
}

/// `-c` and a reasoning setting are plain arguments, and neither is the bypass flag.
proof fn lemma_reasoning_args_plain(mode: Seq<char>)
    ensures
        is_plain_arg("-c"@),
        "-c"@ != bypass_flag(),
        is_plain_arg(reasoning_setting(mode)),
        reasoning_setting(mode) != bypass_flag(),
{
    lemma_flag_texts();
    let c = "-c"@;
    assert(c[1] == 'c');
    assert("-w"@[1] == 'w');
    assert(c.len() == 2);
    let r = reasoning_setting(mode);
    assert(r[0] == 'm');
    assert(r.take(11)[0] == r[0]);
    assert(r.take(9)[0] == r[0]);
    assert(r != "--tmux"@) by { assert("--tmux"@[0] == '-'); }
    assert(r != "--no-tmux"@) by { assert("--no-tmux"@[0] == '-'); }
    assert(r != "-w"@) by { assert("-w"@[0] == '-'); }
    assert(r != "--worktree"@) by { assert("--worktree"@[0] == '-'); }
    assert(r != "--madmax"@) by { assert("--madmax"@[0] == '-'); }
    assert(r != "--madmax-spark"@) by { assert("--madmax-spark"@[0] == '-'); }
    assert(r != bypass_flag()) by { assert(bypass_flag()[0] == '-'); }
    assert(r != "--high"@) by { assert("--high"@[0] == '-'); }
    assert(r != "--xhigh"@) by { assert("--xhigh"@[0] == '-'); }
    assert(r != "--spark"@) by { assert("--spark"@[0] == '-'); }
    assert(r != "--notify-temp"@) by { assert("--notify-temp"@[0] == '-'); }
    assert(r != "--discord"@) by { assert("--discord"@[0] == '-'); }
    assert(r != "--slack"@) by { assert("--slack"@[0] == '-'); }
    assert(r != "--telegram"@) by { assert("--telegram"@[0] == '-'); }
    assert(r != "--custom"@) by { assert("--custom"@[0] == '-'); }
}

/// What the scan keeps is clean, and it records whether the bypass flag is among it.
pub open spec fn scan_ok(st: ArgScan) -> bool {
    &&& is_clean(st.kept)
    &&& st.has_bypass == st.kept.contains(bypass_flag())
}

proof fn lemma_push_plain(s: Seq<Seq<char>>, a: Seq<char>)
    requires
        is_clean(s),
        is_plain_arg(a),
        a != bypass_flag(),
    ensures
        is_clean(s.push(a)),
        s.push(a).contains(bypass_flag()) == s.contains(bypass_flag()),
{
    let t = s.push(a);
    assert forall|i: int| 0 <= i < t.len() implies is_plain_arg(#[trigger] t[i]) || t[i]
        == bypass_flag() by {
        if i < s.len() {
            assert(t[i] == s[i]);
        }
    }
    if t.contains(bypass_flag()) {
        let k = choose|k: int| 0 <= k < t.len() && t[k] == bypass_flag();
        assert(k < s.len());
        assert(s[k] == t[k]);
    }
    if s.contains(bypass_flag()) {
        let k = choose|k: int| 0 <= k < s.len() && s[k] == bypass_flag();
        assert(t[k] == s[k]);
    }
}

proof fn lemma_push_bypass(s: Seq<Seq<char>>)
    requires
        is_clean(s),
        !s.contains(bypass_flag()),
    ensures
        is_clean(s.push(bypass_flag())),
        s.push(bypass_flag()).contains(bypass_flag()),
{
    let t = s.push(bypass_flag());
    assert forall|i: int| 0 <= i < t.len() implies is_plain_arg(#[trigger] t[i]) || t[i]
        == bypass_flag() by {
        if i < s.len() {
            assert(t[i] == s[i]);
        }
    }
    assert forall|i: int, j: int|
        0 <= i < t.len() && 0 <= j < t.len() && #[trigger] t[i] == bypass_flag() && #[trigger] t[j]
            == bypass_flag() implies i == j by {
        if i < s.len() {
            assert(s[i] == t[i]);
            assert(s.contains(bypass_flag()));
        }
        if j < s.len() {
            assert(s[j] == t[j]);
            assert(s.contains(bypass_flag()));
        }
    }
    assert(t[s.len() as int] == bypass_flag());
}

/// Every step of the scan keeps `scan_ok`.
proof fn lemma_scan_ok(args: Seq<Seq<char>>, i: int, st: ArgScan)
    requires
        scan_ok(st),
    ensures
        scan_ok(scan_args(args, i, st)),
    decreases args.len() - i,
{
    if i < 0 || i >= args.len() {
    } else {
        let a = args[i];
        lemma_bypass_flag_is_special();
        if is_runtime_flag(a) {
            lemma_scan_ok(args, i + 1, st);
        } else if is_worktree_flag(a) || a == "--custom"@ {
            if next_is_value(args, i) {
                lemma_scan_ok(args, i + 2, st);
            } else {
                lemma_scan_ok(args, i + 1, st);
            }
        } else if has_prefix(a, "--worktree="@) || has_prefix(a, "--custom="@) || is_dropped_flag(
            a,
        ) {
            lemma_scan_ok(args, i + 1, st);
        } else if is_madmax_flag(a) {
            lemma_scan_ok(args, i + 1, ArgScan { wants_bypass: true, ..st });
        } else if a == bypass_flag() {
            if st.has_bypass {
                lemma_scan_ok(args, i + 1, ArgScan { wants_bypass: true, ..st });
            } else {
                lemma_push_bypass(st.kept);
                lemma_scan_ok(
                    args,
                    i + 1,
                    ArgScan { kept: st.kept.push(a), wants_bypass: true, has_bypass: true, ..st },
                );
            }
        } else if a == "--high"@ {
            lemma_scan_ok(args, i + 1, ArgScan { reasoning: Some("high"@), ..st });
        } else if a == "--xhigh"@ {
            lemma_scan_ok(args, i + 1, ArgScan { reasoning: Some("xhigh"@), ..st });
        } else {
            lemma_push_plain(st.kept, a);
            lemma_scan_ok(args, i + 1, ArgScan { kept: st.kept.push(a), ..st });
        }
    }
}

/// Whatever the launch arguments, what reaches codex holds only plain arguments and at
/// most one bypass flag: no runtime, worktree, custom, spark, notification, madmax or
/// reasoning flag of the launcher gets through.
pub proof fn normalized_args_are_clean(args: Seq<Seq<char>>)
    ensures
        is_clean(normalized_args(args)),
{
    let st = scan_args(args, 0, empty_scan());
    assert(empty_scan().kept =~= Seq::<Seq<char>>::empty());
    lemma_scan_ok(args, 0, empty_scan());
    let with_bypass = if st.wants_bypass && !st.has_bypass {
        lemma_push_bypass(st.kept);
        st.kept.push(bypass_flag())
    } else {
        st.kept
    };
    match st.reasoning {
        Some(mode) => {
            lemma_reasoning_args_plain(mode);
            lemma_push_plain(with_bypass, "-c"@);
            lemma_push_plain(with_bypass.push("-c"@), reasoning_setting(mode));
        },
        None => {},
    }
}

/// The scan of a clean sequence keeps every argument and asks for nothing more.
proof fn lemma_scan_clean(s: Seq<Seq<char>>, i: int, st: ArgScan)
    requires
        is_clean(s),
        0 <= i <= s.len(),
        st.kept == s.take(i),
        st.wants_bypass == st.has_bypass,
        st.has_bypass == s.take(i).contains(bypass_flag()),
        st.reasoning is None,
    ensures
        scan_args(s, i, st) == (ArgScan {
            kept: s,
            wants_bypass: s.contains(bypass_flag()),
            has_bypass: s.contains(bypass_flag()),
            reasoning: None,
        }),
    decreases s.len() - i,
{
    if i == s.len() {
        assert(s.take(i) =~= s);
    } else {
        let a = s[i];
        lemma_bypass_flag_is_special();
        assert(s.take(i + 1) =~= s.take(i).push(a));
        if a == bypass_flag() {
            if s.take(i).contains(bypass_flag()) {
                let k = choose|k: int| 0 <= k < i && s.take(i)[k] == bypass_flag();
                assert(s[k] == s.take(i)[k]);
                assert(false);
            }
            assert(s.take(i + 1)[i] == bypass_flag());
            lemma_scan_clean(
                s,
                i + 1,
                ArgScan { kept: st.kept.push(a), wants_bypass: true, has_bypass: true, ..st },
            );
        } else {
            assert(is_plain_arg(a));
            let t1 = s.take(i + 1);
            if t1.contains(bypass_flag()) {
                let k = choose|k: int| 0 <= k < t1.len() && t1[k] == bypass_flag();
                assert(k < i);
                assert(s.take(i)[k] == t1[k]);
            }
            if s.take(i).contains(bypass_flag()) {
                let k = choose|k: int| 0 <= k < i && s.take(i)[k] == bypass_flag();
                assert(s.take(i + 1)[k] == s.take(i)[k]);
            }
            lemma_scan_clean(s, i + 1, ArgScan { kept: st.kept.push(a), ..st });
        }
    }
}

/// A clean sequence of codex arguments passes through the launcher unchanged.
pub proof fn clean_args_pass_unchanged(s: Seq<Seq<char>>)
    requires
        is_clean(s),
    ensures
        normalized_args(s) == s,
{
    assert(s.take(0) =~= Seq::<Seq<char>>::empty());
    assert(empty_scan().kept =~= s.take(0));
    lemma_scan_clean(s, 0, empty_scan());
}

/// Normalising the launch arguments a second time changes nothing.
pub proof fn normalize_launch_args_idempotent(args: Seq<Seq<char>>)
    ensures
        normalized_args(normalized_args(args)) == normalized_args(args),
{
    normalized_args_are_clean(args);
    clean_args_pass_unchanged(normalized_args(args));
}

/// The argument asks for codex's bypass flag.
pub open spec fn requests_bypass(a: Seq<char>) -> bool {
    is_madmax_flag(a) || a == bypass_flag()
}

/// The reasoning effort asked for by the last `--high`/`--xhigh` among the first `i`
/// arguments.
pub open spec fn last_reasoning(args: Seq<Seq<char>>, i: int) -> Option<Seq<char>>
    decreases i,
{
    if i <= 0 || i > args.len() {
        None
    } else if args[i - 1] == "--high"@ {
        Some("high"@)
    } else if args[i - 1] == "--xhigh"@ {
        Some("xhigh"@)
    } else {
        last_reasoning(args, i - 1)
    }
}

/// An argument that does not start with `-` is no flag the scan reacts to.
proof fn lemma_value_is_no_flag(x: Seq<char>)
    requires
        !has_prefix(x, "-"@),
    ensures
        !requests_bypass(x),
        x != "--high"@,
        x != "--xhigh"@,
{
    lemma_flag_texts();
    if x == "--madmax"@ || x == "--madmax-spark"@ || x == bypass_flag() || x == "--high"@ || x
        == "--xhigh"@ {
        assert(x.take(1) =~= "-"@);
    }
}

/// What the scan has seen of the first `i` arguments.
pub open spec fn scan_tracks(args: Seq<Seq<char>>, i: int, st: ArgScan) -> bool {
    &&& st.wants_bypass == exists|j: int| 0 <= j < i && #[trigger] requests_bypass(args[j])
    &&& st.reasoning == last_reasoning(args, i)
    &&& st.has_bypass ==> st.wants_bypass
    &&& st.kept.contains(bypass_flag()) == st.has_bypass
}

proof fn lemma_scan_tracks(args: Seq<Seq<char>>, i: int, st: ArgScan)
    requires
        0 <= i <= args.len(),
        scan_tracks(args, i, st),
    ensures
        scan_tracks(args, args.len() as int, scan_args(args, i, st)),
    decreases args.len() - i,
{
    if i < args.len() {
        let a = args[i];
        lemma_bypass_flag_is_special();
        lemma_flag_texts();
        // One more argument seen, with nothing skipped.
        let step = |st2: ArgScan|
            st2.wants_bypass == (st.wants_bypass || requests_bypass(a)) && st2.reasoning == (if a
                == "--high"@ {
                Some("high"@)
            } else if a == "--xhigh"@ {
                Some("xhigh"@)
            } else {
                st.reasoning
            });
        assert forall|st2: ArgScan| #[trigger] step(st2) implies (st2.wants_bypass == exists|j: int|
            0 <= j < i + 1 && #[trigger] requests_bypass(args[j])) && st2.reasoning
            == last_reasoning(args, i + 1) by {
            if st.wants_bypass {
                let j = choose|j: int| 0 <= j < i && #[trigger] requests_bypass(args[j]);
                assert(0 <= j < i + 1 && requests_bypass(args[j]));
            }
            if requests_bypass(a) {
                assert(0 <= i < i + 1 && requests_bypass(args[i]));
            }
        }
        if is_runtime_flag(a) {

            assert(!requests_bypass(a) && a != "--high"@ && a != "--xhigh"@) by {
                assert(("--tmux"@)[2] == 't');
                assert(("--no-tmux"@)[2] == 'n');
                assert(("--madmax"@)[2] == 'm');
                assert(("--madmax-spark"@)[2] == 'm');
                assert(bypass_flag()[2] == 'd');
                assert(("--high"@)[2] == 'h');
                assert(("--xhigh"@)[2] == 'x');
            }
            assert(step(st));
            lemma_scan_tracks(args, i + 1, st);
        } else if is_worktree_flag(a) || a == "--custom"@ {

            assert(!requests_bypass(a) && a != "--high"@ && a != "--xhigh"@) by {
                assert(("-w"@).len() == 2);
                assert(("--worktree"@)[2] == 'w');
                assert(("--custom"@)[2] == 'c');
                assert(("--madmax"@)[2] == 'm');
                assert(("--madmax-spark"@)[2] == 'm');
                assert(bypass_flag()[2] == 'd');
                assert(("--high"@)[2] == 'h');
                assert(("--xhigh"@)[2] == 'x');
            }
            assert(step(st));
            if next_is_value(args, i) {
                let b = args[i + 1];
                lemma_value_is_no_flag(b);
                assert(scan_tracks(args, i + 2, st)) by {
                    if st.wants_bypass {
                        let j = choose|j: int| 0 <= j < i && #[trigger] requests_bypass(args[j]);
                        assert(0 <= j < i + 2 && requests_bypass(args[j]));
                    }
                    if exists|j: int| 0 <= j < i + 2 && #[trigger] requests_bypass(args[j]) {
                        let j = choose|j: int| 0 <= j < i + 2 && #[trigger] requests_bypass(args[j]);
                        assert(j < i);
                    }
                    assert(last_reasoning(args, i + 2) == last_reasoning(args, i + 1));
                }
                lemma_scan_tracks(args, i + 2, st);
            } else {
                lemma_scan_tracks(args, i + 1, st);
            }
        } else if has_prefix(a, "--worktree="@) || has_prefix(a, "--custom="@) || is_dropped_flag(
            a,
        ) {

            assert(!requests_bypass(a) && a != "--high"@ && a != "--xhigh"@) by {
                if has_prefix(a, "--worktree="@) {
                    assert(a[2] == 'w') by { assert(a.take(11)[2] == a[2]); }
                }
                if has_prefix(a, "--custom="@) {
                    assert(a[2] == 'c') by { assert(a.take(9)[2] == a[2]); }
                }
                assert(("--spark"@)[2] == 's');
                assert(("--notify-temp"@)[2] == 'n');
                assert(("--discord"@)[2] == 'd');
                assert(("--slack"@)[2] == 's');
                assert(("--telegram"@)[2] == 't');
                assert(("--madmax"@)[2] == 'm');
                assert(("--madmax-spark"@)[2] == 'm');
                assert(("--discord"@)[3] == 'i');
                assert(bypass_flag()[3] == 'a');
                assert(("--high"@)[2] == 'h');
                assert(("--xhigh"@)[2] == 'x');
            }
            assert(step(st));
            lemma_scan_tracks(args, i + 1, st);
        } else if is_madmax_flag(a) {
            let st2 = ArgScan { wants_bypass: true, ..st };
            assert(("--madmax"@)[2] == 'm');
            assert(("--madmax-spark"@)[2] == 'm');
            assert(step(st2));
            lemma_scan_tracks(args, i + 1, st2);
        } else if a == bypass_flag() {
            if st.has_bypass {
                let st2 = ArgScan { wants_bypass: true, ..st };
                assert(step(st2));
                lemma_scan_tracks(args, i + 1, st2);
            } else {
                let st2 = ArgScan {
                    kept: st.kept.push(a),
                    wants_bypass: true,
                    has_bypass: true,
                    ..st
                };
                assert(step(st2));
                assert(st2.kept[st.kept.len() as int] == bypass_flag());
                lemma_scan_tracks(args, i + 1, st2);
            }
        } else if a == "--high"@ {
            let st2 = ArgScan { reasoning: Some("high"@), ..st };
            assert(step(st2));
            lemma_scan_tracks(args, i + 1, st2);
        } else if a == "--xhigh"@ {
            let st2 = ArgScan { reasoning: Some("xhigh"@), ..st };
            assert(step(st2));
            lemma_scan_tracks(args, i + 1, st2);
        } else {
            let st2 = ArgScan { kept: st.kept.push(a), ..st };
            assert(step(st2));
            assert(st2.kept.contains(bypass_flag()) == st.kept.contains(bypass_flag())) by {
                if st2.kept.contains(bypass_flag()) {
                    let k = choose|k: int| 0 <= k < st2.kept.len() && st2.kept[k] == bypass_flag();
                    assert(k < st.kept.len());
                    assert(st.kept[k] == st2.kept[k]);
                }
                if st.kept.contains(bypass_flag()) {
                    let k = choose|k: int| 0 <= k < st.kept.len() && st.kept[k] == bypass_flag();
                    assert(st2.kept[k] == st.kept[k]);
                }
            }
            lemma_scan_tracks(args, i + 1, st2);
        }
    }
}

/// Codex gets the bypass flag exactly when some launch argument asked for it
/// (`--madmax`, `--madmax-spark` or the flag itself).
pub proof fn bypass_present_iff_requested(args: Seq<Seq<char>>)
    ensures
        normalized_args(args).contains(bypass_flag()) <==> exists|j: int|
            0 <= j < args.len() && #[trigger] requests_bypass(args[j]),
{
    let st = scan_args(args, 0, empty_scan());
    assert(!empty_scan().kept.contains(bypass_flag()));
    lemma_scan_tracks(args, 0, empty_scan());
    let with_bypass = if st.wants_bypass && !st.has_bypass {
        st.kept.push(bypass_flag())
    } else {
        st.kept
    };
    if st.wants_bypass && !st.has_bypass {
        assert(with_bypass[st.kept.len() as int] == bypass_flag());
    }
    if with_bypass.contains(bypass_flag()) && !(st.wants_bypass && !st.has_bypass) {
        assert(st.kept.contains(bypass_flag()));
    }
    if !st.wants_bypass {
        assert(!with_bypass.contains(bypass_flag()));
    }
    match st.reasoning {
        Some(mode) => {
            let out = with_bypass.push("-c"@).push(reasoning_setting(mode));
            lemma_reasoning_args_plain(mode);
            if out.contains(bypass_flag()) {
                let k = choose|k: int| 0 <= k < out.len() && out[k] == bypass_flag();
                assert(k < with_bypass.len());
                assert(with_bypass[k] == out[k]);
            }
            if with_bypass.contains(bypass_flag()) {
                let k = choose|k: int| 0 <= k < with_bypass.len() && with_bypass[k] == bypass_flag();
                assert(out[k] == with_bypass[k]);
            }
        },
        None => {},
    }
}

/// The last `--high`/`--xhigh` decides the reasoning setting, which codex gets as the
/// last two arguments `-c model_reasoning_effort="<mode>"`.
pub proof fn last_reasoning_flag_decides(args: Seq<Seq<char>>)
    ensures
        match last_reasoning(args, args.len() as int) {
            Some(mode) => {
                let out = normalized_args(args);
                &&& out.len() >= 2
                &&& out[out.len() - 2] == "-c"@
                &&& out[out.len() - 1] == reasoning_setting(mode)
            },
            None => true,
        },
{
    assert(!empty_scan().kept.contains(bypass_flag()));
    lemma_scan_tracks(args, 0, empty_scan());
}

/// Every argument kept by the scan is one of the launch arguments.
proof fn lemma_scan_kept_from_input(args: Seq<Seq<char>>, i: int, st: ArgScan)
    requires
        forall|k: int| 0 <= k < st.kept.len() ==> args.contains(#[trigger] st.kept[k]),
    ensures
        forall|k: int|
            0 <= k < scan_args(args, i, st).kept.len() ==> args.contains(
                #[trigger] scan_args(args, i, st).kept[k],
            ),
    decreases args.len() - i,
{
    if i < 0 || i >= args.len() {
    } else {
        let a = args[i];
        let pushed = st.kept.push(a);
        assert forall|k: int| 0 <= k < pushed.len() implies args.contains(#[trigger] pushed[k]) by {
            if k < st.kept.len() {
                assert(pushed[k] == st.kept[k]);
            } else {
                assert(args[i] == pushed[k]);
            }
        }
        if is_runtime_flag(a) {
            lemma_scan_kept_from_input(args, i + 1, st);
        } else if is_worktree_flag(a) || a == "--custom"@ {
            if next_is_value(args, i) {
                lemma_scan_kept_from_input(args, i + 2, st);
            } else {
                lemma_scan_kept_from_input(args, i + 1, st);
            }
        } else if has_prefix(a, "--worktree="@) || has_prefix(a, "--custom="@) || is_dropped_flag(
            a,
        ) {
            lemma_scan_kept_from_input(args, i + 1, st);
        } else if is_madmax_flag(a) {
            lemma_scan_kept_from_input(args, i + 1, ArgScan { wants_bypass: true, ..st });
        } else if a == bypass_flag() {
            if st.has_bypass {
                lemma_scan_kept_from_input(args, i + 1, ArgScan { wants_bypass: true, ..st });
            } else {
                lemma_scan_kept_from_input(
                    args,
                    i + 1,
                    ArgScan { kept: pushed, wants_bypass: true, has_bypass: true, ..st },
                );
            }
        } else if a == "--high"@ {
            lemma_scan_kept_from_input(args, i + 1, ArgScan { reasoning: Some("high"@), ..st });
        } else if a == "--xhigh"@ {
            lemma_scan_kept_from_input(args, i + 1, ArgScan { reasoning: Some("xhigh"@), ..st });
        } else {
            lemma_scan_kept_from_input(args, i + 1, ArgScan { kept: pushed, ..st });
        }
    }
}

/// The launcher invents nothing: every codex argument is one of the launch arguments,
/// the bypass flag, `-c`, or a reasoning setting for `high` or `xhigh`.
pub proof fn normalized_args_come_from_input(args: Seq<Seq<char>>)
    ensures
        forall|k: int|
            0 <= k < normalized_args(args).len() ==> {
                let x = #[trigger] normalized_args(args)[k];
                ||| args.contains(x)
                ||| x == bypass_flag()
                ||| x == "-c"@
                ||| x == reasoning_setting("high"@)
                ||| x == reasoning_setting("xhigh"@)
            },
{
    let st = scan_args(args, 0, empty_scan());
    lemma_scan_kept_from_input(args, 0, empty_scan());
    assert(!empty_scan().kept.contains(bypass_flag()));
    lemma_scan_tracks(args, 0, empty_scan());
    lemma_last_reasoning_mode(args, args.len() as int);
    let out = normalized_args(args);
    assert forall|k: int| 0 <= k < out.len() implies {
        let x = #[trigger] out[k];
        ||| args.contains(x)
        ||| x == bypass_flag()
        ||| x == "-c"@
        ||| x == reasoning_setting("high"@)
        ||| x == reasoning_setting("xhigh"@)
    } by {
        if k < st.kept.len() {
            let with_bypass = if st.wants_bypass && !st.has_bypass {
                st.kept.push(bypass_flag())
            } else {
                st.kept
            };
            assert(with_bypass[k] == st.kept[k]);
            match st.reasoning {
                Some(mode) => {
                    assert(out == with_bypass.push("-c"@).push(reasoning_setting(mode)));
                    assert(out[k] == with_bypass[k]);
                },
                None => {},
            }
        }
    }
}

/// The reasoning effort of the last reasoning flag is `high` or `xhigh`.
proof fn lemma_last_reasoning_mode(args: Seq<Seq<char>>, i: int)
    ensures
        match last_reasoning(args, i) {
            Some(m) => m == "high"@ || m == "xhigh"@,
            None => true,
        },
    decreases i,
{
    if i > 0 && i <= args.len() {
        lemma_last_reasoning_mode(args, i - 1);
    }
}

// ---------------------------------------------------------------------------
// Laws stated on single arguments
// ---------------------------------------------------------------------------

/// The scan from position `i` depends only on the arguments from `i` on.
proof fn lemma_scan_skip(s: Seq<Seq<char>>, i: int, st: ArgScan)
    requires
        0 <= i <= s.len(),
    ensures
        scan_args(s, i, st) == scan_args(s.skip(i), 0, st),
    decreases s.len() - i,
{
    let t = s.skip(i);
    if i < s.len() {
        assert(t[0] == s[i]);
        assert(next_is_value(s, i) == next_is_value(t, 0)) by {
            if i + 1 < s.len() {
                assert(t[1] == s[i + 1]);
            }
        }
        let a = s[i];
        let k: int = if !is_runtime_flag(a) && (is_worktree_flag(a) || a == "--custom"@)
            && next_is_value(s, i) {
            2
        } else {
            1
        };
        let st2 = if is_runtime_flag(a) || is_worktree_flag(a) || a == "--custom"@ || has_prefix(
            a,
            "--worktree="@,
        ) || has_prefix(a, "--custom="@) || is_dropped_flag(a) {
            st
        } else if is_madmax_flag(a) {
            ArgScan { wants_bypass: true, ..st }
        } else if a == bypass_flag() {
            if st.has_bypass {
                ArgScan { wants_bypass: true, ..st }
            } else {
                ArgScan { kept: st.kept.push(a), wants_bypass: true, has_bypass: true, ..st }
            }
        } else if a == "--high"@ {
            ArgScan { reasoning: Some("high"@), ..st }
        } else if a == "--xhigh"@ {
            ArgScan { reasoning: Some("xhigh"@), ..st }
        } else {
            ArgScan { kept: st.kept.push(a), ..st }
        };
        assert(scan_args(s, i, st) == scan_args(s, i + k, st2));
        assert(scan_args(t, 0, st) == scan_args(t, k, st2));
        lemma_scan_skip(s, i + k, st2);
        lemma_scan_skip(t, k, st2);
        assert(s.skip(i + k) =~= t.skip(k));
    } else {
        assert(t.len() == 0);
    }
}

/// What was kept before the scan goes on stays in front of what it keeps.
proof fn lemma_scan_kept_prefix(s: Seq<Seq<char>>, i: int, st: ArgScan, pre: Seq<Seq<char>>)
    ensures
        scan_args(s, i, ArgScan { kept: pre + st.kept, ..st }) == ({
            let r = scan_args(s, i, st);
            ArgScan { kept: pre + r.kept, ..r }
        }),
    decreases s.len() - i,
{
    let st2 = ArgScan { kept: pre + st.kept, ..st };
    if i < 0 || i >= s.len() {
    } else {
        let a = s[i];
        assert((pre + st.kept).push(a) =~= pre + st.kept.push(a));
        if is_runtime_flag(a) {
            lemma_scan_kept_prefix(s, i + 1, st, pre);
        } else if is_worktree_flag(a) || a == "--custom"@ {
            if next_is_value(s, i) {
                lemma_scan_kept_prefix(s, i + 2, st, pre);
            } else {
                lemma_scan_kept_prefix(s, i + 1, st, pre);
            }
        } else if has_prefix(a, "--worktree="@) || has_prefix(a, "--custom="@) || is_dropped_flag(
            a,
        ) {
            lemma_scan_kept_prefix(s, i + 1, st, pre);
        } else if is_madmax_flag(a) {
            lemma_scan_kept_prefix(s, i + 1, ArgScan { wants_bypass: true, ..st }, pre);
        } else if a == bypass_flag() {
            if st.has_bypass {
                lemma_scan_kept_prefix(s, i + 1, ArgScan { wants_bypass: true, ..st }, pre);
            } else {
                lemma_scan_kept_prefix(
                    s,
                    i + 1,
                    ArgScan { kept: st.kept.push(a), wants_bypass: true, has_bypass: true, ..st },
                    pre,
                );
            }
        } else if a == "--high"@ {
            lemma_scan_kept_prefix(s, i + 1, ArgScan { reasoning: Some("high"@), ..st }, pre);
        } else if a == "--xhigh"@ {
            lemma_scan_kept_prefix(s, i + 1, ArgScan { reasoning: Some("xhigh"@), ..st }, pre);
        } else {
            lemma_scan_kept_prefix(s, i + 1, ArgScan { kept: st.kept.push(a), ..st }, pre);
        }
    }
}

/// An argument that does not start with `-` is plain and is not the bypass flag.
proof fn lemma_dashless_is_plain(v: Seq<char>)
    requires
        v.len() == 0 || v[0] != '-',
    ensures
        is_plain_arg(v),
        v != bypass_flag(),
        !has_prefix(v, "-"@),
{
    lemma_flag_texts();
    if v.len() >= 11 {
        assert(v.take(11)[0] == v[0]);
    }
    if v.len() >= 9 {
        assert(v.take(9)[0] == v[0]);
    }
    if v.len() >= 1 {
        assert(v.take(1)[0] == v[0]);
    }
}

/// The scan of `seq![a] + rest` that drops `a` scans `rest`.
proof fn lemma_drop_first(a: Seq<char>, rest: Seq<Seq<char>>)
    ensures
        scan_args(seq![a] + rest, 1, empty_scan()) == scan_args(rest, 0, empty_scan()),
{
    lemma_scan_skip(seq![a] + rest, 1, empty_scan());
    assert((seq![a] + rest).skip(1) =~= rest);
}

/// A launcher flag that takes a value (`-w`, `--worktree`, `--custom`) drops that value
/// together with itself: codex sees neither, whatever follows.
pub proof fn value_flag_drops_its_value(f: Seq<char>, v: Seq<char>, rest: Seq<Seq<char>>)
    requires
        f == "-w"@ || f == "--worktree"@ || f == "--custom"@,
        v.len() == 0 || v[0] != '-',
    ensures
        normalized_args(seq![f, v] + rest) == normalized_args(rest),
{
    lemma_flag_texts();
    lemma_dashless_is_plain(v);
    let args = seq![f, v] + rest;
    assert(args[0] == f && args[1] == v);
    assert(!is_runtime_flag(f)) by {
        assert(("--tmux"@)[1] == '-' && ("--no-tmux"@)[1] == '-');
        assert(("--worktree"@)[2] == 'w' && ("--custom"@)[2] == 'c');
    }
    assert(scan_args(args, 0, empty_scan()) == scan_args(args, 2, empty_scan()));
    lemma_scan_skip(args, 2, empty_scan());
    assert(args.skip(2) =~= rest);
}

/// A value-taking launcher flag followed by another flag drops only itself.
pub proof fn value_flag_without_value_drops_itself(
    f: Seq<char>,
    next: Seq<char>,
    rest: Seq<Seq<char>>,
)
    requires
        f == "-w"@ || f == "--worktree"@ || f == "--custom"@,
        next.len() > 0 && next[0] == '-',
    ensures
        normalized_args(seq![f, next] + rest) == normalized_args(seq![next] + rest),
{
    lemma_flag_texts();
    let args = seq![f, next] + rest;
    assert(args[0] == f && args[1] == next);
    assert(has_prefix(next, "-"@)) by {
        assert(next.take(1) =~= "-"@);
    }
    assert(!is_runtime_flag(f)) by {
        assert(("--tmux"@)[1] == '-' && ("--no-tmux"@)[1] == '-');
        assert(("--worktree"@)[2] == 'w' && ("--custom"@)[2] == 'c');
    }
    assert(scan_args(args, 0, empty_scan()) == scan_args(args, 1, empty_scan()));
    lemma_scan_skip(args, 1, empty_scan());
    assert(args.skip(1) =~= seq![next] + rest);
}

/// The runtime, spark and notification flags, and `--worktree=<value>` and
/// `--custom=<value>`, never reach codex: dropping one changes nothing else.
pub proof fn launcher_flag_is_dropped(f: Seq<char>, rest: Seq<Seq<char>>)
    requires
        f == "--tmux"@ || f == "--no-tmux"@ || f == "--spark"@ || f == "--notify-temp"@ || f
            == "--discord"@ || f == "--slack"@ || f == "--telegram"@ || (f.len() >= 11 && f.take(
            11,
        ) == "--worktree="@) || (f.len() >= 9 && f.take(9) == "--custom="@),
    ensures
        normalized_args(seq![f] + rest) == normalized_args(rest),
{
    lemma_flag_texts();
    let args = seq![f] + rest;
    assert(args[0] == f);
    if f.len() >= 11 && f.take(11) == "--worktree="@ {
        assert(has_prefix(f, "--worktree="@));
    }
    if f.len() >= 9 && f.take(9) == "--custom="@ {
        assert(has_prefix(f, "--custom="@));
    }
    // The flag is not one that takes a value.
    if is_worktree_flag(f) || f == "--custom"@ {
        if f == "-w"@ {
            assert(f.len() == 2);
        } else if f == "--worktree"@ {
            assert(f.len() == 10 && f[2] == 'w');
            assert(("--tmux"@)[2] == 't' && ("--no-tmux"@)[2] == 'n');
            assert(("--spark"@)[2] == 's' && ("--notify-temp"@)[2] == 'n');
            assert(("--discord"@)[2] == 'd' && ("--slack"@)[2] == 's' && ("--telegram"@)[2] == 't');
        } else {
            assert(f.len() == 8 && f[2] == 'c');
            assert(("--tmux"@)[2] == 't' && ("--no-tmux"@)[2] == 'n');
            assert(("--spark"@)[2] == 's' && ("--notify-temp"@)[2] == 'n');
            assert(("--discord"@)[2] == 'd' && ("--slack"@)[2] == 's' && ("--telegram"@)[2] == 't');
        }
    }
    assert(scan_args(args, 0, empty_scan()) == scan_args(args, 1, empty_scan()));
    lemma_drop_first(f, rest);
}

/// An argument that does not start with `-` (a prompt, a model name, a path) reaches
/// codex unchanged, in front of what the rest gives.
pub proof fn positional_arg_passes_through(v: Seq<char>, rest: Seq<Seq<char>>)
    requires
        v.len() == 0 || v[0] != '-',
    ensures
        normalized_args(seq![v] + rest) == seq![v] + normalized_args(rest),
{
    lemma_dashless_is_plain(v);
    lemma_flag_texts();
    let args = seq![v] + rest;
    assert(args[0] == v);
    let st1 = ArgScan { kept: seq![v], ..empty_scan() };
    assert(scan_args(args, 0, empty_scan()) == scan_args(args, 1, st1));
    assert(st1 == ArgScan { kept: seq![v] + empty_scan().kept, ..empty_scan() }) by {
        assert(seq![v] + empty_scan().kept =~= seq![v]);
    }
    lemma_scan_kept_prefix(args, 1, empty_scan(), seq![v]);
    lemma_drop_first(v, rest);
    let r = scan_args(rest, 0, empty_scan());
    let r2 = ArgScan { kept: seq![v] + r.kept, ..r };
    assert(scan_args(args, 0, empty_scan()) == r2);
    let wb = if r.wants_bypass && !r.has_bypass {
        r.kept.push(bypass_flag())
    } else {
        r.kept
    };
    let wb2 = if r2.wants_bypass && !r2.has_bypass {
        r2.kept.push(bypass_flag())
    } else {
        r2.kept
    };
    assert(wb2 =~= seq![v] + wb);
    match r.reasoning {
        Some(m) => {
            assert(finish_scan(r2) =~= seq![v] + finish_scan(r));
        },
        None => {
            assert(finish_scan(r2) =~= seq![v] + finish_scan(r));
        },
    }
}

/// The bypass flag written by the user stays where it was written: first, when it
/// comes first.
pub proof fn written_bypass_stays_in_place(rest: Seq<Seq<char>>)
    ensures
        normalized_args(seq![bypass_flag()] + rest).len() > 0,
        normalized_args(seq![bypass_flag()] + rest)[0] == bypass_flag(),
{
    lemma_flag_texts();
    lemma_bypass_flag_is_special();
    let args = seq![bypass_flag()] + rest;
    assert(args[0] == bypass_flag());
    let st0 = ArgScan { kept: seq![], wants_bypass: true, has_bypass: true, reasoning: None };
    let st1 = ArgScan { kept: seq![bypass_flag()] + st0.kept, ..st0 };
    assert(st1.kept =~= seq![bypass_flag()]);
    assert(scan_args(args, 0, empty_scan()) == scan_args(args, 1, st1));
    lemma_scan_kept_prefix(args, 1, st0, seq![bypass_flag()]);
    let r = scan_args(args, 1, st0);
    let out_st = ArgScan { kept: seq![bypass_flag()] + r.kept, ..r };
    assert(scan_args(args, 0, empty_scan()) == out_st);
    assert(out_st.kept[0] == bypass_flag());
    let wb = if out_st.wants_bypass && !out_st.has_bypass {
        out_st.kept.push(bypass_flag())
    } else {
        out_st.kept
    };
    assert(wb[0] == bypass_flag());
}

/// No `--high`/`--xhigh` among the first `i` arguments: no reasoning effort.
proof fn lemma_no_reasoning_flags(args: Seq<Seq<char>>, i: int)
    requires
        !args.contains("--high"@),
        !args.contains("--xhigh"@),
    ensures
        last_reasoning(args, i) is None,
    decreases i,
{
    if i > 0 && i <= args.len() {
        assert(args[i - 1] != "--high"@);
        assert(args[i - 1] != "--xhigh"@);
        lemma_no_reasoning_flags(args, i - 1);
    }
}

/// Where the user asked for the bypass with `--madmax`/`--madmax-spark` without writing
/// the flag itself, and asked for no reasoning effort, the bypass flag comes last.
pub proof fn requested_bypass_is_appended(args: Seq<Seq<char>>, j: int)
    requires
        0 <= j < args.len(),
        args[j] == "--madmax"@ || args[j] == "--madmax-spark"@,
        !args.contains(bypass_flag()),
        !args.contains("--high"@),
        !args.contains("--xhigh"@),
    ensures
        normalized_args(args).len() > 0,
        normalized_args(args).last() == bypass_flag(),
{
    let st = scan_args(args, 0, empty_scan());
    assert(!empty_scan().kept.contains(bypass_flag()));
    lemma_scan_tracks(args, 0, empty_scan());
    lemma_scan_kept_from_input(args, 0, empty_scan());
    lemma_no_reasoning_flags(args, args.len() as int);
    assert(requests_bypass(args[j]));
    assert(st.wants_bypass);
    if st.kept.contains(bypass_flag()) {
        let k = choose|k: int| 0 <= k < st.kept.len() && st.kept[k] == bypass_flag();
        assert(args.contains(st.kept[k]));
    }
    assert(!st.has_bypass);
    assert(normalized_args(args) == st.kept.push(bypass_flag()));
}

} // verus!
