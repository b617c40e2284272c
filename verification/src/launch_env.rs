//! The environment variables and flags that choose how `omx` launches codex.
use vstd::prelude::*;
use crate::text::{
    ascii_lower_seq, chars_blank, chars_eq_ignore_ascii_case, chars_of, eq_ignore_ascii_case,
    is_white_space, trim, trim_end, trim_start,
};
use crate::launch_args::string_views;

verus! {

/// A snapshot of the process environment: each variable name once, with its value.
#[derive(Debug)]
pub struct LaunchEnv {
    vars: Vec<(String, String)>,
}

/// The pairs' texts.
pub open spec fn pair_views(v: Seq<(String, String)>) -> Seq<(Seq<char>, Seq<char>)> {
    v.map_values(|p: (String, String)| (p.0@, p.1@))
}

/// No name occurs twice among the pairs.
pub open spec fn names_unique(ps: Seq<(Seq<char>, Seq<char>)>) -> bool {
    forall|i: int, j: int|
        0 <= i < ps.len() && 0 <= j < ps.len() && #[trigger] ps[i].0 == #[trigger] ps[j].0 ==> i
            == j
}

/// Some pair has the name `k`.
pub open spec fn has_name(ps: Seq<(Seq<char>, Seq<char>)>, k: Seq<char>) -> bool {
    exists|i: int| 0 <= i < ps.len() && #[trigger] ps[i].0 == k
}

/// The variables as a map from name to value.
pub open spec fn pairs_map(ps: Seq<(Seq<char>, Seq<char>)>) -> Map<Seq<char>, Seq<char>> {
    Map::new(
        |k: Seq<char>| has_name(ps, k),
        |k: Seq<char>| ps[choose|i: int| 0 <= i < ps.len() && #[trigger] ps[i].0 == k].1,
    )
}

/// With names unique, the pair named `ps[i].0` is the one at `i`.
proof fn lemma_pairs_map_at(ps: Seq<(Seq<char>, Seq<char>)>, i: int)
    requires
        names_unique(ps),
        0 <= i < ps.len(),
    ensures
        pairs_map(ps).contains_key(ps[i].0),
        pairs_map(ps)[ps[i].0] == ps[i].1,
{
    let k = ps[i].0;
    assert(has_name(ps, k));
    let j = choose|j: int| 0 <= j < ps.len() && #[trigger] ps[j].0 == k;
    assert(ps[j].0 == ps[i].0);
}

/// Replacing the value of the pair at `i` sets that name's value.
proof fn lemma_pairs_map_update(ps: Seq<(Seq<char>, Seq<char>)>, i: int, v: Seq<char>)
    requires
        names_unique(ps),
        0 <= i < ps.len(),
    ensures
        names_unique(ps.update(i, (ps[i].0, v))),
        pairs_map(ps.update(i, (ps[i].0, v))) == pairs_map(ps).insert(ps[i].0, v),
{
    let k = ps[i].0;
    let qs = ps.update(i, (k, v));
    assert forall|a: int, b: int|
        0 <= a < qs.len() && 0 <= b < qs.len() && #[trigger] qs[a].0 == #[trigger] qs[b].0 implies a
            == b by {
        assert(qs[a].0 == ps[a].0);
        assert(qs[b].0 == ps[b].0);
    }
    assert forall|n: Seq<char>| has_name(qs, n) <==> has_name(ps, n) || n == k by {
        if has_name(qs, n) {
            let j = choose|j: int| 0 <= j < qs.len() && #[trigger] qs[j].0 == n;
            assert(ps[j].0 == n);
        }
        if has_name(ps, n) {
            let j = choose|j: int| 0 <= j < ps.len() && #[trigger] ps[j].0 == n;
            assert(qs[j].0 == n);
        }
        if n == k {
            assert(qs[i].0 == n);
        }
    }
    assert forall|n: Seq<char>| #[trigger] pairs_map(qs).contains_key(n) implies pairs_map(qs)[n]
        == pairs_map(ps).insert(k, v)[n] by {
        let j = choose|j: int| 0 <= j < qs.len() && #[trigger] qs[j].0 == n;
        lemma_pairs_map_at(qs, j);
        if j == i {
            assert(qs[j].1 == v);
        } else {
            assert(qs[j] == ps[j]);
            lemma_pairs_map_at(ps, j);
            assert(n != k) by {
                if n == k {
                    assert(ps[j].0 == ps[i].0);
                }
            }
        }
    }
    assert(pairs_map(qs) =~= pairs_map(ps).insert(k, v));
}

/// Adding a pair with a new name sets that name's value.
proof fn lemma_pairs_map_push(ps: Seq<(Seq<char>, Seq<char>)>, k: Seq<char>, v: Seq<char>)
    requires
        names_unique(ps),
        !has_name(ps, k),
    ensures
        names_unique(ps.push((k, v))),
        pairs_map(ps.push((k, v))) == pairs_map(ps).insert(k, v),
{
    let qs = ps.push((k, v));
    let n0 = ps.len() as int;
    assert forall|a: int, b: int|
        0 <= a < qs.len() && 0 <= b < qs.len() && #[trigger] qs[a].0 == #[trigger] qs[b].0 implies a
            == b by {
        if a < n0 && b < n0 {
            assert(qs[a] == ps[a] && qs[b] == ps[b]);
        } else if a < n0 {
            assert(qs[a] == ps[a]);
            assert(ps[a].0 == k);
        } else if b < n0 {
            assert(qs[b] == ps[b]);
            assert(ps[b].0 == k);
        }
    }
    assert forall|n: Seq<char>| has_name(qs, n) <==> has_name(ps, n) || n == k by {
        if has_name(qs, n) {
            let j = choose|j: int| 0 <= j < qs.len() && #[trigger] qs[j].0 == n;
            if j < n0 {
                assert(ps[j].0 == n);
            }
        }
        if has_name(ps, n) {
            let j = choose|j: int| 0 <= j < ps.len() && #[trigger] ps[j].0 == n;
            assert(qs[j].0 == n);
        }
        if n == k {
            assert(qs[n0].0 == n);
        }
    }
    assert forall|n: Seq<char>| #[trigger] pairs_map(qs).contains_key(n) implies pairs_map(qs)[n]
        == pairs_map(ps).insert(k, v)[n] by {
        let j = choose|j: int| 0 <= j < qs.len() && #[trigger] qs[j].0 == n;
        lemma_pairs_map_at(qs, j);
        if j < n0 {
            assert(qs[j] == ps[j]);
            lemma_pairs_map_at(ps, j);
        }
    }
    assert(pairs_map(qs) =~= pairs_map(ps).insert(k, v));
}

impl View for LaunchEnv {
    type V = Map<Seq<char>, Seq<char>>;

    closed spec fn view(&self) -> Map<Seq<char>, Seq<char>> {
        pairs_map(pair_views(self.vars@))
    }
}

/// The value of `key`, if it is set.
pub open spec fn env_lookup(env: Map<Seq<char>, Seq<char>>, key: Seq<char>) -> Option<Seq<char>> {
    if env.contains_key(key) {
        Some(env[key])
    } else {
        None
    }
}

/// The value of `key` where it is set to something other than white space.
pub open spec fn env_value(env: Map<Seq<char>, Seq<char>>, key: Seq<char>) -> Option<Seq<char>> {
    match env_lookup(env, key) {
        Some(v) => if trim(v).len() == 0 {
            None
        } else {
            Some(v)
        },
        None => None,
    }
}

/// `key` is set to `1`, or to `true` or `yes` in any ASCII case.
pub open spec fn env_is_truthy(env: Map<Seq<char>, Seq<char>>, key: Seq<char>) -> bool {
    match env_value(env, key) {
        Some(v) => v == "1"@ || eq_ignore_ascii_case(v, "true"@) || eq_ignore_ascii_case(
            v,
            "yes"@,
        ),
        None => false,
    }
}

impl LaunchEnv {
    /// No variable name occurs twice.
    #[verifier::type_invariant]
    spec fn names_are_unique(&self) -> bool {
        names_unique(pair_views(self.vars@))
    }

    /// An environment with no variables.
    pub fn new() -> (env: LaunchEnv)
        ensures
            env@ == Map::<Seq<char>, Seq<char>>::empty(),
    {
        let env = LaunchEnv { vars: Vec::new() };
        assert(env@ =~= Map::<Seq<char>, Seq<char>>::empty());
        env
    }

    /// The position of the variable named `key`, if any.
    fn position(vars: &Vec<(String, String)>, key: &str) -> (out: Option<usize>)
        ensures
            match out {
                Some(i) => i < vars.len() && pair_views(vars@)[i as int].0 == key@,
                None => !has_name(pair_views(vars@), key@),
            },
    {
        let ghost ps = pair_views(vars@);
        let k = chars_of(key);
        let mut i: usize = 0;
        while i < vars.len()
            invariant
                ps == pair_views(vars@),
                k@ == key@,
                i <= vars.len(),
                forall|j: int| 0 <= j < i ==> #[trigger] ps[j].0 != key@,
            decreases vars.len() - i,
        {
            let name = chars_of(vars[i].0.as_str());
            assert(ps[i as int].0 == vars@[i as int].0@);
            if crate::text::chars_eq(name.as_slice(), k.as_slice()) {
                return Some(i);
            }
            i += 1;
        }
        None
    }

    /// Sets the variable `name` to `value`, replacing any value it had.
    pub fn insert(&mut self, name: String, value: String)
        ensures
            final(self)@ == old(self)@.insert(name@, value@),
    {
        proof {
            use_type_invariant(&*self);
        }
        let mut vars: Vec<(String, String)> = Vec::new();
        std::mem::swap(&mut vars, &mut self.vars);
        let ghost ps = pair_views(vars@);
        let ghost nv = name@;
        let ghost vv = value@;
        match Self::position(&vars, name.as_str()) {
            Some(i) => {
                vars.set(i, (name, value));
                proof {
                    lemma_pairs_map_update(ps, i as int, vv);
                    assert(pair_views(vars@) =~= ps.update(i as int, (ps[i as int].0, vv)));
                }
            },
            None => {
                vars.push((name, value));
                proof {
                    lemma_pairs_map_push(ps, nv, vv);
                    assert(pair_views(vars@) =~= ps.push((nv, vv)));
                }
            },
        }
        self.vars = vars;
    }

    /// The value of the variable named `key`.
    pub fn lookup(&self, key: &str) -> (out: Option<&String>)
        ensures
            match (out, env_lookup(self@, key@)) {
                (Some(v), Some(w)) => v@ == w,
                (None, None) => true,
                _ => false,
            },
    {
        proof {
            use_type_invariant(self);
        }
        match Self::position(&self.vars, key) {
            Some(i) => {
                proof {
                    lemma_pairs_map_at(pair_views(self.vars@), i as int);
                }
                Some(&self.vars[i].1)
            },
            None => None,
        }
    }
}

/// The value of `key` where it is set to something other than white space.
pub fn env_string(env: &LaunchEnv, key: &str) -> (out: Option<String>)
    ensures
        match (out, env_value(env@, key@)) {
            (Some(v), Some(w)) => v@ == w,
            (None, None) => true,
            _ => false,
        },
{
    match env.lookup(key) {
        Some(v) => {
            let c = chars_of(v.as_str());
            if chars_blank(c.as_slice()) {
                None
            } else {
                Some(v.clone())
            }
        },
        None => None,
    }
}

/// Whether `key` is set to `1`, `true` or `yes` (the last two in any ASCII case).
pub fn env_truthy(env: &LaunchEnv, key: &str) -> (r: bool)
    ensures
        r == env_is_truthy(env@, key@),
{
    match env_string(env, key) {
        Some(v) => {
            let c = chars_of(v.as_str());
            let one = chars_of("1");
            let t = chars_of("true");
            let y = chars_of("yes");
            crate::text::chars_eq(c.as_slice(), one.as_slice()) || chars_eq_ignore_ascii_case(
                c.as_slice(),
                t.as_slice(),
            ) || chars_eq_ignore_ascii_case(c.as_slice(), y.as_slice())
        },
        None => false,
    }
}

/// Whether the environment names a tmux server, i.e. `omx` runs inside tmux.
pub fn running_inside_tmux(env: &LaunchEnv) -> (r: bool)
    ensures
        r == env_lookup(env@, "TMUX"@).is_some(),
{
    env.lookup("TMUX").is_some()
}

/// Whether `s` holds `x`.
pub open spec fn has_arg(s: Seq<Seq<char>>, x: Seq<char>) -> bool {
    s.contains(x)
}

/// Whether one of `args` is `flag`.
fn args_contain(args: &[String], flag: &str) -> (r: bool)
    ensures
        r == has_arg(string_views(args@), flag@),
{
    let ghost sv = string_views(args@);
    let f = chars_of(flag);
    let mut i: usize = 0;
    while i < args.len()
        invariant
            sv == string_views(args@),
            f@ == flag@,
            i <= args.len(),
            forall|j: int| 0 <= j < i ==> sv[j] != flag@,
        decreases args.len() - i,
    {
        let a = chars_of(args[i].as_str());
        if crate::text::chars_eq(a.as_slice(), f.as_slice()) {
            assert(sv[i as int] == flag@);
            return true;
        }
        i += 1;
    }
    false
}

/// The user asked for the tmux runtime: the `--tmux` flag, `OMX_LAUNCH_TMUX` truthy, or
/// `OMX_LAUNCH_MODE=tmux`.
pub open spec fn asks_tmux(args: Seq<Seq<char>>, env: Map<Seq<char>, Seq<char>>) -> bool {
    ||| has_arg(args, "--tmux"@)
    ||| env_is_truthy(env, "OMX_LAUNCH_TMUX"@)
    ||| env_value(env, "OMX_LAUNCH_MODE"@) == Some("tmux"@)
}

/// The user forbade tmux: the `--no-tmux` flag, `OMX_LAUNCH_NO_TMUX` or `OMX_NO_TMUX`
/// truthy, or `OMX_LAUNCH_MODE=native`.
pub open spec fn forbids_tmux(args: Seq<Seq<char>>, env: Map<Seq<char>, Seq<char>>) -> bool {
    ||| has_arg(args, "--no-tmux"@)
    ||| env_is_truthy(env, "OMX_LAUNCH_NO_TMUX"@)
    ||| env_is_truthy(env, "OMX_NO_TMUX"@)
    ||| env_value(env, "OMX_LAUNCH_MODE"@) == Some("native"@)
}

/// `v` is the text `lit`.
fn value_is(v: &Option<String>, lit: &str) -> (r: bool)
    ensures
        r == match v {
            Some(s) => s@ == lit@,
            None => false,
        },
{
    match v {
        Some(s) => crate::text::str_eq(s.as_str(), lit),
        None => false,
    }
}

/// Whether the user asked for the tmux runtime.
pub fn tmux_opt_in(args: &[String], env: &LaunchEnv) -> (r: bool)
    ensures
        r == asks_tmux(string_views(args@), env@),
{
    if args_contain(args, "--tmux") {
        return true;
    }
    if env_truthy(env, "OMX_LAUNCH_TMUX") {
        return true;
    }
    let mode = env_string(env, "OMX_LAUNCH_MODE");
    value_is(&mode, "tmux")
}

/// Whether the user forbade the tmux runtime.
pub fn tmux_forced_off(args: &[String], env: &LaunchEnv) -> (r: bool)
    ensures
        r == forbids_tmux(string_views(args@), env@),
{
    if args_contain(args, "--no-tmux") {
        return true;
    }
    if env_truthy(env, "OMX_LAUNCH_NO_TMUX") || env_truthy(env, "OMX_NO_TMUX") {
        return true;
    }
    let mode = env_string(env, "OMX_LAUNCH_MODE");
    value_is(&mode, "native")
}

// ---------------------------------------------------------------------------
// Laws
// ---------------------------------------------------------------------------

/// `--tmux` anywhere among the launch arguments asks for tmux, whatever the environment.
pub proof fn tmux_flag_anywhere_asks_for_tmux(args: Seq<Seq<char>>, env: Map<Seq<char>, Seq<char>>)
    requires
        args.contains("--tmux"@),
    ensures
        asks_tmux(args, env),
{
}

/// `--no-tmux` anywhere among the launch arguments forbids tmux, whatever the
/// environment and whatever else the arguments ask for.
pub proof fn no_tmux_flag_anywhere_forbids_tmux(
    args: Seq<Seq<char>>,
    env: Map<Seq<char>, Seq<char>>,
)
    requires
        args.contains("--no-tmux"@),
    ensures
        forbids_tmux(args, env),
{
}

/// A value that starts and ends with a character other than white space is its own
/// trimmed form, so it counts as set.
proof fn lemma_trim_unchanged(v: Seq<char>)
    requires
        v.len() > 0,
        !is_white_space(v[0]),
        !is_white_space(v.last()),
    ensures
        trim(v) == v,
{
    assert(trim_start(v) == v);
    assert(trim_end(v) == v);
}

/// The values that turn a switch on: `1`, and `true` or `yes` in any ASCII case.
pub open spec fn is_on_value(v: Seq<char>) -> bool {
    v == "1"@ || ascii_lower_seq(v) == "true"@ || ascii_lower_seq(v) == "yes"@
}

/// A variable set to `1`, `true` or `yes` (in any ASCII case) is on.
pub proof fn on_values_are_truthy(env: Map<Seq<char>, Seq<char>>, key: Seq<char>)
    requires
        env.contains_key(key),
        is_on_value(env[key]),
    ensures
        env_is_truthy(env, key),
{
    let v = env[key];
    reveal_strlit("1");
    reveal_strlit("true");
    reveal_strlit("yes");
    if v == "1"@ {
        assert(v[0] == '1');
        lemma_trim_unchanged(v);
    } else {
        let l = ascii_lower_seq(v);
        assert(l.len() == v.len());
        assert(l[0] == crate::text::ascii_lower(v[0]));
        assert(l[l.len() - 1] == crate::text::ascii_lower(v[v.len() - 1]));
        assert(!is_white_space(v[0]));
        assert(!is_white_space(v.last()));
        lemma_trim_unchanged(v);
        assert(ascii_lower_seq("true"@) =~= "true"@);
        assert(ascii_lower_seq("yes"@) =~= "yes"@);
    }
}

/// `OMX_LAUNCH_TMUX` switched on, or `OMX_LAUNCH_MODE=tmux`, asks for tmux.
pub proof fn tmux_env_asks_for_tmux(args: Seq<Seq<char>>, env: Map<Seq<char>, Seq<char>>)
    requires
        (env.contains_key("OMX_LAUNCH_TMUX"@) && is_on_value(env["OMX_LAUNCH_TMUX"@])) || (
        env.contains_key("OMX_LAUNCH_MODE"@) && env["OMX_LAUNCH_MODE"@] == "tmux"@),
    ensures
        asks_tmux(args, env),
{
    if env.contains_key("OMX_LAUNCH_TMUX"@) && is_on_value(env["OMX_LAUNCH_TMUX"@]) {
        on_values_are_truthy(env, "OMX_LAUNCH_TMUX"@);
    } else {
        reveal_strlit("tmux");
        let v = env["OMX_LAUNCH_MODE"@];
        assert(v[0] == 't' && v[3] == 'x');
        lemma_trim_unchanged(v);
    }
}

/// `OMX_LAUNCH_NO_TMUX` or `OMX_NO_TMUX` switched on, or `OMX_LAUNCH_MODE=native`,
/// forbids tmux.
pub proof fn no_tmux_env_forbids_tmux(args: Seq<Seq<char>>, env: Map<Seq<char>, Seq<char>>)
    requires
        (env.contains_key("OMX_LAUNCH_NO_TMUX"@) && is_on_value(env["OMX_LAUNCH_NO_TMUX"@])) || (
        env.contains_key("OMX_NO_TMUX"@) && is_on_value(env["OMX_NO_TMUX"@])) || (env.contains_key(
            "OMX_LAUNCH_MODE"@,
        ) && env["OMX_LAUNCH_MODE"@] == "native"@),
    ensures
        forbids_tmux(args, env),
{
    if env.contains_key("OMX_LAUNCH_NO_TMUX"@) && is_on_value(env["OMX_LAUNCH_NO_TMUX"@]) {
        on_values_are_truthy(env, "OMX_LAUNCH_NO_TMUX"@);
    } else if env.contains_key("OMX_NO_TMUX"@) && is_on_value(env["OMX_NO_TMUX"@]) {
        on_values_are_truthy(env, "OMX_NO_TMUX"@);
    } else {
        reveal_strlit("native");
        let v = env["OMX_LAUNCH_MODE"@];
        assert(v[0] == 'n' && v[5] == 'e');
        lemma_trim_unchanged(v);
    }
}

/// Without `--tmux` and with neither `OMX_LAUNCH_TMUX` nor `OMX_LAUNCH_MODE` set, nothing
/// asks for tmux.
pub proof fn nothing_asks_for_tmux_by_default(args: Seq<Seq<char>>, env: Map<Seq<char>, Seq<char>>)
    requires
        !args.contains("--tmux"@),
        !env.contains_key("OMX_LAUNCH_TMUX"@),
        !env.contains_key("OMX_LAUNCH_MODE"@),
    ensures
        !asks_tmux(args, env),
{
}

/// Without `--no-tmux` and with none of `OMX_LAUNCH_NO_TMUX`, `OMX_NO_TMUX` and
/// `OMX_LAUNCH_MODE` set, nothing forbids tmux.
pub proof fn nothing_forbids_tmux_by_default(args: Seq<Seq<char>>, env: Map<Seq<char>, Seq<char>>)
    requires
        !args.contains("--no-tmux"@),
        !env.contains_key("OMX_LAUNCH_NO_TMUX"@),
        !env.contains_key("OMX_NO_TMUX"@),
        !env.contains_key("OMX_LAUNCH_MODE"@),
    ensures
        !forbids_tmux(args, env),
{
}

/// A variable whose value starts with a character other than white space is set, and
/// its value is handed on as it stands (not trimmed); a variable holding only white
/// space counts as unset.
pub proof fn set_values_are_kept_whole(env: Map<Seq<char>, Seq<char>>, key: Seq<char>)
    requires
        env.contains_key(key),
    ensures
        env[key].len() > 0 && !is_white_space(env[key][0]) ==> env_value(env, key) == Some(
            env[key],
        ),
        (forall|i: int| 0 <= i < env[key].len() ==> is_white_space(#[trigger] env[key][i]))
            ==> env_value(env, key) is None,
{
    let v = env[key];
    if v.len() > 0 && !is_white_space(v[0]) {
        assert(trim_start(v) == v);
        lemma_trim_end_nonempty(v);
    }
    if forall|i: int| 0 <= i < v.len() ==> is_white_space(#[trigger] v[i]) {
        lemma_trim_start_all_white(v);
    }
}

/// Trimming the end of a sequence that starts with a non-white-space character leaves
/// something.
proof fn lemma_trim_end_nonempty(v: Seq<char>)
    requires
        v.len() > 0,
        !is_white_space(v[0]),
    ensures
        trim_end(v).len() > 0,
    decreases v.len(),
{
    if is_white_space(v.last()) {
        assert(v.len() > 1);
        assert(v.drop_last()[0] == v[0]);
        lemma_trim_end_nonempty(v.drop_last());
    }
}

/// A sequence of white space trims to nothing.
proof fn lemma_trim_start_all_white(v: Seq<char>)
    requires
        forall|i: int| 0 <= i < v.len() ==> is_white_space(#[trigger] v[i]),
    ensures
        trim_start(v).len() == 0,
        trim(v).len() == 0,
    decreases v.len(),
{
    if v.len() > 0 {
        assert forall|i: int| 0 <= i < v.drop_first().len() implies is_white_space(
            #[trigger] v.drop_first()[i],
        ) by {
            assert(v.drop_first()[i] == v[i + 1]);
        }
        lemma_trim_start_all_white(v.drop_first());
    }
    assert(trim_end(trim_start(v)) == trim_start(v));
}

} // verus!
