//! What the launcher reads from tmux's output: pane listings, pane ids and session names.
use vstd::prelude::*;
use crate::text::{
    ascii_lower_seq, chars_ascii_lower, chars_contains, chars_eq, chars_of, has_substring, lines,
    lines_of, split_once, split_once_chars, string_from_chars, trim, trim_chars, views,
    has_prefix, chars_starts_with, decimal, decimal_chars, decimal_is_digits,
};
use crate::launch_args::string_views;

verus! {

/// One line of `tmux list-panes -F '#{pane_id}\t#{pane_current_command}\t#{pane_start_command}'`.
#[derive(Debug, Clone, PartialEq, Eq)]
pub struct TmuxPaneSnapshot {
    pub pane_id: String,
    pub pane_current_command: String,
    pub pane_start_command: String,
}

/// The three fields of a pane, as texts.
pub struct PaneFields {
    pub id: Seq<char>,
    pub current_command: Seq<char>,
    pub start_command: Seq<char>,
}

impl View for TmuxPaneSnapshot {
    type V = PaneFields;

    open spec fn view(&self) -> PaneFields {
        PaneFields {
            id: self.pane_id@,
            current_command: self.pane_current_command@,
            start_command: self.pane_start_command@,
        }
    }
}

/// The pane that one listing line describes: the line cut at its first two tabs
/// (`splitn(3, '\t')`), each part trimmed; nothing where the line has fewer than two tabs.
pub open spec fn parse_pane_line(line: Seq<char>) -> Option<PaneFields> {
    match split_once(line, '\t') {
        Some((id, rest)) => match split_once(rest, '\t') {
            Some((current, start)) => Some(
                PaneFields { id: trim(id), current_command: trim(current), start_command: trim(start) },
            ),
            None => None,
        },
        None => None,
    }
}

/// The panes of the listing lines `ls`, in order, skipping lines that describe none.
pub open spec fn parse_pane_lines(ls: Seq<Seq<char>>) -> Seq<PaneFields>
    decreases ls.len(),
{
    if ls.len() == 0 {
        seq![]
    } else {
        match parse_pane_line(ls[0]) {
            Some(p) => seq![p] + parse_pane_lines(ls.drop_first()),
            None => parse_pane_lines(ls.drop_first()),
        }
    }
}

/// The panes of a listing.
pub open spec fn pane_listing(raw: Seq<char>) -> Seq<PaneFields> {
    parse_pane_lines(lines(raw))
}

/// The snapshots' field texts.
pub open spec fn snapshot_views(v: Seq<TmuxPaneSnapshot>) -> Seq<PaneFields> {
    v.map_values(|p: TmuxPaneSnapshot| p@)
}

/// The pane described by one listing line.
fn parse_pane_line_exec(line: &[char]) -> (out: Option<TmuxPaneSnapshot>)
    ensures
        match (out, parse_pane_line(line@)) {
            (Some(p), Some(f)) => p@ == f,
            (None, None) => true,
            _ => false,
        },
{
    match split_once_chars(line, '\t') {
        Some((id, rest)) => match split_once_chars(rest.as_slice(), '\t') {
            Some((current, start)) => {
                let id = trim_chars(id.as_slice());
                let current = trim_chars(current.as_slice());
                let start = trim_chars(start.as_slice());
                Some(
                    TmuxPaneSnapshot {
                        pane_id: string_from_chars(id.as_slice()),
                        pane_current_command: string_from_chars(current.as_slice()),
                        pane_start_command: string_from_chars(start.as_slice()),
                    },
                )
            },
            None => None,
        },
        None => None,
    }
}

/// The panes that a `list-panes` listing describes.
pub fn parse_tmux_pane_snapshot(raw: &str) -> (out: Vec<TmuxPaneSnapshot>)
    ensures
        snapshot_views(out@) == pane_listing(raw@),
{
    let c = chars_of(raw);
    let ls = lines_of(c.as_slice());
    let ghost lv = views(ls@);
    let mut out: Vec<TmuxPaneSnapshot> = Vec::new();
    let mut i: usize = 0;
    assert(lv.skip(0) =~= lv);
    while i < ls.len()
        invariant
            lv == views(ls@),
            lv == lines(raw@),
            i <= ls.len(),
            pane_listing(raw@) == snapshot_views(out@) + parse_pane_lines(lv.skip(i as int)),
        decreases ls.len() - i,
    {
        let ghost rest = lv.skip(i as int);
        assert(rest.drop_first() =~= lv.skip(i + 1));
        assert(rest[0] == ls@[i as int]@);
        let ghost before = snapshot_views(out@);
        match parse_pane_line_exec(ls[i].as_slice()) {
            Some(p) => {
                out.push(p);
                assert(snapshot_views(out@) =~= before.push(p@));
                assert(before + (seq![p@] + parse_pane_lines(lv.skip(i + 1))) =~= snapshot_views(
                    out@,
                ) + parse_pane_lines(lv.skip(i + 1)));
            },
            None => {},
        }
        i += 1;
    }
    assert(snapshot_views(out@) + parse_pane_lines(lv.skip(i as int)) =~= snapshot_views(out@));
    out
}

/// A pane runs `omx hud --watch`: its start command, in ASCII lower case, holds both
/// `hud` and `--watch` (or its current command is `omx` and the start command holds both).
pub open spec fn is_hud_watch(p: PaneFields) -> bool {
    let start = ascii_lower_seq(p.start_command);
    let current = ascii_lower_seq(p.current_command);
    has_substring(start, "hud"@) && has_substring(start, "--watch"@) || current == "omx"@
        && has_substring(start, "--watch"@) && has_substring(start, "hud"@)
}

/// Whether `pane` runs a watching HUD.
pub fn is_hud_watch_pane(pane: &TmuxPaneSnapshot) -> (r: bool)
    ensures
        r == is_hud_watch(pane@),
{
    let s = chars_of(pane.pane_start_command.as_str());
    let c = chars_of(pane.pane_current_command.as_str());
    let start = chars_ascii_lower(s.as_slice());
    let current = chars_ascii_lower(c.as_slice());
    let hud = chars_of("hud");
    let watch = chars_of("--watch");
    let omx = chars_of("omx");
    chars_contains(start.as_slice(), hud.as_slice()) && chars_contains(
        start.as_slice(),
        watch.as_slice(),
    ) || chars_eq(current.as_slice(), omx.as_slice()) && chars_contains(
        start.as_slice(),
        watch.as_slice(),
    ) && chars_contains(start.as_slice(), hud.as_slice())
}

/// The ids of the watching HUD panes among `panes`, other than `current`.
pub open spec fn hud_watch_ids(panes: Seq<PaneFields>, current: Option<Seq<char>>) -> Seq<
    Seq<char>,
>
    decreases panes.len(),
{
    if panes.len() == 0 {
        seq![]
    } else {
        let p = panes[0];
        let rest = hud_watch_ids(panes.drop_first(), current);
        if Some(p.id) != current && is_hud_watch(p) {
            seq![p.id] + rest
        } else {
            rest
        }
    }
}

/// The ids of the watching HUD panes in a `list-panes` listing, leaving out the pane
/// `current_pane` (where `omx` itself runs).
pub fn select_hud_watch_panes(raw: &str, current_pane: Option<&str>) -> (out: Vec<String>)
    ensures
        string_views(out@) == hud_watch_ids(
            pane_listing(raw@),
            match current_pane {
                Some(c) => Some(c@),
                None => None,
            },
        ),
{
    let panes = parse_tmux_pane_snapshot(raw);
    let ghost pv = snapshot_views(panes@);
    let ghost cur = match current_pane {
        Some(c) => Some(c@),
        None => None,
    };
    let cur_chars: Option<Vec<char>> = match current_pane {
        Some(c) => Some(chars_of(c)),
        None => None,
    };
    let mut out: Vec<String> = Vec::new();
    let mut i: usize = 0;
    assert(pv.skip(0) =~= pv);
    assert(string_views(out@) =~= Seq::<Seq<char>>::empty());
    while i < panes.len()
        invariant
            pv == snapshot_views(panes@),
            i <= panes.len(),
            match (cur_chars, cur) {
                (Some(a), Some(b)) => a@ == b,
                (None, None) => true,
                _ => false,
            },
            hud_watch_ids(pv, cur) == string_views(out@) + hud_watch_ids(pv.skip(i as int), cur),
        decreases panes.len() - i,
    {
        let p = &panes[i];
        let ghost rest = pv.skip(i as int);
        assert(rest.drop_first() =~= pv.skip(i + 1));
        assert(rest[0] == p@);
        let id = chars_of(p.pane_id.as_str());
        let is_current = match &cur_chars {
            Some(c) => chars_eq(id.as_slice(), c.as_slice()),
            None => false,
        };
        let ghost before = string_views(out@);
        if !is_current && is_hud_watch_pane(p) {
            out.push(p.pane_id.clone());
            assert(string_views(out@) =~= before.push(p@.id));
            assert(before + (seq![p@.id] + hud_watch_ids(pv.skip(i + 1), cur)) =~= string_views(
                out@,
            ) + hud_watch_ids(pv.skip(i + 1), cur));
        }
        i += 1;
    }
    assert(string_views(out@) + hud_watch_ids(pv.skip(i as int), cur) =~= string_views(out@));
    out
}

/// The pane id that `split-window -P -F '#{pane_id}'` printed: its first line, trimmed,
/// where that starts with `%`.
pub open spec fn pane_id_of(raw: Seq<char>) -> Option<Seq<char>> {
    let ls = lines(raw);
    if ls.len() == 0 {
        None
    } else if has_prefix(trim(ls[0]), "%"@) {
        Some(trim(ls[0]))
    } else {
        None
    }
}

/// The pane id printed by tmux, if the output holds one.
pub fn parse_pane_id(raw: &str) -> (out: Option<String>)
    ensures
        match (out, pane_id_of(raw@)) {
            (Some(a), Some(b)) => a@ == b,
            (None, None) => true,
            _ => false,
        },
{
    let c = chars_of(raw);
    let ls = lines_of(c.as_slice());
    if ls.len() == 0 {
        return None;
    }
    assert(views(ls@)[0] == ls@[0]@);
    let first = trim_chars(ls[0].as_slice());
    let pct = chars_of("%");
    if chars_starts_with(first.as_slice(), pct.as_slice()) {
        Some(string_from_chars(first.as_slice()))
    } else {
        None
    }
}

/// The session name that `display-message -p '#S'` printed: the output trimmed, where that
/// is not empty.
pub open spec fn session_name_of(raw: Seq<char>) -> Option<Seq<char>> {
    if trim(raw).len() == 0 {
        None
    } else {
        Some(trim(raw))
    }
}

/// The session name printed by tmux, if the output holds one.
pub fn parse_session_name(raw: &str) -> (out: Option<String>)
    ensures
        match (out, session_name_of(raw@)) {
            (Some(a), Some(b)) => a@ == b,
            (None, None) => true,
            _ => false,
        },
{
    let c = chars_of(raw);
    let t = trim_chars(c.as_slice());
    if t.len() == 0 {
        None
    } else {
        Some(string_from_chars(t.as_slice()))
    }
}

/// The panes to kill after codex exits: the watching HUD panes listed then, and the HUD
/// pane this launch created where it is not among them already.
pub open spec fn cleanup_list(listed: Seq<Seq<char>>, created: Option<Seq<char>>) -> Seq<
    Seq<char>,
> {
    match created {
        Some(p) => if listed.contains(p) {
            listed
        } else {
            listed.push(p)
        },
        None => listed,
    }
}

/// The panes to kill after codex exits.
pub fn cleanup_targets(listed: Vec<String>, created: Option<String>) -> (out: Vec<String>)
    ensures
        string_views(out@) == cleanup_list(
            string_views(listed@),
            match created {
                Some(p) => Some(p@),
                None => None,
            },
        ),
{
    let ghost lv = string_views(listed@);
    let mut out = listed;
    match created {
        Some(p) => {
            let mut found = false;
            let mut i: usize = 0;
            while i < out.len()
                invariant
                    lv == string_views(out@),
                    i <= out.len(),
                    found == exists|j: int| 0 <= j < i && lv[j] == p@,
                decreases out.len() - i,
            {
                if out[i] == p {
                    found = true;
                }
                assert(lv[i as int] == out@[i as int]@);
                i += 1;
            }
            if found {
                assert(lv.contains(p@));
            } else {
                assert(!lv.contains(p@));
                out.push(p);
                assert(string_views(out@) =~= lv.push(p@));
            }
            out
        },
        None => out,
    }
}

/// `c` is an ASCII letter or digit.
pub open spec fn is_ascii_alphanumeric(c: char) -> bool {
    ('0' <= c <= '9') || ('a' <= c <= 'z') || ('A' <= c <= 'Z')
}

/// `s` with every character other than an ASCII letter or digit replaced by `-`.
pub open spec fn session_safe(s: Seq<char>) -> Seq<char> {
    s.map_values(|c: char| if is_ascii_alphanumeric(c) { c } else { '-' })
}

/// The name of a detached launch session: `omx-<dir>-<stamp>`, where `<dir>` is the
/// launch directory's name (`omx` where it has none) made safe, and `<stamp>` the launch
/// time in milliseconds.
pub open spec fn detached_session_name_of(dir_name: Option<Seq<char>>, stamp: nat) -> Seq<char> {
    let dir = match dir_name {
        Some(d) => d,
        None => "omx"@,
    };
    "omx-"@ + session_safe(dir) + "-"@ + decimal(stamp)
}

/// The name of a detached launch session for the directory name `dir_name` at `stamp`
/// milliseconds after the epoch.
pub fn build_detached_session_name(dir_name: Option<&str>, stamp: u128) -> (out: String)
    ensures
        out@ == detached_session_name_of(
            match dir_name {
                Some(d) => Some(d@),
                None => None,
            },
            stamp as nat,
        ),
{
    let dir = match dir_name {
        Some(d) => chars_of(d),
        None => chars_of("omx"),
    };
    let mut safe: Vec<char> = Vec::new();
    let mut i: usize = 0;
    while i < dir.len()
        invariant
            i <= dir.len(),
            safe@ == session_safe(dir@.take(i as int)),
        decreases dir.len() - i,
    {
        let c = dir[i];
        let keep = ('0' <= c && c <= '9') || ('a' <= c && c <= 'z') || ('A' <= c && c <= 'Z');
        safe.push(if keep { c } else { '-' });
        assert(session_safe(dir@.take(i + 1)) =~= session_safe(dir@.take(i as int)).push(
            if is_ascii_alphanumeric(c) { c } else { '-' },
        ));
        i += 1;
    }
    assert(dir@.take(dir.len() as int) =~= dir@);
    let digits = decimal_chars(stamp);
    let mut out = String::new();
    out.append("omx-");
    let safe_s = string_from_chars(safe.as_slice());
    out.append(safe_s.as_str());
    out.append("-");
    let digits_s = string_from_chars(digits.as_slice());
    out.append(digits_s.as_str());
    out
}

// ---------------------------------------------------------------------------
// Laws
// ---------------------------------------------------------------------------

/// The stale HUD panes that a launch inside tmux kills never include the pane that
/// `omx` itself runs in, and every one of them is a watching HUD pane of the listing.
pub proof fn stale_hud_panes_spare_current(panes: Seq<PaneFields>, current: Seq<char>)
    ensures
        !hud_watch_ids(panes, Some(current)).contains(current),
        forall|k: int|
            #![trigger hud_watch_ids(panes, Some(current))[k]]
            0 <= k < hud_watch_ids(panes, Some(current)).len() ==> exists|j: int|
                0 <= j < panes.len() && #[trigger] panes[j].id == hud_watch_ids(
                    panes,
                    Some(current),
                )[k] && is_hud_watch(panes[j]),
    decreases panes.len(),
{
    if panes.len() > 0 {
        let rest = panes.drop_first();
        stale_hud_panes_spare_current(rest, current);
        let ids = hud_watch_ids(panes, Some(current));
        let rest_ids = hud_watch_ids(rest, Some(current));
        let p = panes[0];
        if Some(p.id) != Some(current) && is_hud_watch(p) {
            assert(ids == seq![p.id] + rest_ids);
            if ids.contains(current) {
                let k = choose|k: int| 0 <= k < ids.len() && ids[k] == current;
                if k > 0 {
                    assert(rest_ids[k - 1] == ids[k]);
                }
            }
            assert forall|k: int| #![trigger ids[k]] 0 <= k < ids.len() implies exists|j: int|
                0 <= j < panes.len() && #[trigger] panes[j].id == ids[k] && is_hud_watch(
                    panes[j],
                ) by {
                if k == 0 {
                    assert(panes[0].id == ids[0]);
                } else {
                    assert(ids[k] == rest_ids[k - 1]);
                    let j = choose|j: int|
                        0 <= j < rest.len() && #[trigger] rest[j].id == rest_ids[k - 1]
                            && is_hud_watch(rest[j]);
                    assert(panes[j + 1] == rest[j]);
                }
            }
        } else {
            assert(ids == rest_ids);
            assert forall|k: int| #![trigger ids[k]] 0 <= k < ids.len() implies exists|j: int|
                0 <= j < panes.len() && #[trigger] panes[j].id == ids[k] && is_hud_watch(
                    panes[j],
                ) by {
                let j = choose|j: int|
                    0 <= j < rest.len() && #[trigger] rest[j].id == rest_ids[k] && is_hud_watch(
                        rest[j],
                    );
                assert(panes[j + 1] == rest[j]);
            }
        }
    }
}

/// After codex exits inside tmux, the HUD pane that the launch created is always among
/// the panes killed, every listed HUD pane is too, in its order, and nothing else is.
pub proof fn created_hud_pane_always_cleaned(listed: Seq<Seq<char>>, created: Seq<char>)
    ensures
        cleanup_list(listed, Some(created)).contains(created),
        cleanup_list(listed, Some(created)).take(listed.len() as int) == listed,
        cleanup_list(listed, Some(created)).len() <= listed.len() + 1,
        listed.contains(created) ==> cleanup_list(listed, Some(created)) == listed,
        cleanup_list(listed, None) == listed,
{
    if !listed.contains(created) {
        assert(listed.push(created)[listed.len() as int] == created);
        assert(listed.push(created).take(listed.len() as int) =~= listed);
    } else {
        assert(listed.take(listed.len() as int) =~= listed);
    }
}

/// A detached session name holds only ASCII letters, digits and `-`, so tmux takes it
/// as it stands.
pub proof fn detached_session_name_is_tmux_safe(dir_name: Option<Seq<char>>, stamp: nat)
    ensures
        forall|i: int|
            0 <= i < detached_session_name_of(dir_name, stamp).len() ==> {
                let c = #[trigger] detached_session_name_of(dir_name, stamp)[i];
                is_ascii_alphanumeric(c) || c == '-'
            },
{
    reveal_strlit("omx-");
    reveal_strlit("-");
    decimal_is_digits(stamp);
    let dir = match dir_name {
        Some(d) => d,
        None => "omx"@,
    };
    let a = "omx-"@;
    let b = session_safe(dir);
    let c = "-"@;
    let d = decimal(stamp);
    let name = a + b + c + d;
    assert(name == detached_session_name_of(dir_name, stamp));
    assert forall|i: int| 0 <= i < name.len() implies is_ascii_alphanumeric(#[trigger] name[i])
        || name[i] == '-' by {
        if i < a.len() {
            assert(name[i] == a[i]);
        } else if i < a.len() + b.len() {
            assert(name[i] == b[i - a.len()]);
        } else if i < a.len() + b.len() + c.len() {
            assert(name[i] == c[i - a.len() - b.len()]);
        } else {
            assert(name[i] == d[i - a.len() - b.len() - c.len()]);
        }
    }
}

/// A detached session name is `omx-`, then the directory name with every ASCII letter
/// and digit kept as it is (either case) and every other character turned into `-`,
/// then `-` and the stamp's decimal numeral; a launch directory without a name counts
/// as `omx`.
pub proof fn detached_session_name_shape(dir: Seq<char>, stamp: nat)
    ensures
        ({
            let name = detached_session_name_of(Some(dir), stamp);
            &&& name.len() == 5 + dir.len() + decimal(stamp).len()
            &&& name.take(4) == "omx-"@
            &&& forall|i: int|
                0 <= i < dir.len() ==> {
                    let c = #[trigger] dir[i];
                    &&& (('0' <= c <= '9') || ('a' <= c <= 'z') || ('A' <= c <= 'Z')) ==> name[4
                        + i] == c
                    &&& !(('0' <= c <= '9') || ('a' <= c <= 'z') || ('A' <= c <= 'Z')) ==> name[4
                        + i] == '-'
                }
            &&& name[4 + dir.len() as int] == '-'
            &&& name.skip(5 + dir.len() as int) == decimal(stamp)
        }),
        detached_session_name_of(None, stamp) == detached_session_name_of(Some("omx"@), stamp),
{
    reveal_strlit("omx-");
    reveal_strlit("-");
    let a = "omx-"@;
    let b = session_safe(dir);
    let name = a + b + "-"@ + decimal(stamp);
    assert(name == detached_session_name_of(Some(dir), stamp));
    assert(name.take(4) =~= a);
    assert forall|i: int| 0 <= i < dir.len() implies name[4 + i] == b[i] by {}
    assert(name[4 + dir.len() as int] == '-');
    assert(name.skip(5 + dir.len() as int) =~= decimal(stamp));
}

/// ASCII lower case distributes over concatenation.
proof fn lemma_lower_concat(a: Seq<char>, b: Seq<char>)
    ensures
        ascii_lower_seq(a + b) == ascii_lower_seq(a) + ascii_lower_seq(b),
{
    assert(ascii_lower_seq(a + b) =~= ascii_lower_seq(a) + ascii_lower_seq(b));
}

/// A pane is a watching HUD exactly when its start command, in ASCII lower case, holds
/// both `hud` and `--watch`, wherever they stand; its current command does not matter.
pub proof fn hud_watch_iff_both_words(p: PaneFields)
    ensures
        is_hud_watch(p) <==> (has_substring(ascii_lower_seq(p.start_command), "hud"@)
            && has_substring(ascii_lower_seq(p.start_command), "--watch"@)),
{
}

/// A start command that holds a word reading `hud` and a word reading `--watch` (in any
/// ASCII case, in either order, with anything around and between them) is a watching
/// HUD, whatever the pane's current command.
pub proof fn hud_and_watch_anywhere_is_hud_watch(
    p: PaneFields,
    x: Seq<char>,
    w1: Seq<char>,
    y: Seq<char>,
    w2: Seq<char>,
    z: Seq<char>,
)
    requires
        p.start_command == x + w1 + y + w2 + z,
        (ascii_lower_seq(w1) == "hud"@ && ascii_lower_seq(w2) == "--watch"@) || (ascii_lower_seq(
            w1,
        ) == "--watch"@ && ascii_lower_seq(w2) == "hud"@),
    ensures
        is_hud_watch(p),
{
    let lx = ascii_lower_seq(x);
    let l1 = ascii_lower_seq(w1);
    let ly = ascii_lower_seq(y);
    let l2 = ascii_lower_seq(w2);
    let lz = ascii_lower_seq(z);
    lemma_lower_concat(x, w1);
    lemma_lower_concat(x + w1, y);
    lemma_lower_concat(x + w1 + y, w2);
    lemma_lower_concat(x + w1 + y + w2, z);
    let l = ascii_lower_seq(p.start_command);
    assert(l == lx + l1 + ly + l2 + lz);
    let i1 = lx.len() as int;
    let i2 = (lx.len() + l1.len() + ly.len()) as int;
    assert(l.subrange(i1, i1 + l1.len()) =~= l1);
    assert(l.subrange(i2, i2 + l2.len()) =~= l2);
}

/// A start command without `hud` (in any ASCII case) is never a watching HUD.
pub proof fn no_hud_word_is_no_hud_watch(p: PaneFields)
    requires
        !has_substring(ascii_lower_seq(p.start_command), "hud"@),
    ensures
        !is_hud_watch(p),
{
}

/// Every watching HUD pane of the listing other than the current pane is among the
/// stale panes that a launch inside tmux kills.
pub proof fn every_stale_hud_pane_is_found(panes: Seq<PaneFields>, current: Option<Seq<char>>, j: int)
    requires
        0 <= j < panes.len(),
        is_hud_watch(panes[j]),
        Some(panes[j].id) != current,
    ensures
        hud_watch_ids(panes, current).contains(panes[j].id),
    decreases j,
{
    let rest = panes.drop_first();
    let ids = hud_watch_ids(panes, current);
    let rest_ids = hud_watch_ids(rest, current);
    if j == 0 {
        assert(ids[0] == panes[0].id);
    } else {
        assert(rest[j - 1] == panes[j]);
        every_stale_hud_pane_is_found(rest, current, j - 1);
        let k = choose|k: int| 0 <= k < rest_ids.len() && rest_ids[k] == panes[j].id;
        let p = panes[0];
        if Some(p.id) != current && is_hud_watch(p) {
            assert(ids == seq![p.id] + rest_ids);
            assert(ids[k + 1] == rest_ids[k]);
        } else {
            assert(ids == rest_ids);
        }
    }
}

} // verus!
