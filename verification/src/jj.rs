//! Reading the output of `jj`: the workspaces of a repository, diff
//! statistics, bookmarks and counts, and how a workspace stands against its
//! baselines. Running `jj` is left to the caller; these functions take its
//! output.

use vstd::prelude::*;
use crate::types::{
    BaselineRelation, BaselineRelationTarget, WorkspaceBookmarkRelation, WorkspaceState,
};
use crate::text::{
    contains, starts_with, ends_with, trim, str_chars, chars_trim, string_from_chars, is_word,
    contains_exec, starts_with_exec, ends_with_exec, push_all, slice_range, opt_view, escape_quotes,
};
use crate::split::{lines, split_char, lines_exec, split_exec};
use crate::num::{parse_i64, parse_i64_chars, hex_fixed, u64_hex16};
use crate::activity::{fnv, fnv_step, FNV_OFFSET, fnv1a_bytes};
use crate::panes::split_once;

verus! {

/// The revision whose bookmarks and diff describe a workspace: its working
/// copy, or the parent when the working copy is empty.
pub const EFFECTIVE_WORKSPACE_REVSET: &'static str = "coalesce(@ ~ empty(), @-)";

pub const DISPLAY_BOOKMARK_REVSET: &'static str = "heads(first_ancestors(coalesce(@ ~ empty(), @-)) & bookmarks())";

pub const CONFLICTED_WORKSPACE_REVSET: &'static str = "coalesce(@ ~ empty(), @-) & conflicts()";

pub const DEFAULT_WORKSPACE_REVSET: &'static str = "present(default@)";

pub const LOCAL_AHEAD_REVSET: &'static str = "default@..@ ~ empty()";

pub const LOCAL_BEHIND_REVSET: &'static str = "@..default@ ~ empty()";

/// One line of `jj workspace list` output, as the template in use writes it.
#[derive(Clone, Debug, PartialEq, Eq)]
pub struct DiscoveredWorkspace {
    pub workspace_name: String,
    pub target_change_id: String,
}

/// Why a `jj` call failed: the command's error output, or an I/O error's
/// message.
#[derive(Clone, Debug, PartialEq, Eq)]
pub enum JjError {
    Command(String),
    Io(String),
}

// ---------------------------------------------------------------------------
// Workspace list
// ---------------------------------------------------------------------------

/// One line of the listing: the workspace name and the target change id on
/// either side of the first tab, trimmed; nothing for a line without a tab
/// or with an empty name.
pub open spec fn parse_workspace_line(line: Seq<char>) -> Option<(Seq<char>, Seq<char>)> {
    match split_once(line, '\t') {
        Some((name, target)) => if trim(name).len() == 0 {
            None
        } else {
            Some((trim(name), trim(target)))
        },
        None => None,
    }
}

pub open spec fn parse_workspace_lines(lines: Seq<Seq<char>>) -> Seq<(Seq<char>, Seq<char>)>
    decreases lines.len(),
{
    if lines.len() == 0 {
        seq![]
    } else {
        let previous = parse_workspace_lines(lines.drop_last());
        match parse_workspace_line(lines.last()) {
            Some(entry) => previous.push(entry),
            None => previous,
        }
    }
}

pub open spec fn discovered_view(w: DiscoveredWorkspace) -> (Seq<char>, Seq<char>) {
    (w.workspace_name@, w.target_change_id@)
}

fn split_once_chars(s: &[char], c: char) -> (r: Option<(Vec<char>, Vec<char>)>)
    ensures
        match r {
            Some((a, b)) => split_once(s@, c) == Some((a@, b@)),
            None => split_once(s@, c) is None,
        },
{
    let mut k: usize = 0;
    while k < s.len() && s[k] != c
        invariant
            k <= s@.len(),
            forall|j: int| 0 <= j < k ==> s@[j] != c,
        decreases s.len() - k,
    {
        k = k + 1;
    }
    proof {
        crate::panes::lemma_split_once_at(s@, c, k as int);
    }
    if k == s.len() {
        return None;
    }
    let head = slice_range(s, 0, k);
    let tail = slice_range(s, k + 1, s.len());
    proof {
        assert(head@ =~= s@.take(k as int));
        assert(tail@ =~= s@.skip(k + 1));
    }
    Some((head, tail))
}

/// The workspaces listed by `jj workspace list` with a template that writes
/// the name, a tab and the target change id on each line.
pub fn parse_workspace_list_output(output: &str) -> (r: Vec<DiscoveredWorkspace>)
    ensures
        r@.map_values(|w: DiscoveredWorkspace| discovered_view(w)) == parse_workspace_lines(
            lines(output@),
        ),
{
    let chars = str_chars(output);
    let all = lines_exec(chars.as_slice());
    let ghost views = all@.map_values(|p: Vec<char>| p@);
    let mut out: Vec<DiscoveredWorkspace> = Vec::new();
    let mut i: usize = 0;
    while i < all.len()
        invariant
            i <= all@.len(),
            views == all@.map_values(|p: Vec<char>| p@),
            out@.map_values(|w: DiscoveredWorkspace| discovered_view(w)) == parse_workspace_lines(
                views.take(i as int),
            ),
        decreases all.len() - i,
    {
        proof {
            assert(views.take(i + 1).drop_last() =~= views.take(i as int));
        }
        match split_once_chars(all[i].as_slice(), '\t') {
            Some((name, target)) => {
                let name = chars_trim(name.as_slice());
                if name.len() > 0 {
                    let target = chars_trim(target.as_slice());
                    let entry = DiscoveredWorkspace {
                        workspace_name: string_from_chars(name.as_slice()),
                        target_change_id: string_from_chars(target.as_slice()),
                    };
                    let ghost before = out@;
                    out.push(entry);
                    proof {
                        assert(out@.map_values(|w: DiscoveredWorkspace| discovered_view(w))
                            =~= before.map_values(|w: DiscoveredWorkspace| discovered_view(w)).push(
                            discovered_view(entry),
                        ));
                    }
                }
            },
            None => {},
        }
        i = i + 1;
    }
    proof {
        assert(views.take(all@.len() as int) =~= views);
    }
    out
}

/// `jj` refuses to work in a workspace whose working copy is stale until
/// `jj workspace update-stale` has run.
pub open spec fn stale_workspace_error(message: Seq<char>) -> bool {
    contains(message, "working copy is stale"@) && contains(message, "jj workspace update-stale"@)
}

pub fn is_stale_workspace_error(message: &str) -> (r: bool)
    ensures
        r == stale_workspace_error(message@),
{
    let m = str_chars(message);
    contains_exec(m.as_slice(), str_chars("working copy is stale").as_slice()) && contains_exec(
        m.as_slice(),
        str_chars("jj workspace update-stale").as_slice(),
    )
}

// ---------------------------------------------------------------------------
// Diff statistics
// ---------------------------------------------------------------------------

#[derive(Clone, Copy, Debug, Default, PartialEq, Eq, Structural)]
pub struct DiffStats {
    pub added_lines: i64,
    pub removed_lines: i64,
}

/// A file header line of a unified diff.
pub open spec fn is_file_header(line: Seq<char>) -> bool {
    starts_with(line, "+++"@) || starts_with(line, "---"@)
}

/// The number of lines that start with `sign` and are not file headers.
pub open spec fn count_changed(lines: Seq<Seq<char>>, sign: char) -> nat
    decreases lines.len(),
{
    if lines.len() == 0 {
        0
    } else {
        let line = lines.last();
        count_changed(lines.drop_last(), sign) + (if !is_file_header(line) && line.len() > 0
            && line[0] == sign {
            1nat
        } else {
            0nat
        })
    }
}

proof fn lemma_count_changed_bound(lines: Seq<Seq<char>>, sign: char)
    ensures
        count_changed(lines, sign) <= lines.len(),
    decreases lines.len(),
{
    if lines.len() > 0 {
        lemma_count_changed_bound(lines.drop_last(), sign);
    }
}

proof fn lemma_lines_acc_len(s: Seq<char>, cur: Seq<char>)
    ensures
        crate::split::lines_acc(s, cur).len() <= s.len() + 1,
    decreases s.len(),
{
    if s.len() > 0 {
        if s[0] == '\n' {
            lemma_lines_acc_len(s.drop_first(), seq![]);
        } else {
            lemma_lines_acc_len(s.drop_first(), cur.push(s[0]));
        }
    }
}

proof fn lemma_count_changed_concat(x: Seq<Seq<char>>, y: Seq<Seq<char>>, sign: char)
    ensures
        count_changed(x + y, sign) == count_changed(x, sign) + count_changed(y, sign),
    decreases y.len(),
{
    if y.len() == 0 {
        assert(x + y =~= x);
    } else {
        assert((x + y).drop_last() =~= x + y.drop_last());
        assert((x + y).last() == y.last());
        lemma_count_changed_concat(x, y.drop_last(), sign);
    }
}

proof fn lemma_lines_acc_concat(a: Seq<char>, b: Seq<char>, cur: Seq<char>)
    requires
        a.len() > 0,
        a.last() == '\n',
    ensures
        crate::split::lines_acc(a + b, cur) == crate::split::lines_acc(a, cur) + lines(b),
    decreases a.len(),
{
    assert((a + b)[0] == a[0]);
    assert((a + b).drop_first() =~= a.drop_first() + b);
    if a.len() == 1 {
        assert(a.drop_first() + b =~= b);
        assert(crate::split::lines_acc(a.drop_first(), seq![]) =~= Seq::<Seq<char>>::empty());
        assert(seq![crate::split::strip_cr(cur)] + Seq::<Seq<char>>::empty() =~= seq![crate::split::strip_cr(cur)]);
    } else if a[0] == '\n' {
        lemma_lines_acc_concat(a.drop_first(), b, seq![]);
        assert(seq![crate::split::strip_cr(cur)] + (crate::split::lines_acc(a.drop_first(), seq![]) + lines(b))
            =~= seq![crate::split::strip_cr(cur)] + crate::split::lines_acc(a.drop_first(), seq![]) + lines(b));
    } else {
        lemma_lines_acc_concat(a.drop_first(), b, cur.push(a[0]));
    }
}

proof fn lemma_lines_acc_one_line(line: Seq<char>, cur: Seq<char>)
    requires
        !line.contains('\n'),
    ensures
        crate::split::lines_acc(line + seq!['\n'], cur) == seq![crate::split::strip_cr(cur + line)],
    decreases line.len(),
{
    let s = line + seq!['\n'];
    if line.len() == 0 {
        assert(cur + line =~= cur);
        assert(s[0] == '\n');
        assert(s.drop_first() =~= Seq::<char>::empty());
        assert(crate::split::lines_acc(s.drop_first(), seq![]) == Seq::<Seq<char>>::empty());
        assert(seq![crate::split::strip_cr(cur)] + Seq::<Seq<char>>::empty() =~= seq![crate::split::strip_cr(cur)]);
    } else {
        assert(s[0] == line[0]);
        assert(line[0] != '\n') by {
            if line[0] == '\n' {
                assert(line.contains('\n'));
            }
        }
        assert(s.drop_first() =~= line.drop_first() + seq!['\n']);
        assert(!line.drop_first().contains('\n')) by {
            if line.drop_first().contains('\n') {
                let j = choose|j: int| 0 <= j < line.drop_first().len() && line.drop_first()[j] == '\n';
                assert(line[j + 1] == '\n');
            }
        }
        lemma_lines_acc_one_line(line.drop_first(), cur.push(line[0]));
        assert(cur.push(line[0]) + line.drop_first() =~= cur + line);
    }
}

/// The counts of a diff add up over its parts: summarizing `a` followed by
/// `b`, where `a` ends a line, counts the changed lines of `a` and of `b`.
/// Each line is counted on its own, whatever lines come before it.
pub proof fn lemma_diff_counts_add_up(a: Seq<char>, b: Seq<char>, sign: char)
    requires
        a.len() > 0,
        a.last() == '\n',
    ensures
        count_changed(lines(a + b), sign) == count_changed(lines(a), sign) + count_changed(lines(b), sign),
{
    lemma_lines_acc_concat(a, b, seq![]);
    lemma_count_changed_concat(lines(a), lines(b), sign);
}

/// A diff of one line counts it as added (or removed) exactly when the line
/// starts with `+` (or `-`) and is not a `+++` or `---` file header.
pub proof fn lemma_diff_count_of_one_line(line: Seq<char>, sign: char)
    requires
        !line.contains('\n'),
        !line.contains('\r'),
    ensures
        count_changed(lines(line + seq!['\n']), sign) == if line.len() > 0 && line[0] == sign && !starts_with(
            line,
            "+++"@,
        ) && !starts_with(line, "---"@) {
            1nat
        } else {
            0nat
        },
{
    lemma_lines_acc_one_line(line, seq![]);
    assert(Seq::<char>::empty() + line =~= line);
    assert(crate::split::strip_cr(line) == line) by {
        if line.len() > 0 && line.last() == '\r' {
            assert(line[line.len() - 1] == '\r');
            assert(line.contains('\r'));
        }
    }
    let one = seq![line];
    assert(lines(line + seq!['\n']) == one);
    assert(one.drop_last() =~= Seq::<Seq<char>>::empty());
    assert(one.last() == line);
    assert(count_changed(one.drop_last(), sign) == 0);
    assert(count_changed(one, sign) == count_changed(one.drop_last(), sign) + (if !is_file_header(line)
        && line.len() > 0 && line[0] == sign {
        1nat
    } else {
        0nat
    }));
}

/// Added and removed lines of a unified diff, not counting the `+++` and
/// `---` file headers.
pub fn summarize_unified_diff(diff_text: &str) -> (r: DiffStats)
    requires
        diff_text@.len() < i64::MAX,
    ensures
        r.added_lines == count_changed(lines(diff_text@), '+'),
        r.removed_lines == count_changed(lines(diff_text@), '-'),
{
    let chars = str_chars(diff_text);
    let all = lines_exec(chars.as_slice());
    let ghost views = all@.map_values(|p: Vec<char>| p@);
    proof {
        lemma_lines_acc_len(diff_text@, seq![]);
    }
    let plus3 = str_chars("+++");
    let minus3 = str_chars("---");
    let mut added: i64 = 0;
    let mut removed: i64 = 0;
    let mut i: usize = 0;
    while i < all.len()
        invariant
            i <= all@.len(),
            all@.len() <= diff_text@.len() + 1,
            diff_text@.len() < i64::MAX,
            views == all@.map_values(|p: Vec<char>| p@),
            plus3@ == "+++"@,
            minus3@ == "---"@,
            added == count_changed(views.take(i as int), '+'),
            removed == count_changed(views.take(i as int), '-'),
        decreases all.len() - i,
    {
        proof {
            assert(views.take(i + 1).drop_last() =~= views.take(i as int));
            lemma_count_changed_bound(views.take(i as int), '+');
            lemma_count_changed_bound(views.take(i as int), '-');
        }
        let line = all[i].as_slice();
        let header = starts_with_exec(line, plus3.as_slice()) || starts_with_exec(line, minus3.as_slice());
        if !header && line.len() > 0 {
            if line[0] == '+' {
                added = added + 1;
            } else if line[0] == '-' {
                removed = removed + 1;
            }
        }
        i = i + 1;
    }
    proof {
        assert(views.take(all@.len() as int) =~= views);
    }
    DiffStats { added_lines: added, removed_lines: removed }
}

// ---------------------------------------------------------------------------
// Counts and bookmarks
// ---------------------------------------------------------------------------

/// The number that `jj log --count` printed; zero for anything that is not
/// a number.
pub open spec fn count_value(output: Seq<char>) -> int {
    match parse_i64(trim(output)) {
        Some(v) => v,
        None => 0,
    }
}

pub fn parse_count(output: &str) -> (r: i64)
    ensures
        r == count_value(output@),
{
    let trimmed = chars_trim(str_chars(output).as_slice());
    match parse_i64_chars(trimmed.as_slice()) {
        Some(v) => v,
        None => 0,
    }
}

/// The bookmark names of a comma-separated list, trimmed, without empty
/// entries.
pub open spec fn bookmark_names(entries: Seq<Seq<char>>) -> Seq<Seq<char>>
    decreases entries.len(),
{
    if entries.len() == 0 {
        seq![]
    } else {
        let previous = bookmark_names(entries.drop_last());
        let name = trim(entries.last());
        if name.len() == 0 {
            previous
        } else {
            previous.push(name)
        }
    }
}

pub open spec fn string_views(v: Seq<String>) -> Seq<Seq<char>> {
    v.map_values(|s: String| s@)
}

pub fn parse_bookmarks(output: &str) -> (r: Vec<String>)
    ensures
        string_views(r@) == bookmark_names(split_char(trim(output@), ',')),
{
    let trimmed = chars_trim(str_chars(output).as_slice());
    let entries = split_exec(trimmed.as_slice(), ',', ',', false);
    let ghost views = entries@.map_values(|p: Vec<char>| p@);
    assert(views == split_char(trim(output@), ','));
    let mut out: Vec<String> = Vec::new();
    let mut i: usize = 0;
    while i < entries.len()
        invariant
            i <= entries@.len(),
            views == entries@.map_values(|p: Vec<char>| p@),
            string_views(out@) == bookmark_names(views.take(i as int)),
        decreases entries.len() - i,
    {
        proof {
            assert(views.take(i + 1).drop_last() =~= views.take(i as int));
        }
        let name = chars_trim(entries[i].as_slice());
        if name.len() > 0 {
            let ghost before = out@;
            out.push(string_from_chars(name.as_slice()));
            proof {
                assert(string_views(out@) =~= string_views(before).push(name@));
            }
        }
        i = i + 1;
    }
    proof {
        assert(views.take(entries@.len() as int) =~= views);
    }
    out
}

/// Exact when the workspace's own revision carries a bookmark, above when
/// only an ancestor does.
pub fn classify_bookmark_relation(exact_bookmarks: &[String], display_bookmarks: &[String]) -> (r:
    WorkspaceBookmarkRelation)
    ensures
        r == (if exact_bookmarks@.len() > 0 {
            WorkspaceBookmarkRelation::Exact
        } else if display_bookmarks@.len() > 0 {
            WorkspaceBookmarkRelation::Above
        } else {
            WorkspaceBookmarkRelation::NoBookmark
        }),
{
    if exact_bookmarks.len() > 0 {
        WorkspaceBookmarkRelation::Exact
    } else if display_bookmarks.len() > 0 {
        WorkspaceBookmarkRelation::Above
    } else {
        WorkspaceBookmarkRelation::NoBookmark
    }
}

/// A workspace's state: conflicted wins; otherwise level with the primary
/// baseline means published (remote) or merged (local), anything else
/// against a baseline is a draft, and without one the state is unknown.
pub open spec fn workspace_state_of(
    has_conflicts: bool,
    primary_relation: BaselineRelationTarget,
    relation: Option<BaselineRelation>,
) -> WorkspaceState {
    if has_conflicts {
        WorkspaceState::Conflicted
    } else {
        match relation {
            Some(r) => {
                let level = r.ahead_count == 0 && r.behind_count == 0;
                match primary_relation {
                    BaselineRelationTarget::Remote => if level {
                        WorkspaceState::Published
                    } else {
                        WorkspaceState::Draft
                    },
                    BaselineRelationTarget::Local => if level {
                        WorkspaceState::MergedLocal
                    } else {
                        WorkspaceState::Draft
                    },
                    BaselineRelationTarget::NoBaseline => WorkspaceState::Unknown,
                }
            },
            None => WorkspaceState::Unknown,
        }
    }
}

pub open spec fn opt_ref(r: Option<&BaselineRelation>) -> Option<BaselineRelation> {
    match r {
        Some(x) => Some(*x),
        None => None,
    }
}

pub fn classify_workspace_state(
    has_conflicts: bool,
    primary_relation: BaselineRelationTarget,
    relation: Option<&BaselineRelation>,
) -> (r: WorkspaceState)
    ensures
        r == workspace_state_of(has_conflicts, primary_relation, opt_ref(relation)),
{
    if has_conflicts {
        return WorkspaceState::Conflicted;
    }
    match relation {
        Some(r) => {
            let level = r.ahead_count == 0 && r.behind_count == 0;
            match primary_relation {
                BaselineRelationTarget::Remote => if level {
                    WorkspaceState::Published
                } else {
                    WorkspaceState::Draft
                },
                BaselineRelationTarget::Local => if level {
                    WorkspaceState::MergedLocal
                } else {
                    WorkspaceState::Draft
                },
                BaselineRelationTarget::NoBaseline => WorkspaceState::Unknown,
            }
        },
        None => WorkspaceState::Unknown,
    }
}

/// The baseline a workspace is judged against: the remote one for the
/// default workspace when it has one; otherwise the local one, then the
/// remote one.
pub open spec fn primary_target(workspace_name: Seq<char>, has_local: bool, has_remote: bool) -> BaselineRelationTarget {
    if workspace_name == "default"@ && has_remote {
        BaselineRelationTarget::Remote
    } else if has_local {
        BaselineRelationTarget::Local
    } else if has_remote {
        BaselineRelationTarget::Remote
    } else {
        BaselineRelationTarget::NoBaseline
    }
}

pub fn primary_relation(
    workspace_name: &str,
    local_relation: &Option<BaselineRelation>,
    remote_relation: &Option<BaselineRelation>,
) -> (r: BaselineRelationTarget)
    ensures
        r == primary_target(workspace_name@, local_relation is Some, remote_relation is Some),
{
    if is_word(str_chars(workspace_name).as_slice(), "default") && remote_relation.is_some() {
        BaselineRelationTarget::Remote
    } else if local_relation.is_some() {
        BaselineRelationTarget::Local
    } else if remote_relation.is_some() {
        BaselineRelationTarget::Remote
    } else {
        BaselineRelationTarget::NoBaseline
    }
}

/// `value` as a revset string literal: in double quotes, with backslashes
/// and double quotes escaped.
pub open spec fn revset_literal(value: Seq<char>) -> Seq<char> {
    seq!['"'] + escape_quotes(value) + seq!['"']
}

pub fn revset_string_literal(value: &str) -> (r: String)
    ensures
        r@ == revset_literal(value@),
{
    let chars = str_chars(value);
    let mut out: Vec<char> = Vec::new();
    out.push('"');
    let mut i: usize = 0;
    while i < chars.len()
        invariant
            i <= chars@.len(),
            chars@ == value@,
            out@ == seq!['"'] + escape_quotes(value@.take(i as int)),
        decreases chars.len() - i,
    {
        let c = chars[i];
        proof {
            assert(value@.take(i + 1).drop_last() =~= value@.take(i as int));
        }
        if c == '\\' || c == '"' {
            out.push('\\');
        }
        out.push(c);
        proof {
            assert(out@ =~= seq!['"'] + escape_quotes(value@.take(i + 1)));
        }
        i = i + 1;
    }
    out.push('"');
    proof {
        assert(value@.take(chars@.len() as int) =~= value@);
    }
    string_from_chars(out.as_slice())
}

// ---------------------------------------------------------------------------
// Workspace ids
// ---------------------------------------------------------------------------

/// The bytes hashed for a workspace id: the root path, a zero byte, the
/// workspace name.
pub open spec fn workspace_key_bytes(root_path: Seq<char>, workspace_name: Seq<char>) -> Seq<u8> {
    vstd::utf8::encode_utf8(root_path) + seq![0u8] + vstd::utf8::encode_utf8(workspace_name)
}

/// `workspace-` and sixteen lowercase hexadecimal digits of the FNV-1a hash
/// of the workspace's key bytes: stable for a root path and a name.
pub open spec fn workspace_id(root_path: Seq<char>, workspace_name: Seq<char>) -> Seq<char> {
    "workspace-"@ + hex_fixed(fnv(workspace_key_bytes(root_path, workspace_name), FNV_OFFSET) as nat, 16)
}

pub fn workspace_id_for(root_path: &str, workspace_name: &str) -> (r: String)
    ensures
        r@ == workspace_id(root_path@, workspace_name@),
{
    let mut bytes = vstd::slice::slice_to_vec(root_path.as_bytes());
    bytes.push(0u8);
    let name_bytes = workspace_name.as_bytes();
    let mut i: usize = 0;
    let ghost start = bytes@;
    while i < name_bytes.len()
        invariant
            i <= name_bytes@.len(),
            bytes@ == start + name_bytes@.take(i as int),
        decreases name_bytes.len() - i,
    {
        bytes.push(name_bytes[i]);
        proof {
            assert(name_bytes@.take(i + 1) =~= name_bytes@.take(i as int).push(name_bytes@[i as int]));
        }
        i = i + 1;
    }
    proof {
        assert(name_bytes@.take(name_bytes@.len() as int) =~= name_bytes@);
        assert(bytes@ =~= workspace_key_bytes(root_path@, workspace_name@));
    }
    let hash = fnv1a_bytes(bytes.as_slice());
    let mut out = str_chars("workspace-");
    push_all(&mut out, u64_hex16(hash).as_slice());
    string_from_chars(out.as_slice())
}

// ---------------------------------------------------------------------------
// Remote bookmarks
// ---------------------------------------------------------------------------

/// The revset of the tracked remote bookmarks named exactly `bookmark`.
pub open spec fn remote_bookmark_revset_text(bookmark: Seq<char>) -> Seq<char> {
    "tracked_remote_bookmarks(exact:"@ + revset_literal(bookmark) + ")"@
}

pub fn remote_bookmark_revset(bookmark: &str) -> (r: String)
    ensures
        r@ == remote_bookmark_revset_text(bookmark@),
{
    let mut out = str_chars("tracked_remote_bookmarks(exact:");
    push_all(&mut out, str_chars(revset_string_literal(bookmark).as_str()).as_slice());
    push_all(&mut out, str_chars(")").as_slice());
    string_from_chars(out.as_slice())
}

/// Commits in the workspace that `base` lacks, or the reverse; empty
/// commits are not counted.
pub open spec fn ahead_revset_text(base: Seq<char>) -> Seq<char> {
    base + "..@ ~ empty()"@
}

pub open spec fn behind_revset_text(base: Seq<char>) -> Seq<char> {
    "@.."@ + base + " ~ empty()"@
}

pub fn ahead_revset(base: &str) -> (r: String)
    ensures
        r@ == ahead_revset_text(base@),
{
    let mut out = str_chars(base);
    push_all(&mut out, str_chars("..@ ~ empty()").as_slice());
    string_from_chars(out.as_slice())
}

pub fn behind_revset(base: &str) -> (r: String)
    ensures
        r@ == behind_revset_text(base@),
{
    let mut out = str_chars("@..");
    push_all(&mut out, str_chars(base).as_slice());
    push_all(&mut out, str_chars(" ~ empty()").as_slice());
    string_from_chars(out.as_slice())
}

/// `name@remote` for each line `name<tab>remote` of the output whose name is
/// `bookmark`, in order.
pub open spec fn remote_matches(lines: Seq<Seq<char>>, bookmark: Seq<char>) -> Seq<Seq<char>>
    decreases lines.len(),
{
    if lines.len() == 0 {
        seq![]
    } else {
        let previous = remote_matches(lines.drop_last(), bookmark);
        match split_once(lines.last(), '\t') {
            Some((name, remote)) => if name == bookmark {
                previous.push(name + seq!['@'] + remote)
            } else {
                previous
            },
            None => previous,
        }
    }
}

/// The first match that is not the git remote, or else none.
pub open spec fn first_non_git(matches: Seq<Seq<char>>) -> Option<Seq<char>>
    decreases matches.len(),
{
    if matches.len() == 0 {
        None
    } else if !ends_with(matches[0], "@git"@) {
        Some(matches[0])
    } else {
        first_non_git(matches.drop_first())
    }
}

/// The remote of a tracked bookmark, as `name@remote`, from the listing of
/// its remote bookmarks; a remote other than `git` is preferred.
pub open spec fn remote_detail(output: Seq<char>, bookmark: Seq<char>) -> Option<Seq<char>> {
    let matches = remote_matches(lines(output), bookmark);
    match first_non_git(matches) {
        Some(m) => Some(m),
        None => if matches.len() > 0 {
            Some(matches[0])
        } else {
            None
        },
    }
}

pub fn remote_bookmark_detail_from_output(output: &str, bookmark: &str) -> (r: Option<String>)
    ensures
        opt_view(r) == remote_detail(output@, bookmark@),
{
    let chars = str_chars(output);
    let all = lines_exec(chars.as_slice());
    let wanted = str_chars(bookmark);
    let ghost views = all@.map_values(|p: Vec<char>| p@);
    let mut matches: Vec<Vec<char>> = Vec::new();
    let mut i: usize = 0;
    while i < all.len()
        invariant
            i <= all@.len(),
            wanted@ == bookmark@,
            views == all@.map_values(|p: Vec<char>| p@),
            matches@.map_values(|p: Vec<char>| p@) == remote_matches(views.take(i as int), bookmark@),
        decreases all.len() - i,
    {
        proof {
            assert(views.take(i + 1).drop_last() =~= views.take(i as int));
            assert(views.take(i + 1).last() == all@[i as int]@);
        }
        match split_once_chars(all[i].as_slice(), '\t') {
            Some((name, remote)) => {
                if crate::text::chars_eq(name.as_slice(), wanted.as_slice()) {
                    let ghost nv = name@;
                    let mut m = name;
                    m.push('@');
                    push_all(&mut m, remote.as_slice());
                    assert(m@ =~= nv + seq!['@'] + remote@);
                    let ghost before = matches@.map_values(|p: Vec<char>| p@);
                    let ghost mv = m@;
                    matches.push(m);
                    proof {
                        assert(matches@.map_values(|p: Vec<char>| p@) =~= before.push(mv));
                    }
                }
            },
            None => {},
        }
        i = i + 1;
    }
    proof {
        assert(views.take(all@.len() as int) =~= views);
    }
    let ghost ms = matches@.map_values(|p: Vec<char>| p@);
    assert(views == lines(output@));
    assert(ms == remote_matches(lines(output@), bookmark@));
    let git = str_chars("@git");
    let mut k: usize = 0;
    proof {
        assert(ms.skip(0) =~= ms);
    }
    while k < matches.len()
        invariant
            k <= matches@.len(),
            ms == matches@.map_values(|p: Vec<char>| p@),
            ms == remote_matches(lines(output@), bookmark@),
            git@ == "@git"@,
            first_non_git(ms) == first_non_git(ms.skip(k as int)),
        decreases matches.len() - k,
    {
        proof {
            assert(ms.skip(k as int)[0] == matches@[k as int]@);
            assert(ms.skip(k as int).drop_first() =~= ms.skip(k + 1));
        }
        if !ends_with_exec(matches[k].as_slice(), git.as_slice()) {
            return Some(string_from_chars(matches[k].as_slice()));
        }
        k = k + 1;
    }
    if matches.len() > 0 {
        Some(string_from_chars(matches[0].as_slice()))
    } else {
        None
    }
}

} // verus!
