//! `cvg fleet` and `cvg dispatch`: executor modes, repository metadata
//! detection, and the branch bookkeeping of `fleet cleanup`.
use crate::text::{
    chars_of, line_ranges, lines, matches_at_exec, owned, push_str, range_of, starts_with,
    str_eq, string_of, sub_vec, trim, trim_bounds,
};
use vstd::prelude::*;
use crate::numeric::{dec, push_dec};
use crate::cells::{padded, push_padded};
use crate::text::{line_texts, lemma_line_texts_push, lemma_map_take_push, opt_text, or_text, push_or};

verus! {

/// Dispatch executor mode.
#[derive(Clone, Copy, Debug, PartialEq, Eq, Structural)]
pub enum ExecutorMode {
    /// Run the daemon's configured executor.
    Default,
    /// Tracker-only dry dispatch: do not spawn workers.
    TrackerOnly,
}

impl ExecutorMode {
    /// The wire value of the mode.
    pub open spec fn wire_text(self) -> Seq<char> {
        match self {
            ExecutorMode::Default => "default"@,
            ExecutorMode::TrackerOnly => "none"@,
        }
    }

    /// The value sent in the `executor` field of a dispatch request.
    pub fn as_wire(self) -> (r: &'static str)
        ensures
            r@ == self.wire_text(),
            self is Default ==> r@ == "default"@,
            self is TrackerOnly ==> r@ == "none"@,
    {
        match self {
            ExecutorMode::Default => "default",
            ExecutorMode::TrackerOnly => "none",
        }
    }
}

/// `cvg fleet plan` subcommands.
pub enum FleetPlanCommand {
    /// Create a new fleet plan.
    Create { title: String, scope: String },
    /// List fleet plans (newest first), optionally for one scope.
    Ls { scope: Option<String> },
    /// Show a fleet plan with its per-repo links.
    Show { id: String },
    /// Link a per-repo plan into a fleet plan.
    LinkRepo { id: String, repo: String, repo_plan_id: String },
    /// Add a task to the per-repo plan linked to a fleet plan.
    AddTask {
        id: String,
        repo: String,
        title: String,
        description: Option<String>,
        wave: i64,
        sequence: i64,
        evidence_required: Vec<String>,
    },
}

/// Which marker files a repository root holds.
pub struct RepoMarkers {
    pub cargo_toml: bool,
    pub package_json: bool,
    pub pyproject_toml: bool,
    pub setup_py: bool,
}

/// The primary language guessed from the marker files: `rust` for a
/// `Cargo.toml`, else `typescript` for a `package.json`, else `python` for
/// a `pyproject.toml` or `setup.py`, else `unknown`.
pub open spec fn language_text(m: RepoMarkers) -> Seq<char> {
    if m.cargo_toml {
        "rust"@
    } else if m.package_json {
        "typescript"@
    } else if m.pyproject_toml || m.setup_py {
        "python"@
    } else {
        "unknown"@
    }
}

/// Each marker file names its language, Cargo first, then npm, then
/// Python (either `pyproject.toml` or `setup.py` suffices); a repository
/// with none of them is of unknown language.
pub proof fn markers_name_their_language(m: RepoMarkers)
    ensures
        m.cargo_toml ==> language_text(m) == "rust"@,
        !m.cargo_toml && m.package_json ==> language_text(m) == "typescript"@,
        !m.cargo_toml && !m.package_json && m.pyproject_toml ==> language_text(m) == "python"@,
        !m.cargo_toml && !m.package_json && m.setup_py ==> language_text(m) == "python"@,
        !m.cargo_toml && !m.package_json && !m.pyproject_toml && !m.setup_py ==> language_text(m)
            == "unknown"@,
{
}

/// Guesses a repository's primary language from its marker files.
pub fn detect_language(m: &RepoMarkers) -> (r: String)
    ensures
        r@ == language_text(*m),
        m.cargo_toml ==> r@ == "rust"@,
        !m.cargo_toml && m.package_json ==> r@ == "typescript"@,
        !m.cargo_toml && !m.package_json && (m.pyproject_toml || m.setup_py) ==> r@ == "python"@,
        !m.cargo_toml && !m.package_json && !m.pyproject_toml && !m.setup_py ==> r@ == "unknown"@,
{
    if m.cargo_toml {
        owned("rust")
    } else if m.package_json {
        owned("typescript")
    } else if m.pyproject_toml || m.setup_py {
        owned("python")
    } else {
        owned("unknown")
    }
}

/// The parser backend for a language: `syn` for Rust, `tree-sitter`
/// otherwise.
pub open spec fn parser_text(language: Seq<char>) -> Seq<char> {
    if language == "rust"@ {
        "syn"@
    } else {
        "tree-sitter"@
    }
}

/// The default parser backend for a language.
pub fn default_parser(language: &str) -> (r: String)
    ensures
        r@ == parser_text(language@),
        language@ == "rust"@ ==> r@ == "syn"@,
        language@ != "rust"@ ==> r@ == "tree-sitter"@,
{
    if str_eq(language, "rust") {
        owned("syn")
    } else {
        owned("tree-sitter")
    }
}

// ---------------------------------------------------------------------
// convergio.yaml
// ---------------------------------------------------------------------

/// Number of leading `c` characters.
pub open spec fn lead_count(s: Seq<char>, c: char) -> int
    decreases s.len(),
{
    if s.len() > 0 && s[0] == c {
        1 + lead_count(s.drop_first(), c)
    } else {
        0
    }
}

/// Number of characters left when trailing `c` characters are removed.
pub open spec fn keep_count(s: Seq<char>, c: char) -> int
    decreases s.len(),
{
    if s.len() > 0 && s.last() == c {
        keep_count(s.drop_last(), c)
    } else {
        s.len() as int
    }
}

/// `str::trim_matches(c)`: `s` without leading and trailing `c`.
pub open spec fn strip_char(s: Seq<char>, c: char) -> Seq<char> {
    let t = s.skip(lead_count(s, c));
    t.take(keep_count(t, c))
}

proof fn lemma_lead_count(s: Seq<char>, c: char)
    ensures
        0 <= lead_count(s, c) <= s.len(),
        forall|k: int| 0 <= k < lead_count(s, c) ==> #[trigger] s[k] == c,
        lead_count(s, c) < s.len() ==> s[lead_count(s, c)] != c,
    decreases s.len(),
{
    if s.len() > 0 && s[0] == c {
        lemma_lead_count(s.drop_first(), c);
        assert forall|k: int| 0 <= k < lead_count(s, c) implies #[trigger] s[k] == c by {
            if k > 0 {
                assert(s[k] == s.drop_first()[k - 1]);
            }
        }
    }
}

proof fn lemma_keep_count(s: Seq<char>, c: char)
    ensures
        0 <= keep_count(s, c) <= s.len(),
        forall|k: int| keep_count(s, c) <= k < s.len() ==> #[trigger] s[k] == c,
        keep_count(s, c) > 0 ==> s[keep_count(s, c) - 1] != c,
    decreases s.len(),
{
    if s.len() > 0 && s.last() == c {
        lemma_keep_count(s.drop_last(), c);
        assert forall|k: int| keep_count(s, c) <= k < s.len() implies #[trigger] s[k] == c by {
            if k < s.len() - 1 {
                assert(s[k] == s.drop_last()[k]);
            }
        }
    }
}

/// `v` without leading and trailing `c`.
fn strip_char_exec(v: &Vec<char>, c: char) -> (r: Vec<char>)
    ensures
        r@ == strip_char(v@, c),
{
    let mut lo: usize = 0;
    while lo < v.len() && v[lo] == c
        invariant
            lo <= v@.len(),
            forall|k: int| 0 <= k < lo ==> #[trigger] v@[k] == c,
        decreases v@.len() - lo,
    {
        lo = lo + 1;
    }
    let mut hi: usize = v.len();
    while hi > lo && v[hi - 1] == c
        invariant
            lo <= hi <= v@.len(),
            forall|k: int| hi <= k < v@.len() ==> #[trigger] v@[k] == c,
        decreases hi,
    {
        hi = hi - 1;
    }
    proof {
        lemma_lead_count(v@, c);
        if lead_count(v@, c) < lo {
            assert(v@[lead_count(v@, c)] == c);
        }
        if lead_count(v@, c) > lo {
            assert(v@[lo as int] == c);
        }
        let t = v@.skip(lo as int);
        lemma_keep_count(t, c);
        assert forall|k: int| hi - lo <= k < t.len() implies #[trigger] t[k] == c by {
            assert(t[k] == v@[lo + k]);
        }
        if keep_count(t, c) < hi - lo {
            assert(t[hi - lo - 1] == v@[hi - 1]);
        }
        if keep_count(t, c) > hi - lo {
            assert(t[keep_count(t, c) - 1] == c);
        }
        assert(strip_char(v@, c) =~= v@.subrange(lo as int, hi as int));
    }
    sub_vec(v, lo, hi)
}

/// The value of a `derives_from:` line: the text after the key, trimmed,
/// stripped of double then single quotes, trimmed again.
pub open spec fn derives_value(line: Seq<char>) -> Seq<char> {
    trim(strip_char(strip_char(trim(line.skip("derives_from:"@.len() as int)), '"'), '\''))
}

/// The first non-empty `derives_from:` value among `ls`.
pub open spec fn first_derives(ls: Seq<Seq<char>>) -> Option<Seq<char>>
    decreases ls.len(),
{
    if ls.len() == 0 {
        None
    } else if starts_with(trim(ls[0]), "derives_from:"@) && derives_value(trim(ls[0])).len() > 0 {
        Some(derives_value(trim(ls[0])))
    } else {
        first_derives(ls.drop_first())
    }
}

/// The parent repo declared by a `convergio.yaml`: the first non-empty
/// `derives_from:` value.
pub fn parse_derives_from(content: &str) -> (r: Option<String>)
    ensures
        r matches Some(s) ==> first_derives(lines(content@)) == Some(s@),
        r is None ==> first_derives(lines(content@)) is None,
{
    let v = chars_of(content);
    let ranges = line_ranges(&v);
    let ghost ls = lines(v@);
    let key = chars_of("derives_from:");
    let mut i: usize = 0;
    proof {
        assert(ls.skip(0) =~= ls);
    }
    while i < ranges.len()
        invariant
            i <= ranges@.len(),
            ranges@.len() == ls.len(),
            ls == lines(v@),
            v@ == content@,
            key@ == "derives_from:"@,
            forall|m: int|
                0 <= m < ranges@.len() ==> #[trigger] ranges@[m].0 <= ranges@[m].1 <= v@.len()
                    && range_of(v@, ranges@[m]) == ls[m],
            first_derives(ls) == first_derives(ls.skip(i as int)),
        decreases ranges@.len() - i,
    {
        let (a, b) = ranges[i];
        let raw = sub_vec(&v, a, b);
        let (x, y) = trim_bounds(&raw);
        let line = sub_vec(&raw, x, y);
        proof {
            assert(range_of(v@, ranges@[i as int]) == ls[i as int]);
            assert(ls.skip(i as int)[0] == raw@);
            assert(ls.skip(i as int).drop_first() =~= ls.skip(i + 1));
        }
        if matches_at_exec(&line, &key, 0) {
            proof {
                assert(line@.take(key@.len() as int) =~= line@.subrange(0, key@.len() as int));
            }
            let rest = sub_vec(&line, key.len(), line.len());
            let (p, q) = trim_bounds(&rest);
            let t1 = sub_vec(&rest, p, q);
            let t2 = strip_char_exec(&t1, '"');
            let t3 = strip_char_exec(&t2, '\'');
            let (m, n) = trim_bounds(&t3);
            let value = sub_vec(&t3, m, n);
            proof {
                assert(rest@ =~= line@.skip(key@.len() as int));
                assert(value@ == derives_value(line@));
            }
            if value.len() > 0 {
                return Some(string_of(&value));
            }
        } else {
            proof {
                if starts_with(line@, key@) {
                    assert(line@.take(key@.len() as int) =~= line@.subrange(0, key@.len() as int));
                }
            }
        }
        i = i + 1;
    }
    proof {
        assert(ls.skip(ls.len() as int) =~= Seq::<Seq<char>>::empty());
    }
    None
}

// ---------------------------------------------------------------------
// fleet cleanup
// ---------------------------------------------------------------------

/// `str::trim_start_matches(p)`: `s` without every leading repetition of
/// `p`.
pub open spec fn strip_prefix_all(s: Seq<char>, p: Seq<char>) -> Seq<char>
    decreases s.len(),
{
    if p.len() > 0 && starts_with(s, p) {
        strip_prefix_all(s.skip(p.len() as int), p)
    } else {
        s
    }
}

/// The branch an agent worktree directory tracks: `agent/<rest>` for a
/// directory named `agent-<rest>` (every leading `agent-` removed); no
/// branch for other directories.
pub open spec fn worktree_branch_text(name: Seq<char>) -> Option<Seq<char>> {
    if starts_with(name, "agent-"@) {
        Some("agent/"@ + strip_prefix_all(name, "agent-"@))
    } else {
        None
    }
}

/// The `agent/*` branch tracked by a directory of the agent worktrees
/// directory, if the directory is an agent worktree.
pub fn worktree_branch(name: &str) -> (r: Option<String>)
    ensures
        r matches Some(b) ==> worktree_branch_text(name@) == Some(b@),
        r is None ==> worktree_branch_text(name@) is None,
{
    let v = chars_of(name);
    let p = chars_of("agent-");
    if !matches_at_exec(&v, &p, 0) {
        proof {
            if starts_with(v@, p@) {
                assert(v@.take(p@.len() as int) =~= v@.subrange(0, p@.len() as int));
            }
        }
        return None;
    }
    proof {
        assert(v@.take(p@.len() as int) =~= v@.subrange(0, p@.len() as int));
    }
    let mut cur = v;
    let ghost whole = name@;
    while p.len() > 0 && matches_at_exec(&cur, &p, 0)
        invariant
            strip_prefix_all(whole, p@) == strip_prefix_all(cur@, p@),
        decreases cur@.len(),
    {
        let ghost prev = cur@;
        proof {
            assert(cur@.take(p@.len() as int) =~= cur@.subrange(0, p@.len() as int));
        }
        cur = sub_vec(&cur, p.len(), cur.len());
        proof {
            assert(cur@ =~= prev.skip(p@.len() as int));
        }
    }
    proof {
        if p@.len() > 0 && starts_with(cur@, p@) {
            assert(cur@.take(p@.len() as int) =~= cur@.subrange(0, p@.len() as int));
        }
    }
    let mut b = owned("agent/");
    let rest = string_of(&cur);
    push_str(&mut b, rest.as_str());
    Some(b)
}

/// The non-empty, trimmed lines of a `git for-each-ref` listing: the local
/// branches to check against `origin`.
pub open spec fn listed_branches(ls: Seq<Seq<char>>) -> Seq<Seq<char>> {
    ls.map_values(|l: Seq<char>| trim(l)).filter(|b: Seq<char>| b.len() > 0)
}

/// The local `agent/*` branches named by a `git for-each-ref` listing.
pub fn branches_of_listing(listing: &str) -> (r: Vec<String>)
    ensures
        r@.map_values(|s: String| s@) == listed_branches(lines(listing@)),
{
    let v = chars_of(listing);
    let ranges = line_ranges(&v);
    let ghost ls = lines(v@);
    let ghost trimmed = ls.map_values(|l: Seq<char>| trim(l));
    let mut r: Vec<String> = Vec::new();
    let mut i: usize = 0;
    while i < ranges.len()
        invariant
            i <= ranges@.len(),
            ranges@.len() == ls.len(),
            ls == lines(v@),
            v@ == listing@,
            trimmed == ls.map_values(|l: Seq<char>| trim(l)),
            forall|m: int|
                0 <= m < ranges@.len() ==> #[trigger] ranges@[m].0 <= ranges@[m].1 <= v@.len()
                    && range_of(v@, ranges@[m]) == ls[m],
            r@.map_values(|s: String| s@) == trimmed.take(i as int).filter(
                |b: Seq<char>| b.len() > 0,
            ),
        decreases ranges@.len() - i,
    {
        let (a, b) = ranges[i];
        let raw = sub_vec(&v, a, b);
        let (x, y) = trim_bounds(&raw);
        let ghost before = r@;
        proof {
            assert(range_of(v@, ranges@[i as int]) == ls[i as int]);
            assert(trimmed.take(i + 1).drop_last() =~= trimmed.take(i as int));
            assert(trimmed.take(i + 1).last() == trim(raw@));
            reveal(Seq::filter);
        }
        if y > x {
            let s = crate::text::string_of_range(&raw, x, y);
            r.push(s);
            proof {
                assert(r@.map_values(|s: String| s@) =~= before.map_values(|s: String| s@).push(
                    trim(raw@),
                ));
            }
        }
        i = i + 1;
    }
    proof {
        assert(trimmed.take(ranges@.len() as int) =~= trimmed);
    }
    r
}

// ---------------------------------------------------------------------
// `cvg fleet cleanup` decisions
// ---------------------------------------------------------------------

/// A directory at the repository root where an agent tool keeps its own
/// state (and its `worktrees/`): a dot-directory other than `.git`.
pub open spec fn agent_home(name: Seq<char>) -> bool {
    name.len() > 1 && name[0] == '.' && name != ".git"@
}

/// Is the root directory `name` an agent tool's own directory?
pub fn is_agent_home(name: &str) -> (r: bool)
    ensures
        r == agent_home(name@),
{
    let v = chars_of(name);
    if v.len() <= 1 || v[0] != '.' {
        return false;
    }
    !str_eq(name, ".git")
}

/// `<root>/<home>/worktrees`: where the agent tool `home` keeps its
/// worktrees.
pub fn agent_worktrees_dir(root: &str, home: &str) -> (r: String)
    ensures
        r@ == root@ + "/"@ + home@ + "/worktrees"@,
{
    let mut r = owned(root);
    push_str(&mut r, "/");
    push_str(&mut r, home);
    push_str(&mut r, "/worktrees");
    proof {
        assert(r@ =~= root@ + "/"@ + home@ + "/worktrees"@);
    }
    r
}

/// What the cleanup sweep has just learnt: that it starts, or one
/// candidate with whether its branch still exists on `origin`.
pub enum CleanupEvent {
    /// The sweep starts.
    Start,
    /// A directory of the agent worktrees directory: its name, its path,
    /// and whether the branch it tracks is still on `origin` (only asked
    /// for agent worktrees).
    Worktree { name: String, path: String, remote_exists: bool },
    /// A local `agent/*` branch and whether `origin` still has it.
    Branch { name: String, remote_exists: bool },
}

/// What the sweep does next.
pub enum CleanupAction {
    /// `git worktree prune`.
    Prune,
    /// `git worktree remove --force <path>`, then `git branch -D <branch>`.
    RemoveWorktree { path: String, branch: String },
    /// `git branch -D <branch>`.
    DeleteBranch { branch: String },
    /// Nothing.
    Nothing,
}

/// Does the event name an orphan: an agent worktree or branch whose
/// branch is gone from `origin`?
pub open spec fn cleanup_candidate(e: CleanupEvent) -> bool {
    match e {
        CleanupEvent::Start => false,
        CleanupEvent::Worktree { name, path, remote_exists } => worktree_branch_text(name@) is Some
            && !remote_exists,
        CleanupEvent::Branch { name, remote_exists } => !remote_exists,
    }
}

/// One step of `cvg fleet cleanup`: whether the event's candidate goes in
/// the report, and what to do about it. A dry run records the same
/// candidates but never touches the repository.
pub fn cleanup_step(dry_run: bool, e: &CleanupEvent) -> (r: (bool, CleanupAction))
    ensures
        r.0 == cleanup_candidate(*e),
        dry_run ==> r.1 is Nothing,
        (r.1 is Prune) <==> (!dry_run && *e is Start),
        (r.1 is RemoveWorktree) <==> (r.0 && !dry_run && *e is Worktree),
        (r.1 is DeleteBranch) <==> (r.0 && !dry_run && *e is Branch),
        r.1 matches CleanupAction::RemoveWorktree { path, branch } ==> (*e matches CleanupEvent::Worktree {
            name,
            path: p,
            ..
        } && path@ == p@ && worktree_branch_text(name@) == Some(branch@)),
        r.1 matches CleanupAction::DeleteBranch { branch } ==> (*e matches CleanupEvent::Branch {
            name,
            ..
        } && branch@ == name@),
{
    match e {
        CleanupEvent::Start => {
            if dry_run {
                (false, CleanupAction::Nothing)
            } else {
                (false, CleanupAction::Prune)
            }
        },
        CleanupEvent::Worktree { name, path, remote_exists } => {
            match worktree_branch(name.as_str()) {
                None => (false, CleanupAction::Nothing),
                Some(branch) => {
                    if *remote_exists {
                        (false, CleanupAction::Nothing)
                    } else if dry_run {
                        (true, CleanupAction::Nothing)
                    } else {
                        (true, CleanupAction::RemoveWorktree { path: path.clone(), branch })
                    }
                },
            }
        },
        CleanupEvent::Branch { name, remote_exists } => {
            if *remote_exists {
                (false, CleanupAction::Nothing)
            } else if dry_run {
                (true, CleanupAction::Nothing)
            } else {
                (true, CleanupAction::DeleteBranch { branch: name.clone() })
            }
        },
    }
}

// ---------------------------------------------------------------------
// `cvg fleet cleanup` output
// ---------------------------------------------------------------------

/// Appends one line per item: `prefix` followed by the item.
fn push_prefixed(lines: &mut Vec<String>, prefix: &str, items: &Vec<String>)
    ensures
        line_texts(final(lines)@) == line_texts(old(lines)@) + items@.map_values(
            |x: String| prefix@ + x@,
        ),
{
    let mut i: usize = 0;
    while i < items.len()
        invariant
            i <= items@.len(),
            line_texts(lines@) == line_texts(old(lines)@) + items@.take(i as int).map_values(
                |x: String| prefix@ + x@,
            ),
        decreases items@.len() - i,
    {
        let mut l = owned(prefix);
        push_str(&mut l, items[i].as_str());
        let ghost prev = lines@;
        lines.push(l);
        proof {
            lemma_line_texts_push(prev, l);
            lemma_map_take_push(items@, i as int, |x: String| prefix@ + x@);
            assert(line_texts(lines@) =~= line_texts(old(lines)@) + items@.take(i + 1).map_values(
                |x: String| prefix@ + x@,
            ));
        }
        i = i + 1;
    }
    proof {
        assert(items@.take(items@.len() as int) =~= items@);
    }
}

/// The plain output of a cleanup: `worktree <path>` per orphan worktree,
/// then `branch <name>` per stale branch.
pub open spec fn cleanup_plain_text(orphans: Seq<String>, stale: Seq<String>) -> Seq<Seq<char>> {
    orphans.map_values(|x: String| "worktree "@ + x@) + stale.map_values(|x: String| "branch "@ + x@)
}

/// The plain output of `cvg fleet cleanup`.
pub fn cleanup_plain_lines(orphans: &Vec<String>, stale: &Vec<String>) -> (lines: Vec<String>)
    ensures
        line_texts(lines@) == cleanup_plain_text(orphans@, stale@),
{
    let mut lines: Vec<String> = Vec::new();
    proof {
        assert(line_texts(lines@) =~= Seq::<Seq<char>>::empty());
    }
    push_prefixed(&mut lines, "worktree ", orphans);
    push_prefixed(&mut lines, "branch ", stale);
    proof {
        assert(line_texts(lines@) =~= cleanup_plain_text(orphans@, stale@));
    }
    lines
}

/// The human output of a cleanup: a summary (what would be or was
/// removed), the worktrees, the branches, whether `git worktree prune`
/// ran, and a note on the daemon's share of the work.
pub open spec fn cleanup_human_text(
    orphans: Seq<String>,
    stale: Seq<String>,
    prune_ran: bool,
    dry_run: bool,
) -> Seq<Seq<char>> {
    seq![
        "cvg fleet cleanup — "@ + (if dry_run {
            "would remove"@
        } else {
            "removed"@
        }) + " "@ + dec(orphans.len()) + " orphan worktree(s), "@ + dec(stale.len())
            + " stale branch(es)."@,
    ] + orphans.map_values(|x: String| "  worktree  "@ + x@) + stale.map_values(
        |x: String| "  branch    "@ + x@,
    ) + (if !dry_run && prune_ran {
        seq!["  (git worktree prune ran)"@]
    } else {
        Seq::empty()
    }) + seq!["  note: agent_processes rows in state.db are reconciled by the daemon reaper."@]
}

/// The human output of `cvg fleet cleanup`.
pub fn cleanup_human_lines(orphans: &Vec<String>, stale: &Vec<String>, prune_ran: bool, dry_run: bool) -> (lines: Vec<String>)
    ensures
        line_texts(lines@) == cleanup_human_text(orphans@, stale@, prune_ran, dry_run),
{
    let mut head = owned("cvg fleet cleanup — ");
    if dry_run {
        push_str(&mut head, "would remove");
    } else {
        push_str(&mut head, "removed");
    }
    push_str(&mut head, " ");
    push_dec(&mut head, orphans.len() as u64);
    push_str(&mut head, " orphan worktree(s), ");
    push_dec(&mut head, stale.len() as u64);
    push_str(&mut head, " stale branch(es).");
    let mut lines: Vec<String> = Vec::new();
    lines.push(head);
    proof {
        assert(line_texts(lines@) =~= seq![head@]);
    }
    push_prefixed(&mut lines, "  worktree  ", orphans);
    push_prefixed(&mut lines, "  branch    ", stale);
    let ghost mid = line_texts(lines@);
    if !dry_run && prune_ran {
        let l = owned("  (git worktree prune ran)");
        let ghost prev = lines@;
        lines.push(l);
        proof {
            lemma_line_texts_push(prev, l);
        }
    }
    let ghost before_note = lines@;
    let note = owned("  note: agent_processes rows in state.db are reconciled by the daemon reaper.");
    lines.push(note);
    proof {
        lemma_line_texts_push(before_note, note);
        assert(line_texts(lines@) =~= cleanup_human_text(orphans@, stale@, prune_ran, dry_run));
    }
    lines
}

// ---------------------------------------------------------------------
// `cvg fleet plan show` output
// ---------------------------------------------------------------------

/// What `fleet plan show` reads of a plan: its title, id and scope, and
/// its links to repository plans (each field absent when the document
/// lacks it or it is not a string).
pub struct FleetPlanView {
    pub title: Option<String>,
    pub id: Option<String>,
    pub scope: Option<String>,
    pub links: Vec<PlanLink>,
}

/// A link of a fleet plan to the plan of one repository.
pub struct PlanLink {
    pub repo: Option<String>,
    pub repo_plan_id: Option<String>,
}

/// A field's text, or `?`.
pub open spec fn or_unknown(o: Option<String>) -> Seq<char> {
    match o {
        Some(s) => s@,
        None => seq!['?'],
    }
}

fn push_or_unknown(out: &mut String, o: &Option<String>)
    ensures
        final(out)@ == old(out)@ + or_unknown(*o),
{
    match o {
        Some(s) => push_str(out, s.as_str()),
        None => {
            crate::text::push_char(out, '?');
            proof {
                assert(out@ =~= old(out)@ + seq!['?']);
            }
        },
    }
}

/// One link line.
pub open spec fn plan_link_line(l: PlanLink) -> Seq<char> {
    "    - "@ + or_unknown(l.repo) + " → "@ + or_unknown(l.repo_plan_id)
}

/// The human output of `fleet plan show`.
pub open spec fn plan_human_text(p: FleetPlanView) -> Seq<Seq<char>> {
    seq![
        "Fleet plan: "@ + or_unknown(p.title),
        "  id    : "@ + or_unknown(p.id),
        "  scope : "@ + or_unknown(p.scope),
    ] + if p.links@.len() == 0 {
        seq!["  links : (none)"@]
    } else {
        seq!["  links :"@] + p.links@.map_values(|l: PlanLink| plan_link_line(l))
    }
}

/// The human output of `cvg fleet plan show`.
pub fn plan_human_lines(p: &FleetPlanView) -> (lines: Vec<String>)
    ensures
        line_texts(lines@) == plan_human_text(*p),
{
    let mut a = owned("Fleet plan: ");
    push_or_unknown(&mut a, &p.title);
    let mut b = owned("  id    : ");
    push_or_unknown(&mut b, &p.id);
    let mut c = owned("  scope : ");
    push_or_unknown(&mut c, &p.scope);
    let mut lines: Vec<String> = Vec::new();
    lines.push(a);
    lines.push(b);
    lines.push(c);
    if p.links.len() == 0 {
        lines.push(owned("  links : (none)"));
        proof {
            assert(line_texts(lines@) =~= plan_human_text(*p));
        }
        return lines;
    }
    lines.push(owned("  links :"));
    let ghost head = line_texts(lines@);
    let mut i: usize = 0;
    while i < p.links.len()
        invariant
            i <= p.links@.len(),
            line_texts(lines@) == head + p.links@.take(i as int).map_values(|l: PlanLink| plan_link_line(l)),
        decreases p.links@.len() - i,
    {
        let l = &p.links[i];
        let mut x = owned("    - ");
        push_or_unknown(&mut x, &l.repo);
        push_str(&mut x, " → ");
        push_or_unknown(&mut x, &l.repo_plan_id);
        let ghost prev = lines@;
        lines.push(x);
        proof {
            lemma_line_texts_push(prev, x);
            lemma_map_take_push(p.links@, i as int, |l: PlanLink| plan_link_line(l));
            assert(line_texts(lines@) =~= head + p.links@.take(i + 1).map_values(
                |l: PlanLink| plan_link_line(l),
            ));
        }
        i = i + 1;
    }
    proof {
        assert(p.links@.take(p.links@.len() as int) =~= p.links@);
        assert(line_texts(lines@) =~= plan_human_text(*p));
    }
    lines
}

// ---------------------------------------------------------------------
// Fleet repositories
// ---------------------------------------------------------------------

/// A fleet repository as the daemon returns it (each text field absent
/// when the document lacks it or it is not a string).
pub struct FleetRepo {
    pub name: Option<String>,
    pub path: Option<String>,
    pub language: Option<String>,
    pub role: Option<String>,
    /// `enabled`, when it is a boolean.
    pub enabled: Option<bool>,
    pub last_built_at: Option<String>,
    pub derives_from: Option<String>,
}

/// What `fleet add` registers.
pub struct RepoRegistration {
    pub name: String,
    pub path: String,
    pub language: String,
    pub parser: String,
    pub role: Option<String>,
    pub derives_from: Option<String>,
}

/// The slug of a new repository: the one given, else the name of its
/// directory, else `repo`.
pub open spec fn slug_text(name: Option<Seq<char>>, dir_name: Option<Seq<char>>) -> Seq<char> {
    match name {
        Some(n) => n,
        None => match dir_name {
            Some(d) => d,
            None => "repo"@,
        },
    }
}

/// The language of a new repository: the one given, else the one its
/// marker files show.
pub open spec fn registered_language(language: Option<Seq<char>>, m: RepoMarkers) -> Seq<char> {
    match language {
        Some(l) => l,
        None => language_text(m),
    }
}

/// The parent of a new repository: the one given, else the first
/// `derives_from:` of its `convergio.yaml` (when it has one).
pub open spec fn registered_parent(given: Option<Seq<char>>, manifest: Option<Seq<char>>) -> Option<
    Seq<char>,
> {
    match given {
        Some(g) => Some(g),
        None => match manifest {
            Some(c) => first_derives(lines(c)),
            None => None,
        },
    }
}

/// The registration `fleet add` sends for the repository at `path` (its
/// canonical form, whose last component is `dir_name`), from the flags
/// given and, for those left out, from the repository's marker files and
/// its `convergio.yaml` text (`manifest`).
pub fn registration(
    path: String,
    dir_name: Option<String>,
    name: Option<String>,
    language: Option<String>,
    parser: Option<String>,
    role: Option<String>,
    derives_from: Option<String>,
    markers: &RepoMarkers,
    manifest: Option<String>,
) -> (r: RepoRegistration)
    ensures
        r.path@ == path@,
        r.name@ == slug_text(opt_text(name), opt_text(dir_name)),
        r.language@ == registered_language(opt_text(language), *markers),
        r.parser@ == match parser {
            Some(p) => p@,
            None => parser_text(r.language@),
        },
        opt_text(r.role) == opt_text(role),
        opt_text(r.derives_from) == registered_parent(opt_text(derives_from), opt_text(manifest)),
{
    let slug = match name {
        Some(n) => n,
        None => match dir_name {
            Some(d) => d,
            None => owned("repo"),
        },
    };
    let lang = match language {
        Some(l) => l,
        None => detect_language(markers),
    };
    let par = match parser {
        Some(p) => p,
        None => default_parser(lang.as_str()),
    };
    let df = match derives_from {
        Some(d) => Some(d),
        None => match manifest {
            Some(c) => parse_derives_from(c.as_str()),
            None => None,
        },
    };
    RepoRegistration { name: slug, path, language: lang, parser: par, role, derives_from: df }
}

/// The request path of one repository.
pub fn repo_path(name: &str) -> (r: String)
    ensures
        r@ == "/v1/fleet/repos/"@ + name@,
{
    let mut r = owned("/v1/fleet/repos/");
    push_str(&mut r, name);
    r
}

/// The human report of a repository just added: name, path, language and
/// role, then its parent when it has one.
pub open spec fn repo_added_text(r: FleetRepo) -> Seq<Seq<char>> {
    seq![
        "Added: "@ + or_unknown(r.name) + " ("@ + or_unknown(r.path) + ") — "@ + or_unknown(
            r.language,
        ) + " ["@ + or_unknown(r.role) + "]"@,
    ] + match r.derives_from {
        Some(d) => seq!["  derives_from: "@ + d@],
        None => Seq::empty(),
    }
}

/// The human report of a repository just added.
pub fn repo_added_lines(r: &FleetRepo) -> (lines: Vec<String>)
    ensures
        line_texts(lines@) == repo_added_text(*r),
{
    let mut a = owned("Added: ");
    push_or_unknown(&mut a, &r.name);
    push_str(&mut a, " (");
    push_or_unknown(&mut a, &r.path);
    push_str(&mut a, ") — ");
    push_or_unknown(&mut a, &r.language);
    push_str(&mut a, " [");
    push_or_unknown(&mut a, &r.role);
    push_str(&mut a, "]");
    let mut lines: Vec<String> = Vec::new();
    lines.push(a);
    match &r.derives_from {
        Some(d) => {
            let mut b = owned("  derives_from: ");
            push_str(&mut b, d.as_str());
            lines.push(b);
        },
        None => {},
    }
    proof {
        assert(line_texts(lines@) =~= repo_added_text(*r));
    }
    lines
}

/// The plain line of a repository: name, path, language and role,
/// tab-separated.
pub open spec fn repo_plain_text(r: FleetRepo) -> Seq<char> {
    or_text(r.name, ""@) + "\t"@ + or_text(r.path, ""@) + "\t"@ + or_text(r.language, ""@) + "\t"@
        + or_text(r.role, ""@)
}

/// The plain line of a repository.
pub fn repo_plain_line(r: &FleetRepo) -> (s: String)
    ensures
        s@ == repo_plain_text(*r),
{
    let mut s = String::new();
    push_or(&mut s, &r.name, "");
    push_str(&mut s, "\t");
    push_or(&mut s, &r.path, "");
    push_str(&mut s, "\t");
    push_or(&mut s, &r.language, "");
    push_str(&mut s, "\t");
    push_or(&mut s, &r.role, "");
    proof {
        reveal_strlit("");
        assert(s@ =~= repo_plain_text(*r));
    }
    s
}

/// The heading of the repository table.
pub open spec fn repo_table_head() -> Seq<char> {
    padded("NAME"@, 20) + " "@ + padded("LANGUAGE"@, 12) + " "@ + padded("ROLE"@, 12) + " "@ + padded(
        "ENABLED"@,
        10,
    ) + " "@ + padded("LAST BUILD"@, 24) + " PATH"@
}

/// A row of the repository table: name, language, role, whether it is
/// enabled (a repository that does not say is), last build (a dash when
/// never built) and path.
pub open spec fn repo_row_text(r: FleetRepo) -> Seq<char> {
    padded(or_unknown(r.name), 20) + " "@ + padded(or_unknown(r.language), 12) + " "@ + padded(
        or_unknown(r.role),
        12,
    ) + " "@ + padded(
        if r.enabled != Some(false) {
            "yes"@
        } else {
            "no"@
        },
        10,
    ) + " "@ + padded(
        match r.last_built_at {
            Some(t) => t@,
            None => "—"@,
        },
        24,
    ) + " "@ + or_unknown(r.path)
}

/// The human table of the fleet's repositories.
pub open spec fn repo_table_text(repos: Seq<FleetRepo>) -> Seq<Seq<char>> {
    if repos.len() == 0 {
        seq!["No repos in fleet."@]
    } else {
        seq![repo_table_head(), Seq::new(90, |i: int| '-')] + repos.map_values(
            |r: FleetRepo| repo_row_text(r),
        )
    }
}

fn unknown_str(o: &Option<String>) -> (r: &str)
    ensures
        r@ == or_unknown(*o),
{
    match o {
        Some(s) => s.as_str(),
        None => {
            proof {
                reveal_strlit("?");
            }
            "?"
        },
    }
}

fn repo_row(r: &FleetRepo) -> (s: String)
    ensures
        s@ == repo_row_text(*r),
{
    let mut s = String::new();
    push_padded(&mut s, unknown_str(&r.name), 20);
    push_str(&mut s, " ");
    push_padded(&mut s, unknown_str(&r.language), 12);
    push_str(&mut s, " ");
    push_padded(&mut s, unknown_str(&r.role), 12);
    push_str(&mut s, " ");
    let enabled = match r.enabled {
        Some(b) => b,
        None => true,
    };
    push_padded(&mut s, if enabled { "yes" } else { "no" }, 10);
    push_str(&mut s, " ");
    let last: &str = match &r.last_built_at {
        Some(t) => t.as_str(),
        None => "—",
    };
    push_padded(&mut s, last, 24);
    push_str(&mut s, " ");
    push_or_unknown(&mut s, &r.path);
    proof {
        assert(s@ =~= repo_row_text(*r));
    }
    s
}

/// The human table of the fleet's repositories.
pub fn repo_table_lines(repos: &Vec<FleetRepo>) -> (lines: Vec<String>)
    ensures
        line_texts(lines@) == repo_table_text(repos@),
{
    let mut lines: Vec<String> = Vec::new();
    if repos.len() == 0 {
        lines.push(owned("No repos in fleet."));
        proof {
            assert(line_texts(lines@) =~= repo_table_text(repos@));
        }
        return lines;
    }
    let mut head = String::new();
    push_padded(&mut head, "NAME", 20);
    push_str(&mut head, " ");
    push_padded(&mut head, "LANGUAGE", 12);
    push_str(&mut head, " ");
    push_padded(&mut head, "ROLE", 12);
    push_str(&mut head, " ");
    push_padded(&mut head, "ENABLED", 10);
    push_str(&mut head, " ");
    push_padded(&mut head, "LAST BUILD", 24);
    push_str(&mut head, " PATH");
    lines.push(head);
    let mut dashes = String::new();
    let mut k: usize = 0;
    while k < 90
        invariant
            k <= 90,
            dashes@ == Seq::new(k as nat, |i: int| '-'),
        decreases 90 - k,
    {
        crate::text::push_char(&mut dashes, '-');
        proof {
            assert(dashes@ =~= Seq::new((k + 1) as nat, |i: int| '-'));
        }
        k = k + 1;
    }
    lines.push(dashes);
    proof {
        assert(head@ =~= repo_table_head());
        assert(line_texts(lines@) =~= seq![repo_table_head(), Seq::new(90, |i: int| '-')]);
    }
    let ghost top = line_texts(lines@);
    let mut i: usize = 0;
    while i < repos.len()
        invariant
            i <= repos@.len(),
            line_texts(lines@) == top + repos@.take(i as int).map_values(|r: FleetRepo| repo_row_text(r)),
        decreases repos@.len() - i,
    {
        let row = repo_row(&repos[i]);
        let ghost prev = lines@;
        lines.push(row);
        proof {
            lemma_line_texts_push(prev, row);
            lemma_map_take_push(repos@, i as int, |r: FleetRepo| repo_row_text(r));
        }
        i = i + 1;
    }
    proof {
        assert(repos@.take(i as int) =~= repos@);
        assert(line_texts(lines@) =~= repo_table_text(repos@));
    }
    lines
}

/// The line reporting an enable or disable: plain `name state`, or the
/// human sentence (naming the repository as asked when the reply lacks a
/// name).
pub open spec fn toggle_text(asked: Seq<char>, r: FleetRepo, enabled: bool, human: bool) -> Seq<char> {
    let state = if enabled {
        "enabled"@
    } else {
        "disabled"@
    };
    if human {
        "Fleet repo '"@ + match r.name {
            Some(n) => n@,
            None => asked,
        } + "' "@ + state + "."@
    } else {
        or_text(r.name, ""@) + " "@ + state
    }
}

/// The line reporting an enable or disable.
pub fn toggle_line(asked: &str, r: &FleetRepo, enabled: bool, human: bool) -> (s: String)
    ensures
        s@ == toggle_text(asked@, *r, enabled, human),
{
    let state = if enabled {
        "enabled"
    } else {
        "disabled"
    };
    let mut s = String::new();
    if human {
        push_str(&mut s, "Fleet repo '");
        match &r.name {
            Some(n) => push_str(&mut s, n.as_str()),
            None => push_str(&mut s, asked),
        }
        push_str(&mut s, "' ");
        push_str(&mut s, state);
        push_str(&mut s, ".");
    } else {
        push_or(&mut s, &r.name, "");
        push_str(&mut s, " ");
        push_str(&mut s, state);
        proof {
            reveal_strlit("");
        }
    }
    proof {
        assert(s@ =~= toggle_text(asked@, *r, enabled, human));
    }
    s
}

// ---------------------------------------------------------------------
// Fleet plans: requests and listings
// ---------------------------------------------------------------------

/// A fleet plan as the daemon lists it.
pub struct PlanRow {
    pub id: Option<String>,
    pub scope: Option<String>,
    pub title: Option<String>,
}

/// The listing request, for one scope or all.
pub open spec fn plans_path_text(scope: Option<Seq<char>>) -> Seq<char> {
    match scope {
        Some(s) => "/v1/fleet/plans?scope="@ + s,
        None => "/v1/fleet/plans"@,
    }
}

/// The listing request (the scope goes into the query as given).
pub fn plans_path(scope: Option<&str>) -> (r: String)
    ensures
        r@ == plans_path_text(
            match scope {
                Some(s) => Some(s@),
                None => None,
            },
        ),
{
    match scope {
        Some(s) => {
            let mut r = owned("/v1/fleet/plans?scope=");
            push_str(&mut r, s);
            r
        },
        None => owned("/v1/fleet/plans"),
    }
}

/// The request path of one fleet plan.
pub fn plan_path(id: &str) -> (r: String)
    ensures
        r@ == "/v1/fleet/plans/"@ + id@,
{
    let mut r = owned("/v1/fleet/plans/");
    push_str(&mut r, id);
    r
}

/// The request path linking repository plans into a fleet plan.
pub fn plan_repos_path(id: &str) -> (r: String)
    ensures
        r@ == "/v1/fleet/plans/"@ + id@ + "/repos"@,
{
    let mut r = plan_path(id);
    push_str(&mut r, "/repos");
    r
}

/// The request path adding a task to a repository's plan in a fleet plan.
pub fn plan_tasks_path(id: &str, repo: &str) -> (r: String)
    ensures
        r@ == "/v1/fleet/plans/"@ + id@ + "/repos/"@ + repo@ + "/tasks"@,
{
    let mut r = plan_path(id);
    push_str(&mut r, "/repos/");
    push_str(&mut r, repo);
    push_str(&mut r, "/tasks");
    r
}

/// One plan of the human listing.
pub open spec fn plan_row_text(p: PlanRow) -> Seq<char> {
    "  "@ + or_unknown(p.id) + "  ["@ + or_unknown(p.scope) + "]  "@ + or_unknown(p.title)
}

/// The human listing of fleet plans: a count then a line per plan, or a
/// note when there are none.
pub open spec fn plans_human_text(plans: Seq<PlanRow>) -> Seq<Seq<char>> {
    if plans.len() == 0 {
        seq!["No fleet plans."@]
    } else {
        seq![dec(plans.len()) + " fleet plan(s):"@] + plans.map_values(|p: PlanRow| plan_row_text(p))
    }
}

/// The human listing of fleet plans.
pub fn plans_human_lines(plans: &Vec<PlanRow>) -> (lines: Vec<String>)
    ensures
        line_texts(lines@) == plans_human_text(plans@),
{
    let mut lines: Vec<String> = Vec::new();
    if plans.len() == 0 {
        lines.push(owned("No fleet plans."));
        proof {
            assert(line_texts(lines@) =~= plans_human_text(plans@));
        }
        return lines;
    }
    let mut head = String::new();
    push_dec(&mut head, plans.len() as u64);
    push_str(&mut head, " fleet plan(s):");
    lines.push(head);
    let ghost top = line_texts(lines@);
    proof {
        assert(top =~= seq![dec(plans@.len()) + " fleet plan(s):"@]);
    }
    let mut i: usize = 0;
    while i < plans.len()
        invariant
            i <= plans@.len(),
            line_texts(lines@) == top + plans@.take(i as int).map_values(|p: PlanRow| plan_row_text(p)),
        decreases plans@.len() - i,
    {
        let p = &plans[i];
        let mut x = owned("  ");
        push_or_unknown(&mut x, &p.id);
        push_str(&mut x, "  [");
        push_or_unknown(&mut x, &p.scope);
        push_str(&mut x, "]  ");
        push_or_unknown(&mut x, &p.title);
        let ghost prev = lines@;
        lines.push(x);
        proof {
            lemma_line_texts_push(prev, x);
            lemma_map_take_push(plans@, i as int, |p: PlanRow| plan_row_text(p));
            assert(x@ =~= plan_row_text(*p));
        }
        i = i + 1;
    }
    proof {
        assert(plans@.take(i as int) =~= plans@);
        assert(line_texts(lines@) =~= plans_human_text(plans@));
    }
    lines
}

/// The plain listing of fleet plans: their ids (empty when missing).
pub fn plans_plain_lines(plans: &Vec<PlanRow>) -> (lines: Vec<String>)
    ensures
        line_texts(lines@) == plans@.map_values(|p: PlanRow| or_text(p.id, ""@)),
{
    let mut lines: Vec<String> = Vec::new();
    let mut i: usize = 0;
    while i < plans.len()
        invariant
            i <= plans@.len(),
            line_texts(lines@) == plans@.take(i as int).map_values(|p: PlanRow| or_text(p.id, ""@)),
        decreases plans@.len() - i,
    {
        let mut x = String::new();
        push_or(&mut x, &plans[i].id, "");
        proof {
            reveal_strlit("");
        }
        let ghost prev = lines@;
        lines.push(x);
        proof {
            lemma_line_texts_push(prev, x);
            lemma_map_take_push(plans@, i as int, |p: PlanRow| or_text(p.id, ""@));
            assert(x@ =~= or_text(plans@[i as int].id, ""@));
        }
        i = i + 1;
    }
    proof {
        assert(plans@.take(i as int) =~= plans@);
    }
    lines
}


// ---------------------------------------------------------------------
// `cvg fleet build` and `cvg fleet dispatch` reports
// ---------------------------------------------------------------------

/// What the daemon reports of a fleet build (counts absent when the
/// report lacks them or they are not non-negative integers).
pub struct BuildReport {
    pub repos_processed: Option<u64>,
    pub repos_skipped: Option<u64>,
    /// `embed.embedded`.
    pub embedded: Option<u64>,
    /// `embed.skipped_unchanged`.
    pub skipped_unchanged: Option<u64>,
    pub similar_edges_written: Option<u64>,
    pub model: Option<String>,
    /// `similarity.duplicates`.
    pub duplicates: Option<u64>,
    /// `similarity.similar_to`.
    pub similar_to: Option<u64>,
}

/// A count, or zero.
pub open spec fn nat_or_zero(n: Option<u64>) -> nat {
    match n {
        Some(v) => v as nat,
        None => 0,
    }
}

fn u64_or_zero(n: Option<u64>) -> (r: u64)
    ensures
        r as nat == nat_or_zero(n),
{
    match n {
        Some(v) => v,
        None => 0,
    }
}

/// The plain build report: processed, skipped, embedded and similarity
/// edges written.
pub open spec fn build_plain_text(r: BuildReport) -> Seq<char> {
    "processed="@ + dec(nat_or_zero(r.repos_processed)) + " skipped="@ + dec(nat_or_zero(r.repos_skipped))
        + " embedded="@ + dec(nat_or_zero(r.embedded)) + " edges="@ + dec(
        nat_or_zero(r.similar_edges_written),
    )
}

/// The human build report: the model and repositories, the files
/// embedded and skipped, and with a similarity refresh the edges found.
pub open spec fn build_human_text(r: BuildReport, refresh_similarity: bool) -> Seq<Seq<char>> {
    seq![
        "Fleet build complete ("@ + or_unknown(r.model) + "). Repos: "@ + dec(nat_or_zero(r.repos_processed)),
        "  Files embedded: "@ + dec(nat_or_zero(r.embedded)) + "  skipped: "@ + dec(
            nat_or_zero(r.skipped_unchanged),
        ),
    ] + if refresh_similarity {
        seq!["  Similarity edges: "@ + dec(nat_or_zero(r.duplicates) + nat_or_zero(r.similar_to))]
    } else {
        Seq::empty()
    }
}

/// The build report, plain (one line) or human.
pub fn build_lines(r: &BuildReport, refresh_similarity: bool, human: bool) -> (lines: Vec<String>)
    requires
        nat_or_zero(r.duplicates) + nat_or_zero(r.similar_to) <= u64::MAX,
    ensures
        line_texts(lines@) == if human {
            build_human_text(*r, refresh_similarity)
        } else {
            seq![build_plain_text(*r)]
        },
{
    let mut lines: Vec<String> = Vec::new();
    if !human {
        let mut s = owned("processed=");
        push_dec(&mut s, u64_or_zero(r.repos_processed));
        push_str(&mut s, " skipped=");
        push_dec(&mut s, u64_or_zero(r.repos_skipped));
        push_str(&mut s, " embedded=");
        push_dec(&mut s, u64_or_zero(r.embedded));
        push_str(&mut s, " edges=");
        push_dec(&mut s, u64_or_zero(r.similar_edges_written));
        lines.push(s);
        proof {
            assert(line_texts(lines@) =~= seq![build_plain_text(*r)]);
        }
        return lines;
    }
    let mut a = owned("Fleet build complete (");
    push_or_unknown(&mut a, &r.model);
    push_str(&mut a, "). Repos: ");
    push_dec(&mut a, u64_or_zero(r.repos_processed));
    let mut b = owned("  Files embedded: ");
    push_dec(&mut b, u64_or_zero(r.embedded));
    push_str(&mut b, "  skipped: ");
    push_dec(&mut b, u64_or_zero(r.skipped_unchanged));
    lines.push(a);
    lines.push(b);
    if refresh_similarity {
        let edges = u64_or_zero(r.duplicates) + u64_or_zero(r.similar_to);
        let mut c = owned("  Similarity edges: ");
        push_dec(&mut c, edges);
        lines.push(c);
    }
    proof {
        assert(line_texts(lines@) =~= build_human_text(*r, refresh_similarity));
    }
    lines
}

/// The daemon's answer to a dispatch: how many tasks went out, and under
/// which executor.
pub struct DispatchReply {
    pub dispatched: Option<i64>,
    pub executor: Option<String>,
}

/// The dispatch report of a fleet repository: the count alone (plain), or
/// the human sentence.
pub open spec fn dispatch_text(repo: Seq<char>, d: DispatchReply, human: bool) -> Seq<char> {
    let n = crate::numeric::dec_signed(
        match d.dispatched {
            Some(v) => v as int,
            None => 0,
        },
    );
    if human {
        "Fleet repo '"@ + repo + "' dispatch: "@ + n + " task(s), executor="@ + match d.executor {
            Some(e) => e@,
            None => "default"@,
        }
    } else {
        n
    }
}

/// The dispatch report of a fleet repository.
pub fn dispatch_line(repo: &str, d: &DispatchReply, human: bool) -> (s: String)
    ensures
        s@ == dispatch_text(repo@, *d, human),
{
    let n = match d.dispatched {
        Some(v) => v,
        None => 0,
    };
    let mut s = String::new();
    if human {
        push_str(&mut s, "Fleet repo '");
        push_str(&mut s, repo);
        push_str(&mut s, "' dispatch: ");
        crate::numeric::push_i64(&mut s, n);
        push_str(&mut s, " task(s), executor=");
        push_or(&mut s, &d.executor, "default");
    } else {
        crate::numeric::push_i64(&mut s, n);
    }
    s
}

} // verus!
