//! Working-tree status: the porcelain listing, the repository root, the
//! branch listings, and a cache of the first two.
use vstd::prelude::*;

use crate::error::SupgitError;
use crate::plan::GitOutput;
use crate::text::{
    byte_len, byte_len_below, char_offset, char_offset_exec, contains, copy_string, from_chars, lines,
    lines_of, opt_view, str_contains, to_chars, trim, trim_string, utf8_width, views,
};

verus! {

// ---------------------------------------------------------------------------
// `git status --porcelain`
// ---------------------------------------------------------------------------

/// A status entry, as views: the two-column status code and the path.
pub type EntryView = (Seq<char>, Seq<char>);

/// The views of a list of entries.
pub open spec fn entry_views(e: Seq<(String, String)>) -> Seq<EntryView> {
    e.map_values(|p: (String, String)| (p.0@, p.1@))
}

/// The entry a porcelain line gives: none for a line of fewer than four
/// bytes, else the first two bytes as the status and what follows byte
/// three as the path.
pub open spec fn porcelain_entry(l: Seq<char>) -> Option<EntryView> {
    if byte_len(l) < 4 {
        None
    } else {
        Some((l.take(char_offset(l, 2)), l.skip(char_offset(l, 3))))
    }
}

/// A line that can be cut at bytes two and three (the cut panics otherwise).
pub open spec fn porcelain_line_ok(l: Seq<char>) -> bool {
    byte_len(l) < 4 || (char_offset(l, 2) >= 0 && char_offset(l, 3) >= 0)
}

/// An output whose every line can be cut as the parser cuts it.
pub open spec fn porcelain_output_ok(s: Seq<char>) -> bool {
    forall|i: int| 0 <= i < lines(s).len() ==> porcelain_line_ok(#[trigger] lines(s)[i])
}

/// The entries of a porcelain listing, in order.
pub open spec fn porcelain_entries(s: Seq<char>) -> Seq<EntryView> {
    lines(s).filter_map(|l: Seq<char>| porcelain_entry(l))
}

proof fn lemma_char_offset_le(s: Seq<char>, b: int)
    requires
        char_offset(s, b) >= 0,
    ensures
        char_offset(s, b) <= s.len(),
    decreases s.len(),
{
    if b != 0 {
        lemma_char_offset_le(s.drop_first(), b - utf8_width(s[0]));
    }
}

fn porcelain_entry_exec(line: &String) -> (r: Option<(String, String)>)
    requires
        porcelain_line_ok(line@),
    ensures
        match r {
            Some(e) => porcelain_entry(line@) == Some((e.0@, e.1@)),
            None => porcelain_entry(line@) is None,
        },
{
    let v = to_chars(line.as_str());
    if byte_len_below(&v, 4) {
        return None;
    }
    let a = char_offset_exec(&v, 2);
    let b = char_offset_exec(&v, 3);
    match (a, b) {
        (Some(a), Some(b)) => {
            let status = from_chars(&v, 0, a);
            let path = from_chars(&v, b, v.len());
            assert(v@.subrange(0, a as int) == v@.take(a as int));
            assert(v@.subrange(b as int, v@.len() as int) == v@.skip(b as int));
            Some((status, path))
        },
        _ => {
            assert(false);
            None
        },
    }
}

/// Whether every line of a porcelain listing can be cut at bytes two and
/// three, as the parser needs.
pub fn porcelain_output_is_well_formed(stdout: &str) -> (r: bool)
    ensures
        r == porcelain_output_ok(stdout@),
{
    let v = to_chars(stdout);
    let ls = lines_of(&v);
    let mut i: usize = 0;
    while i < ls.len()
        invariant
            i <= ls.len(),
            views(ls@) == lines(stdout@),
            forall|j: int| 0 <= j < i ==> porcelain_line_ok(#[trigger] lines(stdout@)[j]),
        decreases ls.len() - i,
    {
        let lv = to_chars(ls[i].as_str());
        assert(lv@ == lines(stdout@)[i as int]);
        if !byte_len_below(&lv, 4) {
            if char_offset_exec(&lv, 2).is_none() || char_offset_exec(&lv, 3).is_none() {
                return false;
            }
        }
        i += 1;
    }
    true
}

/// The entries of `git status --porcelain` output (lines of fewer than four
/// bytes are skipped).
pub fn parse_porcelain_output(stdout: &str) -> (r: Vec<(String, String)>)
    requires
        porcelain_output_ok(stdout@),
    ensures
        entry_views(r@) == porcelain_entries(stdout@),
{
    let v = to_chars(stdout);
    let ls = lines_of(&v);
    let ghost lv = lines(stdout@);
    let mut out: Vec<(String, String)> = Vec::new();
    let mut i: usize = 0;
    while i < ls.len()
        invariant
            i <= ls.len(),
            views(ls@) == lv,
            lv == lines(stdout@),
            porcelain_output_ok(stdout@),
            entry_views(out@) == lv.take(i as int).filter_map(|l: Seq<char>| porcelain_entry(l)),
        decreases ls.len() - i,
    {
        assert(ls@[i as int]@ == lv[i as int]);
        assert(lv.take(i + 1).drop_last() =~= lv.take(i as int));
        let ghost old_out = out@;
        match porcelain_entry_exec(&ls[i]) {
            Some(e) => {
                out.push(e);
                assert(entry_views(out@) =~= entry_views(old_out).push((e.0@, e.1@)));
            },
            None => {},
        }
        i += 1;
    }
    assert(lv.take(ls.len() as int) =~= lv);
    out
}

// ---------------------------------------------------------------------------
// Classifying entries
// ---------------------------------------------------------------------------

/// The index-column code of a status (a space when absent).
pub open spec fn status_x(st: Seq<char>) -> char {
    if st.len() > 0 {
        st[0]
    } else {
        ' '
    }
}

/// The worktree-column code of a status (a space when absent).
pub open spec fn status_y(st: Seq<char>) -> char {
    if st.len() > 1 {
        st[1]
    } else {
        ' '
    }
}

/// Changed in the worktree and not yet staged (untracked files excluded).
pub open spec fn is_unstaged(st: Seq<char>) -> bool {
    status_x(st) == ' ' && status_y(st) != ' ' && status_y(st) != '?'
}

/// Changed in the index: modified, added, deleted, renamed or copied.
pub open spec fn is_staged(st: Seq<char>) -> bool {
    let x = status_x(st);
    x == 'M' || x == 'A' || x == 'D' || x == 'R' || x == 'C'
}

/// Not tracked by git.
pub open spec fn is_untracked(st: Seq<char>) -> bool {
    status_x(st) == '?' && status_y(st) == '?'
}

/// The paths of the entries whose status satisfies `p`, in order.
pub open spec fn paths_where(es: Seq<EntryView>, p: spec_fn(Seq<char>) -> bool) -> Seq<Seq<char>> {
    es.filter_map(
        |e: EntryView|
            if p(e.0) {
                Some(e.1)
            } else {
                None
            },
    )
}

/// The paths of all entries, in order.
pub open spec fn all_paths(es: Seq<EntryView>) -> Seq<Seq<char>> {
    es.map_values(|e: EntryView| e.1)
}

pub open spec fn unstaged_pred() -> spec_fn(Seq<char>) -> bool {
    |st: Seq<char>| is_unstaged(st)
}

pub open spec fn staged_pred() -> spec_fn(Seq<char>) -> bool {
    |st: Seq<char>| is_staged(st)
}

pub open spec fn untracked_pred() -> spec_fn(Seq<char>) -> bool {
    |st: Seq<char>| is_untracked(st)
}

fn status_codes(st: &String) -> (r: (char, char))
    ensures
        r.0 == status_x(st@),
        r.1 == status_y(st@),
{
    let v = to_chars(st.as_str());
    let x = if v.len() > 0 {
        v[0]
    } else {
        ' '
    };
    let y = if v.len() > 1 {
        v[1]
    } else {
        ' '
    };
    (x, y)
}

/// The class of status that a filter keeps.
pub enum StatusClass {
    Unstaged,
    Staged,
    Untracked,
}

pub open spec fn class_pred(c: StatusClass) -> spec_fn(Seq<char>) -> bool {
    match c {
        StatusClass::Unstaged => unstaged_pred(),
        StatusClass::Staged => staged_pred(),
        StatusClass::Untracked => untracked_pred(),
    }
}

fn status_in_class(st: &String, class: &StatusClass) -> (r: bool)
    ensures
        r == class_pred(*class)(st@),
{
    let (x, y) = status_codes(st);
    match class {
        StatusClass::Unstaged => x == ' ' && y != ' ' && y != '?',
        StatusClass::Staged => x == 'M' || x == 'A' || x == 'D' || x == 'R' || x == 'C',
        StatusClass::Untracked => x == '?' && y == '?',
    }
}

fn paths_in_class(entries: &Vec<(String, String)>, class: StatusClass) -> (r: Vec<String>)
    ensures
        views(r@) == paths_where(entry_views(entries@), class_pred(class)),
{
    let ghost ev = entry_views(entries@);
    let ghost p = class_pred(class);
    let mut out: Vec<String> = Vec::new();
    let mut i: usize = 0;
    while i < entries.len()
        invariant
            i <= entries.len(),
            ev == entry_views(entries@),
            p == class_pred(class),
            views(out@) == paths_where(ev.take(i as int), p),
        decreases entries.len() - i,
    {
        assert(ev.take(i + 1).drop_last() =~= ev.take(i as int));
        assert(ev[i as int] == (entries@[i as int].0@, entries@[i as int].1@));
        let ghost old_out = out@;
        if status_in_class(&entries[i].0, &class) {
            out.push(copy_string(&entries[i].1));
            assert(views(out@) =~= views(old_out).push(entries@[i as int].1@));
        }
        i += 1;
    }
    assert(ev.take(entries.len() as int) =~= ev);
    out
}

/// Paths changed in the worktree but not staged (untracked ones excluded).
pub fn get_unstaged_files(entries: &Vec<(String, String)>) -> (r: Vec<String>)
    ensures
        views(r@) == paths_where(entry_views(entries@), unstaged_pred()),
{
    paths_in_class(entries, StatusClass::Unstaged)
}

/// Paths with a staged change (`M`, `A`, `D`, `R` or `C` in the index column).
pub fn get_staged_files(entries: &Vec<(String, String)>) -> (r: Vec<String>)
    ensures
        views(r@) == paths_where(entry_views(entries@), staged_pred()),
{
    paths_in_class(entries, StatusClass::Staged)
}

/// Paths not tracked by git (`??`).
pub fn get_untracked_files(entries: &Vec<(String, String)>) -> (r: Vec<String>)
    ensures
        views(r@) == paths_where(entry_views(entries@), untracked_pred()),
{
    paths_in_class(entries, StatusClass::Untracked)
}

/// Every path that has an uncommitted change of any kind.
pub fn get_all_uncommitted_files(entries: &Vec<(String, String)>) -> (r: Vec<String>)
    ensures
        views(r@) == all_paths(entry_views(entries@)),
{
    let ghost ev = entry_views(entries@);
    let mut out: Vec<String> = Vec::new();
    let mut i: usize = 0;
    while i < entries.len()
        invariant
            i <= entries.len(),
            ev == entry_views(entries@),
            views(out@) == all_paths(ev.take(i as int)),
        decreases entries.len() - i,
    {
        let ghost old_out = out@;
        assert(ev[i as int] == (entries@[i as int].0@, entries@[i as int].1@));
        out.push(copy_string(&entries[i].1));
        assert(views(out@) =~= views(old_out).push(entries@[i as int].1@));
        assert(all_paths(ev.take(i + 1)) =~= all_paths(ev.take(i as int)).push(ev[i as int].1));
        assert(views(out@) =~= all_paths(ev.take(i + 1)));
        i += 1;
    }
    assert(ev.take(entries.len() as int) =~= ev);
    out
}


/// A snapshot of `git status --porcelain`.
pub struct PorcelainStatus {
    entries: Vec<(String, String)>,
}

impl View for PorcelainStatus {
    type V = Seq<EntryView>;

    closed spec fn view(&self) -> Seq<EntryView> {
        entry_views(self.entries@)
    }
}

impl PorcelainStatus {
    /// The snapshot of the given status entries.
    pub fn parse(entries: Vec<(String, String)>) -> (r: PorcelainStatus)
        ensures
            r@ == entry_views(entries@),
    {
        PorcelainStatus { entries }
    }

    /// Paths changed in the worktree but not staged, borrowed from the snapshot.
    pub fn unstaged_files(&self) -> (r: Vec<&str>)
        ensures
            r@.map_values(|s: &str| s@) == paths_where(self@, unstaged_pred()),
    {
        let ghost ev = self@;
        let mut out: Vec<&str> = Vec::new();
        let mut i: usize = 0;
        while i < self.entries.len()
            invariant
                i <= self.entries.len(),
                ev == entry_views(self.entries@),
                out@.map_values(|s: &str| s@) == paths_where(ev.take(i as int), unstaged_pred()),
            decreases self.entries.len() - i,
        {
            assert(ev.take(i + 1).drop_last() =~= ev.take(i as int));
            assert(ev[i as int] == (self.entries@[i as int].0@, self.entries@[i as int].1@));
            let ghost old_out = out@;
            if status_in_class(&self.entries[i].0, &StatusClass::Unstaged) {
                out.push(self.entries[i].1.as_str());
                assert(out@.map_values(|s: &str| s@) =~= old_out.map_values(|s: &str| s@).push(
                    self.entries@[i as int].1@,
                ));
            }
            i += 1;
        }
        assert(ev.take(self.entries.len() as int) =~= ev);
        out
    }

    /// Every path with an uncommitted change, borrowed from the snapshot.
    pub fn all_uncommitted_files(&self) -> (r: Vec<&str>)
        ensures
            r@.map_values(|s: &str| s@) == all_paths(self@),
    {
        let ghost ev = self@;
        let mut out: Vec<&str> = Vec::new();
        let mut i: usize = 0;
        while i < self.entries.len()
            invariant
                i <= self.entries.len(),
                ev == entry_views(self.entries@),
                out@.map_values(|s: &str| s@) == all_paths(ev.take(i as int)),
            decreases self.entries.len() - i,
        {
            let ghost old_out = out@;
            assert(ev[i as int] == (self.entries@[i as int].0@, self.entries@[i as int].1@));
            out.push(self.entries[i].1.as_str());
            assert(all_paths(ev.take(i + 1)) =~= all_paths(ev.take(i as int)).push(ev[i as int].1));
            assert(out@.map_values(|s: &str| s@) =~= all_paths(ev.take(i + 1)));
            i += 1;
        }
        assert(ev.take(self.entries.len() as int) =~= ev);
        out
    }
}

// ---------------------------------------------------------------------------
// The status cache
// ---------------------------------------------------------------------------

/// What the cache holds: the porcelain entries and the repository root, each
/// once it has been read.
pub type CacheView = (Option<Seq<EntryView>>, Option<Seq<char>>);

/// The cache once a porcelain listing is recorded: its entries replace any
/// cached ones; the root stays.
pub open spec fn porcelain_recorded(c: CacheView, s: Seq<char>) -> CacheView {
    (Some(porcelain_entries(s)), c.1)
}

/// The cache once the porcelain entries are dropped; the root stays.
pub open spec fn porcelain_dropped(c: CacheView) -> CacheView {
    (None, c.1)
}

/// The cache once a repository root is recorded; the entries stay.
pub open spec fn root_recorded(c: CacheView, p: Seq<char>) -> CacheView {
    (c.0, Some(p))
}

/// The cache once the repository root is dropped; the entries stay.
pub open spec fn root_dropped(c: CacheView) -> CacheView {
    (c.0, None)
}

/// The cache of `git status --porcelain` entries and of the repository root.
pub struct StatusCache {
    porcelain: Option<Vec<(String, String)>>,
    repo_root: Option<String>,
}

impl View for StatusCache {
    type V = CacheView;

    closed spec fn view(&self) -> CacheView {
        (
            match self.porcelain {
                Some(e) => Some(entry_views(e@)),
                None => None,
            },
            opt_view(self.repo_root),
        )
    }
}

fn copy_entries(entries: &Vec<(String, String)>) -> (r: Vec<(String, String)>)
    ensures
        entry_views(r@) == entry_views(entries@),
{
    let mut out: Vec<(String, String)> = Vec::new();
    let mut i: usize = 0;
    while i < entries.len()
        invariant
            i <= entries.len(),
            entry_views(out@) == entry_views(entries@).take(i as int),
        decreases entries.len() - i,
    {
        let ghost old_out = out@;
        out.push((copy_string(&entries[i].0), copy_string(&entries[i].1)));
        assert(entry_views(out@) =~= entry_views(old_out).push(
            (entries@[i as int].0@, entries@[i as int].1@),
        ));
        assert(entry_views(out@) =~= entry_views(entries@).take(i + 1));
        i += 1;
    }
    assert(entry_views(entries@).take(entries.len() as int) =~= entry_views(entries@));
    out
}

impl StatusCache {
    /// An empty cache.
    pub fn new() -> (r: StatusCache)
        ensures
            r@ == (None::<Seq<EntryView>>, None::<Seq<char>>),
    {
        StatusCache { porcelain: None, repo_root: None }
    }

    /// The cached porcelain entries, if any.
    pub fn porcelain_lines(&self) -> (r: Option<Vec<(String, String)>>)
        ensures
            match r {
                Some(e) => self@.0 == Some(entry_views(e@)),
                None => self@.0 is None,
            },
    {
        match &self.porcelain {
            Some(e) => Some(copy_entries(e)),
            None => None,
        }
    }

    /// The cached repository root, if any.
    pub fn repo_root(&self) -> (r: Option<String>)
        ensures
            opt_view(r) == self@.1,
    {
        match &self.repo_root {
            Some(p) => Some(copy_string(p)),
            None => None,
        }
    }
}

/// Forgets the cached porcelain entries; the repository root stays.
pub fn invalidate_porcelain_cache(cache: &mut StatusCache)
    ensures
        final(cache)@ == porcelain_dropped(old(cache)@),
{
    cache.porcelain = None;
}

/// Forgets the cached repository root; the porcelain entries stay.
pub fn invalidate_repo_root_cache(cache: &mut StatusCache)
    ensures
        final(cache)@ == root_dropped(old(cache)@),
{
    cache.repo_root = None;
}

/// The porcelain entries from the output of `git status --porcelain`; on
/// success they are also stored in the cache.
pub fn get_porcelain_lines(cache: &mut StatusCache, output: &GitOutput) -> (r: Result<
    Vec<(String, String)>,
    SupgitError,
>)
    requires
        output.success ==> porcelain_output_ok(output.stdout@),
    ensures
        output.success ==> r is Ok && entry_views(r->Ok_0@) == porcelain_entries(output.stdout@)
            && final(cache)@ == porcelain_recorded(old(cache)@, output.stdout@),
        !output.success ==> (r matches Err(SupgitError::PorcelainFailed(m)) && m@ == trim(
            output.stderr@,
        )) && final(cache)@ == old(cache)@,
{
    if !output.success {
        return Err(SupgitError::PorcelainFailed(trim_string(output.stderr.as_str())));
    }
    let entries = parse_porcelain_output(output.stdout.as_str());
    cache.porcelain = Some(copy_entries(&entries));
    Ok(entries)
}

/// Whether `git rev-parse --is-inside-work-tree` said yes: it succeeded and
/// printed `true`.
pub fn inside_work_tree(output: &GitOutput) -> (r: bool)
    ensures
        r == (output.success && trim(output.stdout@) == "true"@),
{
    if !output.success {
        return false;
    }
    let t = trim_string(output.stdout.as_str());
    t == String::from_str("true")
}

/// The repository root from the output of `git rev-parse --show-toplevel`;
/// when one is found it is also stored in the cache.
pub fn get_repo_root(cache: &mut StatusCache, output: &GitOutput) -> (r: Result<String, SupgitError>)
    ensures
        output.success && trim(output.stdout@).len() > 0 ==> r is Ok && r->Ok_0@ == trim(
            output.stdout@,
        ) && final(cache)@ == root_recorded(old(cache)@, trim(output.stdout@)),
        output.success && trim(output.stdout@).len() == 0 ==> (r matches Err(
            SupgitError::NotInRepo,
        )) && final(cache)@ == old(cache)@,
        !output.success && contains(output.stderr@, "not a git repository"@) ==> (r matches Err(
            SupgitError::NotInRepo,
        )) && final(cache)@ == old(cache)@,
        !output.success && !contains(output.stderr@, "not a git repository"@) ==> (r matches Err(
            SupgitError::RepoRootFailed(m),
        ) && m@ == trim(output.stderr@)) && final(cache)@ == old(cache)@,
{
    if output.success {
        let path = trim_string(output.stdout.as_str());
        if path.as_str().is_empty() {
            return Err(SupgitError::NotInRepo);
        }
        cache.repo_root = Some(copy_string(&path));
        Ok(path)
    } else if str_contains(output.stderr.as_str(), "not a git repository") {
        Err(SupgitError::NotInRepo)
    } else {
        Err(SupgitError::RepoRootFailed(trim_string(output.stderr.as_str())))
    }
}

// ---------------------------------------------------------------------------
// Branches
// ---------------------------------------------------------------------------

/// A line, trimmed, when something is left of it.
pub open spec fn trimmed_if_nonempty() -> spec_fn(Seq<char>) -> Option<Seq<char>> {
    |l: Seq<char>|
        if trim(l).len() > 0 {
            Some(trim(l))
        } else {
            None
        }
}

/// The trimmed, non-empty lines of `s`.
pub open spec fn trimmed_nonempty_lines(s: Seq<char>) -> Seq<Seq<char>> {
    lines(s).filter_map(trimmed_if_nonempty())
}

/// The local branch names from `git branch --format=%(refname:short)`.
pub fn get_branches(stdout: &str) -> (r: Vec<String>)
    ensures
        views(r@) == trimmed_nonempty_lines(stdout@),
{
    let v = to_chars(stdout);
    let ls = lines_of(&v);
    let ghost lv = lines(stdout@);
    let ghost f = trimmed_if_nonempty();
    let mut out: Vec<String> = Vec::new();
    let mut i: usize = 0;
    while i < ls.len()
        invariant
            i <= ls.len(),
            views(ls@) == lv,
            lv == lines(stdout@),
            f == trimmed_if_nonempty(),
            views(out@) == lv.take(i as int).filter_map(f),
        decreases ls.len() - i,
    {
        assert(ls@[i as int]@ == lv[i as int]);
        assert(lv.take(i + 1).drop_last() =~= lv.take(i as int));
        let t = trim_string(ls[i].as_str());
        let ghost old_out = out@;
        assert(lv.take(i + 1).last() == lv[i as int]);
        if !t.as_str().is_empty() {
            out.push(t);
            assert(f(lv[i as int]) == Some(trim(lv[i as int])));
            assert(views(out@) =~= views(old_out).push(trim(lv[i as int])));
        } else {
            assert(f(lv[i as int]) is None);
        }
        i += 1;
    }
    assert(lv.take(ls.len() as int) =~= lv);
    out
}

/// The current branch from `git branch --show-current` (empty when detached).
pub fn get_current_branch(stdout: &str) -> (r: String)
    ensures
        r@ == trim(stdout@),
{
    trim_string(stdout)
}


// ---------------------------------------------------------------------------
// Laws
// ---------------------------------------------------------------------------

/// Reading the cache right after recording gives back what was recorded.
pub proof fn law_cache_read_after_record(c: CacheView, s: Seq<char>, p: Seq<char>)
    ensures
        porcelain_recorded(c, s).0 == Some(porcelain_entries(s)),
        root_recorded(c, p).1 == Some(p),
{
}

/// The porcelain entries and the repository root are cached independently:
/// recording or dropping one leaves the other as it was.
pub proof fn law_cache_parts_independent(c: CacheView, s: Seq<char>, p: Seq<char>)
    ensures
        porcelain_recorded(c, s).1 == c.1,
        porcelain_dropped(c).1 == c.1,
        root_recorded(c, p).0 == c.0,
        root_dropped(c).0 == c.0,
{
}

/// After an invalidation nothing of that part is cached, whatever was
/// recorded before; recording again replaces the old entries.
pub proof fn law_cache_invalidate_forgets(c: CacheView, s1: Seq<char>, s2: Seq<char>, p: Seq<char>)
    ensures
        porcelain_dropped(porcelain_recorded(c, s1)).0 is None,
        root_dropped(root_recorded(c, p)).1 is None,
        porcelain_recorded(porcelain_recorded(c, s1), s2) == porcelain_recorded(c, s2),
{
}

/// No status is both untracked and staged, or both untracked and unstaged.
pub proof fn law_untracked_excludes_other_classes(st: Seq<char>)
    ensures
        !(is_untracked(st) && is_unstaged(st)),
        !(is_untracked(st) && is_staged(st)),
{
}

/// Every path a filter keeps is one of the listing's paths, and a filter
/// keeps no more paths than there are entries.
pub proof fn law_filtered_paths_are_listed(es: Seq<EntryView>, p: spec_fn(Seq<char>) -> bool)
    ensures
        paths_where(es, p).len() <= es.len(),
        forall|i: int| 0 <= i < paths_where(es, p).len() ==> all_paths(es).contains(#[trigger] paths_where(es, p)[i]),
    decreases es.len(),
{
    if es.len() > 0 {
        let rest = es.drop_last();
        law_filtered_paths_are_listed(rest, p);
        assert(all_paths(rest) =~= all_paths(es).drop_last());
        assert forall|i: int| 0 <= i < paths_where(es, p).len() implies all_paths(es).contains(
            #[trigger] paths_where(es, p)[i],
        ) by {
            if i < paths_where(rest, p).len() {
                let x = paths_where(es, p)[i];
                assert(x == paths_where(rest, p)[i]);
                let j = choose|j: int| 0 <= j < all_paths(rest).len() && all_paths(rest)[j] == x;
                assert(all_paths(es)[j] == x);
            } else {
                assert(all_paths(es)[es.len() - 1] == es.last().1);
            }
        }
    }
}

/// The branches listed are trimmed and non-empty.
pub proof fn law_branches_trimmed(s: Seq<char>)
    ensures
        forall|i: int|
            0 <= i < trimmed_nonempty_lines(s).len() ==> (#[trigger] trimmed_nonempty_lines(s)[i]).len()
                > 0 && trim(trimmed_nonempty_lines(s)[i]) == trimmed_nonempty_lines(s)[i],
{
    lemma_trimmed_lines(lines(s));
}

proof fn lemma_trimmed_lines(ls: Seq<Seq<char>>)
    ensures
        forall|i: int|
            0 <= i < ls.filter_map(trimmed_if_nonempty()).len() ==> (#[trigger] ls.filter_map(
                trimmed_if_nonempty(),
            )[i]).len() > 0 && trim(ls.filter_map(trimmed_if_nonempty())[i]) == ls.filter_map(
                trimmed_if_nonempty(),
            )[i],
    decreases ls.len(),
{
    if ls.len() > 0 {
        let f = trimmed_if_nonempty();
        let rest = ls.drop_last();
        lemma_trimmed_lines(rest);
        crate::text::law_trim_idempotent(ls.last());
        let out = ls.filter_map(f);
        assert forall|i: int| 0 <= i < out.len() implies (#[trigger] out[i]).len() > 0 && trim(out[i])
            == out[i] by {
            if i < rest.filter_map(f).len() {
                assert(out[i] == rest.filter_map(f)[i]);
            } else {
                assert(f(ls.last()) == Some(trim(ls.last())));
                assert(out[i] == trim(ls.last()));
            }
        }
    }
}

/// Whether `a` is `b` with some elements left out (the rest in order).
pub open spec fn is_subsequence_of(a: Seq<Seq<char>>, b: Seq<Seq<char>>) -> bool {
    exists|idx: Seq<int>|
        #![trigger idx.len()]
        idx.len() == a.len() && (forall|i: int| 0 <= i < a.len() ==> 0 <= #[trigger] idx[i] < b.len() && b[idx[i]] == a[i])
            && (forall|i: int, j: int| 0 <= i < j < a.len() ==> idx[i] < idx[j])
}

/// The positions of the entries whose status satisfies `p`, in order.
pub open spec fn where_indices(es: Seq<EntryView>, p: spec_fn(Seq<char>) -> bool) -> Seq<int>
    decreases es.len(),
{
    if es.len() == 0 {
        seq![]
    } else {
        let rest = where_indices(es.drop_last(), p);
        if p(es.last().0) {
            rest.push(es.len() - 1)
        } else {
            rest
        }
    }
}

proof fn lemma_where_indices(es: Seq<EntryView>, p: spec_fn(Seq<char>) -> bool)
    ensures
        where_indices(es, p).len() == paths_where(es, p).len(),
        forall|i: int|
            0 <= i < where_indices(es, p).len() ==> {
                let k = #[trigger] where_indices(es, p)[i];
                &&& 0 <= k < es.len()
                &&& p(es[k].0)
                &&& paths_where(es, p)[i] == es[k].1
            },
        forall|i: int, j: int|
            0 <= i < j < where_indices(es, p).len() ==> #[trigger] where_indices(es, p)[i] < #[trigger] where_indices(es, p)[j],
    decreases es.len(),
{
    if es.len() > 0 {
        let rest = es.drop_last();
        lemma_where_indices(rest, p);
        let wr = where_indices(rest, p);
        let pr = paths_where(rest, p);
        let w = where_indices(es, p);
        let pw = paths_where(es, p);
        if p(es.last().0) {
            assert(pw == pr + seq![es.last().1]);
            assert(w == wr.push(es.len() - 1));
            assert forall|i: int| 0 <= i < w.len() implies {
                let k = #[trigger] w[i];
                &&& 0 <= k < es.len()
                &&& p(es[k].0)
                &&& pw[i] == es[k].1
            } by {
                if i < wr.len() {
                    assert(w[i] == wr[i]);
                    assert(rest[wr[i]] == es[wr[i]]);
                }
            }
            assert forall|i: int, j: int| 0 <= i < j < w.len() implies #[trigger] w[i] < #[trigger] w[j] by {
                if j < wr.len() {
                    assert(w[i] == wr[i] && w[j] == wr[j]);
                } else {
                    assert(w[i] == wr[i]);
                }
            }
        } else {
            assert(pw == pr);
            assert(w == wr);
            assert forall|i: int| 0 <= i < w.len() implies {
                let k = #[trigger] w[i];
                &&& 0 <= k < es.len()
                &&& p(es[k].0)
                &&& pw[i] == es[k].1
            } by {
                assert(rest[wr[i]] == es[wr[i]]);
            }
        }
    }
}

proof fn lemma_paths_where_subsequence(es: Seq<EntryView>, p: spec_fn(Seq<char>) -> bool)
    ensures
        is_subsequence_of(paths_where(es, p), all_paths(es)),
{
    lemma_where_indices(es, p);
    let idx = where_indices(es, p);
    let a = paths_where(es, p);
    let b = all_paths(es);
    assert forall|i: int| 0 <= i < a.len() implies 0 <= #[trigger] idx[i] < b.len() && b[idx[i]] == a[i] by {
        assert(b[idx[i]] == es[idx[i]].1);
    }
    assert(idx.len() == a.len());
}

proof fn lemma_exclusive_paths(
    es: Seq<EntryView>,
    p: spec_fn(Seq<char>) -> bool,
    q: spec_fn(Seq<char>) -> bool,
    x: Seq<char>,
)
    requires
        forall|i: int, j: int| 0 <= i < j < es.len() ==> es[i].1 != es[j].1,
        forall|st: Seq<char>| !(#[trigger] p(st) && q(st)),
    ensures
        !(paths_where(es, p).contains(x) && paths_where(es, q).contains(x)),
{
    lemma_where_indices(es, p);
    lemma_where_indices(es, q);
    if paths_where(es, p).contains(x) && paths_where(es, q).contains(x) {
        let i = choose|i: int| 0 <= i < paths_where(es, p).len() && paths_where(es, p)[i] == x;
        let j = choose|j: int| 0 <= j < paths_where(es, q).len() && paths_where(es, q)[j] == x;
        let ki = where_indices(es, p)[i];
        let kj = where_indices(es, q)[j];
        assert(es[ki].1 == x && es[kj].1 == x);
        if ki < kj {
        } else if kj < ki {
        } else {
            assert(p(es[ki].0) && q(es[ki].0));
        }
    }
}

/// The untracked, staged and unstaged lists are each the listing's paths
/// with some left out (the rest in order), and, when no path is listed
/// twice, no path is on two of them.
pub proof fn law_status_lists_disjoint(es: Seq<EntryView>)
    requires
        forall|i: int, j: int| 0 <= i < j < es.len() ==> es[i].1 != es[j].1,
    ensures
        is_subsequence_of(paths_where(es, untracked_pred()), all_paths(es)),
        is_subsequence_of(paths_where(es, staged_pred()), all_paths(es)),
        is_subsequence_of(paths_where(es, unstaged_pred()), all_paths(es)),
        forall|x: Seq<char>|
            !(#[trigger] paths_where(es, untracked_pred()).contains(x) && paths_where(es, staged_pred()).contains(x)),
        forall|x: Seq<char>|
            !(#[trigger] paths_where(es, untracked_pred()).contains(x) && paths_where(es, unstaged_pred()).contains(x)),
        forall|x: Seq<char>|
            !(#[trigger] paths_where(es, staged_pred()).contains(x) && paths_where(es, unstaged_pred()).contains(x)),
{
    lemma_paths_where_subsequence(es, untracked_pred());
    lemma_paths_where_subsequence(es, staged_pred());
    lemma_paths_where_subsequence(es, unstaged_pred());
    assert forall|x: Seq<char>|
        !(#[trigger] paths_where(es, untracked_pred()).contains(x) && paths_where(es, staged_pred()).contains(x)) by {
        lemma_exclusive_paths(es, untracked_pred(), staged_pred(), x);
    }
    assert forall|x: Seq<char>|
        !(#[trigger] paths_where(es, untracked_pred()).contains(x) && paths_where(es, unstaged_pred()).contains(x)) by {
        lemma_exclusive_paths(es, untracked_pred(), unstaged_pred(), x);
    }
    assert forall|x: Seq<char>|
        !(#[trigger] paths_where(es, staged_pred()).contains(x) && paths_where(es, unstaged_pred()).contains(x)) by {
        lemma_exclusive_paths(es, staged_pred(), unstaged_pred(), x);
    }
}

/// A cache lookup: the cached value, or the git arguments to run to get it.
pub enum Lookup<T> {
    Hit(T),
    Run(Vec<String>),
}

fn args_of2(a: &str, b: &str) -> (r: Vec<String>)
    ensures
        views(r@) == seq![a@, b@],
{
    let mut v: Vec<String> = Vec::new();
    v.push(String::from_str(a));
    v.push(String::from_str(b));
    assert(views(v@) =~= seq![a@, b@]);
    v
}

/// The porcelain entries from the cache, or, when none is cached,
/// `git status --porcelain` to run (its output goes to `get_porcelain_lines`).
pub fn porcelain_lookup(cache: &StatusCache) -> (r: Lookup<Vec<(String, String)>>)
    ensures
        match r {
            Lookup::Hit(e) => cache@.0 == Some(entry_views(e@)),
            Lookup::Run(a) => cache@.0 is None && views(a@) == seq!["status"@, "--porcelain"@],
        },
{
    match cache.porcelain_lines() {
        Some(e) => Lookup::Hit(e),
        None => Lookup::Run(args_of2("status", "--porcelain")),
    }
}

/// The repository root from the cache, or, when none is cached,
/// `git rev-parse --show-toplevel` to run (its output goes to `get_repo_root`).
pub fn repo_root_lookup(cache: &StatusCache) -> (r: Lookup<String>)
    ensures
        match r {
            Lookup::Hit(p) => cache@.1 == Some(p@),
            Lookup::Run(a) => cache@.1 is None && views(a@) == seq!["rev-parse"@, "--show-toplevel"@],
        },
{
    match cache.repo_root() {
        Some(p) => Lookup::Hit(p),
        None => Lookup::Run(args_of2("rev-parse", "--show-toplevel")),
    }
}

/// An entry whose status a filter keeps has its path in the filter's list.
proof fn lemma_paths_where_contains(es: Seq<EntryView>, p: spec_fn(Seq<char>) -> bool, i: int)
    requires
        0 <= i < es.len(),
        p(es[i].0),
    ensures
        paths_where(es, p).contains(es[i].1),
    decreases es.len(),
{
    let rest = es.drop_last();
    if i == es.len() - 1 {
        let pw = paths_where(es, p);
        assert(pw == paths_where(rest, p) + seq![es.last().1]);
        assert(pw[pw.len() - 1] == es[i].1);
    } else {
        assert(rest[i] == es[i]);
        lemma_paths_where_contains(rest, p, i);
        let pr = paths_where(rest, p);
        let k = choose|k: int| 0 <= k < pr.len() && pr[k] == es[i].1;
        if p(es.last().0) {
            assert(paths_where(es, p) == pr + seq![es.last().1]);
            assert(paths_where(es, p)[k] == pr[k]);
        } else {
            assert(paths_where(es, p) == pr);
        }
    }
}

/// An entry's place in the three lists is read off its two status columns:
/// it is staged exactly when its index column is `M`, `A`, `D`, `R` or `C`
/// (a staged deletion `D ` included); unstaged exactly when its index column
/// is blank and its worktree column is neither blank nor `?`; untracked
/// exactly when both columns are `?`. Every entry of a class has its path on
/// that class's list.
pub proof fn law_status_lists_by_columns(es: Seq<EntryView>)
    ensures
        forall|i: int|
            0 <= i < es.len() && (status_x(#[trigger] es[i].0) == 'M' || status_x(es[i].0) == 'A'
                || status_x(es[i].0) == 'D' || status_x(es[i].0) == 'R' || status_x(es[i].0) == 'C')
                ==> paths_where(es, staged_pred()).contains(es[i].1),
        forall|i: int|
            0 <= i < es.len() && status_x(#[trigger] es[i].0) == ' ' && status_y(es[i].0) != ' '
                && status_y(es[i].0) != '?' ==> paths_where(es, unstaged_pred()).contains(es[i].1),
        forall|i: int|
            0 <= i < es.len() && status_x(#[trigger] es[i].0) == '?' && status_y(es[i].0) == '?'
                ==> paths_where(es, untracked_pred()).contains(es[i].1),
{
    assert forall|i: int|
        0 <= i < es.len() && (status_x(#[trigger] es[i].0) == 'M' || status_x(es[i].0) == 'A'
            || status_x(es[i].0) == 'D' || status_x(es[i].0) == 'R' || status_x(es[i].0) == 'C')
            implies paths_where(es, staged_pred()).contains(es[i].1) by {
        lemma_paths_where_contains(es, staged_pred(), i);
    }
    assert forall|i: int|
        0 <= i < es.len() && status_x(#[trigger] es[i].0) == ' ' && status_y(es[i].0) != ' '
            && status_y(es[i].0) != '?' implies paths_where(es, unstaged_pred()).contains(es[i].1) by {
        lemma_paths_where_contains(es, unstaged_pred(), i);
    }
    assert forall|i: int|
        0 <= i < es.len() && status_x(#[trigger] es[i].0) == '?' && status_y(es[i].0) == '?'
            implies paths_where(es, untracked_pred()).contains(es[i].1) by {
        lemma_paths_where_contains(es, untracked_pred(), i);
    }
}

/// The three lists are exactly the paths of the entries, in order, whose
/// status columns say so: staged when the index column is `M`, `A`, `D`,
/// `R` or `C`; unstaged when the index column is blank and the worktree
/// column neither blank nor `?`; untracked when both columns are `?`.
pub proof fn law_status_lists_are_column_filters(es: Seq<EntryView>)
    ensures
        paths_where(es, staged_pred()) == paths_where(
            es,
            |st: Seq<char>|
                status_x(st) == 'M' || status_x(st) == 'A' || status_x(st) == 'D' || status_x(st)
                    == 'R' || status_x(st) == 'C',
        ),
        paths_where(es, unstaged_pred()) == paths_where(
            es,
            |st: Seq<char>| status_x(st) == ' ' && status_y(st) != ' ' && status_y(st) != '?',
        ),
        paths_where(es, untracked_pred()) == paths_where(
            es,
            |st: Seq<char>| status_x(st) == '?' && status_y(st) == '?',
        ),
{
    assert(staged_pred() =~= (|st: Seq<char>|
        status_x(st) == 'M' || status_x(st) == 'A' || status_x(st) == 'D' || status_x(st) == 'R'
            || status_x(st) == 'C'));
    assert(unstaged_pred() =~= (|st: Seq<char>|
        status_x(st) == ' ' && status_y(st) != ' ' && status_y(st) != '?'));
    assert(untracked_pred() =~= (|st: Seq<char>| status_x(st) == '?' && status_y(st) == '?'));
}

} // verus!
