//! `alias` and `unalias`: the block the tool appends to a shell's start-up
//! file, and how it is found and taken out again.
use vstd::prelude::*;

use crate::error::SupgitError;
use crate::text::{
    contains, find, find_exec, from_chars, lemma_find_at, lemma_find_range, matches_at,
    str_contains, to_chars, trim_end, trim_end_string,
};

verus! {

/// Which alias: `git` or `sg`, both for `supgit`.
#[derive(Clone, Copy, PartialEq, Eq, Structural, Debug)]
pub enum AliasKind {
    Git,
    Sg,
}

pub open spec fn alias_name_view(k: AliasKind) -> Seq<char> {
    match k {
        AliasKind::Git => "git"@,
        AliasKind::Sg => "sg"@,
    }
}

/// The name of the alias.
pub fn alias_name(k: AliasKind) -> (r: &'static str)
    ensures
        r@ == alias_name_view(k),
{
    match k {
        AliasKind::Git => "git",
        AliasKind::Sg => "sg",
    }
}

/// The line that opens an alias block.
pub open spec fn start_marker(k: AliasKind) -> Seq<char> {
    match k {
        AliasKind::Git => "# >>> supgit alias >>>"@,
        AliasKind::Sg => "# >>> supgit sg alias >>>"@,
    }
}

/// The line that closes an alias block.
pub open spec fn end_marker(k: AliasKind) -> Seq<char> {
    match k {
        AliasKind::Git => "# <<< supgit alias <<<"@,
        AliasKind::Sg => "# <<< supgit sg alias <<<"@,
    }
}

fn start_marker_exec(k: AliasKind) -> (r: &'static str)
    ensures
        r@ == start_marker(k),
{
    match k {
        AliasKind::Git => "# >>> supgit alias >>>",
        AliasKind::Sg => "# >>> supgit sg alias >>>",
    }
}

fn end_marker_exec(k: AliasKind) -> (r: &'static str)
    ensures
        r@ == end_marker(k),
{
    match k {
        AliasKind::Git => "# <<< supgit alias <<<",
        AliasKind::Sg => "# <<< supgit sg alias <<<",
    }
}

/// The alias the flags ask for: `None` when the user is to be asked.
pub open spec fn alias_flags(git: bool, sg: bool, non_interactive: bool) -> Result<Option<AliasKind>, SupgitError> {
    if git && sg {
        Err(SupgitError::BothAliasFlags)
    } else if git {
        Ok(Some(AliasKind::Git))
    } else if sg {
        Ok(Some(AliasKind::Sg))
    } else if non_interactive {
        Err(SupgitError::AliasNeedsFlag)
    } else {
        Ok(None)
    }
}

pub fn resolve_alias_flags(git: bool, sg: bool, non_interactive: bool) -> (r: Result<Option<AliasKind>, SupgitError>)
    ensures
        r == alias_flags(git, sg, non_interactive),
{
    if git && sg {
        Err(SupgitError::BothAliasFlags)
    } else if git {
        Ok(Some(AliasKind::Git))
    } else if sg {
        Ok(Some(AliasKind::Sg))
    } else if non_interactive {
        Err(SupgitError::AliasNeedsFlag)
    } else {
        Ok(None)
    }
}

/// The alias picked from the two-line menu (`git` first).
pub fn alias_for_selection(selection: usize) -> (r: AliasKind)
    ensures
        r == if selection == 0 {
            AliasKind::Git
        } else {
            AliasKind::Sg
        },
{
    if selection == 0 {
        AliasKind::Git
    } else {
        AliasKind::Sg
    }
}

/// The start-up file of the shell: `.zshrc` for a zsh, else `.bashrc`.
pub fn shell_config_name(shell: &str) -> (r: &'static str)
    ensures
        r@ == if contains(shell@, "zsh"@) {
            ".zshrc"@
        } else {
            ".bashrc"@
        },
{
    if str_contains(shell, "zsh") {
        ".zshrc"
    } else {
        ".bashrc"
    }
}

/// Whether the file already has the alias: the `git` alias is known by its
/// block's start marker, the `sg` alias by any `alias sg=` line.
pub open spec fn alias_present(k: AliasKind, content: Seq<char>) -> bool {
    match k {
        AliasKind::Git => contains(content, start_marker(AliasKind::Git)),
        AliasKind::Sg => contains(content, "alias sg="@),
    }
}

pub fn alias_exists(k: AliasKind, content: &str) -> (r: bool)
    ensures
        r == alias_present(k, content@),
{
    match k {
        AliasKind::Git => str_contains(content, "# >>> supgit alias >>>"),
        AliasKind::Sg => str_contains(content, "alias sg="),
    }
}

/// The block appended to the start-up file.
pub open spec fn alias_block_view(k: AliasKind) -> Seq<char> {
    "\n"@ + start_marker(k) + "\nalias "@ + alias_name_view(k) + "='supgit'\n"@ + end_marker(k) + "\n"@
}

pub fn alias_block(k: AliasKind) -> (r: String)
    ensures
        r@ == alias_block_view(k),
{
    let mut s = String::from_str("\n");
    s.append(start_marker_exec(k));
    s.append("\nalias ");
    s.append(alias_name(k));
    s.append("='supgit'\n");
    s.append(end_marker_exec(k));
    s.append("\n");
    s
}

/// The start-up file without the alias block: everything before the first
/// start marker (less one newline just before it) joined to everything after
/// the first end marker, trailing whitespace trimmed. `Ok(None)` when there
/// is no start marker; an error when there is no end marker.
pub open spec fn alias_removal(k: AliasKind, c: Seq<char>) -> Result<Option<Seq<char>>, SupgitError> {
    let s = find(c, start_marker(k));
    let e = find(c, end_marker(k));
    if s < 0 {
        Ok(None)
    } else if e < 0 {
        Err(SupgitError::AliasEndMarkerMissing(k == AliasKind::Sg))
    } else {
        let cut = if s > 0 && c[s - 1] == '\n' {
            s - 1
        } else {
            s
        };
        Ok(Some(trim_end(c.take(cut) + c.skip(e + end_marker(k).len()))))
    }
}

pub fn remove_alias_block(k: AliasKind, content: &str) -> (r: Result<Option<String>, SupgitError>)
    ensures
        match r {
            Ok(Some(s)) => alias_removal(k, content@) == Ok::<Option<Seq<char>>, SupgitError>(
                Some(s@),
            ),
            Ok(None) => alias_removal(k, content@) == Ok::<Option<Seq<char>>, SupgitError>(None),
            Err(e) => alias_removal(k, content@) == Err::<Option<Seq<char>>, SupgitError>(e),
        },
{
    let c = to_chars(content);
    let sm = to_chars(start_marker_exec(k));
    let em = to_chars(end_marker_exec(k));
    let s = match find_exec(&c, &sm) {
        Some(s) => s,
        None => {
            return Ok(None);
        },
    };
    let e = match find_exec(&c, &em) {
        Some(e) => e,
        None => {
            return Err(SupgitError::AliasEndMarkerMissing(k == AliasKind::Sg));
        },
    };
    proof {
        lemma_find_range(c@, sm@);
        lemma_find_range(c@, em@);
    }
    let cut = if s > 0 && c[s - 1] == '\n' {
        s - 1
    } else {
        s
    };
    assert(e + em.len() <= c.len());
    let eob = e + em.len();
    let mut joined = from_chars(&c, 0, cut);
    crate::text::append_chars(&mut joined, &c, eob, c.len());
    assert(joined@ =~= c@.take(cut as int) + c@.skip(eob as int));
    Ok(Some(trim_end_string(joined.as_str())))
}

// ---------------------------------------------------------------------------
// Laws
// ---------------------------------------------------------------------------

pub open spec fn no_newline(s: Seq<char>) -> bool {
    forall|i: int| 0 <= i < s.len() ==> s[i] != '\n'
}

/// A window of `s` that covers a newline cannot match a pattern without one.
proof fn lemma_newline_blocks(s: Seq<char>, pat: Seq<char>, p: int, i: int)
    requires
        no_newline(pat),
        0 <= p < s.len(),
        s[p] == '\n',
        i <= p < i + pat.len(),
    ensures
        !matches_at(s, pat, i),
{
    if matches_at(s, pat, i) {
        assert(s.subrange(i, i + pat.len())[p - i] == s[p]);
    }
}

/// A pattern absent from `c` matches `c + t` nowhere inside `c`.
proof fn lemma_absent_in_prefix(c: Seq<char>, t: Seq<char>, pat: Seq<char>, i: int)
    requires
        !contains(c, pat),
        0 <= i,
        i + pat.len() <= c.len(),
    ensures
        !matches_at(c + t, pat, i),
{
    lemma_find_range(c, pat);
    if matches_at(c + t, pat, i) {
        assert((c + t).subrange(i, i + pat.len()) =~= c.subrange(i, i + pat.len()));
        assert(matches_at(c, pat, i));
    }
}

/// Where the markers of a block `\n sm \n mid \n em \n` appended to `c` are
/// first found.
proof fn lemma_block_markers(c: Seq<char>, sm: Seq<char>, mid: Seq<char>, em: Seq<char>)
    requires
        no_newline(sm),
        no_newline(mid),
        no_newline(em),
        sm.len() == em.len(),
        sm != em,
        mid.len() < em.len(),
        !contains(c, sm),
        !contains(c, em),
    ensures
        ({
            let d = c + (seq!['\n'] + sm + seq!['\n'] + mid + seq!['\n'] + em + seq!['\n']);
            &&& find(d, sm) == c.len() + 1
            &&& find(d, em) == c.len() + 2 + sm.len() + mid.len() + 1
        }),
{
    let b = seq!['\n'] + sm + seq!['\n'] + mid + seq!['\n'] + em + seq!['\n'];
    let d = c + b;
    let n = c.len() as int;
    let p1 = n + 1 + sm.len();
    let p2 = p1 + 1 + mid.len();
    let e0 = p2 + 1;
    assert(d.len() == e0 + em.len() + 1);
    assert(d[n] == '\n');
    assert(d[p1] == '\n');
    assert(d[p2] == '\n');
    assert(d.subrange(n + 1, p1) =~= sm);
    assert(d.subrange(e0, e0 + em.len()) =~= em);
    assert(matches_at(d, sm, n + 1));
    assert(matches_at(d, em, e0));
    assert forall|j: int| 0 <= j && j < n + 1 implies !#[trigger] matches_at(d, sm, j) by {
        if j + sm.len() <= n {
            lemma_absent_in_prefix(c, b, sm, j);
        } else {
            lemma_newline_blocks(d, sm, n, j);
        }
    }
    lemma_find_at(d, sm, n + 1);
    assert forall|j: int| 0 <= j && j < e0 implies !#[trigger] matches_at(d, em, j) by {
        if j + em.len() <= n {
            lemma_absent_in_prefix(c, b, em, j);
        } else if j <= n {
            lemma_newline_blocks(d, em, n, j);
        } else if j == n + 1 {
            if matches_at(d, em, j) {
                assert(sm =~= em);
            }
        } else if j <= p1 {
            lemma_newline_blocks(d, em, p1, j);
        } else {
            lemma_newline_blocks(d, em, p2, j);
        }
    }
    lemma_find_at(d, em, e0);
}

proof fn lemma_block_shape(k: AliasKind)
    ensures
        no_newline(start_marker(k)),
        no_newline(end_marker(k)),
        no_newline("alias "@ + alias_name_view(k) + "='supgit'"@),
        start_marker(k).len() == end_marker(k).len(),
        start_marker(k) != end_marker(k),
        ("alias "@ + alias_name_view(k) + "='supgit'"@).len() < end_marker(k).len(),
        alias_block_view(k) =~= seq!['\n'] + start_marker(k) + seq!['\n'] + ("alias "@
            + alias_name_view(k) + "='supgit'"@) + seq!['\n'] + end_marker(k) + seq!['\n'],
{
    reveal_strlit("\n");
    reveal_strlit("\nalias ");
    reveal_strlit("alias ");
    reveal_strlit("='supgit'\n");
    reveal_strlit("='supgit'");
    reveal_strlit("git");
    reveal_strlit("sg");
    reveal_strlit("# >>> supgit alias >>>");
    reveal_strlit("# <<< supgit alias <<<");
    reveal_strlit("# >>> supgit sg alias >>>");
    reveal_strlit("# <<< supgit sg alias <<<");
    assert(start_marker(k)[2] != end_marker(k)[2]);
}

/// `unalias` undoes `alias`: taking the block out of a start-up file that
/// had it appended gives back the file as it was, less trailing whitespace.
/// The file must not already hold the block's markers.
pub proof fn law_alias_removal_undoes_append(k: AliasKind, c: Seq<char>)
    requires
        !contains(c, start_marker(k)),
        !contains(c, end_marker(k)),
    ensures
        alias_removal(k, c + alias_block_view(k)) == Ok::<Option<Seq<char>>, SupgitError>(Some(trim_end(c))),
{
    lemma_block_shape(k);
    let mid = "alias "@ + alias_name_view(k) + "='supgit'"@;
    lemma_block_markers(c, start_marker(k), mid, end_marker(k));
    let d = c + alias_block_view(k);
    let n = c.len() as int;
    let e0 = n + 2 + start_marker(k).len() + mid.len() + 1;
    assert(d[n] == '\n');
    assert(d.take(n) =~= c);
    assert(d.skip(e0 + end_marker(k).len()) =~= seq!['\n']);
    let joined = c + seq!['\n'];
    assert(joined.drop_last() =~= c);
    assert(trim_end(joined) == trim_end(c));
}

/// After `alias` appends its block, the file has the alias.
pub proof fn law_alias_present_after_append(k: AliasKind, c: Seq<char>)
    ensures
        alias_present(k, c + alias_block_view(k)),
{
    lemma_block_shape(k);
    let d = c + alias_block_view(k);
    let n = c.len() as int;
    match k {
        AliasKind::Git => {
            let sm = start_marker(k);
            assert(d.subrange(n + 1, n + 1 + sm.len()) =~= sm);
            lemma_find_range(d, sm);
            assert(matches_at(d, sm, n + 1));
        },
        AliasKind::Sg => {
            reveal_strlit("alias sg=");
            reveal_strlit("alias ");
            reveal_strlit("sg");
            reveal_strlit("='supgit'");
            let pat = "alias sg="@;
            let mid = "alias "@ + alias_name_view(k) + "='supgit'"@;
            let at = n + 2 + start_marker(k).len();
            assert(d.subrange(at, at + mid.len()) =~= mid);
            assert(d.subrange(at, at + pat.len()) =~= pat);
            lemma_find_range(d, pat);
            assert(matches_at(d, pat, at));
        },
    }
}

} // verus!
