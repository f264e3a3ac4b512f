//! `remote`: reading `git remote -v`, and the commands that add, remove and
//! repoint a remote.
use vstd::prelude::*;

use crate::error::SupgitError;
use crate::plan::{call_result_view, call_view, GitCall};
use crate::text::{
    byte_len, char_offset, char_utf8_width, copy_string, ends_with, ends_with_exec, find_char_from,
    first_match, from_chars, has_whitespace, index_of_char, lemma_byte_len_ascii,
    lemma_byte_len_split, lemma_byte_len_take, lemma_char_offset_none, lemma_char_offset_take,
    lemma_first_match_at, lines, lines_of, opt_view, push_str, str_has_whitespace, to_chars, trim,
    trim_bounds, trim_string, utf8_width, views,
};

verus! {

/// A remote with the URLs it fetches from and pushes to.
pub struct RemoteInfo {
    pub name: String,
    pub fetch_url: Option<String>,
    pub push_url: Option<String>,
}

/// A remote as views: name, fetch URL, push URL.
pub type RemoteView = (Seq<char>, Option<Seq<char>>, Option<Seq<char>>);

pub open spec fn remote_view(r: RemoteInfo) -> RemoteView {
    (r.name@, opt_view(r.fetch_url), opt_view(r.push_url))
}

pub open spec fn remote_views(rs: Seq<RemoteInfo>) -> Seq<RemoteView> {
    rs.map_values(|r: RemoteInfo| remote_view(r))
}

/// The second tab-separated field of a trimmed line (`None` without a tab).
pub open spec fn url_field(l: Seq<char>) -> Option<Seq<char>> {
    let k = index_of_char(l, '\t');
    if k < 0 {
        None
    } else {
        let rest = l.skip(k + 1);
        let k2 = index_of_char(rest, '\t');
        Some(
            if k2 < 0 {
                rest
            } else {
                rest.take(k2)
            },
        )
    }
}

/// What a line of `git remote -v` says: the remote's name, a URL, and whether
/// it is the fetch URL. The URL is the field with its last seven bytes cut:
/// ` (push)` or `(fetch)` (so a fetch URL keeps the space before `(fetch)`).
pub open spec fn remote_line(line: Seq<char>) -> Option<(Seq<char>, Seq<char>, bool)> {
    let l = trim(line);
    let k = index_of_char(l, '\t');
    if l.len() == 0 || k < 0 {
        None
    } else {
        let u = url_field(l).unwrap();
        if ends_with(u, "(push)"@) {
            Some((l.take(k), u.take(char_offset(u, byte_len(u) - 7)), false))
        } else if ends_with(u, "(fetch)"@) {
            Some((l.take(k), u.take(u.len() - 7), true))
        } else {
            None
        }
    }
}

/// A line whose push URL can be cut seven bytes before its end (the cut
/// panics otherwise).
pub open spec fn remote_line_ok(line: Seq<char>) -> bool {
    let l = trim(line);
    let k = index_of_char(l, '\t');
    l.len() == 0 || k < 0 || !ends_with(url_field(l).unwrap(), "(push)"@) || (byte_len(
        url_field(l).unwrap(),
    ) >= 7 && char_offset(url_field(l).unwrap(), byte_len(url_field(l).unwrap()) - 7) >= 0)
}

pub open spec fn remote_output_ok(s: Seq<char>) -> bool {
    forall|i: int| 0 <= i < lines(s).len() ==> remote_line_ok(#[trigger] lines(s)[i])
}

/// The predicate "is the remote called `name`".
pub open spec fn remote_named(name: Seq<char>) -> spec_fn(RemoteView) -> bool {
    |r: RemoteView| r.0 == name
}

/// Records a URL of a remote: on the first remote of that name, or on a new
/// remote at the end.
pub open spec fn add_remote_url(rs: Seq<RemoteView>, name: Seq<char>, url: Seq<char>, is_fetch: bool) -> Seq<RemoteView> {
    let i = first_match(rs, remote_named(name));
    if i >= 0 {
        rs.update(
            i,
            if is_fetch {
                (rs[i].0, Some(url), rs[i].2)
            } else {
                (rs[i].0, rs[i].1, Some(url))
            },
        )
    } else {
        rs.push(
            if is_fetch {
                (name, Some(url), None)
            } else {
                (name, None, Some(url))
            },
        )
    }
}

/// The remotes that a list of `git remote -v` lines describes, in the order
/// of their first line.
pub open spec fn remotes_of(ls: Seq<Seq<char>>) -> Seq<RemoteView>
    decreases ls.len(),
{
    if ls.len() == 0 {
        seq![]
    } else {
        let rs = remotes_of(ls.drop_last());
        match remote_line(ls.last()) {
            Some(e) => add_remote_url(rs, e.0, e.1, e.2),
            None => rs,
        }
    }
}

/// Whether every line of a `git remote -v` output can be read without a panic.
pub fn remote_output_is_well_formed(stdout: &str) -> (r: bool)
    ensures
        r == remote_output_ok(stdout@),
{
    let v = to_chars(stdout);
    let ls = lines_of(&v);
    let mut i: usize = 0;
    while i < ls.len()
        invariant
            i <= ls.len(),
            views(ls@) == lines(stdout@),
            forall|j: int| 0 <= j < i ==> remote_line_ok(#[trigger] lines(stdout@)[j]),
        decreases ls.len() - i,
    {
        assert(ls@[i as int]@ == lines(stdout@)[i as int]);
        let ok = match parse_remote_line(&ls[i], true) {
            Ok(_) => true,
            Err(_) => false,
        };
        if !ok {
            return false;
        }
        i += 1;
    }
    true
}

/// Reads one line; `Err` when its push URL cannot be cut (only possible when
/// `checking`).
fn parse_remote_line(line: &String, checking: bool) -> (r: Result<Option<(String, String, bool)>, ()>)
    requires
        !checking ==> remote_line_ok(line@),
    ensures
        r is Err <==> !remote_line_ok(line@),
        r matches Ok(Some(e)) ==> remote_line(line@) == Some((e.0@, e.1@, e.2)),
        r matches Ok(None) ==> remote_line(line@) is None,
{
    let v = to_chars(line.as_str());
    let (lo, hi) = trim_bounds(&v, 0, v.len());
    assert(v@.subrange(0, v@.len() as int) =~= v@);
    let l = from_chars(&v, lo, hi);
    let lv = to_chars(l.as_str());
    assert(lv@ == trim(line@));
    if lv.len() == 0 {
        return Ok(None);
    }
    assert(lv@.skip(0) =~= lv@);
    let k = match find_char_from(&lv, 0, '\t') {
        Some(k) => k,
        None => {
            return Ok(None);
        },
    };
    let ghost rest = lv@.skip(k + 1);
    let end = match find_char_from(&lv, k + 1, '\t') {
        Some(k2) => k2,
        None => lv.len(),
    };
    let u = from_chars(&lv, k + 1, end);
    let uv = to_chars(u.as_str());
    assert(uv@ =~= url_field(lv@).unwrap());
    let name = from_chars(&lv, 0, k);
    assert(name@ =~= lv@.take(k as int));
    let push_suffix = to_chars("(push)");
    let fetch_suffix = to_chars("(fetch)");
    proof {
        reveal_strlit("(push)");
        reveal_strlit("(fetch)");
    }
    if ends_with_exec(&uv, &push_suffix) {
        let n = uv.len();
        if n >= 7 && char_utf8_width(uv[n - 7]) == 1 {
            let url = from_chars(&uv, 0, n - 7);
            assert(url@ =~= uv@.take(n - 7));
            proof {
                lemma_push_cut(uv@);
            }
            Ok(Some((name, url, false)))
        } else {
            proof {
                lemma_push_cut(uv@);
            }
            Err(())
        }
    } else if ends_with_exec(&uv, &fetch_suffix) {
        let url = from_chars(&uv, 0, uv.len() - 7);
        assert(url@ =~= uv@.take(uv@.len() - 7));
        Ok(Some((name, url, true)))
    } else {
        Ok(None)
    }
}

/// Where a URL field ending with `(push)` is cut: seven bytes before its end
/// is a character boundary exactly when the seventh character from the end is
/// one byte wide.
proof fn lemma_push_cut(u: Seq<char>)
    requires
        ends_with(u, "(push)"@),
    ensures
        (byte_len(u) >= 7 && char_offset(u, byte_len(u) - 7) >= 0) <==> (u.len() >= 7 && utf8_width(
            u[u.len() - 7],
        ) == 1),
        u.len() >= 7 && utf8_width(u[u.len() - 7]) == 1 ==> char_offset(u, byte_len(u) - 7) == u.len()
            - 7,
{
    reveal_strlit("(push)");
    let n = u.len() as int;
    let suffix = u.skip(n - 6);
    assert(suffix == "(push)"@);
    assert forall|i: int| 0 <= i < suffix.len() implies (#[trigger] suffix[i] as u32) < 0x80 by {
        assert(suffix[i] == "(push)"@[i]);
    }
    lemma_byte_len_ascii(suffix);
    lemma_byte_len_split(u, n - 6);
    if n >= 7 {
        lemma_byte_len_take(u, n - 7);
        assert(u.take(n - 7 + 1) == u.take(n - 6));
        let b = byte_len(u) - 7;
        if utf8_width(u[n - 7]) == 1 {
            lemma_char_offset_take(u, b, n - 7);
        } else {
            lemma_char_offset_none(u, b, n - 7);
        }
    } else {
        assert(n == 6);
        assert(u.take(0) =~= Seq::<char>::empty());
    }
}


fn find_remote(rs: &Vec<RemoteInfo>, name: &String) -> (r: Option<usize>)
    ensures
        match r {
            Some(i) => i < rs.len() && first_match(remote_views(rs@), remote_named(name@)) == i,
            None => first_match(remote_views(rs@), remote_named(name@)) == -1,
        },
{
    let ghost rv = remote_views(rs@);
    let mut i: usize = 0;
    while i < rs.len()
        invariant
            i <= rs.len(),
            rv == remote_views(rs@),
            forall|j: int| 0 <= j < i ==> !remote_named(name@)(#[trigger] rv[j]),
        decreases rs.len() - i,
    {
        if rs[i].name == *name {
            proof {
                lemma_first_match_at(rv, remote_named(name@), i as int);
            }
            return Some(i);
        }
        i += 1;
    }
    proof {
        lemma_first_match_at(rv, remote_named(name@), rv.len() as int);
    }
    None
}

fn copy_opt(o: &Option<String>) -> (r: Option<String>)
    ensures
        opt_view(r) == opt_view(*o),
{
    match o {
        Some(s) => Some(copy_string(s)),
        None => None,
    }
}

/// The remotes that `git remote -v` lists, each with its fetch and push URL.
pub fn get_remotes(stdout: &str) -> (r: Vec<RemoteInfo>)
    requires
        remote_output_ok(stdout@),
    ensures
        remote_views(r@) == remotes_of(lines(stdout@)),
{
    let v = to_chars(stdout);
    let ls = lines_of(&v);
    let ghost lv = lines(stdout@);
    let mut out: Vec<RemoteInfo> = Vec::new();
    let mut i: usize = 0;
    while i < ls.len()
        invariant
            i <= ls.len(),
            views(ls@) == lv,
            lv == lines(stdout@),
            remote_output_ok(stdout@),
            remote_views(out@) == remotes_of(lv.take(i as int)),
        decreases ls.len() - i,
    {
        assert(ls@[i as int]@ == lv[i as int]);
        assert(lv.take(i + 1).drop_last() =~= lv.take(i as int));
        assert(lv.take(i + 1).last() == lv[i as int]);
        let ghost before = remote_views(out@);
        match parse_remote_line(&ls[i], false) {
            Ok(Some((name, url, is_fetch))) => {
                match find_remote(&out, &name) {
                    Some(j) => {
                        let old_r = &out[j];
                        let updated = if is_fetch {
                            RemoteInfo {
                                name: copy_string(&old_r.name),
                                fetch_url: Some(url),
                                push_url: copy_opt(&old_r.push_url),
                            }
                        } else {
                            RemoteInfo {
                                name: copy_string(&old_r.name),
                                fetch_url: copy_opt(&old_r.fetch_url),
                                push_url: Some(url),
                            }
                        };
                        out.set(j, updated);
                        assert(remote_views(out@) =~= add_remote_url(before, name@, url@, is_fetch));
                    },
                    None => {
                        let added = if is_fetch {
                            RemoteInfo { name, fetch_url: Some(url), push_url: None }
                        } else {
                            RemoteInfo { name, fetch_url: None, push_url: Some(url) }
                        };
                        out.push(added);
                        assert(remote_views(out@) =~= add_remote_url(before, name@, url@, is_fetch));
                    },
                }
            },
            _ => {},
        }
        i += 1;
    }
    assert(lv.take(ls.len() as int) =~= lv);
    out
}


// ---------------------------------------------------------------------------
// Commands
// ---------------------------------------------------------------------------

/// `add_remote`: refused for a blank name, a name with whitespace inside, or
/// a blank URL; otherwise `git remote add <name> <url>` on the trimmed values.
pub open spec fn add_remote_result(name: Seq<char>, url: Seq<char>) -> Result<(Seq<Seq<char>>, Seq<char>), SupgitError> {
    let n = trim(name);
    let u = trim(url);
    if n.len() == 0 {
        Err(SupgitError::EmptyRemoteName)
    } else if has_whitespace(n) {
        Err(SupgitError::RemoteNameWhitespace)
    } else if u.len() == 0 {
        Err(SupgitError::EmptyRemoteUrl)
    } else {
        Ok((seq!["remote"@, "add"@, n, u], "✓ Added remote '"@ + n + "' ("@ + u + ")"@))
    }
}

pub fn add_remote(name: &str, url: &str) -> (r: Result<GitCall, SupgitError>)
    ensures
        call_result_view(r) == add_remote_result(name@, url@),
{
    let n = trim_string(name);
    let u = trim_string(url);
    if n.as_str().is_empty() {
        return Err(SupgitError::EmptyRemoteName);
    }
    if str_has_whitespace(n.as_str()) {
        return Err(SupgitError::RemoteNameWhitespace);
    }
    if u.as_str().is_empty() {
        return Err(SupgitError::EmptyRemoteUrl);
    }
    let mut args: Vec<String> = Vec::new();
    push_str(&mut args, "remote");
    push_str(&mut args, "add");
    push_str(&mut args, n.as_str());
    push_str(&mut args, u.as_str());
    let mut message = String::from_str("✓ Added remote '");
    message.append(n.as_str());
    message.append("' (");
    message.append(u.as_str());
    message.append(")");
    let call = GitCall { args, message };
    assert(call_view(call) =~= add_remote_result(name@, url@)->Ok_0);
    Ok(call)
}

/// `remove_remote`: refused for a blank name; otherwise
/// `git remote remove <name>` on the trimmed name.
pub open spec fn remove_remote_result(name: Seq<char>) -> Result<(Seq<Seq<char>>, Seq<char>), SupgitError> {
    let n = trim(name);
    if n.len() == 0 {
        Err(SupgitError::EmptyRemoteName)
    } else {
        Ok((seq!["remote"@, "remove"@, n], "✓ Removed remote '"@ + n + "'"@))
    }
}

pub fn remove_remote(name: &str) -> (r: Result<GitCall, SupgitError>)
    ensures
        call_result_view(r) == remove_remote_result(name@),
{
    let n = trim_string(name);
    if n.as_str().is_empty() {
        return Err(SupgitError::EmptyRemoteName);
    }
    let mut args: Vec<String> = Vec::new();
    push_str(&mut args, "remote");
    push_str(&mut args, "remove");
    push_str(&mut args, n.as_str());
    let mut message = String::from_str("✓ Removed remote '");
    message.append(n.as_str());
    message.append("'");
    let call = GitCall { args, message };
    assert(call_view(call) =~= remove_remote_result(name@)->Ok_0);
    Ok(call)
}

/// `set_remote_url`: refused for a blank name or a blank URL; otherwise
/// `git remote set-url <name> <url>` on the trimmed values.
pub open spec fn set_remote_url_result(name: Seq<char>, url: Seq<char>) -> Result<(Seq<Seq<char>>, Seq<char>), SupgitError> {
    let n = trim(name);
    let u = trim(url);
    if n.len() == 0 {
        Err(SupgitError::EmptyRemoteName)
    } else if u.len() == 0 {
        Err(SupgitError::EmptyNewRemoteUrl)
    } else {
        Ok((seq!["remote"@, "set-url"@, n, u], "✓ Set URL of '"@ + n + "' to '"@ + u + "'"@))
    }
}

pub fn set_remote_url(name: &str, url: &str) -> (r: Result<GitCall, SupgitError>)
    ensures
        call_result_view(r) == set_remote_url_result(name@, url@),
{
    let n = trim_string(name);
    let u = trim_string(url);
    if n.as_str().is_empty() {
        return Err(SupgitError::EmptyRemoteName);
    }
    if u.as_str().is_empty() {
        return Err(SupgitError::EmptyNewRemoteUrl);
    }
    let mut args: Vec<String> = Vec::new();
    push_str(&mut args, "remote");
    push_str(&mut args, "set-url");
    push_str(&mut args, n.as_str());
    push_str(&mut args, u.as_str());
    let mut message = String::from_str("✓ Set URL of '");
    message.append(n.as_str());
    message.append("' to '");
    message.append(u.as_str());
    message.append("'");
    let call = GitCall { args, message };
    assert(call_view(call) =~= set_remote_url_result(name@, url@)->Ok_0);
    Ok(call)
}

// ---------------------------------------------------------------------------
// Listing and the remote menu
// ---------------------------------------------------------------------------

/// A URL as listed, `(not set)` when absent.
pub open spec fn url_or_unset(u: Option<Seq<char>>) -> Seq<char> {
    match u {
        Some(u) => u,
        None => "(not set)"@,
    }
}

fn url_or_unset_exec(u: &Option<String>) -> (r: String)
    ensures
        r@ == url_or_unset(opt_view(*u)),
{
    match u {
        Some(s) => copy_string(s),
        None => String::from_str("(not set)"),
    }
}

/// The line that lists a remote: `  name: fetch=..., push=...`.
pub open spec fn remote_listing_line(r: RemoteView) -> Seq<char> {
    "  "@ + r.0 + ": fetch="@ + url_or_unset(r.1) + ", push="@ + url_or_unset(r.2)
}

/// What non-interactive `remote` prints.
pub open spec fn remote_listing(rs: Seq<RemoteView>) -> Seq<Seq<char>> {
    if rs.len() == 0 {
        seq!["No remotes configured."@, "Use 'supgit remote add <name> <url>' to add a remote."@]
    } else {
        seq!["Configured remotes:"@] + rs.map_values(|r: RemoteView| remote_listing_line(r))
    }
}

pub fn remote_listing_lines(remotes: &Vec<RemoteInfo>) -> (r: Vec<String>)
    ensures
        views(r@) == remote_listing(remote_views(remotes@)),
{
    let mut out: Vec<String> = Vec::new();
    if remotes.len() == 0 {
        push_str(&mut out, "No remotes configured.");
        push_str(&mut out, "Use 'supgit remote add <name> <url>' to add a remote.");
        assert(views(out@) =~= remote_listing(remote_views(remotes@)));
        return out;
    }
    push_str(&mut out, "Configured remotes:");
    let ghost rv = remote_views(remotes@);
    let mut i: usize = 0;
    while i < remotes.len()
        invariant
            i <= remotes.len(),
            rv == remote_views(remotes@),
            views(out@) == seq!["Configured remotes:"@] + rv.take(i as int).map_values(
                |r: RemoteView| remote_listing_line(r),
            ),
        decreases remotes.len() - i,
    {
        let r = &remotes[i];
        let mut line = String::from_str("  ");
        line.append(r.name.as_str());
        line.append(": fetch=");
        line.append(url_or_unset_exec(&r.fetch_url).as_str());
        line.append(", push=");
        line.append(url_or_unset_exec(&r.push_url).as_str());
        let ghost old_out = out@;
        out.push(line);
        assert(views(out@) =~= views(old_out).push(remote_listing_line(rv[i as int])));
        assert(rv.take(i + 1).map_values(|r: RemoteView| remote_listing_line(r)) =~= rv.take(
            i as int,
        ).map_values(|r: RemoteView| remote_listing_line(r)).push(remote_listing_line(rv[i as int])));
        i += 1;
    }
    assert(rv.take(remotes.len() as int) =~= rv);
    out
}

/// The remote menu: one line per remote, then the three actions.
pub open spec fn remote_menu(rs: Seq<RemoteView>) -> Seq<Seq<char>> {
    rs.map_values(|r: RemoteView| r.0 + " ("@ + url_or_unset(r.1) + ")"@) + seq![
        "Add a new remote..."@,
        "Remove a remote..."@,
        "Change remote URL..."@,
    ]
}

pub fn remote_menu_items(remotes: &Vec<RemoteInfo>) -> (r: Vec<String>)
    ensures
        views(r@) == remote_menu(remote_views(remotes@)),
{
    let ghost rv = remote_views(remotes@);
    let ghost f = |r: RemoteView| r.0 + " ("@ + url_or_unset(r.1) + ")"@;
    let mut out: Vec<String> = Vec::new();
    let mut i: usize = 0;
    while i < remotes.len()
        invariant
            i <= remotes.len(),
            rv == remote_views(remotes@),
            f == (|r: RemoteView| r.0 + " ("@ + url_or_unset(r.1) + ")"@),
            views(out@) == rv.take(i as int).map_values(f),
        decreases remotes.len() - i,
    {
        let r = &remotes[i];
        let mut line = copy_string(&r.name);
        line.append(" (");
        line.append(url_or_unset_exec(&r.fetch_url).as_str());
        line.append(")");
        let ghost old_out = out@;
        out.push(line);
        assert(views(out@) =~= views(old_out).push(f(rv[i as int])));
        assert(rv.take(i + 1).map_values(f) =~= rv.take(i as int).map_values(f).push(f(rv[i as int])));
        i += 1;
    }
    assert(rv.take(remotes.len() as int) =~= rv);
    push_str(&mut out, "Add a new remote...");
    push_str(&mut out, "Remove a remote...");
    push_str(&mut out, "Change remote URL...");
    assert(views(out@) =~= remote_menu(rv));
    out
}

/// What a pick from the remote menu asks for.
pub enum RemoteAction {
    /// Show the remote at this index.
    Show(usize),
    Add,
    Remove,
    ChangeUrl,
}

/// The action for a pick from the remote menu of `n` remotes; removing or
/// changing is refused when there is no remote.
pub fn remote_menu_action(selection: usize, n: usize) -> (r: Result<RemoteAction, SupgitError>)
    ensures
        selection < n ==> (r matches Ok(RemoteAction::Show(i)) && i == selection),
        selection == n ==> r matches Ok(RemoteAction::Add),
        n < usize::MAX && selection == n + 1 ==> if n == 0 {
            r matches Err(SupgitError::NoRemotesToRemove)
        } else {
            r matches Ok(RemoteAction::Remove)
        },
        n < usize::MAX && selection > n + 1 ==> if n == 0 {
            r matches Err(SupgitError::NoRemotesToModify)
        } else {
            r matches Ok(RemoteAction::ChangeUrl)
        },
{
    if selection < n {
        Ok(RemoteAction::Show(selection))
    } else if selection == n {
        Ok(RemoteAction::Add)
    } else if selection - n == 1 {
        if n == 0 {
            Err(SupgitError::NoRemotesToRemove)
        } else {
            Ok(RemoteAction::Remove)
        }
    } else {
        if n == 0 {
            Err(SupgitError::NoRemotesToModify)
        } else {
            Ok(RemoteAction::ChangeUrl)
        }
    }
}

/// What the menu shows for one remote.
pub open spec fn remote_details(r: RemoteView) -> Seq<Seq<char>> {
    seq!["\nRemote: "@ + r.0, "  Fetch: "@ + url_or_unset(r.1), "  Push:  "@ + url_or_unset(r.2)]
}

pub fn remote_detail_lines(r: &RemoteInfo) -> (out: Vec<String>)
    ensures
        views(out@) == remote_details(remote_view(*r)),
{
    let mut out: Vec<String> = Vec::new();
    out.push(String::from_str("\nRemote: ").concat(r.name.as_str()));
    out.push(String::from_str("  Fetch: ").concat(url_or_unset_exec(&r.fetch_url).as_str()));
    out.push(String::from_str("  Push:  ").concat(url_or_unset_exec(&r.push_url).as_str()));
    assert(views(out@) =~= remote_details(remote_view(*r)));
    out
}


// ---------------------------------------------------------------------------
// Laws
// ---------------------------------------------------------------------------

/// No two remotes share a name, and each has a fetch or a push URL.
pub open spec fn remotes_well_formed(rs: Seq<RemoteView>) -> bool {
    &&& forall|i: int, j: int| 0 <= i < j < rs.len() ==> (#[trigger] rs[i]).0 != (#[trigger] rs[j]).0
    &&& forall|i: int| 0 <= i < rs.len() ==> (#[trigger] rs[i]).1 is Some || rs[i].2 is Some
}

/// Each remote of a `git remote -v` listing is listed once, with at least
/// one URL.
pub proof fn law_remotes_unique(ls: Seq<Seq<char>>)
    ensures
        remotes_well_formed(remotes_of(ls)),
    decreases ls.len(),
{
    if ls.len() > 0 {
        law_remotes_unique(ls.drop_last());
        let rs = remotes_of(ls.drop_last());
        match remote_line(ls.last()) {
            Some(e) => {
                crate::text::lemma_first_match_range(rs, remote_named(e.0));
                let out = add_remote_url(rs, e.0, e.1, e.2);
                let k = first_match(rs, remote_named(e.0));
                if k < 0 {
                    assert forall|i: int, j: int| 0 <= i < j < out.len() implies (#[trigger] out[i]).0
                        != (#[trigger] out[j]).0 by {
                        if j == rs.len() {
                            assert(!remote_named(e.0)(rs[i]));
                        } else {
                            assert(out[i] == rs[i] && out[j] == rs[j]);
                        }
                    }
                    assert forall|i: int| 0 <= i < out.len() implies (#[trigger] out[i]).1 is Some
                        || out[i].2 is Some by {
                        if i < rs.len() {
                            assert(out[i] == rs[i]);
                        }
                    }
                } else {
                    assert forall|i: int, j: int| 0 <= i < j < out.len() implies (#[trigger] out[i]).0
                        != (#[trigger] out[j]).0 by {
                        assert(out[i].0 == rs[i].0);
                        assert(out[j].0 == rs[j].0);
                    }
                    assert forall|i: int| 0 <= i < out.len() implies (#[trigger] out[i]).1 is Some
                        || out[i].2 is Some by {
                        if i != k {
                            assert(out[i] == rs[i]);
                        }
                    }
                }
            },
            None => {},
        }
    }
}

/// An answer typed into the remote menu.
pub enum RemoteInput {
    /// The name of a remote to add.
    Name,
    /// The URL of a remote to add.
    Url,
    /// The new URL of an existing remote.
    NewUrl,
}

/// The refusal of a blank answer typed into the remote menu; a usable answer
/// passes.
pub fn remote_input_check(kind: RemoteInput, input: &str) -> (r: Result<(), SupgitError>)
    ensures
        trim(input@).len() > 0 ==> r is Ok,
        trim(input@).len() == 0 ==> r == Err::<(), SupgitError>(
            match kind {
                RemoteInput::Name => SupgitError::EmptyRemoteName,
                RemoteInput::Url => SupgitError::EmptyRemoteUrl,
                RemoteInput::NewUrl => SupgitError::EmptyNewRemoteUrl,
            },
        ),
{
    if !crate::text::is_blank(input) {
        return Ok(());
    }
    match kind {
        RemoteInput::Name => Err(SupgitError::EmptyRemoteName),
        RemoteInput::Url => Err(SupgitError::EmptyRemoteUrl),
        RemoteInput::NewUrl => Err(SupgitError::EmptyNewRemoteUrl),
    }
}

} // verus!
