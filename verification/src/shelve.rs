//! `shelve`: reading `git stash list`, and the stash commands.
use vstd::prelude::*;

use crate::plan::{call_view, git_call, GitCall};
use crate::text::{
    copy_string, decimal, find, find_exec, from_chars, lemma_find_range, lines, lines_of,
    push_decimal, push_str, push_string, starts_with, starts_with_exec, to_chars, trim, trim_bounds, views,
};

verus! {

/// A stash: its position in `git stash list` and its message.
pub struct StashInfo {
    pub index: usize,
    pub message: String,
}

pub open spec fn stash_views(s: Seq<StashInfo>) -> Seq<(nat, Seq<char>)> {
    s.map_values(|x: StashInfo| (x.index as nat, x.message@))
}

/// The message of a (trimmed) stash line: what follows the first `": "` when
/// the line begins with `stash@{}: `, else the whole line.
pub open spec fn stash_message(t: Seq<char>) -> Seq<char> {
    if starts_with(t, "stash@{}: "@) {
        let k = find(t, ": "@);
        t.skip(
            if k >= 0 {
                k + 2
            } else {
                0
            },
        )
    } else {
        t
    }
}

/// The stashes of a list of lines: one per non-blank line, numbered by the
/// line's position (blank lines count).
pub open spec fn stashes_of(ls: Seq<Seq<char>>) -> Seq<(nat, Seq<char>)>
    decreases ls.len(),
{
    if ls.len() == 0 {
        seq![]
    } else {
        let rest = stashes_of(ls.drop_last());
        let t = trim(ls.last());
        if t.len() == 0 {
            rest
        } else {
            rest.push(((ls.len() - 1) as nat, stash_message(t)))
        }
    }
}

fn stash_message_exec(t: &Vec<char>) -> (r: String)
    ensures
        r@ == stash_message(t@),
{
    let prefix = to_chars("stash@{}: ");
    if starts_with_exec(t, &prefix) {
        let sep = to_chars(": ");
        proof {
            reveal_strlit(": ");
            lemma_find_range(t@, sep@);
        }
        let start = match find_exec(t, &sep) {
            Some(k) => {
                assert(k + 2 <= t.len());
                k + 2
            },
            None => 0,
        };
        let r = from_chars(t, start, t.len());
        assert(r@ =~= t@.skip(start as int));
        r
    } else {
        let r = from_chars(t, 0, t.len());
        assert(r@ =~= t@);
        r
    }
}

/// The stashes that `git stash list` lists.
pub fn get_stashes(stdout: &str) -> (r: Vec<StashInfo>)
    ensures
        stash_views(r@) == stashes_of(lines(stdout@)),
{
    let v = to_chars(stdout);
    let ls = lines_of(&v);
    let ghost lv = lines(stdout@);
    let mut out: Vec<StashInfo> = Vec::new();
    let mut i: usize = 0;
    while i < ls.len()
        invariant
            i <= ls.len(),
            views(ls@) == lv,
            lv == lines(stdout@),
            stash_views(out@) == stashes_of(lv.take(i as int)),
        decreases ls.len() - i,
    {
        assert(ls@[i as int]@ == lv[i as int]);
        assert(lv.take(i + 1).drop_last() =~= lv.take(i as int));
        assert(lv.take(i + 1).last() == lv[i as int]);
        let lc = to_chars(ls[i].as_str());
        let (lo, hi) = trim_bounds(&lc, 0, lc.len());
        assert(lc@.subrange(0, lc@.len() as int) =~= lc@);
        let t = from_chars(&lc, lo, hi);
        let tv = to_chars(t.as_str());
        if tv.len() > 0 {
            let message = stash_message_exec(&tv);
            let ghost old_out = out@;
            out.push(StashInfo { index: i, message });
            assert(stash_views(out@) =~= stash_views(old_out).push((i as nat, stash_message(trim(lv[i as int])))));
        }
        i += 1;
    }
    assert(lv.take(ls.len() as int) =~= lv);
    out
}

/// `stash@{n}`.
pub open spec fn stash_ref(n: nat) -> Seq<char> {
    "stash@{"@ + decimal(n) + "}"@
}

fn stash_ref_exec(n: usize) -> (r: String)
    ensures
        r@ == stash_ref(n as nat),
{
    let mut s = String::from_str("stash@{");
    push_decimal(&mut s, n as u64);
    s.append("}");
    s
}

/// `git stash push`, with `-m <message>` when a non-blank message is given.
pub open spec fn create_stash_args(message: Option<Seq<char>>) -> Seq<Seq<char>> {
    match message {
        Some(m) => if trim(m).len() > 0 {
            seq!["stash"@, "push"@, "-m"@, m]
        } else {
            seq!["stash"@, "push"@]
        },
        None => seq!["stash"@, "push"@],
    }
}

pub fn create_stash(message: Option<&str>) -> (r: GitCall)
    ensures
        call_view(r) == (create_stash_args(
            match message {
                Some(m) => Some(m@),
                None => None,
            },
        ), "✓ Stashed changes"@),
{
    let mut args: Vec<String> = Vec::new();
    push_str(&mut args, "stash");
    push_str(&mut args, "push");
    match message {
        Some(m) => {
            if !crate::text::is_blank(m) {
                push_str(&mut args, "-m");
                push_str(&mut args, m);
            }
        },
        None => {},
    }
    let r = git_call(args, String::from_str("✓ Stashed changes"));
    assert(call_view(r).0 =~= create_stash_args(
        match message {
            Some(m) => Some(m@),
            None => None,
        },
    ));
    r
}

/// `git stash apply stash@{n}`, or `git stash drop stash@{n}`.
pub open spec fn apply_stash_view(n: nat, drop: bool) -> (Seq<Seq<char>>, Seq<char>) {
    if drop {
        (seq!["stash"@, "drop"@, stash_ref(n)], "✓ Dropped "@ + stash_ref(n))
    } else {
        (seq!["stash"@, "apply"@, stash_ref(n)], "✓ Applied "@ + stash_ref(n))
    }
}

/// Applies stash `index` and keeps it, or drops it.
pub fn apply_stash(index: usize, drop: bool) -> (r: GitCall)
    ensures
        call_view(r) == apply_stash_view(index as nat, drop),
{
    let mut args: Vec<String> = Vec::new();
    push_str(&mut args, "stash");
    let message = if drop {
        push_str(&mut args, "drop");
        String::from_str("✓ Dropped ")
    } else {
        push_str(&mut args, "apply");
        String::from_str("✓ Applied ")
    };
    let rf = stash_ref_exec(index);
    let message = message.concat(rf.as_str());
    push_string(&mut args, rf);
    let r = git_call(args, message);
    assert(call_view(r).0 =~= (if drop {
        seq!["stash"@, "drop"@, stash_ref(index as nat)]
    } else {
        seq!["stash"@, "apply"@, stash_ref(index as nat)]
    }));
    r
}

/// Applies stash `index` and removes it.
pub fn unshelve_stash(index: usize) -> (r: GitCall)
    ensures
        call_view(r) == (seq!["stash"@, "pop"@, stash_ref(index as nat)], "✓ Unshelved "@ + stash_ref(
            index as nat,
        )),
{
    let mut args: Vec<String> = Vec::new();
    push_str(&mut args, "stash");
    push_str(&mut args, "pop");
    let rf = stash_ref_exec(index);
    let message = String::from_str("✓ Unshelved ").concat(rf.as_str());
    push_string(&mut args, rf);
    let r = git_call(args, message);
    assert(call_view(r).0 =~= seq!["stash"@, "pop"@, stash_ref(index as nat)]);
    r
}

/// Drops every stash.
pub fn clear_stash() -> (r: GitCall)
    ensures
        call_view(r) == (seq!["stash"@, "clear"@], "✓ Cleared all stashes"@),
{
    let mut args: Vec<String> = Vec::new();
    push_str(&mut args, "stash");
    push_str(&mut args, "clear");
    let r = git_call(args, String::from_str("✓ Cleared all stashes"));
    assert(call_view(r).0 =~= seq!["stash"@, "clear"@]);
    r
}

// ---------------------------------------------------------------------------
// Listing and the stash menu
// ---------------------------------------------------------------------------

/// `stash@{n}: message`.
pub open spec fn stash_label(s: (nat, Seq<char>)) -> Seq<char> {
    stash_ref(s.0) + ": "@ + s.1
}

pub fn format_stash_label(s: &StashInfo) -> (r: String)
    ensures
        r@ == stash_label((s.index as nat, s.message@)),
{
    stash_ref_exec(s.index).concat(": ").concat(s.message.as_str())
}

/// The labels of all stashes.
pub fn stash_labels(stashes: &Vec<StashInfo>) -> (r: Vec<String>)
    ensures
        views(r@) == stash_views(stashes@).map_values(|s: (nat, Seq<char>)| stash_label(s)),
{
    let ghost sv = stash_views(stashes@);
    let mut out: Vec<String> = Vec::new();
    let mut i: usize = 0;
    while i < stashes.len()
        invariant
            i <= stashes.len(),
            sv == stash_views(stashes@),
            views(out@) == sv.take(i as int).map_values(|s: (nat, Seq<char>)| stash_label(s)),
        decreases stashes.len() - i,
    {
        let ghost old_out = out@;
        out.push(format_stash_label(&stashes[i]));
        assert(views(out@) =~= views(old_out).push(stash_label(sv[i as int])));
        assert(sv.take(i + 1).map_values(|s: (nat, Seq<char>)| stash_label(s)) =~= sv.take(
            i as int,
        ).map_values(|s: (nat, Seq<char>)| stash_label(s)).push(stash_label(sv[i as int])));
        i += 1;
    }
    assert(sv.take(stashes.len() as int) =~= sv);
    out
}

/// What listing the stashes prints; `with_hint` adds how to create one when
/// there is none.
pub open spec fn stash_listing(ss: Seq<(nat, Seq<char>)>, with_hint: bool) -> Seq<Seq<char>> {
    if ss.len() == 0 {
        if with_hint {
            seq![
                "No stashes found."@,
                "Use 'supgit shelve' or 'supgit shelve save <message>' to create one."@,
            ]
        } else {
            seq!["No stashes found."@]
        }
    } else {
        seq!["Stashed changes:"@] + ss.map_values(|s: (nat, Seq<char>)| "  "@ + stash_label(s))
    }
}

pub fn stash_listing_lines(stashes: &Vec<StashInfo>, with_hint: bool) -> (r: Vec<String>)
    ensures
        views(r@) == stash_listing(stash_views(stashes@), with_hint),
{
    let mut out: Vec<String> = Vec::new();
    if stashes.len() == 0 {
        push_str(&mut out, "No stashes found.");
        if with_hint {
            push_str(&mut out, "Use 'supgit shelve' or 'supgit shelve save <message>' to create one.");
        }
        assert(views(out@) =~= stash_listing(stash_views(stashes@), with_hint));
        return out;
    }
    push_str(&mut out, "Stashed changes:");
    let ghost sv = stash_views(stashes@);
    let ghost f = |s: (nat, Seq<char>)| "  "@ + stash_label(s);
    let mut i: usize = 0;
    while i < stashes.len()
        invariant
            i <= stashes.len(),
            sv == stash_views(stashes@),
            f == (|s: (nat, Seq<char>)| "  "@ + stash_label(s)),
            views(out@) == seq!["Stashed changes:"@] + sv.take(i as int).map_values(f),
        decreases stashes.len() - i,
    {
        let ghost old_out = out@;
        out.push(String::from_str("  ").concat(format_stash_label(&stashes[i]).as_str()));
        assert(views(out@) =~= views(old_out).push(f(sv[i as int])));
        assert(sv.take(i + 1).map_values(f) =~= sv.take(i as int).map_values(f).push(f(sv[i as int])));
        i += 1;
    }
    assert(sv.take(stashes.len() as int) =~= sv);
    out
}

/// The stash menu: the stashes and the two apply actions when there are
/// stashes, then saving and clearing.
pub open spec fn shelve_menu(ss: Seq<(nat, Seq<char>)>) -> Seq<Seq<char>> {
    (if ss.len() > 0 {
        ss.map_values(|s: (nat, Seq<char>)| stash_label(s)) + seq![
            "Apply and keep (git stash apply)"@,
            "Apply and remove (git stash pop)"@,
        ]
    } else {
        seq![]
    }) + seq!["Save current changes (stash push)"@, "Clear all stashes"@]
}

pub fn shelve_menu_items(stashes: &Vec<StashInfo>) -> (r: Vec<String>)
    ensures
        views(r@) == shelve_menu(stash_views(stashes@)),
{
    let mut out: Vec<String> = Vec::new();
    if stashes.len() > 0 {
        out = stash_labels(stashes);
        push_str(&mut out, "Apply and keep (git stash apply)");
        push_str(&mut out, "Apply and remove (git stash pop)");
    }
    push_str(&mut out, "Save current changes (stash push)");
    push_str(&mut out, "Clear all stashes");
    assert(views(out@) =~= shelve_menu(stash_views(stashes@)));
    out
}

/// What a pick from the menu of one stash asks for.
pub enum StashChoice {
    /// `git stash apply`.
    Apply(GitCall),
    /// `git stash pop`.
    Pop(GitCall),
    /// `git stash drop`, once confirmed.
    Drop(GitCall),
    Nothing,
}

/// The action for a pick from the menu of the stash numbered `index`: apply
/// and keep, apply and remove, or drop.
pub fn stash_choice(selection: usize, index: usize) -> (r: StashChoice)
    ensures
        selection == 0 ==> (r matches StashChoice::Apply(c) && call_view(c) == apply_stash_view(index as nat, false)),
        selection == 1 ==> (r matches StashChoice::Pop(c) && call_view(c) == (seq![
            "stash"@,
            "pop"@,
            stash_ref(index as nat),
        ], "✓ Unshelved "@ + stash_ref(index as nat))),
        selection == 2 ==> (r matches StashChoice::Drop(c) && call_view(c) == apply_stash_view(index as nat, true)),
        selection > 2 ==> r is Nothing,
{
    if selection == 0 {
        StashChoice::Apply(apply_stash(index, false))
    } else if selection == 1 {
        StashChoice::Pop(unshelve_stash(index))
    } else if selection == 2 {
        StashChoice::Drop(apply_stash(index, true))
    } else {
        StashChoice::Nothing
    }
}

/// What a pick from the stash menu asks for.
pub enum ShelveAction {
    /// Act on the stash at this position of the list.
    Stash(usize),
    /// Pick a stash to apply and keep.
    ApplyKeep,
    /// Pick a stash to apply and remove.
    ApplyPop,
    /// Save the current changes.
    Save,
    /// Clear every stash (after confirmation).
    Clear,
    /// Clearing was asked for with no stash.
    NothingToClear,
    /// The pick matches no line of the menu.
    Nothing,
}

/// The action for a pick from the stash menu of `n` stashes, position by
/// position as `shelve_menu` lays it out: the stashes, "Apply and keep" and
/// "Apply and remove" when there are any, then "Save current changes" and
/// "Clear all stashes" (which has nothing to clear when there is no stash).
pub open spec fn shelve_action(selection: nat, n: nat) -> ShelveAction {
    let save = if n > 0 {
        n + 2
    } else {
        0
    };
    if selection < n {
        ShelveAction::Stash(selection as usize)
    } else if n > 0 && selection == n {
        ShelveAction::ApplyKeep
    } else if n > 0 && selection == n + 1 {
        ShelveAction::ApplyPop
    } else if selection == save {
        ShelveAction::Save
    } else if selection == save + 1 {
        if n > 0 {
            ShelveAction::Clear
        } else {
            ShelveAction::NothingToClear
        }
    } else {
        ShelveAction::Nothing
    }
}

pub fn shelve_menu_action(selection: usize, n: usize) -> (r: ShelveAction)
    ensures
        r == shelve_action(selection as nat, n as nat),
{
    if selection < n {
        return ShelveAction::Stash(selection);
    }
    let d = selection - n;
    let k = if n > 0 {
        if d == 0 {
            return ShelveAction::ApplyKeep;
        }
        if d == 1 {
            return ShelveAction::ApplyPop;
        }
        d - 2
    } else {
        d
    };
    if k == 0 {
        ShelveAction::Save
    } else if k == 1 {
        if n > 0 {
            ShelveAction::Clear
        } else {
            ShelveAction::NothingToClear
        }
    } else {
        ShelveAction::Nothing
    }
}


// ---------------------------------------------------------------------------
// Laws
// ---------------------------------------------------------------------------

/// Stashes are numbered by their line, so their numbers increase and stay
/// below the number of lines.
pub proof fn law_stash_numbers_increase(ls: Seq<Seq<char>>)
    ensures
        forall|i: int, j: int|
            0 <= i < j < stashes_of(ls).len() ==> (#[trigger] stashes_of(ls)[i]).0 < (#[trigger] stashes_of(ls)[j]).0,
        forall|i: int| 0 <= i < stashes_of(ls).len() ==> (#[trigger] stashes_of(ls)[i]).0 < ls.len(),
    decreases ls.len(),
{
    if ls.len() > 0 {
        let pre = ls.drop_last();
        law_stash_numbers_increase(pre);
        let rest = stashes_of(pre);
        let all = stashes_of(ls);
        if trim(ls.last()).len() == 0 {
            assert(all == rest);
        } else {
            assert(all == rest.push(((ls.len() - 1) as nat, stash_message(trim(ls.last())))));
            assert forall|i: int, j: int| 0 <= i < j < all.len() implies (#[trigger] all[i]).0 < (#[trigger] all[j]).0 by {
                if j < rest.len() {
                    assert(all[i] == rest[i]);
                    assert(all[j] == rest[j]);
                } else {
                    assert(all[i] == rest[i]);
                }
            }
            assert forall|i: int| 0 <= i < all.len() implies (#[trigger] all[i]).0 < ls.len() by {
                if i < rest.len() {
                    assert(all[i] == rest[i]);
                }
            }
        }
    }
}

/// Stash commands name their stash as `stash@{n}`, and reading the number
/// back out of the reference gives `n`.
pub proof fn law_stash_ref_round_trip(n: nat)
    ensures
        stash_ref(n).subrange(7, stash_ref(n).len() - 1) == decimal(n),
        crate::text::parse_unsigned(stash_ref(n).subrange(7, stash_ref(n).len() - 1)) == Some(n),
{
    reveal_strlit("stash@{");
    reveal_strlit("}");
    assert(stash_ref(n).subrange(7, stash_ref(n).len() - 1) =~= decimal(n));
    crate::text::law_decimal_round_trip(n);
}

/// Each line of the stash menu picks what it says: a stash line opens that
/// stash, each fixed line its own action ("Clear all stashes" with no stash
/// has nothing to clear), and a pick past the menu nothing.
pub proof fn law_shelve_menu_follows_labels(ss: Seq<(nat, Seq<char>)>)
    ensures
        ({
            let m = shelve_menu(ss);
            let n = ss.len();
            &&& forall|i: int| 0 <= i < n ==> (#[trigger] shelve_action(i as nat, n)) == ShelveAction::Stash(i as usize)
            &&& forall|i: int| n <= i < m.len() && (#[trigger] shelve_action(i as nat, n)) is ApplyKeep ==> m[i] == "Apply and keep (git stash apply)"@
            &&& forall|i: int| n <= i < m.len() && (#[trigger] shelve_action(i as nat, n)) is ApplyPop ==> m[i] == "Apply and remove (git stash pop)"@
            &&& forall|i: int| n <= i < m.len() && (#[trigger] shelve_action(i as nat, n)) is Save ==> m[i] == "Save current changes (stash push)"@
            &&& forall|i: int| n <= i < m.len() && ((#[trigger] shelve_action(i as nat, n)) is Clear || shelve_action(i as nat, n) is NothingToClear) ==> m[i] == "Clear all stashes"@
            &&& forall|i: int| 0 <= i < m.len() ==> !((#[trigger] shelve_action(i as nat, n)) is Nothing)
            &&& forall|i: int| i >= m.len() ==> (#[trigger] shelve_action(i as nat, n)) is Nothing
        }),
{
    let m = shelve_menu(ss);
    let n = ss.len();
    if n > 0 {
        assert(m.len() == n + 4);
        assert(m[n as int] == "Apply and keep (git stash apply)"@);
        assert(m[n as int + 1] == "Apply and remove (git stash pop)"@);
        assert(m[n as int + 2] == "Save current changes (stash push)"@);
        assert(m[n as int + 3] == "Clear all stashes"@);
    } else {
        assert(m =~= seq!["Save current changes (stash push)"@, "Clear all stashes"@]);
    }
}

/// What `shelve` does with its options.
pub enum ShelveRequest {
    List,
    Save(String),
    Apply(usize),
    Unshelve(usize),
    Drop(usize),
    Clear,
    /// No option: the interactive menu.
    Menu,
}

/// The option of `shelve` that acts: the first given of `--list`, `--save`,
/// `--apply`, `--unshelve`, `--drop` and `--clear`; with none, the menu.
pub fn shelve_request(
    save: Option<String>,
    apply: Option<usize>,
    unshelve: Option<usize>,
    drop: Option<usize>,
    clear: bool,
    list: bool,
) -> (r: ShelveRequest)
    ensures
        list ==> r is List,
        !list && save is Some ==> r == ShelveRequest::Save(save->0),
        !list && save is None && apply is Some ==> r == ShelveRequest::Apply(apply->0),
        !list && save is None && apply is None && unshelve is Some ==> r == ShelveRequest::Unshelve(
            unshelve->0,
        ),
        !list && save is None && apply is None && unshelve is None && drop is Some ==> r
            == ShelveRequest::Drop(drop->0),
        !list && save is None && apply is None && unshelve is None && drop is None ==> r == if clear {
            ShelveRequest::Clear
        } else {
            ShelveRequest::Menu
        },
{
    if list {
        return ShelveRequest::List;
    }
    match save {
        Some(m) => ShelveRequest::Save(m),
        None => match apply {
            Some(i) => ShelveRequest::Apply(i),
            None => match unshelve {
                Some(i) => ShelveRequest::Unshelve(i),
                None => match drop {
                    Some(i) => ShelveRequest::Drop(i),
                    None => if clear {
                        ShelveRequest::Clear
                    } else {
                        ShelveRequest::Menu
                    },
                },
            },
        },
    }
}

} // verus!
