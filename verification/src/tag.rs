//! `tag`: reading the tag listing, and the tag commands.
use vstd::prelude::*;

use crate::plan::{call_view, git_call, GitCall};
use crate::text::{
    copy_string, find, find_char_from, find_exec, from_chars, index_of_char, lemma_find_range, lines,
    lines_of, opt_view, push_str, to_chars, trim, trim_bounds, views,
};

verus! {

/// A tag as the listing shows it.
pub struct TagInfo {
    pub name: String,
    pub message: Option<String>,
    pub is_annotated: bool,
}

pub type TagView = (Seq<char>, Option<Seq<char>>, bool);

pub open spec fn tag_view(t: TagInfo) -> TagView {
    (t.name@, opt_view(t.message), t.is_annotated)
}

pub open spec fn tag_views(ts: Seq<TagInfo>) -> Seq<TagView> {
    ts.map_values(|t: TagInfo| tag_view(t))
}

/// What a line of the tag listing says: the name is what comes before the
/// first ` | `; a name holding a space counts as annotated, with what follows
/// its first space as the message. Blank lines say nothing.
pub open spec fn tag_of(line: Seq<char>) -> Option<TagView> {
    let t = trim(line);
    if t.len() == 0 {
        None
    } else {
        let k = find(t, " | "@);
        let name = if k >= 0 {
            t.take(k)
        } else {
            t
        };
        let sp = index_of_char(name, ' ');
        if sp >= 0 {
            Some((name, Some(name.skip(sp + 1)), true))
        } else {
            Some((name, None, false))
        }
    }
}

pub open spec fn tag_fn() -> spec_fn(Seq<char>) -> Option<TagView> {
    |l: Seq<char>| tag_of(l)
}

fn tag_of_exec(line: &String) -> (r: Option<TagInfo>)
    ensures
        match r {
            Some(t) => tag_of(line@) == Some(tag_view(t)),
            None => tag_of(line@) is None,
        },
{
    let v = to_chars(line.as_str());
    let (lo, hi) = trim_bounds(&v, 0, v.len());
    assert(v@.subrange(0, v@.len() as int) =~= v@);
    let t = from_chars(&v, lo, hi);
    let tv = to_chars(t.as_str());
    if tv.len() == 0 {
        return None;
    }
    let sep = to_chars(" | ");
    proof {
        reveal_strlit(" | ");
        lemma_find_range(tv@, sep@);
    }
    let end = match find_exec(&tv, &sep) {
        Some(k) => k,
        None => tv.len(),
    };
    let name = from_chars(&tv, 0, end);
    let nv = to_chars(name.as_str());
    assert(nv@ =~= (if find(tv@, " | "@) >= 0 {
        tv@.take(find(tv@, " | "@))
    } else {
        tv@
    }));
    assert(nv@.skip(0) =~= nv@);
    match find_char_from(&nv, 0, ' ') {
        Some(sp) => {
            let msg = from_chars(&nv, sp + 1, nv.len());
            assert(msg@ =~= nv@.skip(sp + 1));
            Some(TagInfo { name, message: Some(msg), is_annotated: true })
        },
        None => Some(TagInfo { name, message: None, is_annotated: false }),
    }
}

/// The tags of the listing `git tag -n --format=...` prints.
pub fn get_tags(stdout: &str) -> (r: Vec<TagInfo>)
    ensures
        tag_views(r@) == lines(stdout@).filter_map(tag_fn()),
{
    let v = to_chars(stdout);
    let ls = lines_of(&v);
    let ghost lv = lines(stdout@);
    let mut out: Vec<TagInfo> = Vec::new();
    let mut i: usize = 0;
    while i < ls.len()
        invariant
            i <= ls.len(),
            views(ls@) == lv,
            lv == lines(stdout@),
            tag_views(out@) == lv.take(i as int).filter_map(tag_fn()),
        decreases ls.len() - i,
    {
        assert(ls@[i as int]@ == lv[i as int]);
        assert(lv.take(i + 1).drop_last() =~= lv.take(i as int));
        assert(lv.take(i + 1).last() == lv[i as int]);
        let ghost old_out = out@;
        match tag_of_exec(&ls[i]) {
            Some(t) => {
                let ghost tv = tag_view(t);
                out.push(t);
                assert(tag_views(out@) =~= tag_views(old_out).push(tv));
            },
            None => {},
        }
        i += 1;
    }
    assert(lv.take(ls.len() as int) =~= lv);
    out
}

/// `git tag [-f] [-a <name> -m <message> | <name>]`.
pub open spec fn create_tag_args(name: Seq<char>, message: Option<Seq<char>>, force: bool) -> Seq<Seq<char>> {
    seq!["tag"@] + (if force {
        seq!["-f"@]
    } else {
        seq![]
    }) + match message {
        Some(m) => seq!["-a"@, name, "-m"@, m],
        None => seq![name],
    }
}

pub open spec fn opt_str_view(o: Option<&str>) -> Option<Seq<char>> {
    match o {
        Some(s) => Some(s@),
        None => None,
    }
}

/// Creates a tag: annotated when a message is given, else lightweight.
pub fn create_tag(name: &str, message: Option<&str>, force: bool) -> (r: GitCall)
    ensures
        call_view(r) == (create_tag_args(name@, opt_str_view(message), force), if message is Some {
            "✓ Created annotated tag '"@ + name@ + "'"@
        } else {
            "✓ Created lightweight tag '"@ + name@ + "'"@
        }),
{
    let mut args: Vec<String> = Vec::new();
    push_str(&mut args, "tag");
    if force {
        push_str(&mut args, "-f");
    }
    let text = match message {
        Some(m) => {
            push_str(&mut args, "-a");
            push_str(&mut args, name);
            push_str(&mut args, "-m");
            push_str(&mut args, m);
            String::from_str("✓ Created annotated tag '")
        },
        None => {
            push_str(&mut args, name);
            String::from_str("✓ Created lightweight tag '")
        },
    };
    let text = text.concat(name).concat("'");
    let r = git_call(args, text);
    assert(call_view(r).0 =~= create_tag_args(name@, opt_str_view(message), force));
    r
}

pub fn delete_tag(name: &str) -> (r: GitCall)
    ensures
        call_view(r) == (seq!["tag"@, "-d"@, name@], "✓ Deleted tag '"@ + name@ + "'"@),
{
    let mut args: Vec<String> = Vec::new();
    push_str(&mut args, "tag");
    push_str(&mut args, "-d");
    push_str(&mut args, name);
    let r = git_call(args, String::from_str("✓ Deleted tag '").concat(name).concat("'"));
    assert(call_view(r).0 =~= seq!["tag"@, "-d"@, name@]);
    r
}

/// `git push [<remote>]` followed by `rest`.
pub open spec fn push_args(remote: Option<Seq<char>>, rest: Seq<Seq<char>>) -> Seq<Seq<char>> {
    seq!["push"@] + (match remote {
        Some(r) => seq![r],
        None => seq![],
    }) + rest
}

pub fn push_tag(name: &str, remote: Option<&str>) -> (r: GitCall)
    ensures
        call_view(r) == (push_args(opt_str_view(remote), seq!["tag"@, name@]), "✓ Pushed tag '"@
            + name@ + "'"@),
{
    let mut args: Vec<String> = Vec::new();
    push_str(&mut args, "push");
    match remote {
        Some(rm) => push_str(&mut args, rm),
        None => {},
    }
    push_str(&mut args, "tag");
    push_str(&mut args, name);
    let r = git_call(args, String::from_str("✓ Pushed tag '").concat(name).concat("'"));
    assert(call_view(r).0 =~= push_args(opt_str_view(remote), seq!["tag"@, name@]));
    r
}

pub fn push_all_tags(remote: Option<&str>) -> (r: GitCall)
    ensures
        call_view(r) == (push_args(opt_str_view(remote), seq!["--tags"@]), "✓ Pushed all tags"@),
{
    let mut args: Vec<String> = Vec::new();
    push_str(&mut args, "push");
    match remote {
        Some(rm) => push_str(&mut args, rm),
        None => {},
    }
    push_str(&mut args, "--tags");
    let r = git_call(args, String::from_str("✓ Pushed all tags"));
    assert(call_view(r).0 =~= push_args(opt_str_view(remote), seq!["--tags"@]));
    r
}

pub fn checkout_tag(name: &str) -> (r: GitCall)
    ensures
        call_view(r) == (seq!["checkout"@, name@], "✓ Switched to tag '"@ + name@ + "'"@),
{
    let mut args: Vec<String> = Vec::new();
    push_str(&mut args, "checkout");
    push_str(&mut args, name);
    let r = git_call(args, String::from_str("✓ Switched to tag '").concat(name).concat("'"));
    assert(call_view(r).0 =~= seq!["checkout"@, name@]);
    r
}

/// The message a created tag gets: `--annotate` forces one (empty when
/// none was given).
pub fn tag_create_message(message: Option<String>, annotate: bool) -> (r: Option<String>)
    ensures
        opt_view(r) == if annotate {
            Some(
                match message {
                    Some(m) => m@,
                    None => Seq::<char>::empty(),
                },
            )
        } else {
            opt_view(message)
        },
{
    if annotate {
        match message {
            Some(m) => Some(m),
            None => Some(String::new()),
        }
    } else {
        message
    }
}

// ---------------------------------------------------------------------------
// Listing and the tag menu
// ---------------------------------------------------------------------------

/// ` (annotated)` for an annotated tag.
pub open spec fn annotation(t: TagView) -> Seq<char> {
    if t.2 {
        " (annotated)"@
    } else {
        Seq::<char>::empty()
    }
}

/// The listing line of a tag.
pub open spec fn tag_listing_line(t: TagView) -> Seq<char> {
    match t.1 {
        Some(m) => "  "@ + t.0 + annotation(t) + ": "@ + m,
        None => "  "@ + t.0 + annotation(t),
    }
}

/// What listing the tags prints; `with_hint` adds how to create one when
/// there is none.
pub open spec fn tag_listing(ts: Seq<TagView>, with_hint: bool) -> Seq<Seq<char>> {
    if ts.len() == 0 {
        if with_hint {
            seq!["No tags found."@, "Use 'supgit tag create <name>' to create one."@]
        } else {
            seq!["No tags found."@]
        }
    } else {
        seq!["Tags:"@] + ts.map_values(|t: TagView| tag_listing_line(t))
    }
}

fn annotation_exec(t: &TagInfo) -> (r: &'static str)
    ensures
        r@ == annotation(tag_view(*t)),
{
    if t.is_annotated {
        " (annotated)"
    } else {
        proof {
            reveal_strlit("");
        }
        ""
    }
}

pub fn tag_listing_lines(tags: &Vec<TagInfo>, with_hint: bool) -> (r: Vec<String>)
    ensures
        views(r@) == tag_listing(tag_views(tags@), with_hint),
{
    let mut out: Vec<String> = Vec::new();
    if tags.len() == 0 {
        push_str(&mut out, "No tags found.");
        if with_hint {
            push_str(&mut out, "Use 'supgit tag create <name>' to create one.");
        }
        assert(views(out@) =~= tag_listing(tag_views(tags@), with_hint));
        return out;
    }
    push_str(&mut out, "Tags:");
    let ghost tv = tag_views(tags@);
    let mut i: usize = 0;
    while i < tags.len()
        invariant
            i <= tags.len(),
            tv == tag_views(tags@),
            views(out@) == seq!["Tags:"@] + tv.take(i as int).map_values(
                |t: TagView| tag_listing_line(t),
            ),
        decreases tags.len() - i,
    {
        let t = &tags[i];
        let mut line = String::from_str("  ");
        line.append(t.name.as_str());
        line.append(annotation_exec(t));
        match &t.message {
            Some(m) => {
                line.append(": ");
                line.append(m.as_str());
            },
            None => {},
        }
        let ghost old_out = out@;
        out.push(line);
        assert(views(out@) =~= views(old_out).push(tag_listing_line(tv[i as int])));
        assert(tv.take(i + 1).map_values(|t: TagView| tag_listing_line(t)) =~= tv.take(
            i as int,
        ).map_values(|t: TagView| tag_listing_line(t)).push(tag_listing_line(tv[i as int])));
        i += 1;
    }
    assert(tv.take(tags.len() as int) =~= tv);
    out
}

/// The tag menu: the tags and three actions on them when there are tags,
/// then creating one.
pub open spec fn tag_menu(ts: Seq<TagView>) -> Seq<Seq<char>> {
    (if ts.len() > 0 {
        ts.map_values(|t: TagView| t.0 + annotation(t)) + seq![
            "Delete a tag"@,
            "Push a tag"@,
            "Push all tags"@,
        ]
    } else {
        seq![]
    }) + seq!["Create a new tag"@]
}

pub fn tag_menu_items(tags: &Vec<TagInfo>) -> (r: Vec<String>)
    ensures
        views(r@) == tag_menu(tag_views(tags@)),
{
    let ghost tv = tag_views(tags@);
    let mut out: Vec<String> = Vec::new();
    let mut i: usize = 0;
    while i < tags.len()
        invariant
            i <= tags.len(),
            tv == tag_views(tags@),
            views(out@) == tv.take(i as int).map_values(|t: TagView| t.0 + annotation(t)),
        decreases tags.len() - i,
    {
        let t = &tags[i];
        let line = copy_string(&t.name).concat(annotation_exec(t));
        let ghost old_out = out@;
        out.push(line);
        assert(views(out@) =~= views(old_out).push(tv[i as int].0 + annotation(tv[i as int])));
        assert(tv.take(i + 1).map_values(|t: TagView| t.0 + annotation(t)) =~= tv.take(
            i as int,
        ).map_values(|t: TagView| t.0 + annotation(t)).push(tv[i as int].0 + annotation(tv[i as int])));
        i += 1;
    }
    assert(tv.take(tags.len() as int) =~= tv);
    if tags.len() > 0 {
        push_str(&mut out, "Delete a tag");
        push_str(&mut out, "Push a tag");
        push_str(&mut out, "Push all tags");
    }
    push_str(&mut out, "Create a new tag");
    assert(views(out@) =~= tag_menu(tv));
    out
}

/// What a pick from the tag menu asks for.
pub enum TagAction {
    /// Offer to check out the tag at this position.
    Checkout(usize),
    /// Pick a tag to delete.
    Delete,
    /// Pick a tag to push.
    Push,
    PushAll,
    Create,
    /// The pick matches no line of the menu.
    Nothing,
}

/// The action for a pick from the tag menu of `n` tags, position by position
/// as `tag_menu` lays it out: the tags, "Delete a tag", "Push a tag" and
/// "Push all tags" when there are any, then "Create a new tag".
pub open spec fn tag_action(selection: nat, n: nat) -> TagAction {
    let create = if n > 0 {
        n + 3
    } else {
        0
    };
    if selection < n {
        TagAction::Checkout(selection as usize)
    } else if n > 0 && selection == n {
        TagAction::Delete
    } else if n > 0 && selection == n + 1 {
        TagAction::Push
    } else if n > 0 && selection == n + 2 {
        TagAction::PushAll
    } else if selection == create {
        TagAction::Create
    } else {
        TagAction::Nothing
    }
}

pub fn tag_menu_action(selection: usize, n: usize) -> (r: TagAction)
    ensures
        r == tag_action(selection as nat, n as nat),
{
    if selection < n {
        return TagAction::Checkout(selection);
    }
    let d = selection - n;
    if n > 0 {
        if d == 0 {
            TagAction::Delete
        } else if d == 1 {
            TagAction::Push
        } else if d == 2 {
            TagAction::PushAll
        } else if d == 3 {
            TagAction::Create
        } else {
            TagAction::Nothing
        }
    } else if d == 0 {
        TagAction::Create
    } else {
        TagAction::Nothing
    }
}


// ---------------------------------------------------------------------------
// Laws
// ---------------------------------------------------------------------------

/// A listed tag has a message exactly when it counts as annotated.
pub proof fn law_annotated_iff_message(line: Seq<char>)
    ensures
        tag_of(line) matches Some(t) ==> (t.2 <==> t.1 is Some),
{
}

/// Creating a tag with a message makes an annotated tag (`-a`), without one
/// a lightweight tag.
pub proof fn law_message_makes_annotated(name: Seq<char>, m: Seq<char>, force: bool)
    ensures
        create_tag_args(name, Some(m), force).contains("-a"@),
        !create_tag_args(name, None, force).contains("-a"@) || name == "-a"@,
{
    let a = create_tag_args(name, Some(m), force);
    let k = if force {
        2int
    } else {
        1int
    };
    assert(a[k] == "-a"@);
    let b = create_tag_args(name, None, force);
    reveal_strlit("-a");
    reveal_strlit("tag");
    reveal_strlit("-f");
    if b.contains("-a"@) {
        let j = choose|j: int| 0 <= j < b.len() && b[j] == "-a"@;
        if j == 0 {
            assert(b[0] == "tag"@);
            assert("tag"@[0] != "-a"@[0]);
        } else if force && j == 1 {
            assert(b[1] == "-f"@);
            assert("-f"@[1] != "-a"@[1]);
        }
    }
}

/// Each line of the tag menu picks what it says: a tag line checks that tag
/// out, each fixed line its own action, and a pick past the menu nothing.
pub proof fn law_tag_menu_follows_labels(ts: Seq<TagView>)
    ensures
        ({
            let m = tag_menu(ts);
            let n = ts.len();
            &&& forall|i: int| 0 <= i < n ==> (#[trigger] tag_action(i as nat, n)) == TagAction::Checkout(i as usize)
            &&& forall|i: int| n <= i < m.len() && (#[trigger] tag_action(i as nat, n)) is Delete ==> m[i] == "Delete a tag"@
            &&& forall|i: int| n <= i < m.len() && (#[trigger] tag_action(i as nat, n)) is Push ==> m[i] == "Push a tag"@
            &&& forall|i: int| n <= i < m.len() && (#[trigger] tag_action(i as nat, n)) is PushAll ==> m[i] == "Push all tags"@
            &&& forall|i: int| n <= i < m.len() && (#[trigger] tag_action(i as nat, n)) is Create ==> m[i] == "Create a new tag"@
            &&& forall|i: int| 0 <= i < m.len() ==> !((#[trigger] tag_action(i as nat, n)) is Nothing)
            &&& forall|i: int| i >= m.len() ==> (#[trigger] tag_action(i as nat, n)) is Nothing
        }),
{
    let m = tag_menu(ts);
    let n = ts.len();
    if n > 0 {
        assert(m.len() == n + 4);
        assert(m[n as int] == "Delete a tag"@);
        assert(m[n as int + 1] == "Push a tag"@);
        assert(m[n as int + 2] == "Push all tags"@);
        assert(m[n as int + 3] == "Create a new tag"@);
    } else {
        assert(m =~= seq!["Create a new tag"@]);
    }
}

/// What `tag` does with its options.
pub enum TagRequest {
    List,
    Create(GitCall),
    Delete(GitCall),
    Push(GitCall),
    PushAll(GitCall),
    /// No option: the interactive menu.
    Menu,
}

/// The option of `tag` that acts: the first given of `--list`, `--create`
/// (with `--message`, `--annotate` and `--force`), `--delete`, `--push` and
/// `--push-all`; with none, the menu. Pushing goes to git's default remote.
pub fn tag_request(
    create: Option<String>,
    delete: Option<String>,
    push: Option<String>,
    push_all: bool,
    message: Option<String>,
    annotate: bool,
    force: bool,
    list: bool,
) -> (r: TagRequest)
    ensures
        list ==> r is List,
        !list && create is Some ==> (r matches TagRequest::Create(c) && {
            let m = if annotate {
                Some(
                    match message {
                        Some(m) => m@,
                        None => Seq::<char>::empty(),
                    },
                )
            } else {
                opt_view(message)
            };
            call_view(c) == (create_tag_args(create->0@, m, force), if m is Some {
                "✓ Created annotated tag '"@ + create->0@ + "'"@
            } else {
                "✓ Created lightweight tag '"@ + create->0@ + "'"@
            })
        }),
        !list && create is None && delete is Some ==> (r matches TagRequest::Delete(c) && call_view(c)
            == (seq!["tag"@, "-d"@, delete->0@], "✓ Deleted tag '"@ + delete->0@ + "'"@)),
        !list && create is None && delete is None && push is Some ==> (r matches TagRequest::Push(c)
            && call_view(c) == (push_args(None, seq!["tag"@, push->0@]), "✓ Pushed tag '"@ + push->0@
            + "'"@)),
        !list && create is None && delete is None && push is None && push_all ==> (r matches TagRequest::PushAll(
            c,
        ) && call_view(c) == (push_args(None, seq!["--tags"@]), "✓ Pushed all tags"@)),
        !list && create is None && delete is None && push is None && !push_all ==> r is Menu,
{
    if list {
        return TagRequest::List;
    }
    match create {
        Some(name) => {
            let m = tag_create_message(message, annotate);
            let ms = match &m {
                Some(s) => Some(s.as_str()),
                None => None,
            };
            TagRequest::Create(create_tag(name.as_str(), ms, force))
        },
        None => match delete {
            Some(name) => TagRequest::Delete(delete_tag(name.as_str())),
            None => match push {
                Some(name) => TagRequest::Push(push_tag(name.as_str(), None)),
                None => if push_all {
                    TagRequest::PushAll(push_all_tags(None))
                } else {
                    TagRequest::Menu
                },
            },
        },
    }
}

/// What the tag menu says of a blank tag name typed in, which stops the
/// creation; none when the name is usable.
pub fn tag_name_problem(name: &str) -> (r: Option<&'static str>)
    ensures
        trim(name@).len() == 0 ==> (r matches Some(m) && m@ == "Tag name cannot be empty."@),
        trim(name@).len() > 0 ==> r is None,
{
    if crate::text::is_blank(name) {
        Some("Tag name cannot be empty.")
    } else {
        None
    }
}

} // verus!
