use vstd::prelude::*;
use crate::image::{image_rewrite, rewrite_images};
use crate::model::{Comment, Scrap};
use crate::text::{matches_at, occurs_at, push_char_at};

verus! {

/// The platform's base URL, dropped from the backlink's text.
pub const PLATFORM_BASE: &'static str = "https://zenn.dev/";

/// `s` from position `i` on, with every occurrence of `pat` removed, scanning
/// left to right without overlap.
pub open spec fn remove_from(s: Seq<char>, pat: Seq<char>, i: int) -> Seq<char>
    decreases s.len() - i,
{
    if i < 0 || i >= s.len() {
        Seq::empty()
    } else if pat.len() > 0 && occurs_at(s, pat, i) {
        remove_from(s, pat, i + pat.len())
    } else {
        seq![s[i]] + remove_from(s, pat, i + 1)
    }
}

/// The platform-relative form of `url`: every occurrence of the base URL removed.
pub open spec fn relative_url(url: Seq<char>) -> Seq<char> {
    remove_from(url, PLATFORM_BASE@, 0)
}

/// The bold header line of a comment, followed by a blank line.
pub open spec fn header(c: Comment) -> Seq<char> {
    "**"@ + c.author@ + " ("@ + c.created_at@ + ")**\n\n"@
}

/// The horizontal rule between top-level comments.
pub open spec fn separator() -> Seq<char> {
    "---\n\n"@
}

/// One comment's own text: its header unless suppressed, then its rewritten body.
pub open spec fn section(c: Comment, skip_header: bool) -> Seq<char> {
    (if skip_header {
        Seq::empty()
    } else {
        header(c)
    }) + image_rewrite(c.body_markdown@) + "\n\n"@
}

/// The comments `cs`, each followed by its replies, depth first; at the top
/// level and with headers shown, a separator stands between siblings.
pub open spec fn forest(cs: Seq<Comment>, skip_header: bool, top: bool) -> Seq<char>
    decreases cs,
    via forest_decreases
{
    if cs.len() == 0 {
        Seq::empty()
    } else {
        forest(cs.drop_last(), skip_header, top) + (if top && !skip_header && cs.len() > 1 {
            separator()
        } else {
            Seq::empty()
        }) + section(cs.last(), skip_header) + forest(cs.last().children@, skip_header, false)
    }
}

#[via_fn]
proof fn forest_decreases(cs: Seq<Comment>, skip_header: bool, top: bool) {
    broadcast use vstd::seq::axiom_seq_index_decreases, vstd::std_specs::vec::axiom_vec_decreases_to_view;

    if cs.len() > 0 {
        let last = cs.last();
        assert(decreases_to!(cs => last));
        assert(decreases_to!(last => last.children));
        assert(decreases_to!(last.children => last.children@));
        vstd::seq::axiom_seq_len_decreases(cs, cs.drop_last());
    }
}

/// The whole document: title, backlink, then the comment forest.
pub open spec fn markdown_of(scrap: Scrap, url: Seq<char>, skip_header: bool) -> Seq<char> {
    "# "@ + scrap.title@ + "\n\n"@ + "Original: ["@ + relative_url(url) + "]("@ + url + ")\n\n"@
        + forest(scrap.comments@, skip_header, true)
}

/// `s` with every occurrence of the non-empty `pat` removed.
fn remove_all(s: &str, pat: &str) -> (r: String)
    requires
        pat@.len() > 0,
    ensures
        r@ == remove_from(s@, pat@, 0),
{
    let n = s.unicode_len();
    let m = pat.unicode_len();
    let mut out = String::new();
    let mut i: usize = 0;
    while i < n
        invariant
            n == s@.len(),
            m == pat@.len(),
            m > 0,
            i <= n,
            out@ + remove_from(s@, pat@, i as int) == remove_from(s@, pat@, 0),
        decreases n - i,
    {
        if matches_at(s, n, pat, m, i) {
            i = i + m;
        } else {
            push_char_at(&mut out, s, i);
            i = i + 1;
        }
    }
    out
}

fn render_level(comments: &Vec<Comment>, out: &mut String, skip_header: bool, top: bool)
    ensures
        final(out)@ == old(out)@ + forest(comments@, skip_header, top),
    decreases comments@,
{
    let ghost start = out@;
    let mut i: usize = 0;
    while i < comments.len()
        invariant
            i <= comments@.len(),
            out@ == start + forest(comments@.subrange(0, i as int), skip_header, top),
        decreases comments@.len() - i,
    {
        let ghost prefix = out@;
        let comment = &comments[i];
        let ghost sep = if top && !skip_header && i > 0 {
            separator()
        } else {
            Seq::<char>::empty()
        };
        if top && !skip_header && i > 0 {
            out.append("---\n\n");
        }
        if !skip_header {
            out.append("**");
            out.append(comment.author.as_str());
            out.append(" (");
            out.append(comment.created_at.as_str());
            out.append(")**\n\n");
        }
        let body = rewrite_images(comment.body_markdown.as_str());
        out.append(body.as_str());
        out.append("\n\n");
        assert(out@ =~= prefix + sep + section(*comment, skip_header));
        let ghost mid = out@;
        proof {
            broadcast use vstd::seq::axiom_seq_index_decreases, vstd::std_specs::vec::axiom_vec_decreases_to_view;

            assert(decreases_to!(comments@ => comments@[i as int]));
            assert(decreases_to!(comments@[i as int] => comments@[i as int].children));
        }
        render_level(&comment.children, out, skip_header, false);
        proof {
            let cs = comments@.subrange(0, i + 1);
            assert(cs.drop_last() =~= comments@.subrange(0, i as int));
            assert(cs.last() == *comment);
            assert(forest(cs, skip_header, top) == forest(cs.drop_last(), skip_header, top) + sep
                + section(*comment, skip_header) + forest(comment.children@, skip_header, false));
            assert(out@ =~= start + forest(cs, skip_header, top));
        }
        i = i + 1;
    }
    assert(comments@.subrange(0, i as int) =~= comments@);
}

/// Appends the comment forest to `out`, depth first, with a separator between
/// top-level comments when headers are shown.
pub fn render_comments(comments: &Vec<Comment>, out: &mut String, skip_header: bool)
    ensures
        final(out)@ == old(out)@ + forest(comments@, skip_header, true),
{
    render_level(comments, out, skip_header, true);
}

/// Renders a scrap as one Markdown document: the title as a heading, a
/// backlink to `url`, then every comment. Replies are laid out flat in
/// document order, each after its parent, not nested as block quotes.
pub fn render_markdown(scrap: &Scrap, url: &str, skip_header: bool) -> (r: String)
    ensures
        r@ == markdown_of(*scrap, url@, skip_header),
{
    let mut out = String::new();
    out.append("# ");
    out.append(scrap.title.as_str());
    out.append("\n\n");
    out.append("Original: [");
    proof {
        reveal_strlit("https://zenn.dev/");
    }
    let relative = remove_all(url, PLATFORM_BASE);
    out.append(relative.as_str());
    out.append("](");
    out.append(url);
    out.append(")\n\n");
    render_comments(&scrap.comments, &mut out, skip_header);
    assert(out@ =~= markdown_of(*scrap, url@, skip_header));
    out
}

/// The comments of `cs` and of all their replies, in document order: each
/// comment before its replies, and its replies before its next sibling.
pub open spec fn preorder(cs: Seq<Comment>) -> Seq<Comment>
    decreases cs,
    via preorder_decreases
{
    if cs.len() == 0 {
        Seq::empty()
    } else {
        preorder(cs.drop_last()) + seq![cs.last()] + preorder(cs.last().children@)
    }
}

#[via_fn]
proof fn preorder_decreases(cs: Seq<Comment>) {
    broadcast use vstd::seq::axiom_seq_index_decreases, vstd::std_specs::vec::axiom_vec_decreases_to_view;

    if cs.len() > 0 {
        let last = cs.last();
        assert(decreases_to!(cs => last));
        assert(decreases_to!(last => last.children));
        assert(decreases_to!(last.children => last.children@));
        vstd::seq::axiom_seq_len_decreases(cs, cs.drop_last());
    }
}

/// The sections of `cs`, one after another.
pub open spec fn sections(cs: Seq<Comment>, skip_header: bool) -> Seq<char>
    decreases cs.len(),
{
    if cs.len() == 0 {
        Seq::empty()
    } else {
        sections(cs.drop_last(), skip_header) + section(cs.last(), skip_header)
    }
}

proof fn lemma_single(c: Comment, skip_header: bool, top: bool)
    ensures
        sections(seq![c], skip_header) == section(c, skip_header),
        preorder(seq![c]) == seq![c] + preorder(c.children@),
        forest(seq![c], skip_header, top) == section(c, skip_header) + forest(c.children@, skip_header, false),
{
    let one = seq![c];
    let none = Seq::<Comment>::empty();
    assert(one.drop_last() =~= none);
    assert(one.last() == c);
    assert(sections(none, skip_header) == Seq::<char>::empty());
    assert(preorder(none) == Seq::<Comment>::empty());
    assert(forest(none, skip_header, top) == Seq::<char>::empty());
    assert(sections(one, skip_header) =~= section(c, skip_header));
    assert(preorder(one) =~= seq![c] + preorder(c.children@));
    assert(forest(one, skip_header, top) =~= section(c, skip_header) + forest(c.children@, skip_header, false));
}

proof fn lemma_sections_append(a: Seq<Comment>, b: Seq<Comment>, skip_header: bool)
    ensures
        sections(a + b, skip_header) == sections(a, skip_header) + sections(b, skip_header),
    decreases b.len(),
{
    if b.len() == 0 {
        assert(a + b =~= a);
        assert(sections(a, skip_header) + sections(b, skip_header) =~= sections(a, skip_header));
    } else {
        assert((a + b).drop_last() =~= a + b.drop_last());
        assert((a + b).last() == b.last());
        lemma_sections_append(a, b.drop_last(), skip_header);
        assert(sections(a + b, skip_header) =~= sections(a, skip_header) + sections(b, skip_header));
    }
}

/// Below the top level, or with headers suppressed, the rendered forest is
/// exactly the sections of all comments in document order: no separators,
/// every depth formatted alike. With headers suppressed no section holds a
/// header.
pub proof fn lemma_forest_is_preorder(cs: Seq<Comment>, skip_header: bool, top: bool)
    requires
        !top || skip_header,
    ensures
        forest(cs, skip_header, top) == sections(preorder(cs), skip_header),
        skip_header ==> forall|c: Comment|
            #[trigger] section(c, skip_header) == image_rewrite(c.body_markdown@) + "\n\n"@,
    decreases cs,
{
    broadcast use vstd::seq::axiom_seq_index_decreases, vstd::std_specs::vec::axiom_vec_decreases_to_view;

    if cs.len() > 0 {
        let last = cs.last();
        assert(decreases_to!(cs => last));
        assert(decreases_to!(last => last.children));
        assert(decreases_to!(last.children => last.children@));
        vstd::seq::axiom_seq_len_decreases(cs, cs.drop_last());
        lemma_forest_is_preorder(cs.drop_last(), skip_header, top);
        lemma_forest_is_preorder(last.children@, skip_header, false);
        let front = preorder(cs.drop_last());
        let back = preorder(last.children@);
        lemma_sections_append(front + seq![last], back, skip_header);
        lemma_sections_append(front, seq![last], skip_header);
        lemma_single(last, skip_header, top);
        assert(forest(cs, skip_header, top) =~= sections(preorder(cs), skip_header));
    }
    if skip_header {
        assert forall|c: Comment| #[trigger] section(c, skip_header) == image_rewrite(c.body_markdown@) + "\n\n"@ by {
            assert(section(c, skip_header) =~= image_rewrite(c.body_markdown@) + "\n\n"@);
        }
    }
}

/// With headers shown, a section is the comment's header line followed by
/// the same text as with headers suppressed; and the top-level forest is
/// each top-level comment's subtree, in document order, with a separator
/// between neighbours.
pub proof fn lemma_shown_headers(cs: Seq<Comment>, c: Comment)
    ensures
        section(c, false) == header(c) + section(c, true),
        cs.len() > 1 ==> forest(cs, false, true) == forest(cs.drop_last(), false, true) + separator()
            + sections(preorder(seq![cs.last()]), false),
        cs.len() == 1 ==> forest(cs, false, true) == sections(preorder(cs), false),
{
    assert(section(c, false) =~= header(c) + section(c, true));
    if cs.len() > 0 {
        let last = cs.last();
        let one = seq![last];
        lemma_single(last, false, true);
        lemma_forest_is_preorder(last.children@, false, false);
        lemma_sections_append(seq![last], preorder(last.children@), false);
        if cs.len() == 1 {
            assert(cs.drop_last() =~= Seq::<Comment>::empty());
            assert(cs =~= one);
            assert(forest(cs, false, true) =~= sections(preorder(cs), false));
        } else {
            assert(forest(cs, false, true) =~= forest(cs.drop_last(), false, true) + separator()
                + sections(preorder(one), false));
        }
    }
}

/// A top-level comment with a single reply that has none renders the
/// parent's whole section before the reply's, both by the same rules.
pub proof fn lemma_parent_before_child(parent: Comment, child: Comment, skip_header: bool)
    requires
        parent.children@ == seq![child],
        child.children@.len() == 0,
    ensures
        forest(seq![parent], skip_header, true) == section(parent, skip_header) + section(child, skip_header),
{
    lemma_single(parent, skip_header, true);
    lemma_single(child, skip_header, false);
    let none = Seq::<Comment>::empty();
    assert(child.children@ =~= none);
    assert(forest(none, skip_header, false) == Seq::<char>::empty());
    assert(forest(seq![parent], skip_header, true) =~= section(parent, skip_header) + section(child, skip_header));
}

/// Rendering is a function of the scrap, the URL and the flag alone: two
/// renderings of the same inputs are identical.
pub proof fn lemma_render_deterministic(scrap: Scrap, url: Seq<char>, skip_header: bool, first: Seq<char>, second: Seq<char>)
    requires
        first == markdown_of(scrap, url, skip_header),
        second == markdown_of(scrap, url, skip_header),
    ensures
        first == second,
{
}

} // verus!
