use zenn_scrap::image::rewrite_images;
use zenn_scrap::model::{Comment, Scrap};
use zenn_scrap::render::{render_comments, render_markdown};

fn comment(author: &str, at: &str, body: &str, children: Vec<Comment>) -> Comment {
    Comment {
        author: author.to_string(),
        created_at: at.to_string(),
        body_markdown: body.to_string(),
        children,
    }
}

fn sample() -> Scrap {
    Scrap {
        title: "Test Title".to_string(),
        comments: vec![comment(
            "alice",
            "2025-01-01",
            "Hello\nWorld",
            vec![comment("bob", "2025-01-02", "Nested", vec![])],
        )],
    }
}

#[test]
fn image_with_width() {
    assert_eq!(
        rewrite_images("![](https://x/img.png =200x)"),
        "<img src=\"https://x/img.png\" width=\"200\">"
    );
}

#[test]
fn image_without_width() {
    assert_eq!(rewrite_images("![](https://x/img.png)"), "<img src=\"https://x/img.png\">");
}

#[test]
fn image_surrounding_text_unchanged() {
    assert_eq!(
        rewrite_images("see ![](a.png) and ![](b.png =3x) end"),
        "see <img src=\"a.png\"> and <img src=\"b.png\" width=\"3\"> end"
    );
    assert_eq!(rewrite_images("no images here"), "no images here");
    assert_eq!(rewrite_images(""), "");
}

#[test]
fn image_malformed_directives_untouched() {
    assert_eq!(rewrite_images("![](a b)"), "![](a b)");
    assert_eq!(rewrite_images("![]()"), "![]()");
    assert_eq!(rewrite_images("![](a =x)"), "![](a =x)");
    assert_eq!(rewrite_images("![alt](a.png)"), "![alt](a.png)");
    assert_eq!(rewrite_images("!![](a)"), "!<img src=\"a\">");
}

#[test]
fn end_to_end_flat_layout() {
    let md = render_markdown(&sample(), "https://zenn.dev/u/scraps/s", false);
    assert_eq!(
        md,
        "# Test Title\n\nOriginal: [u/scraps/s](https://zenn.dev/u/scraps/s)\n\n\
         **alice (2025-01-01)**\n\nHello\nWorld\n\n**bob (2025-01-02)**\n\nNested\n\n"
    );
}

#[test]
fn render_is_deterministic() {
    let s = sample();
    let a = render_markdown(&s, "https://zenn.dev/u/scraps/s", false);
    let b = render_markdown(&s, "https://zenn.dev/u/scraps/s", false);
    assert_eq!(a, b);
    let c = render_markdown(&s, "slug", true);
    let d = render_markdown(&s, "slug", true);
    assert_eq!(c, d);
}

#[test]
fn headers_suppressed() {
    let md = render_markdown(&sample(), "slug", true);
    assert_eq!(md, "# Test Title\n\nOriginal: [slug](slug)\n\nHello\nWorld\n\nNested\n\n");
    assert!(!md.lines().any(|l| l.starts_with("**")));
}

#[test]
fn headers_one_per_comment() {
    let md = render_markdown(&sample(), "slug", false);
    assert_eq!(md.lines().filter(|l| l.starts_with("**") && l.ends_with(")**")).count(), 2);
}

#[test]
fn parent_rendered_before_child() {
    let mut out = String::new();
    render_comments(&sample().comments, &mut out, false);
    let parent = out.find("Hello\nWorld").unwrap();
    let child = out.find("**bob").unwrap();
    assert!(parent < child);
    let mut out = String::new();
    render_comments(&sample().comments, &mut out, true);
    assert_eq!(out, "Hello\nWorld\n\nNested\n\n");
}

#[test]
fn separators_only_between_top_level() {
    let scrap = Scrap {
        title: "T".to_string(),
        comments: vec![
            comment("a", "1", "A", vec![comment("b", "2", "B", vec![]), comment("c", "3", "C", vec![])]),
            comment("d", "4", "D ![](p.png =10x)", vec![]),
        ],
    };
    let mut out = String::new();
    render_comments(&scrap.comments, &mut out, false);
    assert_eq!(
        out,
        "**a (1)**\n\nA\n\n**b (2)**\n\nB\n\n**c (3)**\n\nC\n\n---\n\n**d (4)**\n\nD <img src=\"p.png\" width=\"10\">\n\n"
    );
    let mut out = String::new();
    render_comments(&scrap.comments, &mut out, true);
    assert_eq!(out, "A\n\nB\n\nC\n\nD <img src=\"p.png\" width=\"10\">\n\n");
}

#[test]
fn empty_scrap() {
    let scrap = Scrap { title: "Empty".to_string(), comments: vec![] };
    assert_eq!(
        render_markdown(&scrap, "https://zenn.dev/x", false),
        "# Empty\n\nOriginal: [x](https://zenn.dev/x)\n\n"
    );
}

#[test]
fn render_appends_to_existing_text() {
    let mut out = "pre\n".to_string();
    render_comments(&sample().comments, &mut out, true);
    assert_eq!(out, "pre\nHello\nWorld\n\nNested\n\n");
}
