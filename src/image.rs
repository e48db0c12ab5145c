use vstd::prelude::*;
use crate::text::push_char_at;

verus! {

/// A character that may stand in an image URL: anything but a space or `)`.
pub open spec fn is_url_char(c: char) -> bool {
    c != ' ' && c != ')'
}

/// An ASCII decimal digit.
pub open spec fn is_digit(c: char) -> bool {
    '0' <= c && c <= '9'
}

/// The end of the run of URL characters in `s` that starts at `i`.
pub open spec fn url_run(s: Seq<char>, i: int) -> int
    decreases s.len() - i,
{
    if 0 <= i < s.len() && is_url_char(s[i]) {
        url_run(s, i + 1)
    } else {
        i
    }
}

/// The end of the run of digits in `s` that starts at `i`.
pub open spec fn digit_run(s: Seq<char>, i: int) -> int
    decreases s.len() - i,
{
    if 0 <= i < s.len() && is_digit(s[i]) {
        digit_run(s, i + 1)
    } else {
        i
    }
}

/// `s` holds the opening `![](` of an image directive at `i`.
pub open spec fn opens_at(s: Seq<char>, i: int) -> bool {
    0 <= i && i + 4 <= s.len() && s[i] == '!' && s[i + 1] == '[' && s[i + 2] == ']' && s[i + 3]
        == '('
}

/// The image directive `![](URL)` or `![](URL =Wx)` that starts at `i`, as
/// the end of its URL, the end of its width digits (equal to the end of the
/// URL when there is no width), and the end of the directive.
pub open spec fn directive_at(s: Seq<char>, i: int) -> Option<(int, int, int)> {
    if !opens_at(s, i) {
        None
    } else {
        let u = url_run(s, i + 4);
        if u == i + 4 {
            None
        } else if u < s.len() && s[u] == ')' {
            Some((u, u, u + 1))
        } else if u + 1 < s.len() && s[u] == ' ' && s[u + 1] == '=' {
            let d = digit_run(s, u + 2);
            if d > u + 2 && d + 1 < s.len() && s[d] == 'x' && s[d + 1] == ')' {
                Some((u, d, d + 2))
            } else {
                None
            }
        } else {
            None
        }
    }
}

/// The HTML image tag for `url`, with a `width` attribute when `width` is
/// present.
pub open spec fn img_tag(url: Seq<char>, width: Option<Seq<char>>) -> Seq<char> {
    match width {
        Some(w) => "<img src=\""@ + url + "\" width=\""@ + w + "\">"@,
        None => "<img src=\""@ + url + "\">"@,
    }
}

/// The tag that replaces the directive `d` found at `i` in `s`.
pub open spec fn tag_for(s: Seq<char>, i: int, d: (int, int, int)) -> Seq<char> {
    img_tag(
        s.subrange(i + 4, d.0),
        if d.1 == d.0 {
            None
        } else {
            Some(s.subrange(d.0 + 2, d.1))
        },
    )
}

/// `s` from position `i` on, with each image directive replaced by its tag,
/// scanning left to right without overlap.
pub open spec fn rewrite_from(s: Seq<char>, i: int) -> Seq<char>
    decreases s.len() - i,
    via rewrite_from_decreases
{
    if i < 0 || i >= s.len() {
        Seq::empty()
    } else {
        match directive_at(s, i) {
            Some(d) => tag_for(s, i, d) + rewrite_from(s, d.2),
            None => seq![s[i]] + rewrite_from(s, i + 1),
        }
    }
}

#[via_fn]
proof fn rewrite_from_decreases(s: Seq<char>, i: int) {
    if 0 <= i < s.len() {
        if let Some(d) = directive_at(s, i) {
            lemma_url_run_bounds(s, i + 4);
            lemma_digit_run_bounds(s, d.0 + 2);
        }
    }
}

/// `s` with every image directive replaced by its HTML image tag.
pub open spec fn image_rewrite(s: Seq<char>) -> Seq<char> {
    rewrite_from(s, 0)
}

proof fn lemma_url_run_bounds(s: Seq<char>, i: int)
    requires
        0 <= i,
    ensures
        i <= url_run(s, i),
        i <= s.len() ==> url_run(s, i) <= s.len(),
        forall|j: int| i <= j < url_run(s, i) ==> is_url_char(#[trigger] s[j]),
    decreases s.len() - i,
{
    if 0 <= i < s.len() && is_url_char(s[i]) {
        lemma_url_run_bounds(s, i + 1);
    }
}

proof fn lemma_digit_run_bounds(s: Seq<char>, i: int)
    requires
        0 <= i,
    ensures
        i <= digit_run(s, i),
        i <= s.len() ==> digit_run(s, i) <= s.len(),
        forall|j: int| i <= j < digit_run(s, i) ==> is_digit(#[trigger] s[j]),
    decreases s.len() - i,
{
    if 0 <= i < s.len() && is_digit(s[i]) {
        lemma_digit_run_bounds(s, i + 1);
    }
}

/// The directive text for `url`, with the width suffix ` =Wx` when `width`
/// is present.
pub open spec fn directive_text(url: Seq<char>, width: Option<Seq<char>>) -> Seq<char> {
    "![]("@ + url + match width {
        Some(w) => " ="@ + w + "x"@,
        None => Seq::empty(),
    } + ")"@
}

proof fn lemma_plain_run(s: Seq<char>, i: int, j: int)
    requires
        0 <= i <= j <= s.len(),
        forall|k: int| i <= k < j ==> s[k] != '!',
    ensures
        rewrite_from(s, i) == s.subrange(i, j) + rewrite_from(s, j),
    decreases j - i,
{
    if i < j {
        lemma_plain_run(s, i + 1, j);
        assert(directive_at(s, i) is None);
        assert(s.subrange(i, j) =~= seq![s[i]] + s.subrange(i + 1, j));
    } else {
        assert(s.subrange(i, j) =~= Seq::<char>::empty());
    }
}

proof fn lemma_url_run_exact(s: Seq<char>, i: int, e: int)
    requires
        0 <= i <= e <= s.len(),
        forall|k: int| i <= k < e ==> is_url_char(s[k]),
        e < s.len() ==> !is_url_char(s[e]),
    ensures
        url_run(s, i) == e,
    decreases e - i,
{
    if i < e {
        lemma_url_run_exact(s, i + 1, e);
    }
}

proof fn lemma_digit_run_exact(s: Seq<char>, i: int, e: int)
    requires
        0 <= i <= e <= s.len(),
        forall|k: int| i <= k < e ==> is_digit(s[k]),
        e < s.len() ==> !is_digit(s[e]),
    ensures
        digit_run(s, i) == e,
    decreases e - i,
{
    if i < e {
        lemma_digit_run_exact(s, i + 1, e);
    }
}

/// A directive between two stretches of text without `!` becomes its image
/// tag, and the text around it is kept as it is.
pub proof fn lemma_rewrite_directive(p: Seq<char>, url: Seq<char>, width: Option<Seq<char>>, q: Seq<char>)
    requires
        forall|k: int| 0 <= k < p.len() ==> p[k] != '!',
        forall|k: int| 0 <= k < q.len() ==> q[k] != '!',
        url.len() > 0,
        forall|k: int| 0 <= k < url.len() ==> is_url_char(url[k]),
        width matches Some(w) ==> w.len() > 0 && forall|k: int| 0 <= k < w.len() ==> is_digit(w[k]),
    ensures
        image_rewrite(p + directive_text(url, width) + q) == p + img_tag(url, width) + q,
{
    reveal_strlit("![](");
    reveal_strlit(" =");
    reveal_strlit("x");
    reveal_strlit(")");
    let d = directive_text(url, width);
    let s = p + d + q;
    let a = p.len() as int;
    let n = url.len() as int;
    let u = a + 4 + n;
    assert(forall|k: int| 0 <= k < d.len() ==> s[a + k] == d[k]);
    assert(forall|k: int| 0 <= k < n ==> d[4 + k] == url[k]);
    lemma_plain_run(s, 0, a);
    assert(s.subrange(0, a) =~= p);
    assert(s[a] == '!' && s[a + 1] == '[' && s[a + 2] == ']' && s[a + 3] == '(');
    assert(forall|k: int| a + 4 <= k < u ==> s[k] == url[k - a - 4]);
    let end = a + d.len();
    match width {
        Some(w) => {
            let m = w.len() as int;
            assert(d[4 + n] == ' ' && d[5 + n] == '=');
            assert(forall|k: int| 0 <= k < m ==> d[6 + n + k] == w[k]);
            assert(d[6 + n + m] == 'x' && d[7 + n + m] == ')');
            lemma_url_run_exact(s, a + 4, u);
            assert(forall|k: int| u + 2 <= k < u + 2 + m ==> s[k] == w[k - u - 2]);
            lemma_digit_run_exact(s, u + 2, u + 2 + m);
            assert(directive_at(s, a) == Some((u, u + 2 + m, u + 4 + m)));
            assert(s.subrange(u + 2, u + 2 + m) =~= w);
            assert(end == u + 4 + m);
        },
        None => {
            assert(d[4 + n] == ')');
            lemma_url_run_exact(s, a + 4, u);
            assert(directive_at(s, a) == Some((u, u, u + 1)));
            assert(end == u + 1);
        },
    }
    assert(s.subrange(a + 4, u) =~= url);
    lemma_plain_run(s, end, s.len() as int);
    assert(s.subrange(end, s.len() as int) =~= q);
    assert(image_rewrite(s) =~= p + img_tag(url, width) + q);
}

fn scan_url(s: &str, n: usize, i: usize) -> (r: usize)
    requires
        n == s@.len(),
        i <= n,
    ensures
        r == url_run(s@, i as int),
        i <= r <= n,
{
    let mut j = i;
    while j < n && s.get_char(j) != ' ' && s.get_char(j) != ')'
        invariant
            n == s@.len(),
            i <= j <= n,
            url_run(s@, i as int) == url_run(s@, j as int),
        decreases n - j,
    {
        j = j + 1;
    }
    j
}

fn scan_digits(s: &str, n: usize, i: usize) -> (r: usize)
    requires
        n == s@.len(),
        i <= n,
    ensures
        r == digit_run(s@, i as int),
        i <= r <= n,
{
    let mut j = i;
    while j < n && '0' <= s.get_char(j) && s.get_char(j) <= '9'
        invariant
            n == s@.len(),
            i <= j <= n,
            digit_run(s@, i as int) == digit_run(s@, j as int),
        decreases n - j,
    {
        j = j + 1;
    }
    j
}

/// Finds the image directive that starts at `i`, if any.
fn find_directive(s: &str, n: usize, i: usize) -> (r: Option<(usize, usize, usize)>)
    requires
        n == s@.len(),
        i < n,
    ensures
        match r {
            Some(d) => directive_at(s@, i as int) == Some((d.0 as int, d.1 as int, d.2 as int)),
            None => directive_at(s@, i as int) is None,
        },
{
    if n - i < 4 || s.get_char(i) != '!' || s.get_char(i + 1) != '[' || s.get_char(i + 2) != ']'
        || s.get_char(i + 3) != '(' {
        return None;
    }
    let u = scan_url(s, n, i + 4);
    if u == i + 4 {
        return None;
    }
    if u < n && s.get_char(u) == ')' {
        return Some((u, u, u + 1));
    }
    if n - u >= 2 && s.get_char(u) == ' ' && s.get_char(u + 1) == '=' {
        let d = scan_digits(s, n, u + 2);
        if d > u + 2 && n - d >= 2 && s.get_char(d) == 'x' && s.get_char(d + 1) == ')' {
            return Some((u, d, d + 2));
        }
    }
    None
}

/// Replaces every image directive `![](URL)` or `![](URL =Wx)` in `body` by
/// `<img src="URL">` or `<img src="URL" width="W">`; the rest of the text is
/// copied unchanged.
pub fn rewrite_images(body: &str) -> (r: String)
    ensures
        r@ == image_rewrite(body@),
{
    let n = body.unicode_len();
    let mut out = String::new();
    let mut i: usize = 0;
    while i < n
        invariant
            n == body@.len(),
            i <= n,
            out@ + rewrite_from(body@, i as int) == image_rewrite(body@),
        decreases n - i,
    {
        let ghost before = out@;
        match find_directive(body, n, i) {
            Some(d) => {
                proof {
                    lemma_url_run_bounds(body@, i + 4);
                    lemma_digit_run_bounds(body@, d.0 + 2);
                }
                out.append("<img src=\"");
                out.append(body.substring_char(i + 4, d.0));
                if d.1 != d.0 {
                    out.append("\" width=\"");
                    out.append(body.substring_char(d.0 + 2, d.1));
                }
                out.append("\">");
                assert(out@ =~= before + tag_for(body@, i as int, (d.0 as int, d.1 as int, d.2 as int)));
                assert(rewrite_from(body@, i as int) =~= tag_for(body@, i as int, (d.0 as int, d.1 as int, d.2 as int)) + rewrite_from(body@, d.2 as int));
                i = d.2;
            },
            None => {
                push_char_at(&mut out, body, i);
                assert(rewrite_from(body@, i as int) == seq![body@[i as int]] + rewrite_from(body@, i + 1));
                i = i + 1;
            },
        }
    }
    out
}

} // verus!
