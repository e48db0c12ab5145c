use vstd::prelude::*;
use crate::error::ScrapError;
use crate::text::{matches_at, occurs_at};

verus! {

/// The path marker that introduces a scrap's identifier in a URL.
pub const SCRAPS_MARKER: &'static str = "/scraps/";

/// `s` without its trailing `/` characters.
pub open spec fn trim_trailing_slashes(s: Seq<char>) -> Seq<char>
    decreases s.len(),
{
    if s.len() > 0 && s.last() == '/' {
        trim_trailing_slashes(s.drop_last())
    } else {
        s
    }
}

/// The first position at or after `i` where `pat` occurs in `s`.
pub open spec fn first_occurrence(s: Seq<char>, pat: Seq<char>, i: int) -> Option<int>
    decreases s.len() + 1 - i,
{
    if i < 0 || i + pat.len() > s.len() {
        None
    } else if occurs_at(s, pat, i) {
        Some(i)
    } else {
        first_occurrence(s, pat, i + 1)
    }
}

/// The identifier named by `input`: the text after the first marker of the
/// input with trailing separators removed, else that trimmed input itself;
/// `None` when the trimmed input is empty.
pub open spec fn slug_of(input: Seq<char>) -> Option<Seq<char>> {
    let t = trim_trailing_slashes(input);
    match first_occurrence(t, SCRAPS_MARKER@, 0) {
        Some(i) => Some(t.skip(i + SCRAPS_MARKER@.len())),
        None => if t.len() == 0 {
            None
        } else {
            Some(t)
        },
    }
}

/// `k` path separators.
pub open spec fn slashes(k: nat) -> Seq<char> {
    Seq::new(k, |j: int| '/')
}

proof fn lemma_trim_appended_slashes(s: Seq<char>, k: nat)
    requires
        s.len() > 0,
        s.last() != '/',
    ensures
        trim_trailing_slashes(s + slashes(k)) == s,
    decreases k,
{
    if k == 0 {
        assert(s + slashes(0) =~= s);
    } else {
        assert((s + slashes(k)).drop_last() =~= s + slashes((k - 1) as nat));
        lemma_trim_appended_slashes(s, (k - 1) as nat);
    }
}

proof fn lemma_trim_is_prefix(s: Seq<char>)
    ensures
        trim_trailing_slashes(s).len() <= s.len(),
        trim_trailing_slashes(s) == s.subrange(0, trim_trailing_slashes(s).len() as int),
    decreases s.len(),
{
    if s.len() > 0 && s.last() == '/' {
        lemma_trim_is_prefix(s.drop_last());
        assert(s.drop_last().subrange(0, trim_trailing_slashes(s).len() as int) =~= s.subrange(
            0,
            trim_trailing_slashes(s).len() as int,
        ));
    } else {
        assert(s.subrange(0, s.len() as int) =~= s);
    }
}

/// An input of the form `P/scraps/X`, followed by any number of separators,
/// names `X`, provided `X` is non-empty and does not end in a separator and
/// the marker does not occur earlier.
pub proof fn lemma_slug_after_marker(p: Seq<char>, x: Seq<char>, k: nat)
    requires
        x.len() > 0,
        x.last() != '/',
        forall|j: int| 0 <= j < p.len() ==> !occurs_at(p + SCRAPS_MARKER@, SCRAPS_MARKER@, j),
    ensures
        slug_of(p + SCRAPS_MARKER@ + x + slashes(k)) == Some(x),
{
    let m = SCRAPS_MARKER@;
    let t = p + m + x;
    assert(t.last() == x.last());
    lemma_trim_appended_slashes(t, k);
    assert(t.subrange(p.len() as int, (p.len() + m.len()) as int) =~= m);
    assert(first_occurrence(t, m, p.len() as int) == Some(p.len() as int));
    assert forall|i: int| 0 <= i < p.len() implies !occurs_at(t, m, i) by {
        assert(!occurs_at(p + m, m, i));
        assert(t.subrange(i, i + m.len()) =~= (p + m).subrange(i, i + m.len()));
    }
    lemma_first_occurrence_at(t, m, 0, p.len() as int);
    assert(t.skip((p.len() + m.len()) as int) =~= x);
}

/// An input in which the marker does not occur names itself, trailing
/// separators removed, whenever that is non-empty.
pub proof fn lemma_slug_without_marker(s: Seq<char>)
    requires
        forall|j: int| !occurs_at(s, SCRAPS_MARKER@, j),
        trim_trailing_slashes(s).len() > 0,
    ensures
        slug_of(s) == Some(trim_trailing_slashes(s)),
{
    let m = SCRAPS_MARKER@;
    let t = trim_trailing_slashes(s);
    lemma_trim_is_prefix(s);
    assert forall|i: int| !occurs_at(t, m, i) by {
        if occurs_at(t, m, i) {
            assert(s.subrange(i, i + m.len()) =~= t.subrange(i, i + m.len()));
            assert(occurs_at(s, m, i));
        }
    }
    lemma_first_occurrence_none(t, m, 0);
}

proof fn lemma_first_occurrence_at(t: Seq<char>, m: Seq<char>, j: int, target: int)
    requires
        0 <= j <= target,
        occurs_at(t, m, target),
        forall|i: int| j <= i < target ==> !occurs_at(t, m, i),
    ensures
        first_occurrence(t, m, j) == Some(target),
    decreases target - j,
{
    if j < target {
        lemma_first_occurrence_at(t, m, j + 1, target);
    }
}

proof fn lemma_first_occurrence_none(t: Seq<char>, m: Seq<char>, j: int)
    requires
        0 <= j,
        forall|i: int| !occurs_at(t, m, i),
    ensures
        first_occurrence(t, m, j) is None,
    decreases t.len() + 1 - j,
{
    if j + m.len() <= t.len() {
        lemma_first_occurrence_none(t, m, j + 1);
    }
}

/// Normalizes a scrap URL or a bare identifier into the identifier.
pub fn extract_slug(input: &str) -> (r: Result<String, ScrapError>)
    ensures
        match r {
            Ok(s) => slug_of(input@) == Some(s@),
            Err(e) => slug_of(input@) is None && e == ScrapError::InvalidIdentifier,
        },
{
    let total = input.unicode_len();
    let mut n: usize = total;
    assert(input@.subrange(0, n as int) =~= input@);
    while n > 0 && input.get_char(n - 1) == '/'
        invariant
            n <= total,
            total == input@.len(),
            trim_trailing_slashes(input@.subrange(0, n as int)) == trim_trailing_slashes(input@),
        decreases n,
    {
        assert(input@.subrange(0, n as int).drop_last() =~= input@.subrange(0, n - 1));
        n = n - 1;
    }
    let trimmed = input.substring_char(0, n);
    assert(trimmed@ == trim_trailing_slashes(input@));
    let marker = SCRAPS_MARKER;
    let m = marker.unicode_len();
    proof {
        reveal_strlit("/scraps/");
    }
    assert(m == 8);
    let mut i: usize = 0;
    while m <= n && i <= n - m
        invariant
            n == trimmed@.len(),
            trimmed@ == trim_trailing_slashes(input@),
            m == marker@.len(),
            marker == SCRAPS_MARKER,
            m == 8,
            i <= n,
            first_occurrence(trimmed@, marker@, 0) == first_occurrence(trimmed@, marker@, i as int),
        decreases n - i,
    {
        if matches_at(trimmed, n, marker, m, i) {
            let rest = trimmed.substring_char(i + m, n);
            assert(rest@ =~= trimmed@.skip(i + m));
            assert(first_occurrence(trimmed@, marker@, i as int) == Some(i as int));
            return Ok(String::from_str(rest));
        }
        i = i + 1;
    }
    if n == 0 {
        Err(ScrapError::InvalidIdentifier)
    } else {
        Ok(String::from_str(trimmed))
    }
}

} // verus!
