use vstd::prelude::*;

verus! {

/// One message of a scrap's reply tree; it owns its replies.
pub struct Comment {
    pub author: String,
    /// Rendered verbatim, never parsed.
    pub created_at: String,
    pub body_markdown: String,
    pub children: Vec<Comment>,
}

/// A threaded discussion: a title and its top-level comments in thread order.
pub struct Scrap {
    pub title: String,
    pub comments: Vec<Comment>,
}

} // verus!
