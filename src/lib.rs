//! Reconstructs a threaded discussion ("scrap") as Markdown.
//!
//! The library holds the verified logic: identifier extraction, the
//! credential fallback chain and the interactive-login state machine, the
//! fetch request and status decisions, the image-directive rewrite and the
//! comment-tree renderer. Network, browser automation and file output are
//! left to the caller.
pub mod credential;
pub mod error;
pub mod fetch;
pub mod image;
pub mod model;
pub mod render;
pub mod slug;
pub mod text;
