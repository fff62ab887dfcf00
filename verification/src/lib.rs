//! Post indexing and navigation engine for a small markdown blog.
//!
//! Markdown files named `YYYY-MM-DD-<slug>.md` are parsed into posts,
//! collected into an immutable index sorted by publication date (newest
//! first, discovery order breaking ties), and served as HTML fragments
//! with previous/next navigation controls.
//!
//! All metadata is derived from the filename alone: the date from its
//! first ten characters, the slug from what follows them; the file's text
//! is kept verbatim as the post body. Index construction fails fast when
//! two posts resolve to the same slug.

pub mod dates;
pub mod pages;
pub mod posts;
pub mod render;
pub mod scaffold;
pub mod slug;
