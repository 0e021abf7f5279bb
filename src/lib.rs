//! Building filesystem paths from parts without path traversal.
//!
//! Paths follow POSIX conventions: `/` separates components and a leading
//! `/` denotes the root. A [`SinglePathComponent`] is text that names exactly
//! one plain file or directory; the safe joins accept only such parts after
//! an optional trusted first part.

mod component;
mod join;
mod path;

pub use component::{
    is_normal_component, is_separator, sanitized, SinglePathComponent,
};
pub use join::{all_normal, pathbuf, pathbuf_safe, pathbuf_safe_allow, texts};
pub use path::{
    joined, lemma_pieces_extend, lemma_pieces_of_joined, pieces, pushed, PathBuilder,
    PushPathComponent,
};
