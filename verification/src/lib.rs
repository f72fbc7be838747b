//! Rendering pipeline for serving Markdown documents as HTML pages:
//! heading extraction, outline-tree construction, table-of-contents
//! rendering, anchor injection, CJK whitespace normalization, and
//! per-heading version annotations drawn from repository history.

pub mod chars;
pub mod slug;
pub mod toc;
pub mod events;
pub mod textpass;
pub mod util;
pub mod headers;
pub mod cli;
pub mod version;
pub mod page;
