//! A documentation compiler: table-of-contents navigation, heading anchors,
//! the Markdown event rewriting pass, syntax-highlighting dispatch, and the
//! assembly of the final HTML fragment.
pub mod text;
pub mod toc;
pub mod slug;
pub mod highlight;
pub mod fragments;
pub mod markdown;
pub mod document;
pub mod pipeline;
pub mod site;
pub mod compiler;
