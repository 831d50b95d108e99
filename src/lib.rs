//! A streaming Markdown extension pipeline.
//!
//! A CommonMark event stream is rewritten in one pass by a fixed, ordered set
//! of extensions (task lists, callouts, diagrams, math, tab groups, code
//! highlighting, link rewriting and the table of contents), while headings,
//! links and the optional page features in use are collected on the side.
pub mod event;
pub mod text;
pub mod output;
pub mod buffer;
pub mod callout;
pub mod tabs;
pub mod link_rewriter;
pub mod task_list;
pub mod fenced;
pub mod toc;
pub mod codeblock;
pub mod emoji;
pub mod parser;
pub mod config;
pub mod sanitize;
