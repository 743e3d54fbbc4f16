//! Core of a C++ API-reference generator: a merged symbol tree over parsed
//! declarations, canonical URLs for every symbol, ordered navigation,
//! recursive type rendering, and autolinking of bare names in prose.

pub mod ast;
pub mod autolink;
pub mod emoji;
pub mod html;
pub mod markdown;
pub mod nav;
pub mod output;
pub mod render;
pub mod tree;
pub mod url;
