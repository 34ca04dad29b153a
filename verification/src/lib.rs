//! A directory-tree concatenator: walks a modelled directory tree depth-first,
//! excludes entries by classified ignore patterns and a hidden-file rule, and
//! renders each included file as a labelled fenced block of one output document.

pub mod config;
pub mod emit;
pub mod patterns;
pub mod text;
pub mod utils;
pub mod walk;
