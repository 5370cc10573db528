//! Core logic of the `tar2` archive tool: configuration keys and values,
//! path handling, entry filtering, tree rendering and output styling.

pub mod archive;
pub mod cli;
pub mod colors;
pub mod config;
pub mod filter;
pub mod ignorefile;
pub mod path;
pub mod text;
pub mod tree;
