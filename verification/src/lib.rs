//! Turns a tree of example packages into markdown code-block snippets.
//!
//! A run has four stages. `discovery` finds the packages among the manifest
//! files under the examples directory. `enumeration` lists the files of one
//! package. `snippet` plans and renders the snippet of one file, with the
//! file name from `slug` and the language tag from `language`. `run` decides
//! where snippets are written and what happens when the examples directory
//! is missing.
//!
//! The library touches no file. Its caller searches the file system and
//! reads and writes files; paths and contents cross the boundary as strings.

pub mod discovery;
pub mod enumeration;
pub mod error;
pub mod language;
pub mod path;
pub mod run;
pub mod slug;
pub mod snippet;
pub mod text;
