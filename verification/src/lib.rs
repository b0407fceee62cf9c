//! Declarative construction of directory trees for test fixtures.
//!
//! A [`TreeBuilder`] collects the entries of a tree. [`TreeBuilder::create`]
//! turns it into a [`Materializer`], which says step by step what is to be
//! done on disk and ends with a [`Tree`], the handle that says whether the
//! tree is deleted when its scope ends. The library decides; the caller
//! touches the disk.

pub mod builder;
pub mod error;
pub mod flat;
pub mod materializer;
pub mod normal_form;
pub mod path;
pub mod run;
pub mod tree;

pub use builder::{default_drop, TreeBuilder};
pub use error::Error;
pub use flat::FileMetadata;
pub use materializer::{Action, Materializer, Phase, Reply};
pub use tree::{temp_dir, Entry, Kind, Settings, Tree};
