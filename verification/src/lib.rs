//! A project-scaffolding engine: a directory tree whose names and file
//! contents hold template expressions is turned into a concrete tree by
//! rendering every path and every file against a set of parameters.
//!
//! The library never touches the file system and never runs the templating
//! engine. It decides what has to be done next and is told how it went; the
//! caller performs the work.
//!
//! - [`context`] puts the parameters together.
//! - [`templates`] says what the engine is given and what is made of its
//!   answers.
//! - [`path`] relates the paths of the source tree to those of the target.
//! - [`protocol`] holds what a build asks for and what it is told.
//! - [`walk`] visits the source tree, entry by entry.
//! - [`preorder`] proves that the walk visits it as a recursion would.
//! - [`builder`] runs a build from its first step to the exit code.

pub mod builder;
pub mod context;
pub mod error;
pub mod path;
pub mod preorder;
pub mod protocol;
pub mod templates;
pub mod walk;

pub use crate::builder::{build_schablone, Build};
pub use crate::error::SchabloneError;
