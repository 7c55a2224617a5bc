//! An issue tracker that keeps its issues as plain files on a branch of the
//! repository that they are about, one commit for each change.
//!
//! The library decides and the caller acts. Nothing here reads a file,
//! writes one, or starts a program: a store is read from the `fs::Node`
//! values that the caller made of its directory, every change comes back as
//! a `change::Change` for the caller to carry out, and what is done with the
//! version control engine is a state machine that asks for one command at a
//! time.

pub mod change;
pub mod comment;
pub mod database;
pub mod edit;
pub mod filter;
pub mod fs;
pub mod git;
pub mod id;
pub mod issue;
pub mod issues;
pub mod load;
pub mod mutation;
pub mod order;
pub mod sync;
pub mod tag;
pub mod text;
pub mod timestamp;

pub use filter::Filter;
pub use filter::ParseFilterError;
