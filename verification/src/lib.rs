//! pakstak: a local container manager over OCI images and Bubblewrap.
//!
//! The library holds the decisions of the program, each with a contract:
//! how image references and digests are read and checked, how registry
//! challenges are answered, which manifest and layers an image uses, where
//! things live in the storage directory, what pruning removes and how a run
//! sandbox is assembled.

pub mod text;
pub mod lists;
pub mod reference;
pub mod digest;
pub mod auth;
pub mod manifest;
pub mod fetch;
pub mod context;
pub mod storage;
pub mod run;
pub mod prune;
pub mod repair;
