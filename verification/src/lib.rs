//! Bookweald: metadata extraction and normalization for FB2 book collections.
//!
//! Every module below is verified with Verus; the calls into std and into
//! outside crates that the logic needs stand behind small trusted items whose
//! contracts are documented where they are declared.

pub mod text;
pub mod normalize;
pub mod person;
pub mod alias;
pub mod book;
pub mod paths;
pub mod xml;
pub mod fb2_parse;
pub mod blacklist;
pub mod config;
pub mod index;
pub mod db;
pub mod extract;
pub mod tool;
pub mod validate;
