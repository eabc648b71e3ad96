//! Client-side core of a knowledge-base ("esa") command-line tool.
//!
//! The heart of the library is the plain-text codec that turns a post into
//! an editable buffer and parses the edited buffer back into structured
//! content, together with the editing-session change detection and the
//! small pieces of decision logic around the HTTP facade.

pub mod cli;
pub mod config;
pub mod esa;
pub mod post;
pub mod strutil;
pub mod team;
pub mod tmp_file;
