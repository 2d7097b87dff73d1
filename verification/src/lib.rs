//! Node-compatible module resolution over a local npm package store.
//!
//! Two things are decided here. Which file, or which built-in module, a
//! specifier means to the module that wrote it: `semantics` says what the
//! answer is, `resolve`, `resolution` and `probing` compute it, `local`
//! finds installed packages, and `laws` holds what is true of every
//! answer. And what a synchronization of the store has to do for a
//! dependency snapshot: `sync` and `links` decide, `setup_cache` remembers
//! across runs, `layout` and `folder_id` name the places, and `sync_laws`
//! holds what is true of every plan.
//!
//! Nothing in the library touches the file system. A resolver asks through
//! the traits of `env`; a synchronization is handed back as a plan.

pub mod base32;
pub mod bin;
pub mod builtin;
pub mod decimal;
pub mod env;
pub mod errors;
pub mod folder_id;
pub mod laws;
pub mod layout;
pub mod links;
pub mod local;
pub mod matching;
pub mod media;
pub mod memory_fs;
pub mod model;
pub mod npm_cache;
pub mod path;
pub mod pattern;
pub mod probing;
pub mod resolution;
pub mod resolve;
pub mod semantics;
pub mod semver;
pub mod setup_cache;
pub mod specifier;
pub mod sync;
pub mod sync_laws;
pub mod table;
pub mod text;
pub mod urls;
pub mod wire;
