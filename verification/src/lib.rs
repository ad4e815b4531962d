//! On-demand image variants: the rules of an image cache that sits behind an
//! HTTP proxy. The modules hold the variant index, content negotiation, the
//! decisions of the resolver, of the optimizer workers, of the source watcher
//! and of the start-up sweep, and the HTTP-facing rules (URL templates,
//! identity tags, conditional requests). Every function carries a contract
//! that Verus proves; calls into other crates stand behind small trusted
//! wrappers whose contracts are documented where they are declared.

pub mod text;
pub mod error;
pub mod pattern;
pub mod utils;
pub mod config;
pub mod negotiation;
pub mod cache;
pub mod file_saver;
pub mod images;
pub mod resolver;
pub mod pre_optimizer;
pub mod watcher;
pub mod backend;
