//! Verified core of a maimai DX play-record toolkit: rating arithmetic,
//! internal-level candidate sets, version tables, record schema and the
//! text rules used to read the official pages.

pub mod bits;
pub mod data_collector;
pub mod dom;
pub mod cookie_store;
pub mod maimai;
pub mod screenshot;
pub mod sega;
pub mod text;
pub mod watcher;
