//! Core of a multi-toolchain manager: toolchain resolution, override
//! bookkeeping, install-source orchestration, metadata gating and proxy
//! planning, all over plain values. Process spawning, the filesystem and
//! the terminal live outside this crate; they hand values in and carry
//! the decisions out.

pub mod codec;
pub mod dispatch;
pub mod errors;
pub mod install;
pub mod metadata;
pub mod names;
pub mod overrides;
pub mod proxy;
pub mod resolve;
pub mod state;
pub mod strutil;
