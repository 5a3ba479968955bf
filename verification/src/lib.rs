//! Resource allocation and partition-descriptor synthesis for guests that run
//! in statically partitioned hardware cells.
//!
//! The engine keeps a ledger of what is free on one host (memory segments,
//! auxiliary processor cores, FPGA regions, slots for shared-memory channels)
//! and of what each active container holds. A create request is planned on a
//! working copy of the free lists, the descriptor of the cell is rendered in
//! one step, and only then the ledger is committed; a teardown returns what
//! the container's record holds and coalesces the freed memory.
//!
//! - `ledger`, `segment`, `pool`: the ledger and its allocators.
//! - `state`, `document`: the persisted form of the ledger.
//! - `platform`, `catalog`: the descriptions of the board and of the
//!   hardware designs.
//! - `config_generator`, `cpu`, `rpu`, `fpga`, `mem`, `device`,
//!   `communication`, `boot`: the stages of a create request.
//! - `descriptor`, `builder`, `templates`: the descriptor and its rendering.
//! - `laws`: what holds over every history of the ledger.
//! - `frontend`, `forwarding`, `logging`, `xen`, `pattern`, `text`,
//!   `error`: the request, the rules around the engine, and shared helpers.

pub mod boot;
pub mod builder;
pub mod catalog;
pub mod communication;
pub mod config_generator;
pub mod cpu;
pub mod descriptor;
pub mod device;
pub mod document;
pub mod error;
pub mod forwarding;
pub mod fpga;
pub mod frontend;
pub mod laws;
pub mod ledger;
pub mod logging;
pub mod mem;
pub mod pattern;
pub mod platform;
pub mod pool;
pub mod rpu;
pub mod segment;
pub mod state;
pub mod templates;
pub mod text;
pub mod xen;
