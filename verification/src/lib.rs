//! The verified core of a process-local virtual file system shim.
//!
//! Every item here is a pure computation over plain values: the wire formats, the handle
//! tables, the region bookkeeping and the decisions that a file-system interception layer
//! makes. What touches the operating system lives outside this library.

pub mod bootstrap;
pub mod breadcrumb;
pub mod bytes;
pub mod engine;
pub mod fuse_client;
pub mod fuse_synth;
pub mod guard;
pub mod hook;
pub mod hookstats;
pub mod inject;
pub mod lazy_fill;
pub mod lazy_section;
pub mod ntdef;
pub mod overlay;
pub mod paths;
pub mod payload_abi;
pub mod report;
pub mod tally;
pub mod text;
pub mod zipserve;
