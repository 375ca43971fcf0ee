//! Sub-phases of closing a handle, whose branches cannot be told apart afterwards otherwise. An
//! outside tool reads them.

use vstd::prelude::*;

verus! {

/// Inside, before any branch is chosen.
pub const ENTER: u32 = 1000;

/// Synthetic file handle: taking it out of its table.
pub const FUSE_TABLE: u32 = 1001;

/// Synthetic file handle: about to look for the director's client.
pub const FUSE_CLIENT: u32 = 1002;

/// Synthetic file handle: inside the director's round trip.
pub const FUSE_RING: u32 = 1003;

/// Synthetic file handle: the round trip returned.
pub const FUSE_DONE: u32 = 1004;

/// Synthetic file handle: complete.
pub const FUSE_EXIT: u32 = 1005;

/// Synthetic section: taking it out of its table.
pub const ZIP_TABLE: u32 = 1010;

/// Synthetic section: giving up its region.
pub const ZIP_REGION: u32 = 1011;

/// Synthetic section: the region was given up.
pub const ZIP_DONE: u32 = 1012;

/// Synthetic section: complete.
pub const ZIP_EXIT: u32 = 1013;

/// Ordinary handle: inside the handle tables.
pub const TABLES: u32 = 1020;

/// Ordinary handle: about to call the system.
pub const TRAMP: u32 = 1021;

/// Ordinary handle: the system's call returned.
pub const TRAMP_DONE: u32 = 1022;

} // verus!
