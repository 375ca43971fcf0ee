//! The configuration record of the early payload, as the shim reads it and completes it.

use vstd::prelude::*;

verus! {

/// How many redirects the record holds.
pub const MAX_REDIRECTS: usize = 4;

/// One early redirect: a name's suffix and the file that stands for it, as addresses of UTF-16
/// text with their lengths in units.
#[derive(Clone, Copy, Debug, PartialEq, Eq, Structural)]
pub struct RedirectEntry {
    pub suffix_ptr: u64,
    pub suffix_wlen: u32,
    pub backing_ptr: u64,
    pub backing_wlen: u32,
    pub backing_size: u64,
}

/// The record: what the payload intercepts, the trampolines that lead past its interception,
/// its redirects, and where it hands on the calls that are not in its table.
pub struct PayloadConfig {
    pub nt_protect: u64,
    pub open_target: u64,
    pub open_tramp: u64,
    pub qattr_target: u64,
    pub qattr_tramp: u64,
    pub qfull_target: u64,
    pub qfull_tramp: u64,
    pub create_target: u64,
    pub create_tramp: u64,
    pub install_mask: u32,
    pub redirect_count: u32,
    pub redirects: [RedirectEntry; 4],
    pub counters: u64,
    pub secondary_open: u64,
    pub secondary_create: u64,
    pub secondary_qattr: u64,
    pub secondary_qfull: u64,
}

/// The addresses for the four functions that the payload owns.
#[derive(Clone, Copy, Debug, PartialEq, Eq, Structural)]
pub struct EarlyOwned {
    pub create: u64,
    pub open: u64,
    pub qattr: u64,
    pub qfull: u64,
}

impl PayloadConfig {
    /// The trampolines by which the system's own four functions are called.
    pub fn trampolines(&self) -> (r: EarlyOwned)
        ensures
            r.create == self.create_tramp,
            r.open == self.open_tramp,
            r.qattr == self.qattr_tramp,
            r.qfull == self.qfull_tramp,
    {
        EarlyOwned {
            create: self.create_tramp,
            open: self.open_tramp,
            qattr: self.qattr_tramp,
            qfull: self.qfull_tramp,
        }
    }

    /// Publishes where the payload hands on its calls; everything else stays as it is.
    pub fn publish(&mut self, secondary: EarlyOwned)
        ensures
            *final(self) == (PayloadConfig {
                secondary_create: secondary.create,
                secondary_open: secondary.open,
                secondary_qattr: secondary.qattr,
                secondary_qfull: secondary.qfull,
                ..*old(self)
            }),
    {
        self.secondary_create = secondary.create;
        self.secondary_open = secondary.open;
        self.secondary_qattr = secondary.qattr;
        self.secondary_qfull = secondary.qfull;
    }
}

} // verus!
