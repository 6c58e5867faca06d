//! Entry point describing where a Brawl dump and an optional mod live.
//!
//! Creating a `BrawlMod` is cheap: it only records the two locations.
//! Reading files from those locations is I/O and lives outside this
//! library; callers hand the raw bytes to the decoders in `wiird` and
//! `script`.

use vstd::prelude::*;

verus! {

/// The locations of a Brawl dump and, optionally, of a mod built on it.
/// Paths are kept as plain strings; the caller resolves them on disk.
pub struct BrawlMod {
    pub brawl_path: String,
    pub mod_path: Option<String>,
}

impl BrawlMod {
    /// Records the path to a Brawl dump and optionally the path to a mod
    /// sd card; no file is touched.
    pub fn new(brawl_path: String, mod_path: Option<String>) -> (r: BrawlMod)
        ensures
            r.brawl_path == brawl_path,
            r.mod_path == mod_path,
    {
        BrawlMod { brawl_path, mod_path }
    }
}

} // verus!
