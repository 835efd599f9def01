//! The server's configuration.

use vstd::prelude::*;

verus! {

/// Where the tables are, and whether clients may change them.
pub struct Args {
    /// The directory that holds the `.db` table files.
    pub location: String,
    /// A port for a network transport; accepted and not used.
    pub port: Option<u16>,
    /// Whether the tools that create or change tables may run.
    pub permit_editing: bool,
}

} // verus!
