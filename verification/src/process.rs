//! Process information surfaced to the host UI. Reading live process
//! statistics is the host's part.

use vstd::prelude::*;

verus! {

/// Identity of one observed process.
#[derive(Debug, Clone)]
pub struct ProcessInfo {
    pub pid: u32,
    pub name: String,
}

} // verus!
