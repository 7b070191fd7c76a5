//! A packaged mod: the manifest that goes into its archive.
use vstd::prelude::*;
use crate::mod_json::ModJson;

verus! {

/// A mod ready to be written out as an archive.
pub struct Qmod {
    pub mod_json: ModJson,
}

} // verus!
