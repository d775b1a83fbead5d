use vstd::prelude::*;

pub mod aggregate;
pub mod collect;
pub mod file_run;
pub mod guard;
pub mod order;
pub mod paths;
pub mod thumbnail;
pub mod types;
pub mod worker;

verus! {

/// Value used when a request leaves the recompress toggle out.
pub fn default_true() -> (r: bool)
    ensures
        r,
{
    true
}

} // verus!
