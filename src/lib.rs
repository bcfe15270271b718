//! A declarative automation engine: JSON events are routed to workflows, trees of
//! small actions interpreted against variables drawn from the event and from globals.
use vstd::prelude::*;

pub mod capability;
pub mod config;
pub mod directory;
pub mod interpolation;
pub mod json;
pub mod runtime;
pub mod sources;
pub mod table;
pub mod text;
pub mod window;

verus! {

/// The library's version string.
pub fn version() -> (r: &'static str)
    ensures
        r@ == "0.1.0"@,
{
    proof {
        reveal_strlit("0.1.0");
    }
    "0.1.0"
}

} // verus!
