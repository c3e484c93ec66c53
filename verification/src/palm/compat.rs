//! How far the runtime supports an application.
use vstd::prelude::*;

verus! {

#[derive(Clone, Copy, Debug, PartialEq, Eq, Structural)]
pub enum CompatLevel {
    Unsupported,
    ProbeOnly,
    Experimental,
}

#[derive(Clone, Copy, Debug)]
pub struct CompatReport {
    pub level: CompatLevel,
    pub notes: &'static str,
}

} // verus!
