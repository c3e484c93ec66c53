//! Resources as the Palm runtime holds them once loaded.
use vstd::prelude::*;

verus! {

/// A loaded resource: its four-character type (big-endian), its id and its data.
#[derive(Clone, Debug)]
pub struct ResourceBlob {
    pub kind: u32,
    pub id: u16,
    pub data: Vec<u8>,
}

} // verus!
