//! The 128-bit channel identity.
//!
//! A channel is identified by a 128-bit value, either supplied by the caller
//! or derived from the channel name by the encoding crate's stable
//! name-to-identifier hash.

use vstd::prelude::*;
use crate::eh::{guid_from_name, guid_of_name};

verus! {

/// A 128-bit channel identity.
#[derive(Clone, Copy, PartialEq, Eq, Structural, Debug)]
pub struct GuidWrapper(pub u128);

impl GuidWrapper {
    /// Derives the identity from a channel name, by the stable hash the
    /// encoding crate defines.
    pub fn from_name(name: &str) -> (r: GuidWrapper)
        ensures
            r.0 == guid_of_name(name@),
    {
        GuidWrapper(guid_from_name(name))
    }

    /// The identity as a plain 128-bit value.
    pub fn to_u128(&self) -> (r: u128)
        ensures
            r == self.0,
    {
        self.0
    }
}

} // verus!
