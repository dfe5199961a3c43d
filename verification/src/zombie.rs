//! The record type: a 16-byte payload and its derived binary category.

use vstd::prelude::*;

verus! {

/// A record: an opaque 16-byte payload. The category is derived on demand
/// from the payload and never stored.
#[derive(Clone, Copy, PartialEq, Eq, Debug)]
pub struct Zombie(pub [u8; 16]);

/// The derived binary category of a record.
#[derive(Clone, Copy, PartialEq, Eq, Structural, Debug)]
pub enum ZombieGender {
    Male,
    Female,
}

/// The category a payload determines: even first byte is `Male`, odd is
/// `Female`.
pub open spec fn gender_of(payload: Seq<u8>) -> ZombieGender {
    if payload[0] % 2 == 0 {
        ZombieGender::Male
    } else {
        ZombieGender::Female
    }
}

impl Zombie {
    /// The mathematical value of a record: its payload as a byte sequence.
    pub open spec fn view(self) -> Seq<u8> {
        self.0@
    }

    /// The record's category, recomputed from the parity of the payload's
    /// first byte on every call.
    pub fn gender(&self) -> (g: ZombieGender)
        ensures
            g == gender_of(self@),
    {
        if self.0[0] % 2 == 0 {
            ZombieGender::Male
        } else {
            ZombieGender::Female
        }
    }
}

} // verus!
