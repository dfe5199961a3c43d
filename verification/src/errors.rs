//! The error taxonomy of the registry.

use vstd::prelude::*;

verus! {

/// Failure kinds of the registry. Only `ZombiesIdOverflow` is raised by an
/// operation of this crate; the other two are reserved kinds for future
/// operations (a lookup that requires existence, a comparison of two
/// records' categories) and are raised by nothing here.
#[derive(Clone, Copy, PartialEq, Eq, Structural, Debug)]
pub enum Error {
    ZombiesIdOverflow,
    InvalidZombieId,
    SameGender,
}

} // verus!
