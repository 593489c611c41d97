use vstd::prelude::*;

verus! {

/// The classes of warship that the fleet knows.
#[derive(Clone, Copy, Debug, PartialEq, Eq, Hash, Structural)]
pub enum Class {
    Corvette,
    Frigate,
}

} // verus!
