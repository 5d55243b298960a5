//! The keys that the games react to.
use vstd::prelude::*;

verus! {

/// A key press, as the games tell keys apart.
#[derive(Debug, Clone, Copy, PartialEq, Eq, Structural)]
pub enum Key {
    P,
    Q,
    Space,
    W,
    A,
    S,
    D,
    Z,
    Other,
}

} // verus!
