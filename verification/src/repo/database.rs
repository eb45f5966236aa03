//! A liveness probe for whatever keeps the rows.

use vstd::prelude::*;

verus! {

/// Tells whether the store answers at all. Nothing relates two probes: a
/// store may stop answering, or start again, at any moment.
pub trait DatabaseUtilRepo {
    fn alive(&self) -> bool;
}

} // verus!
