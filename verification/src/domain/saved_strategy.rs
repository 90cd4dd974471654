//! Persisted option-strategy vocabulary.

use vstd::prelude::*;

verus! {

#[derive(Debug, Clone, Copy, PartialEq, Eq, Structural)]
pub enum StrategySide {
    Buy,
    Sell,
}

} // verus!
