//! Why an interest-rate curve could not be interpolated.

use vstd::prelude::*;

verus! {

#[derive(Debug, Clone, Copy, PartialEq, Eq, Structural)]
pub enum InterestRateError {
    InsufficientPoints,
    InvalidPoint,
    DuplicateMaturity,
    InvalidTarget,
    InvalidBondEquivalentYield,
}

impl InterestRateError {
    /// The text the error is shown with.
    pub fn message(&self) -> (r: &'static str)
        ensures
            r@ == match self {
                InterestRateError::InsufficientPoints => "são necessários pelo menos dois pontos da curva"@,
                InterestRateError::InvalidPoint => "a curva contém um prazo ou uma taxa inválida"@,
                InterestRateError::DuplicateMaturity => "a curva contém prazos repetidos"@,
                InterestRateError::InvalidTarget => "o prazo-alvo é inválido"@,
                InterestRateError::InvalidBondEquivalentYield => "a taxa BEY não permite conversão para APY"@,
            },
    {
        match self {
            InterestRateError::InsufficientPoints => "são necessários pelo menos dois pontos da curva",
            InterestRateError::InvalidPoint => "a curva contém um prazo ou uma taxa inválida",
            InterestRateError::DuplicateMaturity => "a curva contém prazos repetidos",
            InterestRateError::InvalidTarget => "o prazo-alvo é inválido",
            InterestRateError::InvalidBondEquivalentYield => "a taxa BEY não permite conversão para APY",
        }
    }
}

} // verus!
