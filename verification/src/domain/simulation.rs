//! The vocabulary of strategy simulations: strategy kinds, sides, pricing models and errors.

use vstd::prelude::*;
use vstd::string::*;

use crate::text::append;

verus! {

#[derive(Debug, Clone, Copy, PartialEq, Eq, Structural)]
pub enum SimulationStrategyKind {
    Straddle,
    BullCallSpread,
    Custom,
}

#[derive(Debug, Clone, Copy, PartialEq, Eq, Structural)]
pub enum SimulationTradeSide {
    Buy,
    Sell,
}

#[derive(Debug, Clone, Copy, PartialEq, Eq, Structural)]
pub enum ExerciseStyle {
    European,
    American,
}

#[derive(Debug, Clone, Copy, PartialEq, Eq, Structural)]
pub enum PricingModel {
    BlackScholes,
    Binomial { steps: u32 },
}

/// The model used for each exercise style.
#[derive(Debug, Clone, Copy, PartialEq, Eq, Structural)]
pub struct PricingConfig {
    pub european_model: PricingModel,
    pub american_model: PricingModel,
}

impl PricingConfig {
    /// The model configured for an exercise style.
    pub fn model_for(&self, style: ExerciseStyle) -> (r: PricingModel)
        ensures
            r == match style {
                ExerciseStyle::European => self.european_model,
                ExerciseStyle::American => self.american_model,
            },
    {
        match style {
            ExerciseStyle::European => self.european_model,
            ExerciseStyle::American => self.american_model,
        }
    }
}

#[derive(Debug, Clone, Copy, PartialEq, Eq, Structural)]
pub enum SimulationWarning {
    AtOrAfterExpiration,
    VolatilityFloored,
}

/// Prices strategies with the Black-Scholes model.
#[derive(Debug, Default, Clone, Copy)]
pub struct BlackScholesSimulator;

/// Why a simulation was refused.
#[derive(Debug, Clone, PartialEq, Eq)]
pub enum SimulationError {
    InvalidGrid,
    InvalidMarketInput,
    InvalidLeg(String),
    UnsupportedModel,
}

impl SimulationError {
    /// The text the error is shown with.
    pub open spec fn message_text(&self) -> Seq<char> {
        match self {
            SimulationError::InvalidGrid => "a grelha de cenários é inválida"@,
            SimulationError::InvalidMarketInput => "os dados de mercado são inválidos"@,
            SimulationError::InvalidLeg(symbol) => "perna inválida: "@ + symbol@,
            SimulationError::UnsupportedModel => "modelo de pricing não suportado"@,
        }
    }

    /// The text the error is shown with.
    pub fn message(&self) -> (r: String)
        ensures
            r@ == self.message_text(),
    {
        match self {
            SimulationError::InvalidGrid => String::from_str("a grelha de cenários é inválida"),
            SimulationError::InvalidMarketInput => String::from_str("os dados de mercado são inválidos"),
            SimulationError::InvalidLeg(symbol) => {
                let mut r = String::from_str("perna inválida: ");
                append(&mut r, symbol.as_str());
                r
            },
            SimulationError::UnsupportedModel => String::from_str("modelo de pricing não suportado"),
        }
    }
}

} // verus!
