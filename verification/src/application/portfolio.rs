//! Portfolio management use cases.

use vstd::prelude::*;
use vstd::string::*;

use crate::domain::portfolio::{portfolio_error_text, PortfolioError};
use crate::port::PortError;
use crate::text::joined;

verus! {

/// Creates portfolios and records their events.
pub struct PortfolioApplication<PortfolioLoader, PortfolioStore> {
    portfolio_loader: PortfolioLoader,
    portfolio_store: PortfolioStore,
}

impl<PortfolioLoader, PortfolioStore> PortfolioApplication<PortfolioLoader, PortfolioStore> {
    /// The collaborators the use case was built with, in the order `new` takes them.
    pub closed spec fn parts(&self) -> (PortfolioLoader, PortfolioStore) {
        (self.portfolio_loader, self.portfolio_store)
    }

    pub fn new(portfolio_loader: PortfolioLoader, portfolio_store: PortfolioStore) -> (r: Self)
        ensures
            r.parts() == (portfolio_loader, portfolio_store),
    {
        PortfolioApplication { portfolio_loader, portfolio_store }
    }
}

/// No portfolio is stored under the identifier.
pub fn portfolio_not_found(id: &str) -> (r: PortError)
    ensures
        r matches PortError::NotFound(m) && m@ == "portfolio '"@ + id@ + "' was not found"@,
{
    PortError::NotFound(joined("portfolio '", id, "' was not found"))
}

/// A portfolio is already stored under the identifier.
pub fn portfolio_already_exists(id: &str) -> (r: PortError)
    ensures
        r matches PortError::Conflict(m) && m@ == "portfolio '"@ + id@ + "' already exists"@,
{
    PortError::Conflict(joined("portfolio '", id, "' already exists"))
}

/// A change the portfolio refused, reported as an invalid request.
pub fn refused_change(error: &PortfolioError) -> (r: PortError)
    ensures
        r matches PortError::InvalidRequest(m) && m@ == portfolio_error_text(*error),
{
    PortError::InvalidRequest(error.message())
}

} // verus!
