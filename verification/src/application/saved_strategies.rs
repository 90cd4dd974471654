//! Saved-strategy use cases.

use vstd::prelude::*;
use vstd::string::*;

use crate::port::PortError;
use crate::text::{chars_of, int_digits, int_text, joined, string_from, trim, trimmed};
use super::{checked_ticker, ticker_outcome};

verus! {

/// Lists, saves and deletes strategies.
pub struct SavedStrategiesApplication<Loader, Store> {
    loader: Loader,
    store: Store,
}

impl<Loader, Store> SavedStrategiesApplication<Loader, Store> {
    /// The collaborators the use case was built with, in the order `new` takes them.
    pub closed spec fn parts(&self) -> (Loader, Store) {
        (self.loader, self.store)
    }

    pub fn new(loader: Loader, store: Store) -> (r: Self)
        ensures
            r.parts() == (loader, store),
    {
        SavedStrategiesApplication { loader, store }
    }
}

/// The name a strategy is saved under: trimmed, 1 to 80 characters.
pub fn strategy_name(name: &str) -> (r: Result<String, PortError>)
    ensures
        0 < trimmed(name@).len() <= 80 ==> (r matches Ok(n) && n@ == trimmed(name@)),
        !(0 < trimmed(name@).len() <= 80) ==> (r matches Err(PortError::InvalidRequest(m)) && m@
            == "strategy name must contain between 1 and 80 characters"@),
{
    let t = trim(&chars_of(name));
    if t.len() == 0 || t.len() > 80 {
        return Err(PortError::InvalidRequest(String::from_str("strategy name must contain between 1 and 80 characters")));
    }
    Ok(string_from(&t))
}

/// The ticker a strategy is saved for: trimmed and upper-cased, of ASCII letters, digits and
/// `^`.
pub fn strategy_ticker(ticker: &str) -> (r: Result<String, PortError>)
    ensures
        ticker_outcome(ticker@, "^"@, "invalid strategy ticker"@, r),
{
    checked_ticker(ticker, "^", "invalid strategy ticker")
}

/// The identifier of a strategy to delete must be positive.
pub fn check_strategy_id(id: i64) -> (r: Result<(), PortError>)
    ensures
        id > 0 ==> r is Ok,
        id <= 0 ==> (r matches Err(PortError::InvalidRequest(m)) && m@ == "strategy id must be positive"@),
{
    if id <= 0 {
        return Err(PortError::InvalidRequest(String::from_str("strategy id must be positive")));
    }
    Ok(())
}

/// No strategy is saved under the identifier.
pub fn strategy_not_found(id: i64) -> (r: PortError)
    ensures
        r matches PortError::NotFound(m) && m@ == "saved strategy '"@ + int_text(id as int) + "' was not found"@,
{
    PortError::NotFound(joined("saved strategy '", int_digits(id).as_str(), "' was not found"))
}

} // verus!
