//! The decisions of a live-price connection: how a price is flagged when it is
//! relayed, and what is sent when the regular session closes.

use vstd::prelude::*;

verus! {

/// What to send when the market session changes.
#[derive(Debug, Clone, Copy, PartialEq, Eq, Structural)]
pub enum SessionChangeAction {
    /// Nothing: the regular session did not just close.
    Nothing,
    /// Send the last price relayed again, flagged outside market hours.
    ResendLastAsClosed,
    /// No price was relayed yet: obtain the current one and send it flagged
    /// outside market hours.
    FetchAndSendAsClosed,
}

/// The state of a live-price connection: whether the regular session was open at
/// the last change seen, and whether a price has been relayed.
#[derive(Debug, Clone, Copy, PartialEq, Eq, Structural)]
pub struct LivePriceRelay {
    pub regular_session: bool,
    pub has_last_price: bool,
}

impl LivePriceRelay {
    /// A connection opened while the session is `regular_session`, before any price.
    pub fn new(regular_session: bool) -> (r: Self)
        ensures
            r.regular_session == regular_session,
            !r.has_last_price,
    {
        LivePriceRelay { regular_session, has_last_price: false }
    }

    /// A price arrives and is relayed: its market-hours flag is 1 for a price of the
    /// regular session and 0 otherwise, and it becomes the last price.
    pub fn price_received(&mut self, regular_session_price: bool) -> (market_hours: i32)
        ensures
            market_hours == if regular_session_price {
                1i32
            } else {
                0i32
            },
            final(self).has_last_price,
            final(self).regular_session == old(self).regular_session,
    {
        self.has_last_price = true;
        if regular_session_price {
            1
        } else {
            0
        }
    }

    /// The session changed to `current`: when the regular session just closed, the
    /// last price is sent again outside market hours (or, without one, a fresh
    /// price is); otherwise nothing is sent. The change is remembered.
    pub fn session_changed(&mut self, current: bool) -> (r: SessionChangeAction)
        ensures
            r == if old(self).regular_session && !current {
                if old(self).has_last_price {
                    SessionChangeAction::ResendLastAsClosed
                } else {
                    SessionChangeAction::FetchAndSendAsClosed
                }
            } else {
                SessionChangeAction::Nothing
            },
            final(self).regular_session == current,
            final(self).has_last_price == old(self).has_last_price,
    {
        let action = if self.regular_session && !current {
            if self.has_last_price {
                SessionChangeAction::ResendLastAsClosed
            } else {
                SessionChangeAction::FetchAndSendAsClosed
            }
        } else {
            SessionChangeAction::Nothing
        };
        self.regular_session = current;
        action
    }
}

} // verus!
