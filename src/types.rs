use vstd::prelude::*;

verus! {

/// Identifier of a priced currency.
pub type CurrencyId = u32;

/// Identifier of one price feed of the feed oracle.
pub type FeedId = u32;

/// A feed's answer in its own numeric representation.
pub type FeedValue = i128;

/// The adaptor's price: the inner value of an 18-decimal fixed-point number.
pub type Price = u128;

/// A timestamp issued by the time source; `0` is its default.
pub type Moment = u64;

/// Why a mutation of the mapping was refused.
#[derive(Debug, Clone, Copy, PartialEq, Eq, Structural)]
pub enum Error {
    /// The caller failed the authorization check.
    BadOrigin,
    /// The currency already has a feed mapped to it.
    CurrencyIdAlreadyMapping,
    /// The feed oracle knows no feed of that id.
    InvalidFeedId,
}

/// What the adaptor records of each change of the mapping.
#[derive(Debug, Clone, Copy, PartialEq, Eq, Structural)]
pub enum Event {
    /// A feed was mapped to a currency.
    MappingFeedId(FeedId, CurrencyId),
    /// A currency's mapping to a feed was removed.
    UnmappingFeedId(FeedId, CurrencyId),
}

/// A price together with the moment its feed last answered.
#[derive(Debug, Clone, Copy, PartialEq, Eq, Structural)]
pub struct TimestampedValue {
    pub value: Price,
    pub timestamp: Moment,
}

} // verus!
