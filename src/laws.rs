use vstd::prelude::*;

use crate::pallet::{
    after_answer, after_mapping, after_unmapping, last_updated, lookup, mapping_outcome, price_resolves,
    source_answer, timestamped_resolves, unmapping_outcome, PalletView,
};
use crate::types::{CurrencyId, Error, FeedId, FeedValue, Moment, Price, TimestampedValue};

verus! {

/// A currency with no mapping has no price, and no timestamped price, whatever
/// the oracle and the converter.
pub proof fn lemma_unmapped_has_no_price<C: Fn(FeedValue) -> Option<Price>>(
    v: PalletView,
    feeds: Map<FeedId, Option<FeedValue>>,
    convert: C,
    currency_id: CurrencyId,
    r: Option<Price>,
    tr: Option<TimestampedValue>,
)
    requires
        !v.mapping.contains_key(currency_id),
    ensures
        source_answer(v, feeds, currency_id) is None,
        price_resolves(v, feeds, convert, currency_id, r) <==> r is None,
        timestamped_resolves(v, feeds, convert, currency_id, tr) <==> tr is None,
{
}

/// An authorized caller can map a known feed to an unmapped currency; the
/// currency then resolves to that feed.
pub proof fn lemma_map_known_feed_succeeds(
    v: PalletView,
    feeds: Map<FeedId, Option<FeedValue>>,
    feed_id: FeedId,
    currency_id: CurrencyId,
)
    requires
        feeds.contains_key(feed_id),
        !v.mapping.contains_key(currency_id),
    ensures
        mapping_outcome(v, true, feeds, feed_id, currency_id) == Ok::<(), Error>(()),
        lookup(after_mapping(v, true, feeds, feed_id, currency_id), currency_id) == Some(feed_id),
{
}

/// Once a mapping of a currency succeeded, an authorized second mapping of the
/// same currency, to any feed, fails as already mapped and changes nothing.
pub proof fn lemma_map_twice_fails(
    v: PalletView,
    authorized: bool,
    feeds: Map<FeedId, Option<FeedValue>>,
    first_feed: FeedId,
    second_feed: FeedId,
    currency_id: CurrencyId,
)
    requires
        mapping_outcome(v, authorized, feeds, first_feed, currency_id) is Ok,
    ensures
        ({
            let v1 = after_mapping(v, authorized, feeds, first_feed, currency_id);
            &&& mapping_outcome(v1, true, feeds, second_feed, currency_id)
                == Err::<(), Error>(Error::CurrencyIdAlreadyMapping)
            &&& after_mapping(v1, true, feeds, second_feed, currency_id) == v1
        }),
{
}

/// Mapping an unknown feed never changes the state; an authorized caller
/// mapping it to an unmapped currency is told the feed is invalid.
pub proof fn lemma_map_unknown_feed_fails(
    v: PalletView,
    authorized: bool,
    feeds: Map<FeedId, Option<FeedValue>>,
    feed_id: FeedId,
    currency_id: CurrencyId,
)
    requires
        !feeds.contains_key(feed_id),
    ensures
        mapping_outcome(v, authorized, feeds, feed_id, currency_id) is Err,
        after_mapping(v, authorized, feeds, feed_id, currency_id) == v,
        authorized && !v.mapping.contains_key(currency_id) ==> mapping_outcome(
            v,
            authorized,
            feeds,
            feed_id,
            currency_id,
        ) == Err::<(), Error>(Error::InvalidFeedId),
{
}

/// Removing the mapping of an unmapped currency succeeds for an authorized
/// caller and changes nothing.
pub proof fn lemma_unmap_unmapped_is_noop(v: PalletView, currency_id: CurrencyId)
    requires
        !v.mapping.contains_key(currency_id),
    ensures
        unmapping_outcome(true) == Ok::<(), Error>(()),
        after_unmapping(v, true, currency_id) == v,
{
}

/// After mapping a feed to a currency and removing that currency's mapping,
/// the currency is unmapped, and every feed's last-answered moment is what it
/// was before.
pub proof fn lemma_unmap_keeps_timestamps(
    v: PalletView,
    feeds: Map<FeedId, Option<FeedValue>>,
    feed_id: FeedId,
    currency_id: CurrencyId,
    any_feed: FeedId,
)
    ensures
        ({
            let v2 = after_unmapping(after_mapping(v, true, feeds, feed_id, currency_id), true, currency_id);
            &&& lookup(v2, currency_id) is None
            &&& last_updated(v2, any_feed) == last_updated(v, any_feed)
        }),
{
}

/// An answer sets the feed's moment to the time source's value, and two
/// answers of one feed at non-decreasing moments never move it backwards.
pub proof fn lemma_answers_are_monotonic(v: PalletView, feed_id: FeedId, first: Moment, second: Moment)
    requires
        first <= second,
    ensures
        ({
            let v1 = after_answer(v, feed_id, first);
            let v2 = after_answer(v1, feed_id, second);
            &&& last_updated(v1, feed_id) == first
            &&& last_updated(v2, feed_id) == second
            &&& last_updated(v1, feed_id) <= last_updated(v2, feed_id)
        }),
{
}

/// An unauthorized caller is refused by both mutations, and neither changes
/// the mapping, the timestamps or the events.
pub proof fn lemma_unauthorized_changes_nothing(
    v: PalletView,
    feeds: Map<FeedId, Option<FeedValue>>,
    feed_id: FeedId,
    currency_id: CurrencyId,
)
    ensures
        mapping_outcome(v, false, feeds, feed_id, currency_id) == Err::<(), Error>(Error::BadOrigin),
        after_mapping(v, false, feeds, feed_id, currency_id) == v,
        unmapping_outcome(false) == Err::<(), Error>(Error::BadOrigin),
        after_unmapping(v, false, currency_id) == v,
{
}

} // verus!
