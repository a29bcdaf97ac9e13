//! Price-oracle adaptor: maps currency ids to price-feed ids and resolves a
//! currency's latest price, with the moment its feed last answered.

mod feeds;
mod laws;
mod pallet;
mod types;

pub use types::{CurrencyId, Error, Event, FeedId, FeedValue, Moment, Price, TimestampedValue};
pub use feeds::{latest_answer_of, FeedOracle};
pub use pallet::{
    after_answer, after_mapping, after_unmapping, last_updated, lookup, mapping_outcome,
    price_resolves, source_answer, timestamped_resolves, unmapping_outcome, Pallet, PalletView,
};
pub use laws::{
    lemma_answers_are_monotonic, lemma_map_known_feed_succeeds, lemma_map_twice_fails,
    lemma_map_unknown_feed_fails, lemma_unauthorized_changes_nothing, lemma_unmap_keeps_timestamps,
    lemma_unmap_unmapped_is_noop, lemma_unmapped_has_no_price,
};
