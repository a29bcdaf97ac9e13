use std::collections::HashMap;
use vstd::prelude::*;

use crate::types::{FeedId, FeedValue};

verus! {

broadcast use vstd::std_specs::hash::group_hash_axioms;

/// What the adaptor reads of the feed oracle: the feeds it knows, each with
/// the answer of its latest round, if it has produced one.
pub struct FeedOracle {
    feeds: HashMap<FeedId, Option<FeedValue>>,
}

impl View for FeedOracle {
    type V = Map<FeedId, Option<FeedValue>>;

    closed spec fn view(&self) -> Map<FeedId, Option<FeedValue>> {
        self.feeds@
    }
}

impl FeedOracle {
    /// An oracle that knows no feed.
    pub fn new() -> (r: FeedOracle)
        ensures
            r@ == Map::<FeedId, Option<FeedValue>>::empty(),
    {
        FeedOracle { feeds: HashMap::new() }
    }

    /// Records that `feed_id` exists, with `latest` as the answer of its
    /// latest round (`None` while it has produced none).
    pub fn set_feed(&mut self, feed_id: FeedId, latest: Option<FeedValue>)
        ensures
            final(self)@ == old(self)@.insert(feed_id, latest),
    {
        self.feeds.insert(feed_id, latest);
    }

    /// Whether the oracle knows a feed of id `feed_id`.
    pub fn feed_exists(&self, feed_id: FeedId) -> (r: bool)
        ensures
            r == self@.contains_key(feed_id),
    {
        self.feeds.contains_key(&feed_id)
    }

    /// The answer of the latest round of `feed_id`; `None` where the feed is
    /// unknown or has produced no round yet.
    pub fn latest_answer(&self, feed_id: FeedId) -> (r: Option<FeedValue>)
        ensures
            r == latest_answer_of(self@, feed_id),
    {
        match self.feeds.get(&feed_id) {
            Some(v) => *v,
            None => None,
        }
    }
}

/// The answer of the latest round of `feed_id` in an oracle holding `feeds`.
pub open spec fn latest_answer_of(feeds: Map<FeedId, Option<FeedValue>>, feed_id: FeedId) -> Option<FeedValue> {
    if feeds.contains_key(feed_id) {
        feeds[feed_id]
    } else {
        None
    }
}

} // verus!
