use std::collections::HashMap;
use vstd::prelude::*;

use crate::feeds::{latest_answer_of, FeedOracle};
use crate::types::{CurrencyId, Error, Event, FeedId, FeedValue, Moment, Price, TimestampedValue};

verus! {

broadcast use vstd::std_specs::hash::group_hash_axioms;

/// The abstract state of the adaptor.
pub struct PalletView {
    /// The feed mapped to each mapped currency.
    pub mapping: Map<CurrencyId, FeedId>,
    /// The moment each feed last answered, for the feeds that ever did.
    pub timestamps: Map<FeedId, Moment>,
    /// Every event recorded so far, oldest first.
    pub events: Seq<Event>,
}

/// The moment `feed_id` last answered; the default moment `0` if it never did.
pub open spec fn last_updated(v: PalletView, feed_id: FeedId) -> Moment {
    if v.timestamps.contains_key(feed_id) {
        v.timestamps[feed_id]
    } else {
        0
    }
}

/// The feed mapped to `currency_id`, if any.
pub open spec fn lookup(v: PalletView, currency_id: CurrencyId) -> Option<FeedId> {
    if v.mapping.contains_key(currency_id) {
        Some(v.mapping[currency_id])
    } else {
        None
    }
}

/// What mapping `feed_id` to `currency_id` returns: the origin check comes
/// first, then the currency must be unmapped, then the feed must exist.
pub open spec fn mapping_outcome(
    v: PalletView,
    authorized: bool,
    feeds: Map<FeedId, Option<FeedValue>>,
    feed_id: FeedId,
    currency_id: CurrencyId,
) -> Result<(), Error> {
    if !authorized {
        Err(Error::BadOrigin)
    } else if v.mapping.contains_key(currency_id) {
        Err(Error::CurrencyIdAlreadyMapping)
    } else if !feeds.contains_key(feed_id) {
        Err(Error::InvalidFeedId)
    } else {
        Ok(())
    }
}

/// The state after mapping `feed_id` to `currency_id`: on success the pair is
/// added and one event recorded; on failure nothing changes.
pub open spec fn after_mapping(
    v: PalletView,
    authorized: bool,
    feeds: Map<FeedId, Option<FeedValue>>,
    feed_id: FeedId,
    currency_id: CurrencyId,
) -> PalletView {
    if mapping_outcome(v, authorized, feeds, feed_id, currency_id) is Ok {
        PalletView {
            mapping: v.mapping.insert(currency_id, feed_id),
            timestamps: v.timestamps,
            events: v.events.push(Event::MappingFeedId(feed_id, currency_id)),
        }
    } else {
        v
    }
}

/// What removing the mapping of a currency returns: only the origin check can fail.
pub open spec fn unmapping_outcome(authorized: bool) -> Result<(), Error> {
    if authorized {
        Ok(())
    } else {
        Err(Error::BadOrigin)
    }
}

/// The state after removing the mapping of `currency_id`: where the caller is
/// authorized and the currency is mapped, the pair goes and one event is
/// recorded; otherwise nothing changes. Timestamps are never touched.
pub open spec fn after_unmapping(v: PalletView, authorized: bool, currency_id: CurrencyId) -> PalletView {
    if authorized && v.mapping.contains_key(currency_id) {
        PalletView {
            mapping: v.mapping.remove(currency_id),
            timestamps: v.timestamps,
            events: v.events.push(Event::UnmappingFeedId(v.mapping[currency_id], currency_id)),
        }
    } else {
        v
    }
}

/// The state after `feed_id` answered at moment `now`.
pub open spec fn after_answer(v: PalletView, feed_id: FeedId, now: Moment) -> PalletView {
    PalletView { mapping: v.mapping, timestamps: v.timestamps.insert(feed_id, now), events: v.events }
}

/// The native value that a price of `currency_id` is converted from: the latest
/// answer of its mapped feed. `None` where the currency is unmapped, or its
/// feed is unknown to the oracle or has produced no round.
pub open spec fn source_answer(
    v: PalletView,
    feeds: Map<FeedId, Option<FeedValue>>,
    currency_id: CurrencyId,
) -> Option<FeedValue> {
    if v.mapping.contains_key(currency_id) {
        latest_answer_of(feeds, v.mapping[currency_id])
    } else {
        None
    }
}

/// `r` is the price of `currency_id`: `None` where there is no native value,
/// otherwise what the converter returns on that value.
pub open spec fn price_resolves<C: Fn(FeedValue) -> Option<Price>>(
    v: PalletView,
    feeds: Map<FeedId, Option<FeedValue>>,
    convert: C,
    currency_id: CurrencyId,
    r: Option<Price>,
) -> bool {
    match source_answer(v, feeds, currency_id) {
        None => r is None,
        Some(answer) => call_ensures(convert, (answer,), r),
    }
}

/// `r` is the price of `currency_id` paired with the moment its feed last
/// answered; `None` exactly where there is no price.
pub open spec fn timestamped_resolves<C: Fn(FeedValue) -> Option<Price>>(
    v: PalletView,
    feeds: Map<FeedId, Option<FeedValue>>,
    convert: C,
    currency_id: CurrencyId,
    r: Option<TimestampedValue>,
) -> bool {
    match r {
        None => price_resolves(v, feeds, convert, currency_id, None),
        Some(tv) => {
            &&& price_resolves(v, feeds, convert, currency_id, Some(tv.value))
            &&& tv.timestamp == last_updated(v, v.mapping[currency_id])
        },
    }
}

/// Removing the entry at `i` from a sequence without duplicates keeps it
/// without duplicates and drops exactly the value that stood there.
proof fn lemma_remove_unique(s: Seq<CurrencyId>, i: int)
    requires
        s.no_duplicates(),
        0 <= i < s.len(),
    ensures
        s.remove(i).no_duplicates(),
        forall|x: CurrencyId| s.remove(i).contains(x) <==> (s.contains(x) && x != s[i]),
{
    let t = s.remove(i);
    assert forall|x: CurrencyId| t.contains(x) <==> (s.contains(x) && x != s[i]) by {
        if t.contains(x) {
            let j = choose|j: int| 0 <= j < t.len() && t[j] == x;
            if j < i {
                assert(s[j] == x);
            } else {
                assert(s[j + 1] == x);
            }
        }
        if s.contains(x) && x != s[i] {
            let j = choose|j: int| 0 <= j < s.len() && s[j] == x;
            if j < i {
                assert(t[j] == x);
            } else {
                assert(t[j - 1] == x);
            }
        }
    }
    assert forall|a: int, b: int| 0 <= a < t.len() && 0 <= b < t.len() && a != b implies t[a] != t[b] by {
        let a2 = if a < i { a } else { a + 1 };
        let b2 = if b < i { b } else { b + 1 };
        assert(t[a] == s[a2]);
        assert(t[b] == s[b2]);
    }
}

/// A sequence without duplicates whose values are exactly the members of
/// `d` has as many entries as `d` has members.
proof fn lemma_unique_len(s: Seq<CurrencyId>, d: Set<CurrencyId>)
    requires
        s.no_duplicates(),
        forall|c: CurrencyId| #[trigger] d.contains(c) <==> s.contains(c),
    ensures
        s.len() == d.len(),
{
    assert(s.to_set() =~= d);
    s.unique_seq_to_set();
}

/// The adaptor: the mapping from currencies to feeds, the moment each feed
/// last answered, and the events recorded.
pub struct Pallet {
    feed_id_mapping: HashMap<CurrencyId, FeedId>,
    mapped_currencies: Vec<CurrencyId>,
    last_updated_timestamp: HashMap<FeedId, Moment>,
    events: Vec<Event>,
}

impl View for Pallet {
    type V = PalletView;

    closed spec fn view(&self) -> PalletView {
        PalletView {
            mapping: self.feed_id_mapping@,
            timestamps: self.last_updated_timestamp@,
            events: self.events@,
        }
    }
}

impl Pallet {
    /// The mapped currencies are listed once each, in the order they were mapped.
    pub closed spec fn wf(&self) -> bool {
        &&& self.mapped_currencies@.no_duplicates()
        &&& forall|c: CurrencyId|
            #[trigger] self.feed_id_mapping@.contains_key(c) <==> self.mapped_currencies@.contains(c)
    }

    /// An adaptor with no mapping, no timestamp and no event.
    pub fn new() -> (r: Pallet)
        ensures
            r.wf(),
            r@.mapping == Map::<CurrencyId, FeedId>::empty(),
            r@.timestamps == Map::<FeedId, Moment>::empty(),
            r@.events == Seq::<Event>::empty(),
    {
        Pallet {
            feed_id_mapping: HashMap::new(),
            mapped_currencies: Vec::new(),
            last_updated_timestamp: HashMap::new(),
            events: Vec::new(),
        }
    }

    /// Maps `feed_id` to `currency_id`. `authorized` is the outcome of the
    /// registrar's origin check on the caller; `feeds` is the feed oracle.
    pub fn mapping_feed_id(
        &mut self,
        authorized: bool,
        feeds: &FeedOracle,
        feed_id: FeedId,
        currency_id: CurrencyId,
    ) -> (r: Result<(), Error>)
        requires
            old(self).wf(),
        ensures
            final(self).wf(),
            r == mapping_outcome(old(self)@, authorized, feeds@, feed_id, currency_id),
            final(self)@ == after_mapping(old(self)@, authorized, feeds@, feed_id, currency_id),
    {
        if !authorized {
            return Err(Error::BadOrigin);
        }
        if self.feed_id_mapping.contains_key(&currency_id) {
            return Err(Error::CurrencyIdAlreadyMapping);
        }
        if !feeds.feed_exists(feed_id) {
            return Err(Error::InvalidFeedId);
        }
        self.feed_id_mapping.insert(currency_id, feed_id);
        self.mapped_currencies.push(currency_id);
        self.events.push(Event::MappingFeedId(feed_id, currency_id));
        proof {
            let s = self.mapped_currencies@;
            assert forall|c: CurrencyId| s.contains(c) <==> (old(self).mapped_currencies@.contains(c) || c == currency_id) by {
                if s.contains(c) && c != currency_id {
                    let j = choose|j: int| 0 <= j < s.len() && s[j] == c;
                    assert(old(self).mapped_currencies@[j] == c);
                }
                if old(self).mapped_currencies@.contains(c) {
                    let j = choose|j: int| 0 <= j < old(self).mapped_currencies@.len() && old(self).mapped_currencies@[j] == c;
                    assert(s[j] == c);
                }
                if c == currency_id {
                    assert(s[s.len() - 1] == c);
                }
            }
        }
        Ok(())
    }

    /// Removes the mapping of `currency_id`, if it has one. `authorized` is the
    /// outcome of the registrar's origin check on the caller.
    pub fn unmapping_feed_id(&mut self, authorized: bool, currency_id: CurrencyId) -> (r: Result<(), Error>)
        requires
            old(self).wf(),
        ensures
            final(self).wf(),
            r == unmapping_outcome(authorized),
            final(self)@ == after_unmapping(old(self)@, authorized, currency_id),
    {
        if !authorized {
            return Err(Error::BadOrigin);
        }
        let removed = self.feed_id_mapping.remove(&currency_id);
        match removed {
            Some(feed_id) => {
                assert(self.mapped_currencies@.contains(currency_id));
                let mut i: usize = 0;
                while self.mapped_currencies[i] != currency_id
                    invariant
                        self.mapped_currencies == old(self).mapped_currencies,
                        0 <= i < self.mapped_currencies.len(),
                        self.mapped_currencies@.contains(currency_id),
                        forall|j: int| 0 <= j < i ==> self.mapped_currencies@[j] != currency_id,
                    decreases self.mapped_currencies.len() - i,
                {
                    i = i + 1;
                    proof {
                        if i == self.mapped_currencies.len() {
                            let j = choose|j: int|
                                0 <= j < self.mapped_currencies@.len() && self.mapped_currencies@[j] == currency_id;
                            assert(false);
                        }
                    }
                }
                proof {
                    lemma_remove_unique(self.mapped_currencies@, i as int);
                }
                self.mapped_currencies.remove(i);
                self.events.push(Event::UnmappingFeedId(feed_id, currency_id));
            },
            None => {
                assert(self.feed_id_mapping@ =~= old(self).feed_id_mapping@);
            },
        }
        Ok(())
    }

    /// Records that `feed_id` answered at moment `now`, the time source's
    /// current value; any earlier moment of that feed is overwritten.
    pub fn on_answer(&mut self, feed_id: FeedId, now: Moment)
        requires
            old(self).wf(),
        ensures
            final(self).wf(),
            final(self)@ == after_answer(old(self)@, feed_id, now),
            last_updated(final(self)@, feed_id) == now,
    {
        self.last_updated_timestamp.insert(feed_id, now);
    }

    /// The feed mapped to `currency_id`, if any.
    pub fn feed_id_mapping(&self, currency_id: CurrencyId) -> (r: Option<FeedId>)
        ensures
            r == lookup(self@, currency_id),
    {
        match self.feed_id_mapping.get(&currency_id) {
            Some(f) => Some(*f),
            None => None,
        }
    }

    /// Every current mapping as a (currency, feed) pair, one per mapped
    /// currency, in the order they were mapped.
    pub fn feed_id_mappings(&self) -> (r: Vec<(CurrencyId, FeedId)>)
        requires
            self.wf(),
        ensures
            r@.len() == self@.mapping.dom().len(),
            forall|i: int|
                0 <= i < r@.len() ==> #[trigger] lookup(self@, r@[i].0) == Some(r@[i].1),
            forall|c: CurrencyId| #[trigger]
                self@.mapping.contains_key(c) ==> exists|i: int| 0 <= i < r@.len() && r@[i].0 == c,
            forall|i: int, j: int| 0 <= i < j < r@.len() ==> r@[i].0 != r@[j].0,
    {
        let mut r: Vec<(CurrencyId, FeedId)> = Vec::new();
        let n = self.mapped_currencies.len();
        let mut i: usize = 0;
        while i < n
            invariant
                self.wf(),
                n == self.mapped_currencies@.len(),
                0 <= i <= n,
                r@.len() == i,
                forall|j: int| 0 <= j < i ==> #[trigger] r@[j].0 == self.mapped_currencies@[j],
                forall|j: int| 0 <= j < i ==> #[trigger] lookup(self@, r@[j].0) == Some(r@[j].1),
            decreases n - i,
        {
            let currency_id = self.mapped_currencies[i];
            let feed_id = *self.feed_id_mapping.get(&currency_id).unwrap();
            r.push((currency_id, feed_id));
            i = i + 1;
        }
        proof {
            let s = self.mapped_currencies@;
            assert forall|c: CurrencyId| #[trigger]
                self@.mapping.contains_key(c) implies exists|i: int| 0 <= i < r@.len() && r@[i].0 == c by {
                assert(s.contains(c));
                let j = choose|j: int| 0 <= j < s.len() && s[j] == c;
                assert(r@[j].0 == c);
            }
            lemma_unique_len(s, self@.mapping.dom());
        }
        r
    }

    /// The moment `feed_id` last answered; `0` if it never did.
    pub fn last_updated_timestamp(&self, feed_id: FeedId) -> (r: Moment)
        ensures
            r == last_updated(self@, feed_id),
    {
        match self.last_updated_timestamp.get(&feed_id) {
            Some(t) => *t,
            None => 0,
        }
    }

    /// The events recorded so far, oldest first.
    pub fn events(&self) -> (r: &Vec<Event>)
        ensures
            r@ == self@.events,
    {
        &self.events
    }

    fn get_price_from_chainlink_feed<C: Fn(FeedValue) -> Option<Price>>(
        &self,
        currency_id: CurrencyId,
        feeds: &FeedOracle,
        convert: &C,
    ) -> (r: Option<Price>)
        requires
            forall|a: FeedValue| call_requires(*convert, (a,)),
        ensures
            price_resolves(self@, feeds@, *convert, currency_id, r),
    {
        match self.feed_id_mapping(currency_id) {
            None => None,
            Some(feed_id) => match feeds.latest_answer(feed_id) {
                None => None,
                Some(answer) => convert(answer),
            },
        }
    }

    /// The price of `key`: the converter's result on the latest answer of the
    /// feed mapped to it; `None` where it is unmapped, its feed has no answer,
    /// or the conversion fails.
    pub fn get<C: Fn(FeedValue) -> Option<Price>>(&self, key: &CurrencyId, feeds: &FeedOracle, convert: &C) -> (r:
        Option<Price>)
        requires
            forall|a: FeedValue| call_requires(*convert, (a,)),
        ensures
            price_resolves(self@, feeds@, *convert, *key, r),
    {
        self.get_price_from_chainlink_feed(*key, feeds, convert)
    }

    /// The price of `key`, as `get` gives it, paired with the moment its feed
    /// last answered (`0` if it never did).
    pub fn get_no_op<C: Fn(FeedValue) -> Option<Price>>(
        &self,
        key: &CurrencyId,
        feeds: &FeedOracle,
        convert: &C,
    ) -> (r: Option<TimestampedValue>)
        requires
            forall|a: FeedValue| call_requires(*convert, (a,)),
        ensures
            timestamped_resolves(self@, feeds@, *convert, *key, r),
    {
        match self.get_price_from_chainlink_feed(*key, feeds, convert) {
            None => None,
            Some(price) => {
                let timestamp = match self.feed_id_mapping(*key) {
                    Some(feed_id) => self.last_updated_timestamp(feed_id),
                    None => 0,
                };
                Some(TimestampedValue { value: price, timestamp })
            },
        }
    }

    /// One entry per mapped currency, in the order they were mapped, each
    /// with its timestamped price as `get_no_op` gives it; a currency without
    /// a price is listed with `None`.
    pub fn get_all_values<C: Fn(FeedValue) -> Option<Price>>(&self, feeds: &FeedOracle, convert: &C) -> (r: Vec<
        (CurrencyId, Option<TimestampedValue>),
    >)
        requires
            self.wf(),
            forall|a: FeedValue| call_requires(*convert, (a,)),
        ensures
            r@.len() == self@.mapping.dom().len(),
            forall|i: int| 0 <= i < r@.len() ==> self@.mapping.contains_key(#[trigger] r@[i].0),
            forall|c: CurrencyId| #[trigger]
                self@.mapping.contains_key(c) ==> exists|i: int| 0 <= i < r@.len() && r@[i].0 == c,
            forall|i: int, j: int| 0 <= i < j < r@.len() ==> r@[i].0 != r@[j].0,
            forall|i: int|
                0 <= i < r@.len() ==> timestamped_resolves(self@, feeds@, *convert, r@[i].0, #[trigger] r@[i].1),
    {
        let mut r: Vec<(CurrencyId, Option<TimestampedValue>)> = Vec::new();
        let n = self.mapped_currencies.len();
        let mut i: usize = 0;
        while i < n
            invariant
                self.wf(),
                n == self.mapped_currencies@.len(),
                forall|a: FeedValue| call_requires(*convert, (a,)),
                0 <= i <= n,
                r@.len() == i,
                forall|j: int| 0 <= j < i ==> #[trigger] r@[j].0 == self.mapped_currencies@[j],
                forall|j: int|
                    0 <= j < i ==> timestamped_resolves(self@, feeds@, *convert, r@[j].0, #[trigger] r@[j].1),
            decreases n - i,
        {
            let currency_id = self.mapped_currencies[i];
            let value = self.get_no_op(&currency_id, feeds, convert);
            r.push((currency_id, value));
            i = i + 1;
        }
        proof {
            let s = self.mapped_currencies@;
            assert forall|c: CurrencyId| #[trigger]
                self@.mapping.contains_key(c) implies exists|i: int| 0 <= i < r@.len() && r@[i].0 == c by {
                assert(s.contains(c));
                let j = choose|j: int| 0 <= j < s.len() && s[j] == c;
                assert(r@[j].0 == c);
            }
            assert forall|j: int| 0 <= j < r@.len() implies self@.mapping.contains_key(#[trigger] r@[j].0) by {
                assert(s.contains(s[j]));
            }
            lemma_unique_len(s, self@.mapping.dom());
        }
        r
    }
}

} // verus!
