use chainlink_adaptor::{Error, Event, FeedOracle, FeedValue, Pallet, Price, TimestampedValue};

const USD_PEG: u32 = 1;
const DOT: u32 = 2;
const ONE: Price = 1_000_000_000_000_000_000;

// A feed answers with 6 decimals; a price has 18.
fn six_decimals(v: FeedValue) -> Option<Price> {
    if v < 0 {
        None
    } else {
        (v as u128).checked_mul(1_000_000_000_000)
    }
}

fn oracle_with(feeds: &[(u32, Option<FeedValue>)]) -> FeedOracle {
    let mut o = FeedOracle::new();
    for (id, latest) in feeds {
        o.set_feed(*id, *latest);
    }
    o
}

#[test]
fn unmapped_currency_has_no_price() {
    let p = Pallet::new();
    let feeds = oracle_with(&[(7, Some(100_000))]);
    assert_eq!(p.get(&USD_PEG, &feeds, &six_decimals), None);
    assert_eq!(p.get_no_op(&USD_PEG, &feeds, &six_decimals), None);
    assert_eq!(p.feed_id_mapping(USD_PEG), None);
}

#[test]
fn map_known_feed_succeeds() {
    let mut p = Pallet::new();
    let feeds = oracle_with(&[(7, None)]);
    assert_eq!(p.mapping_feed_id(true, &feeds, 7, USD_PEG), Ok(()));
    assert_eq!(p.feed_id_mapping(USD_PEG), Some(7));
    assert_eq!(p.events().clone(), vec![Event::MappingFeedId(7, USD_PEG)]);
}

#[test]
fn map_twice_fails_already_mapped() {
    let mut p = Pallet::new();
    let feeds = oracle_with(&[(7, None), (8, None)]);
    assert_eq!(p.mapping_feed_id(true, &feeds, 7, USD_PEG), Ok(()));
    assert_eq!(p.mapping_feed_id(true, &feeds, 8, USD_PEG), Err(Error::CurrencyIdAlreadyMapping));
    assert_eq!(p.mapping_feed_id(true, &feeds, 7, USD_PEG), Err(Error::CurrencyIdAlreadyMapping));
    assert_eq!(p.feed_id_mapping(USD_PEG), Some(7));
    assert_eq!(p.events().len(), 1);
}

#[test]
fn map_unknown_feed_fails() {
    let mut p = Pallet::new();
    let feeds = oracle_with(&[(7, None)]);
    assert_eq!(p.mapping_feed_id(true, &feeds, 9, USD_PEG), Err(Error::InvalidFeedId));
    assert_eq!(p.feed_id_mapping(USD_PEG), None);
    assert!(p.events().is_empty());
}

#[test]
fn unmap_unmapped_is_noop() {
    let mut p = Pallet::new();
    let feeds = oracle_with(&[(7, None)]);
    assert_eq!(p.mapping_feed_id(true, &feeds, 7, DOT), Ok(()));
    assert_eq!(p.unmapping_feed_id(true, USD_PEG), Ok(()));
    assert_eq!(p.feed_id_mapping(DOT), Some(7));
    assert_eq!(p.events().len(), 1);
}

#[test]
fn unmap_keeps_last_updated() {
    let mut p = Pallet::new();
    let feeds = oracle_with(&[(7, Some(100_000))]);
    p.on_answer(7, 42);
    assert_eq!(p.mapping_feed_id(true, &feeds, 7, USD_PEG), Ok(()));
    assert_eq!(p.unmapping_feed_id(true, USD_PEG), Ok(()));
    assert_eq!(p.feed_id_mapping(USD_PEG), None);
    assert_eq!(p.last_updated_timestamp(7), 42);
    assert_eq!(
        p.events().clone(),
        vec![Event::MappingFeedId(7, USD_PEG), Event::UnmappingFeedId(7, USD_PEG)]
    );
    assert_eq!(p.get(&USD_PEG, &feeds, &six_decimals), None);
}

#[test]
fn on_answer_records_current_moment() {
    let mut p = Pallet::new();
    assert_eq!(p.last_updated_timestamp(7), 0);
    p.on_answer(7, 10);
    assert_eq!(p.last_updated_timestamp(7), 10);
    p.on_answer(7, 10);
    assert_eq!(p.last_updated_timestamp(7), 10);
    p.on_answer(7, 25);
    assert_eq!(p.last_updated_timestamp(7), 25);
    assert_eq!(p.last_updated_timestamp(8), 0);
}

#[test]
fn unauthorized_caller_is_refused() {
    let mut p = Pallet::new();
    let feeds = oracle_with(&[(7, None)]);
    assert_eq!(p.mapping_feed_id(false, &feeds, 7, USD_PEG), Err(Error::BadOrigin));
    assert_eq!(p.feed_id_mapping(USD_PEG), None);
    assert_eq!(p.mapping_feed_id(true, &feeds, 7, USD_PEG), Ok(()));
    assert_eq!(p.unmapping_feed_id(false, USD_PEG), Err(Error::BadOrigin));
    assert_eq!(p.feed_id_mapping(USD_PEG), Some(7));
    assert_eq!(p.events().len(), 1);
}

#[test]
fn get_all_lists_every_mapping() {
    let mut p = Pallet::new();
    let feeds = oracle_with(&[(7, Some(100_000)), (8, None), (9, Some(-5))]);
    assert_eq!(p.mapping_feed_id(true, &feeds, 7, USD_PEG), Ok(()));
    assert_eq!(p.mapping_feed_id(true, &feeds, 8, DOT), Ok(()));
    assert_eq!(p.mapping_feed_id(true, &feeds, 9, 3), Ok(()));
    p.on_answer(7, 5);
    let mut all = p.get_all_values(&feeds, &six_decimals);
    all.sort_by_key(|e| e.0);
    assert_eq!(
        all,
        vec![
            (USD_PEG, Some(TimestampedValue { value: 100_000_000_000_000_000, timestamp: 5 })),
            (DOT, None),
            (3, None),
        ]
    );
}

#[test]
fn get_all_on_empty_registry() {
    let p = Pallet::new();
    let feeds = oracle_with(&[(7, Some(1))]);
    assert!(p.get_all_values(&feeds, &six_decimals).is_empty());
}

#[test]
fn price_without_answer_moment_defaults_to_zero() {
    let mut p = Pallet::new();
    let feeds = oracle_with(&[(7, Some(2_500_000))]);
    assert_eq!(p.mapping_feed_id(true, &feeds, 7, DOT), Ok(()));
    assert_eq!(p.get(&DOT, &feeds, &six_decimals), Some(5 * ONE / 2));
    assert_eq!(
        p.get_no_op(&DOT, &feeds, &six_decimals),
        Some(TimestampedValue { value: 5 * ONE / 2, timestamp: 0 })
    );
}

#[test]
fn feed_gone_from_oracle_gives_no_price() {
    let mut p = Pallet::new();
    let feeds = oracle_with(&[(7, Some(100_000))]);
    assert_eq!(p.mapping_feed_id(true, &feeds, 7, DOT), Ok(()));
    let empty = FeedOracle::new();
    assert_eq!(p.get(&DOT, &empty, &six_decimals), None);
    assert!(!empty.feed_exists(7));
    assert!(feeds.feed_exists(7));
    assert_eq!(feeds.latest_answer(7), Some(100_000));
    assert_eq!(empty.latest_answer(7), None);
}

#[test]
fn usd_peg_end_to_end() {
    let mut p = Pallet::new();
    let mut feeds = FeedOracle::new();
    feeds.set_feed(7, None);
    assert_eq!(p.mapping_feed_id(true, &feeds, 7, USD_PEG), Ok(()));
    feeds.set_feed(7, Some(100_000));
    let t = 1_700_000_000_000u64;
    p.on_answer(7, t);
    // the converter of this deployment reads 100_000 as 1.00
    let peg = |v: FeedValue| if v == 100_000 { Some(ONE) } else { None };
    assert_eq!(p.get(&USD_PEG, &feeds, &peg), Some(ONE));
    assert_eq!(p.get_no_op(&USD_PEG, &feeds, &peg), Some(TimestampedValue { value: ONE, timestamp: t }));
}

#[test]
fn feed_id_mappings_lists_current_pairs() {
    let mut p = Pallet::new();
    let feeds = oracle_with(&[(7, None), (8, None)]);
    assert!(p.feed_id_mappings().is_empty());
    assert_eq!(p.mapping_feed_id(true, &feeds, 7, USD_PEG), Ok(()));
    assert_eq!(p.mapping_feed_id(true, &feeds, 8, DOT), Ok(()));
    assert_eq!(p.mapping_feed_id(true, &feeds, 8, 3), Ok(()));
    assert_eq!(p.unmapping_feed_id(true, DOT), Ok(()));
    let mut pairs = p.feed_id_mappings();
    pairs.sort();
    assert_eq!(pairs, vec![(USD_PEG, 7), (3, 8)]);
}
