use chrono::TimeZone;
use chrono::Utc;
use rust_decimal::prelude::FromPrimitive;
use rust_decimal::Decimal;
use shogun::fetch::events_from_entries;
use shogun::fetch::request_params;
use shogun::ident::address_of_identifier;
use shogun::ident::chain_slug;
use shogun::ident::identifier_of;
use shogun::Asset;
use shogun::AssetPriceProvider;
use shogun::AssetTable;
use shogun::Chain;
use shogun::DefiLlamaProvider;
use shogun::FetchWarning;
use shogun::Price;
use shogun::PriceEntry;

fn weth() -> Asset {
    Asset::new(
        String::from("0xabc"),
        String::from("WETH"),
        Chain::Evm(1),
        None,
        18,
    )
}

fn price_from_f64(v: f64) -> Option<Price> {
    let d = Decimal::from_f64(v)?;
    Price::new(d.mantissa(), d.scale())
}

#[test]
fn empty_table_short_circuits_fetch() {
    let table = AssetTable::new();
    assert!(request_params(&table).is_none());

    let provider = DefiLlamaProvider::new(30);
    assert!(provider.fetch_request().is_none());
}

#[test]
fn nonempty_table_builds_joined_request() {
    let mut table = AssetTable::new();
    table.add_asset(weth());
    table.add_asset(Asset::new(
        String::from("So1111"),
        String::from("TRUMP"),
        Chain::Svm(1),
        Some(String::from("Trump Coin")),
        6,
    ));
    let params = request_params(&table).unwrap();
    assert_eq!(params, "ethereum:0xabc,solana:So1111");
}

#[test]
fn identifier_encoding_and_decoding() {
    assert_eq!(chain_slug(&Chain::Evm(1)), "ethereum");
    assert_eq!(chain_slug(&Chain::Svm(101)), "solana");
    let id = identifier_of(&Chain::Evm(1), "0xabc");
    assert_eq!(id, "ethereum:0xabc");
    assert_eq!(address_of_identifier(&id).unwrap(), "0xabc");
    // The suffix after the last separator is the address.
    assert_eq!(address_of_identifier("a:b:c").unwrap(), "c");
    // No separator at all: malformed.
    assert!(address_of_identifier("0xabc").is_none());
    assert!(address_of_identifier("").is_none());
}

#[test]
fn end_to_end_single_event() {
    let mut table = AssetTable::new();
    table.add_asset(weth());

    let entries = vec![PriceEntry {
        identifier: String::from("ethereum:0xabc"),
        price: price_from_f64(2500.5),
        timestamp: 1700000000,
    }];
    let (events, warnings) = events_from_entries(&table, entries);
    assert_eq!(warnings.len(), 0);
    assert_eq!(events.len(), 1);
    let e = &events[0];
    assert_eq!(e.provider, AssetPriceProvider::DeFiLlama);
    assert_eq!(e.asset.address, "0xabc");
    assert_eq!(e.asset.symbol, "WETH");
    assert!(matches!(e.asset.chain, Chain::Evm(1)));
    assert_eq!(e.asset.decimals, 18);
    let decimal = Decimal::from_i128_with_scale(e.price.mantissa, e.price.scale);
    assert_eq!(decimal, Decimal::from_f64(2500.5).unwrap());
    assert_eq!(e.fetched_at, 1700000000);
    let stamp = Utc.timestamp_opt(e.fetched_at as i64, 0).unwrap().to_rfc3339();
    assert!(stamp.starts_with("2023-11-14T22:13:20"));
}

#[test]
fn unknown_address_is_dropped_with_warning() {
    let mut table = AssetTable::new();
    table.add_asset(weth());

    let entries = vec![PriceEntry {
        identifier: String::from("ethereum:0xnever"),
        price: price_from_f64(1.0),
        timestamp: 1700000000,
    }];
    let (events, warnings) = events_from_entries(&table, entries);
    assert_eq!(events.len(), 0);
    assert_eq!(warnings.len(), 1);
    match &warnings[0] {
        FetchWarning::UnknownAsset(addr) => assert_eq!(addr, "0xnever"),
        other => panic!("wrong warning: {:?}", other),
    }
}

#[test]
fn malformed_identifier_is_dropped_with_warning() {
    let mut table = AssetTable::new();
    table.add_asset(weth());

    let entries = vec![PriceEntry {
        identifier: String::from("no-separator"),
        price: price_from_f64(1.0),
        timestamp: 1,
    }];
    let (events, warnings) = events_from_entries(&table, entries);
    assert_eq!(events.len(), 0);
    assert_eq!(warnings.len(), 1);
    match &warnings[0] {
        FetchWarning::MalformedIdentifier(id) => assert_eq!(id, "no-separator"),
        other => panic!("wrong warning: {:?}", other),
    }
}

#[test]
fn removal_respects_snapshot_semantics() {
    let mut provider = DefiLlamaProvider::new(30);
    provider.add_asset(weth());

    // The cycle's snapshot is taken before the removal.
    let snapshot = provider.snapshot();
    provider.remove_asset("0xabc");

    let entries = vec![PriceEntry {
        identifier: String::from("ethereum:0xabc"),
        price: price_from_f64(2.0),
        timestamp: 5,
    }];
    // The in-flight cycle still publishes the event for the removed asset.
    let (events, warnings) = events_from_entries(&snapshot, entries);
    assert_eq!(events.len(), 1);
    assert_eq!(events[0].asset.address, "0xabc");
    assert_eq!(warnings.len(), 0);

    // The next cycle's snapshot no longer knows the asset: no event.
    let next_snapshot = provider.snapshot();
    let entries = vec![PriceEntry {
        identifier: String::from("ethereum:0xabc"),
        price: price_from_f64(2.0),
        timestamp: 6,
    }];
    let (events, warnings) = events_from_entries(&next_snapshot, entries);
    assert_eq!(events.len(), 0);
    assert_eq!(warnings.len(), 1);
    // And with the table empty again, no request goes out at all.
    assert!(provider.fetch_request().is_none());
}

#[test]
fn failed_price_conversion_falls_back_to_zero() {
    let mut table = AssetTable::new();
    table.add_asset(weth());

    let entries = vec![PriceEntry {
        identifier: String::from("ethereum:0xabc"),
        price: price_from_f64(f64::NAN),
        timestamp: 9,
    }];
    let (events, _) = events_from_entries(&table, entries);
    assert_eq!(events.len(), 1);
    assert_eq!(events[0].price, Price::zero());
}

#[test]
fn duplicate_address_last_write_wins() {
    let mut table = AssetTable::new();
    table.add_asset(weth());
    table.add_asset(Asset::new(
        String::from("0xabc"),
        String::from("WETH2"),
        Chain::Evm(1),
        None,
        8,
    ));
    assert_eq!(table.len(), 1);
    let found = table.lookup("0xabc").unwrap();
    assert_eq!(found.symbol, "WETH2");
    assert_eq!(found.decimals, 8);

    table.remove_asset("0xabc");
    assert!(table.lookup("0xabc").is_none());
    assert!(table.is_empty());
}
