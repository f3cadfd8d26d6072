use snap_marketplace::address::address_text;
use snap_marketplace::error::MarketError;
use snap_marketplace::listings::{FetchFailure, ListingRow};
use snap_marketplace::models::{AccessToken, ServiceListing};
use snap_marketplace::offer::OfferTerms;
use snap_marketplace::reports::{
    bandwidth_text, creating_listing, listing_created, listings_table, marketplace_created,
    redeeming, search_table, token_minted, token_redeemed,
};
use sui_sdk_types::Address;

fn row(id: u8, bandwidth: u64) -> ListingRow {
    ListingRow {
        id: [id; 32],
        listing: ServiceListing {
            id: [id; 32],
            issuer: [2; 32],
            name: "relay".to_string(),
            ip_address: "10.0.0.1:80".to_string(),
            price_mist: 10,
            is_active: true,
            min_bandwidth: 1,
            min_duration: 1,
            bw_granularity: 1,
            time_granularity: 1,
            token: AccessToken {
                id: [3; 32],
                listing_id: [id; 32],
                service_name: "relay".to_string(),
                ip_address: "10.0.0.1:80".to_string(),
                valid_from: 100,
                expires_at: 200,
                bandwidth,
                issuer: [2; 32],
            },
        },
    }
}

const TERMS: OfferTerms = OfferTerms {
    valid_from: 1,
    expires_at: 2,
    max_bandwidth: 3,
    min_bandwidth: 4,
    min_duration: 5,
    bw_granularity: 6,
    time_granularity: 7,
};

#[test]
fn bandwidths_without_a_bound() {
    assert_eq!(bandwidth_text(0), "unlimited");
    assert_eq!(bandwidth_text(25), "25 kB/s");
}

#[test]
fn the_table_of_all_listings() {
    let prices = vec![format!("{:>10.4}", 0.5f64), format!("{:>10.4}", 12.0f64)];
    let lines = listings_table(3, &vec![row(1, 0), row(2, 25)], &prices);
    let expected = vec![
        format!("{:<68}  {:>10}  {}", "Listing ID", "Price SUI", "Name"),
        "─".repeat(100),
        format!(
            "{:<68}  {:>10.4}  relay  (expires: 200 s, bw: unlimited)",
            Address::new([1; 32]),
            0.5
        ),
        format!(
            "{:<68}  {:>10.4}  relay  (expires: 200 s, bw: 25 kB/s)",
            Address::new([2; 32]),
            12.0
        ),
        "\n2 listing(s) shown.".to_string(),
    ];
    assert_eq!(lines, expected);
    assert_eq!(listings_table(0, &vec![], &vec![]), vec!["No listings found."]);
    assert_eq!(listings_table(2, &vec![], &vec![])[2], "\n0 listing(s) shown.");
}

#[test]
fn the_table_of_a_search() {
    let prices = vec![format!("{:>10.4}", 0.25f64)];
    let lines = search_table(9, &vec![row(1, 25)], &prices);
    let expected = vec![
        format!("{:<68}  {:>10}  {:<22}  {}", "Listing ID", "Price SUI", "IP", "Name"),
        "─".repeat(120),
        format!(
            "{:<68}  {:>10.4}  {:<22}  {}  (from: {} s, until: {} s, bw: 25 kB/s)",
            Address::new([1; 32]),
            0.25,
            "10.0.0.1:80",
            "relay",
            100,
            200
        ),
        "\n1 listing(s) found.".to_string(),
    ];
    assert_eq!(lines, expected);
    assert_eq!(search_table(0, &vec![], &vec![]), vec!["No listings found."]);
    assert_eq!(search_table(1, &vec![], &vec![]), vec!["No listings match the given filters."]);
}

#[test]
fn warnings_tell_of_listings_that_could_not_be_read() {
    let failure = FetchFailure { id: [1; 32], error: MarketError::ObjectNotFound };
    assert_eq!(
        failure.warning(),
        format!("Warning: cannot fetch listing {}: Object not found", address_text(&[1; 32]))
    );
    assert_eq!(failure.search_warning(), "Warning: Object not found");
}

#[test]
fn what_is_told_of_new_objects() {
    let id = address_text(&[1; 32]);
    assert_eq!(
        marketplace_created("0x2::sui::SUI", &[1; 32]),
        vec![
            "Marketplace created!".to_string(),
            "  Coin type:      0x2::sui::SUI".to_string(),
            format!("  Marketplace ID: {id}"),
            format!("  Set marketplace_id = \"{id}\" in market-config.toml"),
        ]
    );
    assert_eq!(
        listing_created(&[1; 32], "0.5", &TERMS),
        vec![
            "Listing created!".to_string(),
            format!("  Listing:        {id}"),
            "  Price:          0.5 SUI".to_string(),
            "  Valid from:     1 s".to_string(),
            "  Expires at:     2 s".to_string(),
            "  Max BW:         3 kB/s".to_string(),
            "  Min BW:         4 kB/s".to_string(),
            "  Min duration:   5 s".to_string(),
            "  BW granularity: 6 kB/s".to_string(),
            "  Time gran.:     7 s".to_string(),
        ]
    );
    assert_eq!(
        creating_listing("relay", "10.0.0.1:80", &TERMS),
        "Creating listing 'relay' at 10.0.0.1:80 (3 bps, 1 → 2)"
    );
}

#[test]
fn what_is_told_of_tokens() {
    let id = address_text(&[1; 32]);
    assert_eq!(
        token_minted("0x9", &[1; 32]),
        vec![
            "Access token minted!".to_string(),
            "  Listing:  0x9".to_string(),
            format!("  Token ID: {id}"),
        ]
    );
    assert_eq!(redeeming("relay"), "Redeeming token for 'relay'…");
    assert_eq!(
        token_redeemed("relay"),
        vec![
            "Token redeemed! TokenRedeemed event emitted on-chain.",
            "  Service: relay",
        ]
    );
}
