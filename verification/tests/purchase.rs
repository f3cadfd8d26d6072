use snap_marketplace::models::{AccessToken, ServiceListing};
use snap_marketplace::purchase::{resolve_purchase, resolve_purchase_or_zero, PurchaseTerms};

fn listing(time_granularity: u64, bw_granularity: u64) -> ServiceListing {
    ServiceListing {
        id: [1; 32],
        issuer: [2; 32],
        name: "relay".to_string(),
        ip_address: "10.0.0.1:80".to_string(),
        price_mist: 10,
        is_active: true,
        min_bandwidth: 1,
        min_duration: 1,
        bw_granularity,
        time_granularity,
        token: AccessToken {
            id: [3; 32],
            listing_id: [1; 32],
            service_name: "relay".to_string(),
            ip_address: "10.0.0.1:80".to_string(),
            valid_from: 1_000,
            expires_at: 5_000,
            bandwidth: 777,
            issuer: [2; 32],
        },
    }
}

#[test]
fn what_is_left_open_is_filled_in_from_the_listing() {
    let terms = resolve_purchase(&listing(0, 0), None, None, 0, 2_000);
    assert_eq!(terms, PurchaseTerms { start: 2_000, end: 5_000, bandwidth: 777 });
}

#[test]
fn durations_and_bandwidths_are_aligned_down() {
    let terms = resolve_purchase(&listing(700, 100), Some(1_500), Some(4_000), 250, 0);
    assert_eq!(terms, PurchaseTerms { start: 1_500, end: 3_600, bandwidth: 200 });
    let listed = listing(700, 100);
    assert!(terms.check().is_ok());
    assert!(terms.check_alignment(&listed).is_ok());
    assert_eq!(
        resolve_purchase(&listed, Some(terms.start), Some(terms.end), terms.bandwidth, 9),
        terms
    );
}

#[test]
fn an_end_before_the_start_leaves_no_duration() {
    let terms = resolve_purchase(&listing(10, 0), Some(6_000), None, 5, 0);
    assert_eq!(terms, PurchaseTerms { start: 6_000, end: 6_000, bandwidth: 5 });
    assert_eq!(terms.check().unwrap_err().message(), "end must be greater than start");
    let open = resolve_purchase(&listing(0, 0), Some(6_000), None, 5, 0);
    assert_eq!(open.end, 5_000);
}

#[test]
fn zeros_are_what_is_left_open() {
    let listed = listing(60, 10);
    assert_eq!(
        resolve_purchase_or_zero(&listed, 0, 0, 0, 2_000),
        resolve_purchase(&listed, None, None, 0, 2_000)
    );
    assert_eq!(
        resolve_purchase_or_zero(&listed, 1_100, 1_999, 55, 2_000),
        PurchaseTerms { start: 1_100, end: 1_940, bandwidth: 50 }
    );
}

#[test]
fn terms_that_are_none_are_refused() {
    let message = |start, end, bandwidth| {
        PurchaseTerms { start, end, bandwidth }.check().unwrap_err().message()
    };
    assert_eq!(
        message(0, 0, 0),
        "start must be non-zero; resolve to current time before calling buy_listing"
    );
    assert_eq!(message(5, 5, 0), "end must be greater than start");
    assert_eq!(
        message(5, 6, 0),
        "bandwidth must be non-zero; resolve to seller's bound before calling buy_listing"
    );
    assert!(PurchaseTerms { start: 5, end: 6, bandwidth: 1 }.check().is_ok());
}

#[test]
fn unaligned_terms_are_refused_with_the_nearest_ones() {
    let listed = listing(60, 10);
    let terms = PurchaseTerms { start: 100, end: 250, bandwidth: 25 };
    assert_eq!(
        terms.check_alignment(&listed).unwrap_err().message(),
        "duration 150 s is not aligned to listing time_granularity 60 s (nearest lower end: 220)"
    );
    let terms = PurchaseTerms { end: 220, ..terms };
    assert_eq!(
        terms.check_alignment(&listed).unwrap_err().message(),
        "bandwidth 25 kB/s is not aligned to listing bw_granularity 10 kB/s (nearest lower value: 20)"
    );
    assert!(PurchaseTerms { bandwidth: 20, ..terms }.check_alignment(&listed).is_ok());
}
