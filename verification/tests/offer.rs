use snap_marketplace::offer::{resolve_window, OfferTerms};

const OPEN: OfferTerms = OfferTerms {
    valid_from: 0,
    expires_at: 0,
    max_bandwidth: 10_000,
    min_bandwidth: 0,
    min_duration: 0,
    bw_granularity: 0,
    time_granularity: 0,
};

#[test]
fn windows_that_are_left_open_last_an_hour_from_now() {
    assert_eq!(resolve_window(0, 0, 500), (500, 4_100));
    assert_eq!(resolve_window(7, 0, 500), (7, 4_100));
    assert_eq!(resolve_window(7, 9, 500), (7, 9));
    assert_eq!(resolve_window(0, 9, u64::MAX), (u64::MAX, 9));
}

#[test]
fn minima_and_granularities_that_are_left_open_are_a_tenth() {
    assert!(OPEN.is_resolvable(1_000_000));
    assert_eq!(
        OPEN.resolve(1_000_000),
        OfferTerms {
            valid_from: 1_000_000,
            expires_at: 4_600_000,
            max_bandwidth: 10_000,
            min_bandwidth: 1_000,
            min_duration: 360_000,
            bw_granularity: 1_000,
            time_granularity: 360_000,
        }
    );
}

#[test]
fn terms_that_are_stated_stay() {
    let stated = OfferTerms {
        valid_from: 5_000,
        expires_at: 65_500,
        max_bandwidth: 20_000,
        min_bandwidth: 3_000,
        min_duration: 4_000,
        bw_granularity: 1_500,
        time_granularity: 2_999,
    };
    assert_eq!(stated.resolve(1), stated);
    assert_eq!(
        stated.in_listing_units(),
        OfferTerms {
            valid_from: 5,
            expires_at: 65,
            max_bandwidth: 20,
            min_bandwidth: 3,
            min_duration: 4,
            bw_granularity: 1,
            time_granularity: 2,
        }
    );
}

#[test]
fn offers_that_end_before_they_start_cannot_be_resolved() {
    assert!(!OfferTerms { valid_from: 10, expires_at: 9, ..OPEN }.is_resolvable(0));
    assert!(OfferTerms { valid_from: 10, expires_at: 10, ..OPEN }.is_resolvable(0));
    assert!(!OPEN.is_resolvable(u64::MAX - 3_599_999));
    assert!(OPEN.is_resolvable(u64::MAX - 3_600_000));
}

#[test]
fn nothing_that_is_stated_becomes_zero_in_listing_units() {
    let small = OfferTerms {
        valid_from: 5_000,
        expires_at: 9_999,
        max_bandwidth: 999,
        min_bandwidth: 1,
        min_duration: 500,
        bw_granularity: 999,
        time_granularity: 999,
    };
    assert_eq!(
        small.in_listing_units(),
        OfferTerms {
            valid_from: 5,
            expires_at: 9,
            max_bandwidth: 1,
            min_bandwidth: 1,
            min_duration: 1,
            bw_granularity: 1,
            time_granularity: 1,
        }
    );
    let open = OfferTerms { max_bandwidth: 0, ..OPEN };
    assert_eq!(open.in_listing_units(), open);
}
