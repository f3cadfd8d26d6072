use snap_marketplace::listings::{
    all_listings, limit_ids, listing_host, read_listing_ip, Fetched, Listings, SearchFilter,
};
use snap_marketplace::marketplace::MarketplaceClient;
use snap_marketplace::network::IpAddress;
use snap_marketplace::objects::{BcsValue, ObjectRecord, ObjectReply};
use snap_marketplace::reports::search_table;

fn fetched(id: u8, price: u64, ip: &str, from: u64, until: u64, bandwidth: u64) -> Fetched {
    let mut bytes = bcs::to_bytes(&(
        [id; 32], [2u8; 32], "relay", ip, price, true, 1u64, 1u64, 1u64, 1u64,
    ))
    .unwrap();
    bytes.extend(
        bcs::to_bytes(&([id; 32], [id; 32], "relay", ip, from, until, bandwidth, [2u8; 32]))
            .unwrap(),
    );
    let contents = Some(BcsValue { value: Some(bytes) });
    Fetched { id: [id; 32], reply: ObjectReply::Answered(Some(ObjectRecord { contents })) }
}

fn market() -> Vec<Fetched> {
    vec![
        fetched(1, 30, "10.1.0.1:80", 100, 900, 50),
        fetched(2, 10, "10.2.0.1:80", 200, 800, 60),
        Fetched { id: [3; 32], reply: ObjectReply::Failed },
        fetched(4, 10, "relay.example:80", 300, 700, 70),
        fetched(5, 20, "2001:db8::1", 400, 600, 80),
        Fetched { id: [6; 32], reply: ObjectReply::Answered(None) },
    ]
}

fn shown(listings: &Listings) -> Vec<u8> {
    listings.rows.iter().map(|row| row.id[0]).collect()
}

fn found(subnet: &str, min_bandwidth: u64, start: u64, end: u64) -> Vec<u8> {
    let filter = SearchFilter::new(subnet, min_bandwidth, start, end).unwrap();
    let listings = MarketplaceClient::search_listings(&filter, &market());
    assert_eq!(listings.failures.len(), 2);
    shown(&listings)
}

#[test]
fn listings_are_ordered_by_price() {
    let listings = all_listings(&market());
    assert_eq!(shown(&listings), vec![2, 4, 5, 1]);
    assert_eq!(shown(&MarketplaceClient::get_listings(&market())), vec![2, 4, 5, 1]);
}

#[test]
fn listings_that_could_not_be_read_are_told_of() {
    let listings = all_listings(&market());
    assert_eq!(listings.failures.len(), 2);
    assert_eq!(listings.rows.len() + listings.failures.len(), market().len());
    assert_eq!(listings.failures[0].id, [3; 32]);
    assert_eq!(listings.failures[0].error.message(), "get_object RPC failed");
    assert_eq!(listings.failures[1].id, [6; 32]);
    assert_eq!(listings.failures[1].error.message(), "Object not found");
}

#[test]
fn listings_of_one_price_keep_their_order() {
    let many: Vec<Fetched> =
        (0..9u8).map(|i| fetched(i, (i % 3) as u64, "10.0.0.1", 1, 2, 3)).collect();
    assert_eq!(shown(&all_listings(&many)), vec![0, 3, 6, 1, 4, 7, 2, 5, 8]);
}

#[test]
fn searches_by_subnet_pass_host_names() {
    assert_eq!(found("0.0.0.0/0", 0, 0, 0), vec![2, 4, 1]);
    assert_eq!(found("10.1.0.0/16", 0, 0, 0), vec![4, 1]);
    assert_eq!(found("192.168.0.0/16", 0, 0, 0), vec![4]);
    assert_eq!(found("::/0", 0, 0, 0), vec![4, 5]);
}

#[test]
fn addresses_are_searched_with_and_without_a_port() {
    let kept = |ip: &str, subnet: &str| {
        let filter = SearchFilter::new(subnet, 0, 0, 0).unwrap();
        let listings =
            MarketplaceClient::search_listings(&filter, &vec![fetched(1, 1, ip, 1, 2, 3)]);
        !listings.rows.is_empty()
    };
    for ip in ["2001:db8::5", "[2001:db8::5]:80", "[2001:db8::5]", "2001:db8::1:5"] {
        assert!(!kept(ip, "10.0.0.0/8"));
        assert!(!kept(ip, "2001:db9::/32"));
        assert!(kept(ip, "2001:db8::/32"));
    }
    assert!(kept("2001:db8::1:5", "2001:db8::1/128"));
    assert!(!kept("2001:db8::1:5", "2001:db8::1:5/128"));
    assert!(kept("[2001:db8::1:5]", "2001:db8::1:5/128"));
    assert!(kept("2001:db8:0:0:0:0:1:5", "2001:db8::1:5/128"));
    for ip in ["10.0.0.1", "10.0.0.1:80"] {
        assert!(kept(ip, "10.0.0.0/8"));
        assert!(!kept(ip, "11.0.0.0/8"));
        assert!(!kept(ip, "::/0"));
    }
    for name in ["relay.example", "relay.example:80"] {
        assert!(kept(name, "10.0.0.0/8"));
    }
}

#[test]
fn a_search_that_shows_nothing() {
    let filter = SearchFilter::new("10.0.0.0/8", 0, 0, 0).unwrap();
    let market = vec![fetched(1, 1, "2001:db8::5", 1, 2, 3)];
    let listings = MarketplaceClient::search_listings(&filter, &market);
    assert!(listings.rows.is_empty());
    assert!(listings.failures.is_empty());
    assert_eq!(
        search_table(market.len(), &listings.rows, &vec![]),
        vec!["No listings match the given filters."]
    );
}

#[test]
fn the_host_stands_before_the_last_colon() {
    assert_eq!(listing_host("10.1.0.1:80"), Some("10.1.0.1"));
    assert_eq!(listing_host("[2001:db8::1]:80"), Some("2001:db8::1"));
    assert_eq!(listing_host("relay.example:80"), Some("relay.example"));
    assert_eq!(listing_host("10.1.0.1"), None);
}

#[test]
fn the_addresses_of_listings() {
    let five = Some(IpAddress::V6((0x2001_0db8 << 96) + 5));
    assert_eq!(read_listing_ip("2001:db8::5"), five);
    assert_eq!(read_listing_ip("[2001:db8::5]:80"), five);
    assert_eq!(read_listing_ip("[2001:db8::5]"), five);
    let one = Some(IpAddress::V6((0x2001_0db8 << 96) + 1));
    assert_eq!(read_listing_ip("2001:db8::1:5"), one);
    assert_eq!(read_listing_ip("10.1.0.1"), Some(IpAddress::V4(0x0a01_0001)));
    assert_eq!(read_listing_ip("10.1.0.1:80"), Some(IpAddress::V4(0x0a01_0001)));
    assert_eq!(read_listing_ip("relay.example:80"), None);
    assert_eq!(read_listing_ip("2001:db8::"), Some(IpAddress::V6(0x2001_0db8 << 96)));
    assert_eq!(read_listing_ip(""), None);
}

#[test]
fn searches_by_bandwidth_and_time() {
    assert_eq!(found("10.0.0.0/8", 60, 0, 0), vec![2, 4]);
    assert_eq!(found("10.0.0.0/8", 61, 0, 0), vec![4]);
    assert_eq!(found("10.0.0.0/8", 0, 200, 0), vec![2, 1]);
    assert_eq!(found("10.0.0.0/8", 0, 0, 700), vec![2, 4, 1]);
    assert_eq!(found("10.0.0.0/8", 0, 99, 0), Vec::<u8>::new());
    assert_eq!(found("::/0", 80, 400, 600), vec![5]);
}

#[test]
fn a_filter_is_asked_of_one_listing() {
    let rows = all_listings(&market()).rows;
    let filter = SearchFilter::new("10.2.0.0/16", 60, 200, 800).unwrap();
    assert!(filter.matches_listing(&rows[0].listing));
    assert!(filter.matches_host(&rows[0].listing, None));
    assert!(filter.matches_host(&rows[0].listing, Some(IpAddress::V4(0x0a02_ffff))));
    assert!(!filter.matches_host(&rows[0].listing, Some(IpAddress::V4(0x0a03_0000))));
    assert!(!filter.matches_listing(&rows[3].listing));
}

#[test]
fn at_most_the_limit_is_asked_for() {
    let ids = vec![[1u8; 32], [2u8; 32], [3u8; 32]];
    assert_eq!(limit_ids(ids.clone(), 2), vec![[1u8; 32], [2u8; 32]]);
    assert_eq!(limit_ids(ids.clone(), 3), ids);
    assert_eq!(limit_ids(ids.clone(), 20), ids);
    assert_eq!(limit_ids(ids, 0), Vec::<[u8; 32]>::new());
}
