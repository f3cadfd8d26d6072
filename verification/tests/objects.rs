use snap_marketplace::error::MarketError;
use snap_marketplace::objects::{accept_child, BcsValue, ObjectRecord, ObjectReply};

fn answered(bytes: Vec<u8>) -> ObjectReply {
    ObjectReply::Answered(Some(ObjectRecord {
        contents: Some(BcsValue { value: Some(bytes) }),
    }))
}

fn token_bytes() -> Vec<u8> {
    bcs::to_bytes(&(
        [3u8; 32], [1u8; 32], "relay", "10.0.0.1:80", 100u64, 200u64, 50u64, [2u8; 32],
    ))
    .unwrap()
}

fn listing_bytes() -> Vec<u8> {
    let mut bytes = bcs::to_bytes(&(
        [1u8; 32], [2u8; 32], "relay é", "10.0.0.1:80", 7u64, true, 1u64, 2u64, 3u64, 4u64,
    ))
    .unwrap();
    bytes.extend(token_bytes());
    bytes
}

#[test]
fn tokens_are_read_from_their_bytes() {
    let token = answered(token_bytes()).read_token().unwrap();
    assert_eq!(token.id, [3; 32]);
    assert_eq!(token.listing_id, [1; 32]);
    assert_eq!(token.service_name, "relay");
    assert_eq!(token.ip_address, "10.0.0.1:80");
    assert_eq!((token.valid_from, token.expires_at, token.bandwidth), (100, 200, 50));
    assert_eq!(token.issuer, [2; 32]);
    assert_eq!(token.clone().service_name, token.service_name);
}

#[test]
fn listings_are_read_from_their_bytes() {
    let listing = answered(listing_bytes()).read_listing().unwrap();
    assert_eq!(listing.id, [1; 32]);
    assert_eq!(listing.issuer, [2; 32]);
    assert_eq!(listing.name, "relay é");
    assert_eq!(listing.ip_address, "10.0.0.1:80");
    assert_eq!(listing.price_mist, 7);
    assert!(listing.is_active);
    assert_eq!((listing.min_bandwidth, listing.min_duration), (1, 2));
    assert_eq!((listing.bw_granularity, listing.time_granularity), (3, 4));
    assert_eq!(listing.token.expires_at, 200);
    assert_eq!(listing.clone().token.id, [3; 32]);
}

#[test]
fn marketplaces_are_read_from_their_bytes() {
    let bytes = bcs::to_bytes(&([8u8; 32], ([9u8; 32], 5u64))).unwrap();
    let market = answered(bytes.clone()).read_marketplace().unwrap();
    assert_eq!(market.id, [8; 32]);
    assert_eq!(market.listings.size, 5);
    assert_eq!(answered(bytes).read_bag_id().unwrap(), [9; 32]);
}

#[test]
fn bytes_of_other_objects_are_refused() {
    let mut longer = listing_bytes();
    longer.push(0);
    let mut shorter = listing_bytes();
    shorter.pop();
    let mut flag = listing_bytes();
    flag[64 + 9 + 12 + 8] = 2;
    for bytes in [longer, shorter, flag, token_bytes(), Vec::new()] {
        let error = answered(bytes).read_listing().unwrap_err();
        assert_eq!(error.message(), "BCS deserialisation failed");
    }
    let mut not_utf8 = token_bytes();
    not_utf8[65] = 0xff;
    assert!(matches!(answered(not_utf8).read_token(), Err(MarketError::MalformedObject)));
}

#[test]
fn objects_that_are_not_there() {
    assert_eq!(ObjectReply::Failed.read_bag_id().unwrap_err().message(), "get_object RPC failed");
    assert_eq!(
        ObjectReply::Answered(None).read_listing().unwrap_err().message(),
        "Object not found"
    );
    for contents in [None, Some(BcsValue { value: None })] {
        let reply = ObjectReply::Answered(Some(ObjectRecord { contents }));
        assert_eq!(reply.read_contents().unwrap_err().message(), "No BCS contents in object");
    }
    assert_eq!(answered(vec![1, 2]).read_contents().unwrap(), &vec![1, 2]);
}

#[test]
fn children_of_a_bag_are_collected() {
    let mut ids = Vec::new();
    accept_child(&mut ids, Ok(Some("0x7".to_string()))).unwrap();
    accept_child(&mut ids, Ok(None)).unwrap();
    accept_child(&mut ids, Ok(Some("0x8".to_string()))).unwrap();
    assert_eq!(ids.len(), 2);
    assert_eq!((ids[0][31], ids[1][31]), (7, 8));
    let error = accept_child(&mut ids, Ok(Some("seven".to_string()))).unwrap_err();
    assert_eq!(error.message(), "Cannot parse child_id 'seven'");
    let error = accept_child(&mut ids, Err("closed".to_string())).unwrap_err();
    assert_eq!(error.message(), "Dynamic field stream error: closed");
    assert_eq!(ids.len(), 2);
}

#[test]
fn the_first_wrong_item_of_a_bag_decides() {
    let collect = |items: Vec<Result<Option<String>, String>>| {
        let mut ids = Vec::new();
        for item in items {
            accept_child(&mut ids, item)?;
        }
        Ok::<Vec<[u8; 32]>, MarketError>(ids)
    };
    let child = |text: &str| Ok(Some(text.to_string()));
    let ids = collect(vec![child("0x3"), Ok(None), child("0x1"), child("0x3")]).unwrap();
    assert_eq!(ids.iter().map(|id| id[31]).collect::<Vec<u8>>(), vec![3, 1, 3]);
    let error = collect(vec![child("0x3"), child("x"), Err("closed".to_string())]).unwrap_err();
    assert_eq!(error.message(), "Cannot parse child_id 'x'");
    let error = collect(vec![Err("closed".to_string()), child("x")]).unwrap_err();
    assert_eq!(error.message(), "Dynamic field stream error: closed");
}
