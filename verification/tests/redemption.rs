use snap_marketplace::objects::BcsValue;
use snap_marketplace::redemption::{
    connect_step, redemption_text, AuthorizedIps, CheckpointRecord, EventNotice, EventRecord,
    TransactionRecord, CONNECT_ATTEMPTS,
};

const ISSUER: [u8; 32] = [7; 32];
const REDEEMED: &str = "0x9::marketplace::TokenRedeemed";

fn bytes(issuer: [u8; 32], ip: &str) -> Vec<u8> {
    bcs::to_bytes(&([1u8; 32], issuer, [3u8; 32], ip, 10u64, 20u64, 30u64)).unwrap()
}

fn event(event_type: Option<&str>, value: Option<Vec<u8>>) -> EventRecord {
    EventRecord {
        event_type: event_type.map(String::from),
        contents: Some(BcsValue { value }),
    }
}

fn redeemed(ip: &str) -> EventRecord {
    event(Some(REDEEMED), Some(bytes(ISSUER, ip)))
}

#[test]
fn a_redeemer_is_let_in() {
    let mut ips = AuthorizedIps::new();
    assert_eq!(ips.reply("10.0.0.1"), "unauthorized\n");
    let notice = ips.take_event(&redeemed("10.0.0.1"), &ISSUER);
    let Some(EventNotice::Authorized(told)) = notice else { panic!("not let in") };
    assert_eq!(told.ip_address, "10.0.0.1");
    assert_eq!(told.token_id, [1; 32]);
    assert_eq!(told.redeemed_by, [3; 32]);
    assert_eq!(
        redemption_text(&told),
        "Redemption received — authorizing IP: 10.0.0.1  (30 kB/s, 10 → 20)"
    );
    assert!(ips.contains("10.0.0.1"));
    assert_eq!(ips.reply("10.0.0.1"), "authorized\n");
    assert_eq!(ips.reply("10.0.0.2"), "unauthorized\n");
}

#[test]
fn tokens_of_other_issuers_let_nobody_in() {
    let mut ips = AuthorizedIps::new();
    let other = event(Some(REDEEMED), Some(bytes([8; 32], "10.0.0.1")));
    assert!(ips.take_event(&other, &ISSUER).is_none());
    assert!(!ips.contains("10.0.0.1"));
}

#[test]
fn other_events_are_passed_over() {
    let mut ips = AuthorizedIps::new();
    let value = Some(bytes(ISSUER, "10.0.0.1"));
    assert!(ips.take_event(&event(None, value.clone()), &ISSUER).is_none());
    let listed = event(Some("0x9::marketplace::Listed"), value.clone());
    assert!(ips.take_event(&listed, &ISSUER).is_none());
    assert!(!ips.contains("10.0.0.1"));
    let generic = event(Some("0x9::marketplace::TokenRedeemed<0x2::sui::SUI>"), value);
    assert!(ips.take_event(&generic, &ISSUER).is_some());
    assert!(ips.contains("10.0.0.1"));
}

#[test]
fn events_that_cannot_be_read_are_told_of() {
    let mut ips = AuthorizedIps::new();
    let bare = EventRecord { event_type: Some(REDEEMED.to_string()), contents: None };
    assert!(matches!(ips.take_event(&bare, &ISSUER), Some(EventNotice::NoContents)));
    let empty = event(Some(REDEEMED), None);
    assert!(matches!(ips.take_event(&empty, &ISSUER), Some(EventNotice::NoContents)));
    let cut = event(Some(REDEEMED), Some(vec![1, 2, 3]));
    let Some(EventNotice::Undecodable(text)) = ips.take_event(&cut, &ISSUER) else {
        panic!("was read")
    };
    assert_eq!(text, "unexpected end of input");
    let mut longer = bytes(ISSUER, "10.0.0.1");
    longer.push(0);
    let longer = event(Some(REDEEMED), Some(longer));
    let Some(EventNotice::Undecodable(text)) = ips.take_event(&longer, &ISSUER) else {
        panic!("was read")
    };
    assert_eq!(text, "remaining input");
    let failed = ips.take_redeemed(Err("malformed".to_string()), &ISSUER);
    assert!(matches!(failed, Some(EventNotice::Undecodable(text)) if text == "malformed"));
    assert!(!ips.contains("10.0.0.1"));
}

#[test]
fn all_events_of_a_checkpoint_are_taken_in_their_order() {
    let mut ips = AuthorizedIps::new();
    ips.take_event(&redeemed("10.0.0.9"), &ISSUER);
    let checkpoint = Some(CheckpointRecord {
        transactions: vec![
            TransactionRecord { events: None },
            TransactionRecord {
                events: Some(vec![redeemed("10.0.0.1"), event(Some(REDEEMED), None)]),
            },
            TransactionRecord { events: Some(vec![]) },
            TransactionRecord { events: Some(vec![event(None, None), redeemed("10.0.0.2")]) },
        ],
    });
    let notices = ips.take_checkpoint(&checkpoint, &ISSUER);
    assert_eq!(notices.len(), 3);
    assert!(matches!(&notices[0], EventNotice::Authorized(e) if e.ip_address == "10.0.0.1"));
    assert!(matches!(&notices[1], EventNotice::NoContents));
    assert!(matches!(&notices[2], EventNotice::Authorized(e) if e.ip_address == "10.0.0.2"));
    for ip in ["10.0.0.1", "10.0.0.2", "10.0.0.9"] {
        assert!(ips.contains(ip));
    }
    assert!(!ips.contains("10.0.0.3"));
    assert!(ips.take_checkpoint(&None, &ISSUER).is_empty());
    assert!(ips.contains("10.0.0.1"));
}

#[test]
fn a_client_understands_the_replies() {
    let mut ips = AuthorizedIps::new();
    let step = connect_step(1, &Ok(ips.reply("10.0.0.1").to_string()));
    assert_eq!(step.line, "Server says: unauthorized");
    assert_eq!(step.next, Some(2));
    ips.take_event(&redeemed("10.0.0.1"), &ISSUER);
    let step = connect_step(2, &Ok(ips.reply("10.0.0.1").to_string()));
    assert_eq!(step.line, "Server says: authorized");
    assert_eq!(step.next, None);
}

#[test]
fn a_client_gives_up_after_ten_attempts() {
    let mut attempt = 1;
    let mut lines = Vec::new();
    loop {
        let step = connect_step(attempt, &Err("refused".to_string()));
        lines.push(step.line);
        match step.next {
            Some(next) => attempt = next,
            None => break,
        }
    }
    assert_eq!(attempt, CONNECT_ATTEMPTS);
    assert_eq!(lines.len(), 10);
    assert_eq!(lines[0], "Attempt 1/10: refused");
    assert_eq!(lines[9], "Attempt 10/10: refused");
}

#[test]
fn redeemers_stay_let_in_over_later_checkpoints() {
    let checkpoint = |events: Vec<EventRecord>| {
        Some(CheckpointRecord { transactions: vec![TransactionRecord { events: Some(events) }] })
    };
    let mut ips = AuthorizedIps::new();
    let stream = [
        checkpoint(vec![redeemed("10.0.0.1")]),
        None,
        checkpoint(vec![event(Some(REDEEMED), Some(bytes([8; 32], "10.0.0.3")))]),
        checkpoint(vec![redeemed("10.0.0.2"), redeemed("10.0.0.1")]),
        checkpoint(vec![]),
    ];
    let mut told = 0;
    for checkpoint in &stream {
        told += ips.take_checkpoint(checkpoint, &ISSUER).len();
        assert_eq!(ips.reply("10.0.0.1"), "authorized\n");
        assert_eq!(ips.reply("10.0.0.3"), "unauthorized\n");
    }
    assert_eq!(told, 3);
    assert_eq!(ips.reply("10.0.0.2"), "authorized\n");
}
