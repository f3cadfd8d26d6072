use base64::engine::general_purpose::STANDARD;
use base64::Engine;
use snap_marketplace::config::{MarketConfig, MarketplaceConfig, SuiConfig};
use snap_marketplace::encoding::fits;
use snap_marketplace::error::MarketError;
use snap_marketplace::marketplace::{MarketplaceClient, PurchaseOrder};
use snap_marketplace::objects::{BcsValue, ObjectRecord, ObjectReply};
use snap_marketplace::purchase::{resolve_purchase, PurchaseTerms};
use sui_crypto::ed25519::Ed25519PrivateKey;
use sui_sdk_types::{
    Address, Argument, Command, Digest, Input, MoveCall, ObjectReference, Transaction,
    TransactionKind,
};
use sui_transaction_builder::{ObjectInput, TransactionBuilder};

const SECRET: [u8; 32] = [5; 32];
const PACKAGE: [u8; 32] = [0x11; 32];
const MARKET: [u8; 32] = [0x22; 32];

fn sender() -> [u8; 32] {
    Ed25519PrivateKey::new(SECRET).public_key().derive_address().into_inner()
}

fn config(coin_type: &str) -> MarketConfig {
    MarketConfig {
        sui: SuiConfig {
            network: "testnet".to_string(),
            rpc_url: "http://localhost:9000".to_string(),
            gas_budget: 77_000,
            keystore: "/home/user/.sui/sui_config".to_string(),
            address: sender(),
        },
        marketplace: MarketplaceConfig {
            package_id: PACKAGE,
            marketplace_id: MARKET,
            coin_type: coin_type.to_string(),
        },
    }
}

fn keystore() -> Vec<u8> {
    let mut bytes = vec![0u8];
    bytes.extend(SECRET);
    serde_json::to_vec(&["x".to_string(), STANDARD.encode(bytes)]).unwrap()
}

fn client_for(coin_type: &str) -> MarketplaceClient {
    let search = MarketplaceClient::try_new(config(coin_type), &keystore()).unwrap();
    assert_eq!(search.skipped.len(), 1);
    search.outcome.ok().unwrap()
}

fn client() -> MarketplaceClient {
    client_for("0x2::sui::SUI")
}

fn owned(id: [u8; 32]) -> Input {
    Input::ImmutableOrOwned(ObjectReference::new(Address::new(id), 1, Digest::ZERO))
}

fn pure(value: Vec<u8>) -> Input {
    Input::Pure(value)
}

fn number(value: u64) -> Input {
    pure(value.to_le_bytes().to_vec())
}

fn text(value: &str) -> Input {
    let mut bytes = vec![value.len() as u8];
    bytes.extend(value.as_bytes());
    pure(bytes)
}

/// Builds a transaction whose objects are all owned.
fn built(mut builder: TransactionBuilder, objects: &[[u8; 32]]) -> Transaction {
    for id in objects {
        builder.object(ObjectInput::owned(Address::new(*id), 1, Digest::ZERO));
    }
    builder.set_gas_price(1);
    builder.add_gas_objects([ObjectInput::owned(Address::new([0xee; 32]), 1, Digest::ZERO)]);
    builder.try_build().unwrap()
}

/// The only call of a transaction, and the inputs that its arguments stand for
/// (`None`: the gas coin).
fn only_call(transaction: Transaction) -> (MoveCall, Vec<Option<Input>>) {
    assert_eq!(transaction.sender, Address::new(sender()));
    assert_eq!(transaction.gas_payment.budget, 77_000);
    let TransactionKind::ProgrammableTransaction(program) = transaction.kind else {
        panic!("no program")
    };
    assert_eq!(program.commands.len(), 1);
    let Command::MoveCall(call) = &program.commands[0] else { panic!("no call") };
    assert_eq!(call.package, Address::new(PACKAGE));
    assert_eq!(call.module.as_str(), "marketplace");
    let inputs = call
        .arguments
        .iter()
        .map(|a| match a {
            Argument::Gas => None,
            Argument::Input(i) => Some(program.inputs[*i as usize].clone()),
            other => panic!("{other:?}"),
        })
        .collect();
    (call.clone(), inputs)
}

fn listing_reply(time_granularity: u64, bw_granularity: u64) -> ObjectReply {
    let mut bytes = bcs::to_bytes(&(
        [1u8; 32], [2u8; 32], "relay", "10.0.0.1:80", 7u64, true, 1u64, 1u64, bw_granularity,
        time_granularity,
    ))
    .unwrap();
    bytes.extend(token_bytes());
    answered(bytes)
}

fn token_bytes() -> Vec<u8> {
    bcs::to_bytes(&(
        [3u8; 32], [1u8; 32], "relay", "10.0.0.1:80", 100u64, 10_000u64, 500u64, [2u8; 32],
    ))
    .unwrap()
}

fn answered(bytes: Vec<u8>) -> ObjectReply {
    let contents = Some(BcsValue { value: Some(bytes) });
    ObjectReply::Answered(Some(ObjectRecord { contents }))
}

#[test]
fn clients_hold_their_configuration_and_wallet() {
    let client = client();
    assert_eq!(client.config().sui.rpc_url, "http://localhost:9000");
    assert_eq!(client.wallet().active_address(), sender());
    let search = MarketplaceClient::new(config("x"), b"[]");
    assert!(matches!(search.outcome, Err(MarketError::NoKeypair { .. })));
    let mut broken = vec![2u8];
    broken.extend([0; 32]);
    let entries = serde_json::to_vec(&[STANDARD.encode(broken)]).unwrap();
    assert!(MarketplaceClient::try_new(config("x"), &entries).is_none());
}

#[test]
fn a_marketplace_is_created_for_the_coin_type() {
    let (call, args) = only_call(built(client().create_marketplace().ok().unwrap(), &[]));
    assert_eq!(call.function.as_str(), "create_marketplace");
    assert_eq!(call.type_arguments, vec!["0x2::sui::SUI".parse().unwrap()]);
    assert!(args.is_empty());
}

#[test]
fn a_coin_type_that_is_none_is_refused() {
    let client = client_for("not a type");
    assert_eq!(
        client.coin_type_tag().err().unwrap().message(),
        "Invalid coin_type in config"
    );
    assert!(matches!(client.create_marketplace(), Err(MarketError::InvalidCoinType)));
    let order = MarketplaceClient::buy_listing("0x9", 1, 2, 3).ok().unwrap();
    assert!(matches!(
        client.purchase(&order, &listing_reply(0, 0)),
        Err(MarketError::InvalidCoinType)
    ));
    let long = "0x0000000000000000000000000000000000000000000000000000000000000002::sui::SUI";
    assert_eq!(
        client_for(long).coin_type_tag().ok().unwrap(),
        client_for("0x2::sui::SUI").coin_type_tag().ok().unwrap()
    );
}

#[test]
fn a_listing_is_created_with_all_its_terms() {
    let builder = client()
        .create_listing(
            "relay é".to_string(),
            "10.0.0.1:80".to_string(),
            500_000_000,
            11,
            12,
            13,
            14,
            15,
            16,
            17,
        )
        .ok()
        .unwrap();
    let (call, args) = only_call(built(builder, &[MARKET]));
    assert_eq!(call.function.as_str(), "create_listing");
    assert_eq!(call.type_arguments, vec!["0x2::sui::SUI".parse().unwrap()]);
    let expected: Vec<Option<Input>> = vec![
        Some(owned(MARKET)),
        Some(text("relay é")),
        Some(text("10.0.0.1:80")),
        Some(number(500_000_000)),
        Some(number(11)),
        Some(number(12)),
        Some(number(13)),
        Some(number(14)),
        Some(number(15)),
        Some(number(16)),
        Some(number(17)),
    ];
    assert_eq!(args, expected);
}

#[test]
fn equal_arguments_are_passed_in_their_places() {
    let builder = client()
        .create_listing("a".to_string(), "a".to_string(), 1, 1, 2, 1, 2, 1, 2, 1)
        .ok()
        .unwrap();
    let (_, args) = only_call(built(builder, &[MARKET]));
    assert_eq!(args[1], args[2]);
    let numbers: Vec<Option<Input>> =
        [1, 1, 2, 1, 2, 1, 2, 1].iter().map(|n| Some(number(*n))).collect();
    assert_eq!(args[3..], numbers[..]);
}

#[test]
fn a_purchase_pays_with_the_gas_coin() {
    let order = MarketplaceClient::buy_listing("0x9", 100, 220, 30).ok().unwrap();
    assert_eq!(order.listing_id[31], 9);
    assert_eq!(order.terms, PurchaseTerms { start: 100, end: 220, bandwidth: 30 });
    let builder = client().purchase(&order, &listing_reply(60, 10)).ok().unwrap();
    let (call, args) = only_call(built(builder, &[MARKET]));
    assert_eq!(call.function.as_str(), "purchase");
    assert_eq!(call.type_arguments.len(), 1);
    let expected = vec![
        Some(owned(MARKET)),
        Some(pure(order.listing_id.to_vec())),
        None,
        Some(number(100)),
        Some(number(220)),
        Some(number(30)),
    ];
    assert_eq!(args, expected);
}

#[test]
fn purchases_are_checked_before_their_listing_is_fetched() {
    let message = |id: &str, start, end, bandwidth| {
        MarketplaceClient::buy_listing(id, start, end, bandwidth).err().unwrap().message()
    };
    assert_eq!(message("nine", 0, 0, 0), "Invalid listing ID");
    assert!(message("0x9", 0, 0, 0).starts_with("start must be non-zero"));
    assert_eq!(message("0x9", 2, 2, 0), "end must be greater than start");
    assert!(message("0x9", 2, 3, 0).starts_with("bandwidth must be non-zero"));
}

#[test]
fn purchases_are_checked_against_their_listing() {
    let client = client();
    let order = MarketplaceClient::buy_listing("0x9", 100, 220, 35).ok().unwrap();
    let message = |reply| client.purchase(&order, &reply).err().unwrap().message();
    assert_eq!(message(ObjectReply::Answered(None)), "Object not found");
    assert_eq!(message(answered(vec![1])), "BCS deserialisation failed");
    assert!(message(listing_reply(50, 10)).starts_with("duration 120 s is not aligned"));
    assert!(message(listing_reply(60, 10)).starts_with("bandwidth 35 kB/s is not aligned"));
    assert!(client.purchase(&order, &listing_reply(0, 0)).is_ok());
}

#[test]
fn resolved_purchases_are_accepted() {
    let client = client();
    for (time_granularity, bw_granularity) in [(0, 0), (7, 9), (60, 33), (9_000, 500)] {
        let reply = listing_reply(time_granularity, bw_granularity);
        let listing = reply.read_listing().ok().unwrap();
        let terms = resolve_purchase(&listing, None, None, 0, 123);
        let order = PurchaseOrder { listing_id: [9; 32], terms };
        assert!(terms.check().is_ok());
        assert!(client.purchase(&order, &reply).is_ok());
    }
}

#[test]
fn a_redemption_records_the_address_of_the_client() {
    let id = MarketplaceClient::token_to_redeem("0x33").ok().unwrap();
    let redemption = client()
        .redeem(&id, &answered(token_bytes()), "127.0.0.1".to_string())
        .ok()
        .unwrap();
    assert_eq!(redemption.service_name, "relay");
    let (call, args) = only_call(built(redemption.transaction, &[id]));
    assert_eq!(call.function.as_str(), "redeem");
    assert!(call.type_arguments.is_empty());
    assert_eq!(args, vec![Some(owned(id)), Some(text("127.0.0.1"))]);
}

#[test]
fn tokens_that_cannot_be_redeemed() {
    assert_eq!(
        MarketplaceClient::token_to_redeem("token").err().unwrap().message(),
        "Invalid token ID"
    );
    let redeem =
        |reply| client().redeem(&[3; 32], &reply, "127.0.0.1".to_string()).err().unwrap();
    assert!(matches!(redeem(ObjectReply::Failed), MarketError::ObjectRpcFailed));
    assert!(matches!(redeem(answered(vec![])), MarketError::MalformedObject));
}

#[test]
fn listings_are_asked_for_by_their_identifier() {
    assert_eq!(MarketplaceClient::get_listing("0x9").ok().unwrap()[31], 9);
    assert!(matches!(
        MarketplaceClient::get_listing("nine"),
        Err(MarketError::InvalidListingId)
    ));
    assert!(fits("any text of ordinary length"));
}

#[test]
fn prepared_transactions_can_be_signed() {
    let client = client();
    let transaction = built(client.create_marketplace().ok().unwrap(), &[]);
    let bytes = bcs::to_bytes(&transaction).unwrap();
    assert_eq!(client.wallet().sign_transaction(&bytes).ok().unwrap().len(), 97);
}
