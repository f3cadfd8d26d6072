use snap_marketplace::effects::{
    executed_effects, find_access_token, find_created, ChangedObject, ExecutedTransaction,
    ExecutionReply, ExecutionStatus, TransactionEffects,
};
use snap_marketplace::marketplace::MarketplaceClient;

fn changed(id: Option<&str>, object_type: Option<&str>, operation: Option<i32>) -> ChangedObject {
    ChangedObject {
        object_id: id.map(String::from),
        object_type: object_type.map(String::from),
        id_operation: operation,
    }
}

fn effects(objects: Vec<ChangedObject>) -> TransactionEffects {
    TransactionEffects {
        status: Some(ExecutionStatus { success: true, error: None }),
        changed_objects: objects,
    }
}

fn reply(effects: TransactionEffects) -> ExecutionReply {
    ExecutionReply { transaction: Some(ExecutedTransaction { effects: Some(effects) }) }
}

const LISTING: &str = "0x9::marketplace::ServiceListing";
const TOKEN: &str = "0x9::marketplace::AccessToken";

#[test]
fn the_first_created_object_of_the_type_is_found() {
    let objects = vec![
        changed(Some("0x1"), None, Some(2)),
        changed(Some("0x2"), Some(TOKEN), Some(2)),
        changed(Some("0x3"), Some(LISTING), Some(1)),
        changed(Some("0x4"), Some(LISTING), None),
        changed(Some("0x5"), Some(LISTING), Some(9)),
        changed(Some("0x6"), Some(LISTING), Some(2)),
        changed(Some("0x7"), Some(LISTING), Some(2)),
    ];
    let effects = effects(objects);
    assert_eq!(find_created(&effects, "::marketplace::ServiceListing").unwrap()[31], 6);
    assert_eq!(find_access_token(&effects).unwrap()[31], 2);
    assert_eq!(MarketplaceClient::created_listing(reply(effects)).unwrap()[31], 6);
}

#[test]
fn a_marketplace_is_found_by_its_type() {
    let kind = "0x9::marketplace::Marketplace";
    let found = |objects| MarketplaceClient::created_marketplace(reply(effects(objects)));
    assert_eq!(found(vec![changed(Some("0x5"), Some(kind), Some(2))]).unwrap()[31], 5);
    let generic = "0x9::marketplace::Marketplace<0x2::sui::SUI>";
    assert_eq!(
        found(vec![changed(Some("0x5"), Some(generic), Some(2))]).unwrap_err().message(),
        "Object not found in transaction effects"
    );
}

#[test]
fn a_token_is_found_whatever_was_done_to_it() {
    let minted = |objects| MarketplaceClient::minted_token(reply(effects(objects)));
    assert_eq!(minted(vec![changed(Some("0x5"), Some(TOKEN), None)]).unwrap()[31], 5);
    assert_eq!(
        minted(vec![]).unwrap_err().message(),
        "AccessToken not found in transaction effects"
    );
    assert_eq!(
        minted(vec![changed(None, Some(TOKEN), None)]).unwrap_err().message(),
        "AccessToken not found in transaction effects"
    );
    assert_eq!(
        minted(vec![changed(Some("five"), Some(TOKEN), None)]).unwrap_err().message(),
        "Cannot parse AccessToken ID"
    );
}

#[test]
fn created_objects_need_an_identifier() {
    let find = |object| {
        find_created(&effects(vec![object]), "::marketplace::ServiceListing")
            .unwrap_err()
            .message()
    };
    assert_eq!(
        find(changed(None, Some(LISTING), Some(2))),
        "Object not found in transaction effects"
    );
    assert_eq!(find(changed(Some("six"), Some(LISTING), Some(2))), "Cannot parse object ID");
    assert_eq!(
        find(changed(Some("0x6"), Some(LISTING), Some(3))),
        "Object not found in transaction effects"
    );
}

#[test]
fn executions_without_effects_fail() {
    let message = |reply| executed_effects(reply).unwrap_err().message();
    assert_eq!(message(ExecutionReply { transaction: None }), "No transaction in response");
    assert_eq!(
        message(ExecutionReply { transaction: Some(ExecutedTransaction { effects: None }) }),
        "No effects in response"
    );
}

#[test]
fn executions_that_failed_on_chain_tell_why() {
    let failed = |error: Option<&str>| {
        reply(TransactionEffects {
            status: Some(ExecutionStatus { success: false, error: error.map(String::from) }),
            changed_objects: vec![],
        })
    };
    assert_eq!(
        MarketplaceClient::redeemed(failed(Some("out of gas"))).unwrap_err().message(),
        "Transaction failed on-chain: out of gas"
    );
    assert_eq!(
        MarketplaceClient::minted_token(failed(None)).unwrap_err().message(),
        "Transaction failed on-chain: unknown error"
    );
    let silent = TransactionEffects { status: None, changed_objects: vec![] };
    assert!(MarketplaceClient::redeemed(reply(silent)).is_ok());
    assert!(MarketplaceClient::redeemed(reply(effects(vec![]))).is_ok());
}
