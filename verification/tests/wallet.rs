use base64::engine::general_purpose::STANDARD;
use base64::Engine;
use snap_marketplace::address::address_text;
use snap_marketplace::config::{MarketConfig, MarketplaceConfig, SuiConfig};
use snap_marketplace::error::{KeyError, MarketError};
use snap_marketplace::wallet::{
    find_key, is_broken_entry, keypair_from_entry, load_wallet, try_load_wallet, KeyScheme,
};
use sui_crypto::ed25519::Ed25519PrivateKey;
use sui_crypto::secp256k1::Secp256k1PrivateKey;
use sui_crypto::secp256r1::Secp256r1PrivateKey;
use sui_crypto::simple::SimpleVerifier;
use sui_crypto::SuiVerifier;
use sui_sdk_types::{Address, Digest, UserSignature};
use sui_transaction_builder::{ObjectInput, TransactionBuilder};

fn entry(flag: u8, secret: &[u8]) -> String {
    let mut bytes = vec![flag];
    bytes.extend(secret);
    STANDARD.encode(bytes)
}

fn config(address: [u8; 32]) -> MarketConfig {
    MarketConfig {
        sui: SuiConfig {
            network: "testnet".to_string(),
            rpc_url: "http://localhost:9000".to_string(),
            gas_budget: 1_000,
            keystore: "/home/user/.sui/sui_config".to_string(),
            address,
        },
        marketplace: MarketplaceConfig {
            package_id: [1; 32],
            marketplace_id: [2; 32],
            coin_type: "0x2::sui::SUI".to_string(),
        },
    }
}

fn ed25519_address(secret: [u8; 32]) -> [u8; 32] {
    Ed25519PrivateKey::new(secret).public_key().derive_address().into_inner()
}

fn keystore(entries: &[String]) -> Vec<u8> {
    serde_json::to_vec(entries).unwrap()
}

#[test]
fn entries_hold_keys_of_three_schemes() {
    let secret = [5u8; 32];
    let (key, address) = keypair_from_entry(&entry(0, &secret)).ok().unwrap();
    assert_eq!((key.scheme, key.secret), (KeyScheme::Ed25519, secret));
    assert_eq!(address, ed25519_address(secret));
    let (key, address) = keypair_from_entry(&entry(1, &secret)).ok().unwrap();
    assert_eq!((key.scheme, key.secret), (KeyScheme::Secp256k1, secret));
    let public = Secp256k1PrivateKey::new(secret).unwrap().public_key();
    assert_eq!(address, public.derive_address().into_inner());
    let (key, address) = keypair_from_entry(&entry(2, &secret)).ok().unwrap();
    assert_eq!((key.scheme, key.secret), (KeyScheme::Secp256r1, secret));
    let public = Secp256r1PrivateKey::new(secret).public_key();
    assert_eq!(address, public.derive_address().into_inner());
}

#[test]
fn what_follows_the_key_is_ignored() {
    let mut long = [5u8; 40];
    long[39] = 9;
    let (key, _) = keypair_from_entry(&entry(0, &long)).ok().unwrap();
    assert_eq!(key.secret, [5; 32]);
}

#[test]
fn entries_that_hold_no_key() {
    let message = |text: &str| keypair_from_entry(text).err().unwrap().message();
    assert_eq!(message("no key"), "Base64 decode failed");
    assert_eq!(
        message(&entry(0, &[5; 31])),
        "Keystore entry too short (32 bytes, expected ≥33)"
    );
    assert_eq!(message(&entry(1, &[0; 32])), "Invalid Secp256k1 private key");
    assert_eq!(message(&entry(1, &[0xff; 32])), "Invalid Secp256k1 private key");
    assert_eq!(message(&entry(0x1c, &[5; 32])), "Unsupported signature scheme flag: 0x1c");
}

#[test]
fn broken_entries_are_those_of_impossible_secp256r1_keys() {
    assert!(is_broken_entry(&entry(2, &[0; 32])));
    assert!(is_broken_entry(&entry(2, &[0xff; 32])));
    assert!(!is_broken_entry(&entry(2, &[5; 32])));
    assert!(!is_broken_entry(&entry(1, &[0; 32])));
    assert!(!is_broken_entry("no key"));
    let order = [
        0xff, 0xff, 0xff, 0xff, 0x00, 0x00, 0x00, 0x00, 0xff, 0xff, 0xff, 0xff, 0xff, 0xff, 0xff,
        0xff, 0xbc, 0xe6, 0xfa, 0xad, 0xa7, 0x17, 0x9e, 0x84, 0xf3, 0xb9, 0xca, 0xc2, 0xfc, 0x63,
        0x25, 0x51,
    ];
    assert!(is_broken_entry(&entry(2, &order)));
    let mut largest = order;
    largest[31] -= 1;
    assert!(!is_broken_entry(&entry(2, &largest)));
    assert!(keypair_from_entry(&entry(2, &largest)).is_ok());
}

#[test]
fn the_key_of_the_address_is_found() {
    let entries = vec![
        "no key".to_string(),
        entry(0, &[4; 32]),
        entry(9, &[4; 32]),
        entry(0, &[5; 32]),
        entry(8, &[4; 32]),
    ];
    let address = ed25519_address([5; 32]);
    let search = load_wallet(&config(address), &keystore(&entries));
    let wallet = search.outcome.ok().unwrap();
    assert_eq!(wallet.active_address(), address);
    assert_eq!(wallet.keypair.secret, [5; 32]);
    assert_eq!(search.skipped.len(), 2);
    assert!(matches!(search.skipped[0], KeyError::NotBase64));
    assert!(matches!(search.skipped[1], KeyError::UnsupportedScheme { flag: 9 }));
    assert_eq!(find_key(&entries, &address).skipped.len(), 2);
}

#[test]
fn a_keystore_without_the_key() {
    let search = load_wallet(&config([7; 32]), &keystore(&[entry(0, &[5; 32])]));
    assert_eq!(
        search.outcome.err().unwrap().message(),
        format!("No keypair found in keystore for address {}", address_text(&[7; 32]))
    );
}

#[test]
fn a_keystore_that_is_no_list_of_texts() {
    for bytes in ["", "{}", "[1]", "[\"a\"", "[\"a\"] x"] {
        let search = try_load_wallet(&config([7; 32]), bytes.as_bytes()).unwrap();
        let error = search.outcome.err().unwrap();
        assert!(matches!(error, MarketError::KeystoreUnparsable));
        assert_eq!(error.message(), "Cannot parse sui.keystore");
    }
}

#[test]
fn broken_entries_stand_in_the_way_only_before_the_key() {
    let address = ed25519_address([5; 32]);
    let broken = entry(2, &[0; 32]);
    let before = keystore(&[broken.clone(), entry(0, &[5; 32])]);
    assert!(try_load_wallet(&config(address), &before).is_none());
    let after = keystore(&[entry(0, &[5; 32]), broken]);
    assert!(try_load_wallet(&config(address), &after).unwrap().outcome.is_ok());
}

#[test]
fn signatures_verify() {
    let mut builder = TransactionBuilder::new();
    builder.set_sender(Address::new([3; 32]));
    builder.set_gas_budget(10);
    builder.set_gas_price(1);
    builder.add_gas_objects([ObjectInput::owned(Address::ZERO, 1, Digest::ZERO)]);
    let transaction = builder.try_build().unwrap();
    let bytes = bcs::to_bytes(&transaction).unwrap();
    for flag in 0..3u8 {
        let text = entry(flag, &[5; 32]);
        let (_, address) = keypair_from_entry(&text).ok().unwrap();
        let search = find_key(&vec![text], &address);
        let wallet = search.outcome.ok().unwrap();
        let signature = wallet.sign_transaction(&bytes).ok().unwrap();
        let signature = UserSignature::from_bytes(&signature).unwrap();
        SimpleVerifier.verify_transaction(&transaction, &signature).unwrap();
        let again = wallet.sign_transaction(&bytes).ok().unwrap();
        assert_eq!(signature.to_bytes(), again);
    }
}

#[test]
fn what_is_no_transaction_is_not_signed() {
    let text = entry(0, &[5; 32]);
    let search = find_key(&vec![text], &ed25519_address([5; 32]));
    let error = search.outcome.ok().unwrap().sign_transaction(&[1, 2, 3]).err().unwrap();
    assert!(error.message().starts_with("Signing failed: "));
}

#[test]
fn configurations_are_cloned() {
    let copy = config([7; 32]).clone();
    assert_eq!(copy.sui.address, [7; 32]);
    assert_eq!(copy.sui.rpc_url, "http://localhost:9000");
    assert_eq!(copy.marketplace.coin_type, "0x2::sui::SUI");
}
