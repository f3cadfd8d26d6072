//! What can go wrong, and the texts that tell of it.

use vstd::prelude::*;
use vstd::string::*;

use crate::address::{address_chars, address_text, RawId};
use crate::text::{byte_hex, byte_hex_text, decimal, decimal_text};

verus! {

/// Why an entry of a keystore gives no key.
#[derive(Debug)]
pub enum KeyError {
    /// The entry is not in base64.
    NotBase64,
    /// The entry has fewer bytes than a flag and a key.
    TooShort { length: usize },
    /// The key is out of the range of secp256k1 keys.
    InvalidSecp256k1,
    /// The flag is that of no supported signature scheme.
    UnsupportedScheme { flag: u8 },
}

impl KeyError {
    /// The text that tells of the error.
    pub open spec fn text(self) -> Seq<char> {
        match self {
            KeyError::NotBase64 => "Base64 decode failed"@,
            KeyError::TooShort { length } => "Keystore entry too short ("@ + decimal(length as nat)
                + " bytes, expected ≥33)"@,
            KeyError::InvalidSecp256k1 => "Invalid Secp256k1 private key"@,
            KeyError::UnsupportedScheme { flag } => "Unsupported signature scheme flag: 0x"@
                + byte_hex(flag),
        }
    }

    /// The text that tells of the error.
    pub fn message(&self) -> (r: String)
        ensures
            r@ == self.text(),
    {
        match self {
            KeyError::NotBase64 => "Base64 decode failed".to_owned(),
            KeyError::TooShort { length } => {
                let mut r = "Keystore entry too short (".to_owned();
                r.append(decimal_text(*length as u64).as_str());
                r.append(" bytes, expected ≥33)");
                r
            },
            KeyError::InvalidSecp256k1 => "Invalid Secp256k1 private key".to_owned(),
            KeyError::UnsupportedScheme { flag } => {
                let mut r = "Unsupported signature scheme flag: 0x".to_owned();
                r.append(byte_hex_text(*flag).as_str());
                r
            },
        }
    }
}

/// Why an operation on the marketplace fails.
#[derive(Debug)]
pub enum MarketError {
    /// The keystore file is not a JSON list of texts.
    KeystoreUnparsable,
    /// No key of the keystore belongs to the address.
    NoKeypair { address: RawId },
    /// The configured coin type is no Move type.
    InvalidCoinType,
    /// The object could not be asked for.
    ObjectRpcFailed,
    /// There is no such object.
    ObjectNotFound,
    /// The object came without its contents.
    NoContents,
    /// The contents are not those of the expected object.
    MalformedObject,
    /// The stream of dynamic fields broke off.
    FieldStream { cause: String },
    /// A dynamic field has a child that is no address.
    InvalidChildId { child_id: String },
    /// The transaction could not be signed.
    SigningFailed { cause: String },
    /// The execution was answered without a transaction.
    NoTransaction,
    /// The executed transaction came without its effects.
    NoEffects,
    /// The transaction failed on-chain.
    OnChainFailure { cause: String },
    /// The effects do not hold the created object.
    CreatedNotFound,
    /// The created object has an identifier that is no address.
    InvalidCreatedId,
    /// The effects do not hold an access token.
    TokenNotFound,
    /// The access token has an identifier that is no address.
    InvalidMintedId,
    /// The subnet to search in is none.
    InvalidSubnet { subnet: String },
    /// The identifier of the listing is no address.
    InvalidListingId,
    /// The identifier of the token is no address.
    InvalidTokenId,
    /// The text is neither a date and time nor a date.
    InvalidDate { text: String },
    /// The purchase has no start.
    ZeroStart,
    /// The purchase does not end after its start.
    EndNotAfterStart,
    /// The purchase has no bandwidth.
    ZeroBandwidth,
    /// The duration is no multiple of the time granularity of the listing.
    UnalignedDuration { duration: u64, granularity: u64, nearest_end: u64 },
    /// The bandwidth is no multiple of the bandwidth granularity of the listing.
    UnalignedBandwidth { bandwidth: u64, granularity: u64, nearest: u64 },
}

impl MarketError {
    /// The text that tells of the error.
    pub open spec fn text(self) -> Seq<char> {
        match self {
            MarketError::KeystoreUnparsable => "Cannot parse sui.keystore"@,
            MarketError::NoKeypair { address } => "No keypair found in keystore for address "@
                + address_chars(address@),
            MarketError::InvalidCoinType => "Invalid coin_type in config"@,
            MarketError::ObjectRpcFailed => "get_object RPC failed"@,
            MarketError::ObjectNotFound => "Object not found"@,
            MarketError::NoContents => "No BCS contents in object"@,
            MarketError::MalformedObject => "BCS deserialisation failed"@,
            MarketError::FieldStream { cause } => "Dynamic field stream error: "@ + cause@,
            MarketError::InvalidChildId { child_id } => "Cannot parse child_id '"@ + child_id@
                + "'"@,
            MarketError::SigningFailed { cause } => "Signing failed: "@ + cause@,
            MarketError::NoTransaction => "No transaction in response"@,
            MarketError::NoEffects => "No effects in response"@,
            MarketError::OnChainFailure { cause } => "Transaction failed on-chain: "@ + cause@,
            MarketError::CreatedNotFound => "Object not found in transaction effects"@,
            MarketError::InvalidCreatedId => "Cannot parse object ID"@,
            MarketError::TokenNotFound => "AccessToken not found in transaction effects"@,
            MarketError::InvalidMintedId => "Cannot parse AccessToken ID"@,
            MarketError::InvalidSubnet { subnet } => "Invalid subnet '"@ + subnet@ + "'"@,
            MarketError::InvalidListingId => "Invalid listing ID"@,
            MarketError::InvalidTokenId => "Invalid token ID"@,
            MarketError::InvalidDate { text } => "invalid datetime '"@ + text@
                + "' — expected \"YYYY-MM-DD HH:MM:SS\" or \"YYYY-MM-DD\""@,
            MarketError::ZeroStart =>
                "start must be non-zero; resolve to current time before calling buy_listing"@,
            MarketError::EndNotAfterStart => "end must be greater than start"@,
            MarketError::ZeroBandwidth =>
                "bandwidth must be non-zero; resolve to seller's bound before calling buy_listing"@,
            MarketError::UnalignedDuration { duration, granularity, nearest_end } => "duration "@
                + decimal(duration as nat) + " s is not aligned to listing time_granularity "@
                + decimal(granularity as nat) + " s (nearest lower end: "@ + decimal(
                nearest_end as nat,
            ) + ")"@,
            MarketError::UnalignedBandwidth { bandwidth, granularity, nearest } => "bandwidth "@
                + decimal(bandwidth as nat) + " kB/s is not aligned to listing bw_granularity "@
                + decimal(granularity as nat) + " kB/s (nearest lower value: "@ + decimal(
                nearest as nat,
            ) + ")"@,
        }
    }

    /// The text that tells of the error.
    pub fn message(&self) -> (r: String)
        ensures
            r@ == self.text(),
    {
        match self {
            MarketError::KeystoreUnparsable => "Cannot parse sui.keystore".to_owned(),
            MarketError::NoKeypair { address } => {
                let mut r = "No keypair found in keystore for address ".to_owned();
                r.append(address_text(address).as_str());
                r
            },
            MarketError::InvalidCoinType => "Invalid coin_type in config".to_owned(),
            MarketError::ObjectRpcFailed => "get_object RPC failed".to_owned(),
            MarketError::ObjectNotFound => "Object not found".to_owned(),
            MarketError::NoContents => "No BCS contents in object".to_owned(),
            MarketError::MalformedObject => "BCS deserialisation failed".to_owned(),
            MarketError::FieldStream { cause } => {
                let mut r = "Dynamic field stream error: ".to_owned();
                r.append(cause.as_str());
                r
            },
            MarketError::InvalidChildId { child_id } => {
                let mut r = "Cannot parse child_id '".to_owned();
                r.append(child_id.as_str());
                r.append("'");
                r
            },
            MarketError::SigningFailed { cause } => {
                let mut r = "Signing failed: ".to_owned();
                r.append(cause.as_str());
                r
            },
            MarketError::NoTransaction => "No transaction in response".to_owned(),
            MarketError::NoEffects => "No effects in response".to_owned(),
            MarketError::OnChainFailure { cause } => {
                let mut r = "Transaction failed on-chain: ".to_owned();
                r.append(cause.as_str());
                r
            },
            MarketError::CreatedNotFound => "Object not found in transaction effects".to_owned(),
            MarketError::InvalidCreatedId => "Cannot parse object ID".to_owned(),
            MarketError::TokenNotFound => "AccessToken not found in transaction effects".to_owned(),
            MarketError::InvalidMintedId => "Cannot parse AccessToken ID".to_owned(),
            MarketError::InvalidSubnet { subnet } => {
                let mut r = "Invalid subnet '".to_owned();
                r.append(subnet.as_str());
                r.append("'");
                r
            },
            MarketError::InvalidListingId => "Invalid listing ID".to_owned(),
            MarketError::InvalidTokenId => "Invalid token ID".to_owned(),
            MarketError::InvalidDate { text } => {
                let mut r = "invalid datetime '".to_owned();
                r.append(text.as_str());
                r.append("' — expected \"YYYY-MM-DD HH:MM:SS\" or \"YYYY-MM-DD\"");
                r
            },
            MarketError::ZeroStart => {
                "start must be non-zero; resolve to current time before calling buy_listing".to_owned()
            },
            MarketError::EndNotAfterStart => "end must be greater than start".to_owned(),
            MarketError::ZeroBandwidth => {
                let r = "bandwidth must be non-zero; resolve to seller's bound before calling buy_listing";
                r.to_owned()
            },
            MarketError::UnalignedDuration { duration, granularity, nearest_end } => {
                let mut r = "duration ".to_owned();
                r.append(decimal_text(*duration).as_str());
                r.append(" s is not aligned to listing time_granularity ");
                r.append(decimal_text(*granularity).as_str());
                r.append(" s (nearest lower end: ");
                r.append(decimal_text(*nearest_end).as_str());
                r.append(")");
                r
            },
            MarketError::UnalignedBandwidth { bandwidth, granularity, nearest } => {
                let mut r = "bandwidth ".to_owned();
                r.append(decimal_text(*bandwidth).as_str());
                r.append(" kB/s is not aligned to listing bw_granularity ");
                r.append(decimal_text(*granularity).as_str());
                r.append(" kB/s (nearest lower value: ");
                r.append(decimal_text(*nearest).as_str());
                r.append(")");
                r
            },
        }
    }
}

/// An entry without a key is told of by its length or its flag.
pub proof fn key_errors_tell_what_they_are_about(length: usize, flag: u8)
    ensures
        (KeyError::TooShort { length }).text() == "Keystore entry too short ("@ + (decimal(
            length as nat,
        ) + " bytes, expected ≥33)"@),
        byte_hex(flag).is_suffix_of((KeyError::UnsupportedScheme { flag }).text()),
{
    let told = (KeyError::TooShort { length }).text();
    assert(told =~= "Keystore entry too short ("@ + (decimal(length as nat)
        + " bytes, expected ≥33)"@));
}

/// An error tells of the address, the cause or the text that it is about, all of it.
pub proof fn errors_tell_what_they_are_about(address: RawId, text: String)
    ensures
        address_chars(address@).is_suffix_of((MarketError::NoKeypair { address }).text()),
        text@.is_suffix_of((MarketError::FieldStream { cause: text }).text()),
        text@.is_suffix_of((MarketError::SigningFailed { cause: text }).text()),
        text@.is_suffix_of((MarketError::OnChainFailure { cause: text }).text()),
        (text@ + "'"@).is_suffix_of((MarketError::InvalidChildId { child_id: text }).text()),
        (text@ + "'"@).is_suffix_of((MarketError::InvalidSubnet { subnet: text }).text()),
        ("invalid datetime '"@ + text@).is_prefix_of((MarketError::InvalidDate { text }).text()),
{
}

/// A refusal tells of the quantity, of the granularity and of the nearest one that is sold.
pub proof fn refusals_tell_the_nearest(asked: u64, granularity: u64, nearest: u64)
    ensures
        ({
            let told = (MarketError::UnalignedDuration {
                duration: asked,
                granularity,
                nearest_end: nearest,
            }).text();
            &&& ("duration "@ + decimal(asked as nat)).is_prefix_of(told)
            &&& (decimal(granularity as nat) + " s (nearest lower end: "@ + decimal(nearest as nat)
                + ")"@).is_suffix_of(told)
        }),
        ({
            let told = (MarketError::UnalignedBandwidth {
                bandwidth: asked,
                granularity,
                nearest,
            }).text();
            &&& ("bandwidth "@ + decimal(asked as nat)).is_prefix_of(told)
            &&& (decimal(granularity as nat) + " kB/s (nearest lower value: "@ + decimal(
                nearest as nat,
            ) + ")"@).is_suffix_of(told)
        }),
{
    let time = (MarketError::UnalignedDuration {
        duration: asked,
        granularity,
        nearest_end: nearest,
    }).text();
    let end = decimal(granularity as nat) + " s (nearest lower end: "@ + decimal(nearest as nat)
        + ")"@;
    assert(time =~= "duration "@ + decimal(asked as nat)
        + " s is not aligned to listing time_granularity "@ + end);
    let bandwidth = (MarketError::UnalignedBandwidth {
        bandwidth: asked,
        granularity,
        nearest,
    }).text();
    let end = decimal(granularity as nat) + " kB/s (nearest lower value: "@ + decimal(
        nearest as nat,
    ) + ")"@;
    assert(bandwidth =~= "bandwidth "@ + decimal(asked as nat)
        + " kB/s is not aligned to listing bw_granularity "@ + end);
}

}
