//! The wallet: the keys of a keystore, the addresses that belong to them, and the
//! signing of transactions.

use sui_crypto::ed25519::Ed25519PrivateKey;
use sui_crypto::secp256k1::Secp256k1PrivateKey;
use sui_crypto::secp256r1::Secp256r1PrivateKey;
use sui_crypto::simple::SimpleKeypair;
use sui_crypto::SuiSigner;
use sui_sdk_types::Transaction;
use vstd::arithmetic::power::{lemma_pow0, pow};
use vstd::prelude::*;

use crate::address::{same_id, RawId};
use crate::base64_text::{base64_bytes, base64_round_trip, base64_text, decode_base64};
use crate::config::MarketConfig;
use crate::error::{KeyError, MarketError};
use crate::text::texts;

verus! {

/// A signature scheme.
#[derive(Debug, Clone, Copy, PartialEq, Eq, Structural)]
pub enum KeyScheme {
    Ed25519,
    Secp256k1,
    Secp256r1,
}

/// A private key, with the scheme that it is for.
pub struct Keypair {
    pub scheme: KeyScheme,
    pub secret: [u8; 32],
}

/// What a [`Keypair`] holds.
pub struct KeypairView {
    pub scheme: KeyScheme,
    pub secret: Seq<u8>,
}

impl View for Keypair {
    type V = KeypairView;

    open spec fn view(&self) -> KeypairView {
        KeypairView { scheme: self.scheme, secret: self.secret@ }
    }
}

/// Loaded wallet: the active address and its key. The RPC URL and other network
/// settings come from the configuration.
pub struct Wallet {
    pub address: RawId,
    pub keypair: Keypair,
}

/// The number that `s` is in base 256, the high byte first.
pub open spec fn big_endian(s: Seq<u8>) -> nat
    decreases s.len(),
{
    if s.len() == 0 {
        0
    } else {
        256 * big_endian(s.drop_last()) + s.last() as nat
    }
}

/// The order of the group of secp256k1, the high byte first.
pub open spec fn secp256k1_order() -> Seq<u8> {
    seq![
        0xffu8, 0xff, 0xff, 0xff, 0xff, 0xff, 0xff, 0xff,
        0xff, 0xff, 0xff, 0xff, 0xff, 0xff, 0xff, 0xfe,
        0xba, 0xae, 0xdc, 0xe6, 0xaf, 0x48, 0xa0, 0x3b,
        0xbf, 0xd2, 0x5e, 0x8c, 0xd0, 0x36, 0x41, 0x41,
    ]
}

/// The order of the group of secp256r1, the high byte first.
pub open spec fn secp256r1_order() -> Seq<u8> {
    seq![
        0xffu8, 0xff, 0xff, 0xff, 0x00, 0x00, 0x00, 0x00,
        0xff, 0xff, 0xff, 0xff, 0xff, 0xff, 0xff, 0xff,
        0xbc, 0xe6, 0xfa, 0xad, 0xa7, 0x17, 0x9e, 0x84,
        0xf3, 0xb9, 0xca, 0xc2, 0xfc, 0x63, 0x25, 0x51,
    ]
}

/// Whether `secret` is a private key in a group of the given order.
pub open spec fn in_group(secret: Seq<u8>, order: Seq<u8>) -> bool {
    0 < big_endian(secret) < big_endian(order)
}

/// The address of an Ed25519 key.
pub uninterp spec fn ed25519_address(secret: Seq<u8>) -> Seq<u8>;

/// The address of a secp256k1 key.
pub uninterp spec fn secp256k1_address(secret: Seq<u8>) -> Seq<u8>;

/// The address of a secp256r1 key.
pub uninterp spec fn secp256r1_address(secret: Seq<u8>) -> Seq<u8>;

impl KeypairView {
    /// Whether the key is one of its scheme.
    pub open spec fn valid(self) -> bool {
        match self.scheme {
            KeyScheme::Ed25519 => true,
            KeyScheme::Secp256k1 => in_group(self.secret, secp256k1_order()),
            KeyScheme::Secp256r1 => in_group(self.secret, secp256r1_order()),
        }
    }

    /// The address that belongs to the key.
    pub open spec fn address(self) -> Seq<u8> {
        match self.scheme {
            KeyScheme::Ed25519 => ed25519_address(self.secret),
            KeyScheme::Secp256k1 => secp256k1_address(self.secret),
            KeyScheme::Secp256r1 => secp256r1_address(self.secret),
        }
    }
}

/// The address of an Ed25519 key.
///
/// Trusted: `Ed25519PrivateKey::new`, `public_key` and `derive_address` accept every
/// key, and give the same address for the same key.
#[verifier::external_body]
fn address_of_ed25519(secret: &[u8; 32]) -> (r: RawId)
    ensures
        r@ == ed25519_address(secret@),
{
    Ed25519PrivateKey::new(*secret).public_key().derive_address().into_inner()
}

/// The address of a secp256k1 key.
///
/// Trusted: `Secp256k1PrivateKey::new` accepts the keys from 1 up to the order of the
/// group, `public_key` and `derive_address` give the same address for the same key.
#[verifier::external_body]
fn address_of_secp256k1(secret: &[u8; 32]) -> (r: Option<RawId>)
    ensures
        r is Some <==> in_group(secret@, secp256k1_order()),
        r matches Some(a) ==> a@ == secp256k1_address(secret@),
{
    let key = Secp256k1PrivateKey::new(*secret).ok()?;
    Some(key.public_key().derive_address().into_inner())
}

/// The address of a secp256r1 key.
///
/// Trusted: `Secp256r1PrivateKey::new` panics on a key that is not from 1 up to the
/// order of the group; `public_key` and `derive_address` give the same address for
/// the same key.
#[verifier::external_body]
fn address_of_secp256r1(secret: &[u8; 32]) -> (r: RawId)
    requires
        in_group(secret@, secp256r1_order()),
    ensures
        r@ == secp256r1_address(secret@),
{
    Secp256r1PrivateKey::new(*secret).public_key().derive_address().into_inner()
}

/// Whether `secret` is a private key of secp256r1.
fn is_secp256r1_key(secret: &[u8; 32]) -> (r: bool)
    ensures
        r == in_group(secret@, secp256r1_order()),
{
    let order: [u8; 32] = [
        0xff, 0xff, 0xff, 0xff, 0x00, 0x00, 0x00, 0x00,
        0xff, 0xff, 0xff, 0xff, 0xff, 0xff, 0xff, 0xff,
        0xbc, 0xe6, 0xfa, 0xad, 0xa7, 0x17, 0x9e, 0x84,
        0xf3, 0xb9, 0xca, 0xc2, 0xfc, 0x63, 0x25, 0x51,
    ];
    proof {
        assert(order@ =~= secp256r1_order());
    }
    let mut positive: bool = false;
    let mut below: bool = false;
    let mut above: bool = false;
    let mut i: usize = 0;
    while i < 32
        invariant
            i <= 32,
            positive == (big_endian(secret@.take(i as int)) > 0),
            below == (big_endian(secret@.take(i as int)) < big_endian(order@.take(i as int))),
            above == (big_endian(secret@.take(i as int)) > big_endian(order@.take(i as int))),
        decreases 32 - i,
    {
        proof {
            assert(secret@.take(i + 1).drop_last() =~= secret@.take(i as int));
            assert(order@.take(i + 1).drop_last() =~= order@.take(i as int));
        }
        if secret[i] != 0 {
            positive = true;
        }
        if !below && !above {
            below = secret[i] < order[i];
            above = secret[i] > order[i];
        }
        i += 1;
    }
    proof {
        assert(secret@.take(32) =~= secret@);
        assert(order@.take(32) =~= order@);
    }
    positive && below
}

/// The key that the bytes of a keystore entry hold: a flag (0 for Ed25519, 1 for
/// secp256k1, 2 for secp256r1), then 32 bytes of key; what follows is ignored.
pub open spec fn entry_key(bytes: Option<Seq<u8>>) -> Result<KeypairView, KeyError> {
    match bytes {
        None => Err(KeyError::NotBase64),
        Some(b) => {
            let secret = b.subrange(1, 33);
            if b.len() < 33 {
                Err(KeyError::TooShort { length: b.len() as usize })
            } else if b[0] == 0 {
                Ok(KeypairView { scheme: KeyScheme::Ed25519, secret })
            } else if b[0] == 1 {
                if in_group(secret, secp256k1_order()) {
                    Ok(KeypairView { scheme: KeyScheme::Secp256k1, secret })
                } else {
                    Err(KeyError::InvalidSecp256k1)
                }
            } else if b[0] == 2 {
                Ok(KeypairView { scheme: KeyScheme::Secp256r1, secret })
            } else {
                Err(KeyError::UnsupportedScheme { flag: b[0] })
            }
        },
    }
}

/// Whether the bytes of an entry name a secp256r1 key that is none.
pub open spec fn broken_entry(bytes: Option<Seq<u8>>) -> bool {
    entry_key(bytes) matches Ok(k) && !k.valid()
}

/// The 32 bytes of key in the bytes of an entry.
fn entry_secret(bytes: &Vec<u8>) -> (r: [u8; 32])
    requires
        bytes@.len() >= 33,
    ensures
        r@ == bytes@.subrange(1, 33),
{
    let mut r: [u8; 32] = [0; 32];
    let mut i: usize = 0;
    while i < 32
        invariant
            i <= 32,
            bytes@.len() >= 33,
            forall|j: int| 0 <= j < i ==> r@[j] == bytes@[j + 1],
        decreases 32 - i,
    {
        r[i] = bytes[i + 1];
        i += 1;
    }
    proof {
        assert(r@ =~= bytes@.subrange(1, 33));
    }
    r
}

/// Decode one base64 keystore entry (`flag || 32-byte private key`) into a key and
/// the corresponding address.
pub fn keypair_from_entry(entry: &str) -> (r: Result<(Keypair, RawId), KeyError>)
    requires
        !broken_entry(base64_bytes(entry@)),
    ensures
        match r {
            Ok((keypair, address)) => {
                &&& entry_key(base64_bytes(entry@)) == Ok::<KeypairView, KeyError>(keypair@)
                &&& keypair@.valid()
                &&& address@ == keypair@.address()
            },
            Err(e) => entry_key(base64_bytes(entry@)) == Err::<KeypairView, KeyError>(e),
        },
{
    let bytes = match decode_base64(entry) {
        Some(b) => b,
        None => return Err(KeyError::NotBase64),
    };
    if bytes.len() < 33 {
        return Err(KeyError::TooShort { length: bytes.len() });
    }
    let flag: u8 = bytes[0];
    let secret = entry_secret(&bytes);
    if flag == 0 {
        let address = address_of_ed25519(&secret);
        Ok((Keypair { scheme: KeyScheme::Ed25519, secret }, address))
    } else if flag == 1 {
        match address_of_secp256k1(&secret) {
            Some(address) => Ok((Keypair { scheme: KeyScheme::Secp256k1, secret }, address)),
            None => Err(KeyError::InvalidSecp256k1),
        }
    } else if flag == 2 {
        let address = address_of_secp256r1(&secret);
        Ok((Keypair { scheme: KeyScheme::Secp256r1, secret }, address))
    } else {
        Err(KeyError::UnsupportedScheme { flag })
    }
}

/// Whether an entry names a secp256r1 key that is none.
pub fn is_broken_entry(entry: &str) -> (r: bool)
    ensures
        r == broken_entry(base64_bytes(entry@)),
{
    match decode_base64(entry) {
        Some(bytes) => {
            if bytes.len() >= 33 && bytes[0] == 2 {
                let secret = entry_secret(&bytes);
                !is_secp256r1_key(&secret)
            } else {
                false
            }
        },
        None => false,
    }
}

/// The texts that a JSON document lists, if it is a list of texts.
pub uninterp spec fn json_texts(bytes: Seq<u8>) -> Option<Seq<Seq<char>>>;

/// Reads a JSON list of texts.
///
/// Trusted: `serde_json::from_slice` decides by the bytes alone.
#[verifier::external_body]
fn parse_json_texts(bytes: &[u8]) -> (r: Option<Vec<String>>)
    ensures
        match r {
            Some(v) => json_texts(bytes@) == Some(texts(v@)),
            None => json_texts(bytes@) is None,
        },
{
    serde_json::from_slice(bytes).ok()
}

/// Whether an entry holds the key of `address`.
pub open spec fn owns(entry: Seq<char>, address: Seq<u8>) -> bool {
    &&& !broken_entry(base64_bytes(entry))
    &&& entry_key(base64_bytes(entry)) matches Ok(k)
    &&& k.address() == address
}

/// How many entries stand before the first that holds the key of `address`.
pub open spec fn first_owner(entries: Seq<Seq<char>>, address: Seq<u8>) -> nat
    decreases entries.len(),
{
    if entries.len() == 0 || owns(entries.first(), address) {
        0
    } else {
        1 + first_owner(entries.drop_first(), address)
    }
}

/// What is wrong with the entries that give no key, in their order.
pub open spec fn entry_errors(entries: Seq<Seq<char>>) -> Seq<KeyError>
    decreases entries.len(),
{
    if entries.len() == 0 {
        seq![]
    } else {
        let before = entry_errors(entries.drop_last());
        match entry_key(base64_bytes(entries.last())) {
            Ok(_) => before,
            Err(e) => before.push(e),
        }
    }
}

/// Whether no broken entry stands before the first that holds the key of `address`.
pub open spec fn loadable(entries: Seq<Seq<char>>, address: Seq<u8>) -> bool {
    forall|i: int|
        0 <= i < first_owner(entries, address) ==> !broken_entry(
            base64_bytes(#[trigger] entries[i]),
        )
}

/// Whether a keystore file can be searched for the key of `address`.
pub open spec fn keystore_loadable(bytes: Seq<u8>, address: Seq<u8>) -> bool {
    json_texts(bytes) matches Some(entries) ==> loadable(entries, address)
}

/// What a search of a keystore came to.
pub struct WalletSearch {
    /// The wallet, or why there is none.
    pub outcome: Result<Wallet, MarketError>,
    /// What was wrong with the entries that were skipped on the way.
    pub skipped: Vec<KeyError>,
}

/// What a search of a keystore file comes to.
pub open spec fn searched(cfg: MarketConfig, ks_bytes: Seq<u8>, r: WalletSearch) -> bool {
    match json_texts(ks_bytes) {
        None => {
            &&& r.outcome == Err::<Wallet, MarketError>(MarketError::KeystoreUnparsable)
            &&& r.skipped@ == Seq::<KeyError>::empty()
        },
        Some(entries) => found_key(entries, cfg.sui.address, r),
    }
}

proof fn lemma_first_owner(entries: Seq<Seq<char>>, address: Seq<u8>, i: nat)
    requires
        i <= entries.len(),
        forall|j: int| 0 <= j < i ==> !owns(#[trigger] entries[j], address),
    ensures
        i < entries.len() && owns(entries[i as int], address) ==> first_owner(entries, address)
            == i,
        i == entries.len() ==> first_owner(entries, address) == i,
    decreases entries.len(),
{
    if entries.len() > 0 && i > 0 {
        assert(!owns(entries[0], address));
        let rest = entries.drop_first();
        assert forall|j: int| 0 <= j < i - 1 implies !owns(#[trigger] rest[j], address) by {
            assert(rest[j] == entries[j + 1]);
        }
        lemma_first_owner(rest, address, (i - 1) as nat);
    }
}

proof fn lemma_before_first_owner(entries: Seq<Seq<char>>, address: Seq<u8>)
    ensures
        first_owner(entries, address) <= entries.len(),
        first_owner(entries, address) < entries.len() ==> owns(
            entries[first_owner(entries, address) as int],
            address,
        ),
        forall|j: int|
            0 <= j < first_owner(entries, address) ==> !owns(#[trigger] entries[j], address),
    decreases entries.len(),
{
    if entries.len() > 0 && !owns(entries.first(), address) {
        let rest = entries.drop_first();
        lemma_before_first_owner(rest, address);
        assert forall|j: int| 0 <= j < first_owner(entries, address) implies !owns(
            #[trigger] entries[j],
            address,
        ) by {
            if j > 0 {
                assert(entries[j] == rest[j - 1]);
            }
        }
    }
}

/// What a search of keystore entries comes to: the first key that belongs to
/// `address`, and what was wrong with the entries before it.
pub open spec fn found_key(entries: Seq<Seq<char>>, address: RawId, r: WalletSearch) -> bool {
    let n = first_owner(entries, address@) as int;
    &&& r.skipped@ == entry_errors(entries.take(n))
    &&& if n < entries.len() {
        &&& r.outcome matches Ok(wallet)
        &&& wallet.address == address
        &&& entry_key(base64_bytes(entries[n])) == Ok::<KeypairView, KeyError>(wallet.keypair@)
        &&& wallet.wf()
    } else {
        r.outcome == Err::<Wallet, MarketError>(MarketError::NoKeypair { address })
    }
}

/// Searches keystore entries for the key of `address`.
pub fn find_key(entries: &Vec<String>, address: &RawId) -> (r: WalletSearch)
    requires
        loadable(texts(entries@), address@),
    ensures
        found_key(texts(entries@), *address, r),
{
    let mut skipped: Vec<KeyError> = Vec::new();
    let ghost list = texts(entries@);
    let mut i: usize = 0;
    proof {
        assert(list.take(0) =~= seq![]);
        lemma_before_first_owner(list, address@);
    }
    while i < entries.len()
        invariant
            list == texts(entries@),
            loadable(list, address@),
            i <= entries@.len(),
            i <= first_owner(list, address@),
            first_owner(list, address@) <= list.len(),
            first_owner(list, address@) < list.len() ==> owns(
                list[first_owner(list, address@) as int],
                address@,
            ),
            forall|j: int| 0 <= j < i ==> !owns(#[trigger] list[j], address@),
            skipped@ == entry_errors(list.take(i as int)),
        decreases entries@.len() - i,
    {
        let entry = &entries[i];
        proof {
            assert(list[i as int] == entry@);
            assert(list.take(i + 1).drop_last() =~= list.take(i as int));
            assert(!broken_entry(base64_bytes(list[i as int])));
        }
        match keypair_from_entry(entry.as_str()) {
            Ok((keypair, owner)) => {
                if same_id(&owner, address) {
                    proof {
                        assert(owns(list[i as int], address@));
                        lemma_first_owner(list, address@, i as nat);
                    }
                    return WalletSearch {
                        outcome: Ok(Wallet { address: *address, keypair }),
                        skipped,
                    };
                }
            },
            Err(e) => {
                skipped.push(e);
            },
        }
        i += 1;
        proof {
            if first_owner(list, address@) < i {
                assert(owns(list[first_owner(list, address@) as int], address@));
            }
        }
    }
    proof {
        lemma_first_owner(list, address@, i as nat);
    }
    WalletSearch { outcome: Err(MarketError::NoKeypair { address: *address }), skipped }
}

/// Load the wallet for the address specified in the configuration, from the bytes
/// of its keystore file.
pub fn load_wallet(cfg: &MarketConfig, ks_bytes: &[u8]) -> (r: WalletSearch)
    requires
        keystore_loadable(ks_bytes@, cfg.sui.address@),
    ensures
        searched(*cfg, ks_bytes@, r),
{
    match parse_json_texts(ks_bytes) {
        Some(entries) => find_key(&entries, &cfg.sui.address),
        None => WalletSearch {
            outcome: Err(MarketError::KeystoreUnparsable),
            skipped: Vec::new(),
        },
    }
}

/// Load the wallet, or return `None` where a broken entry stands in the way of the
/// search.
pub fn try_load_wallet(cfg: &MarketConfig, ks_bytes: &[u8]) -> (r: Option<WalletSearch>)
    ensures
        r is Some <==> keystore_loadable(ks_bytes@, cfg.sui.address@),
        r matches Some(search) ==> searched(*cfg, ks_bytes@, search),
{
    if let Some(entries) = parse_json_texts(ks_bytes) {
        let ghost list = texts(entries@);
        let address: RawId = cfg.sui.address;
        let mut i: usize = 0;
        proof {
            lemma_before_first_owner(list, address@);
        }
        while i < entries.len()
            invariant_except_break
                i <= first_owner(list, address@),
            invariant
                list == texts(entries@),
                address == cfg.sui.address,
                i <= entries@.len(),
                first_owner(list, address@) <= list.len(),
                first_owner(list, address@) < list.len() ==> owns(
                    list[first_owner(list, address@) as int],
                    address@,
                ),
                json_texts(ks_bytes@) == Some(list),
                forall|j: int| 0 <= j < i ==> !owns(#[trigger] list[j], address@),
                forall|j: int|
                    0 <= j < i ==> !broken_entry(base64_bytes(#[trigger] list[j])),
            ensures
                loadable(list, address@),
            decreases entries@.len() - i,
        {
            let entry = &entries[i];
            proof {
                assert(list[i as int] == entry@);
            }
            if is_broken_entry(entry.as_str()) {
                return None;
            }
            if let Ok((_, owner)) = keypair_from_entry(entry.as_str()) {
                if same_id(&owner, &address) {
                    proof {
                        assert(owns(list[i as int], address@));
                        lemma_first_owner(list, address@, i as nat);
                    }
                    break;
                }
            }
            i += 1;
        }
    }
    Some(load_wallet(cfg, ks_bytes))
}

/// The signature of a transaction, or the text of the error.
pub uninterp spec fn transaction_signature(
    scheme: KeyScheme,
    secret: Seq<u8>,
    transaction: Seq<u8>,
) -> Result<Seq<u8>, Seq<char>>;

/// Signs the transaction with the given BCS bytes.
///
/// Trusted: `SuiSigner::sign_transaction` of `SimpleKeypair` signs by the key and the
/// transaction alone, for these schemes without any randomness. `Secp256r1PrivateKey`
/// panics on a key that is none.
#[verifier::external_body]
fn sign_bytes(keypair: &Keypair, transaction: &[u8]) -> (r: Result<Vec<u8>, String>)
    requires
        keypair@.valid(),
    ensures
        match r {
            Ok(signature) => transaction_signature(keypair.scheme, keypair.secret@, transaction@)
                == Ok::<Seq<u8>, Seq<char>>(signature@),
            Err(text) => transaction_signature(keypair.scheme, keypair.secret@, transaction@)
                == Err::<Seq<u8>, Seq<char>>(text@),
        },
{
    let tx: Transaction = bcs::from_bytes(transaction).map_err(|e| e.to_string())?;
    let raw = keypair.secret;
    let key = match keypair.scheme {
        KeyScheme::Ed25519 => SimpleKeypair::from(Ed25519PrivateKey::new(raw)),
        KeyScheme::Secp256k1 => {
            SimpleKeypair::from(Secp256k1PrivateKey::new(raw).map_err(|e| e.to_string())?)
        },
        KeyScheme::Secp256r1 => SimpleKeypair::from(Secp256r1PrivateKey::new(raw)),
    };
    key.sign_transaction(&tx).map(|s| s.to_bytes()).map_err(|e| e.to_string())
}

impl Wallet {
    /// Whether the key of the wallet is one of its scheme, and belongs to its address.
    pub open spec fn wf(self) -> bool {
        &&& self.keypair@.valid()
        &&& self.keypair@.address() == self.address@
    }

    /// The address that the wallet signs for.
    pub fn active_address(&self) -> (r: RawId)
        ensures
            r == self.address,
    {
        self.address
    }

    /// Signs the transaction with the given BCS bytes.
    pub fn sign_transaction(&self, transaction: &[u8]) -> (r: Result<Vec<u8>, MarketError>)
        requires
            self.keypair@.valid(),
        ensures
            match transaction_signature(
                self.keypair.scheme,
                self.keypair.secret@,
                transaction@,
            ) {
                Ok(signature) => r matches Ok(s) && s@ == signature,
                Err(text) => r matches Err(MarketError::SigningFailed { cause }) && cause@ == text,
            },
    {
        match sign_bytes(&self.keypair, transaction) {
            Ok(signature) => Ok(signature),
            Err(cause) => Err(MarketError::SigningFailed { cause }),
        }
    }
}

/// An entry that is the base64 text of the flag of a scheme, a key of the scheme and
/// anything behind it holds this key, byte by byte, in this scheme.
pub proof fn entries_hold_their_key(secret: Seq<u8>, tail: Seq<u8>)
    requires
        secret.len() == 32,
    ensures
        ({
            let key = entry_key(base64_bytes(base64_text(seq![0u8] + secret + tail)));
            key matches Ok(k) && k.scheme == KeyScheme::Ed25519 && k.secret == secret
        }),
        in_group(secret, secp256k1_order()) ==> ({
            let key = entry_key(base64_bytes(base64_text(seq![1u8] + secret + tail)));
            key matches Ok(k) && k.scheme == KeyScheme::Secp256k1 && k.secret == secret
        }),
        ({
            let key = entry_key(base64_bytes(base64_text(seq![2u8] + secret + tail)));
            key matches Ok(k) && k.scheme == KeyScheme::Secp256r1 && k.secret == secret
        }),
{
    lemma_entry(0, secret, tail);
    lemma_entry(1, secret, tail);
    lemma_entry(2, secret, tail);
}

proof fn lemma_entry(flag: u8, secret: Seq<u8>, tail: Seq<u8>)
    requires
        secret.len() == 32,
    ensures
        ({
            let bytes = seq![flag] + secret + tail;
            &&& base64_bytes(base64_text(bytes)) == Some(bytes)
            &&& bytes.len() >= 33
            &&& bytes[0] == flag
            &&& bytes.subrange(1, 33) == secret
        }),
{
    let bytes = seq![flag] + secret + tail;
    base64_round_trip(bytes);
    assert(bytes.subrange(1, 33) =~= secret);
}

/// An entry gives no key, and says why: it is no base64 text, it is shorter than a flag
/// and a key, its flag is none, or its number is no secp256k1 key.
pub proof fn entries_without_a_key_say_why(entry: Seq<char>, bytes: Seq<u8>)
    ensures
        (forall|b: Seq<u8>| #[trigger] base64_text(b) != entry) ==> entry_key(base64_bytes(entry))
            == Err::<KeypairView, KeyError>(KeyError::NotBase64),
        bytes.len() < 33 ==> entry_key(base64_bytes(base64_text(bytes))) == Err::<
            KeypairView,
            KeyError,
        >(KeyError::TooShort { length: bytes.len() as usize }),
        bytes.len() >= 33 && bytes[0] > 2 ==> entry_key(base64_bytes(base64_text(bytes))) == Err::<
            KeypairView,
            KeyError,
        >(KeyError::UnsupportedScheme { flag: bytes[0] }),
        bytes.len() >= 33 && bytes[0] == 1 && !in_group(bytes.subrange(1, 33), secp256k1_order())
            ==> entry_key(base64_bytes(base64_text(bytes))) == Err::<KeypairView, KeyError>(
            KeyError::InvalidSecp256k1,
        ),
{
    base64_round_trip(bytes);
}

/// The only entries that stand in the way of a search are those that name a secp256r1 key
/// with a number that is none.
pub proof fn broken_entries_are_impossible_secp256r1_keys(bytes: Seq<u8>)
    ensures
        broken_entry(base64_bytes(base64_text(bytes))) <==> bytes.len() >= 33 && bytes[0] == 2
            && !in_group(bytes.subrange(1, 33), secp256r1_order()),
{
    base64_round_trip(bytes);
}

/// An entry holds the key of an address if its bytes are a flag and a possible key of that
/// scheme that has the address, and only then.
pub proof fn entries_own_the_address_of_their_key(bytes: Seq<u8>, address: Seq<u8>)
    ensures
        owns(base64_text(bytes), address) <==> bytes.len() >= 33 && {
            let secret = bytes.subrange(1, 33);
            ||| bytes[0] == 0 && ed25519_address(secret) == address
            ||| bytes[0] == 1 && in_group(secret, secp256k1_order()) && secp256k1_address(secret)
                == address
            ||| bytes[0] == 2 && in_group(secret, secp256r1_order()) && secp256r1_address(secret)
                == address
        },
{
    base64_round_trip(bytes);
}

/// A keystore yields the key that stands in it for the address: the first one, and the
/// very secret that its entry holds, whatever stands behind it.
pub proof fn the_key_of_the_address_is_found(
    entries: Seq<Seq<char>>,
    n: int,
    scheme: KeyScheme,
    secret: Seq<u8>,
    tail: Seq<u8>,
    address: RawId,
    r: WalletSearch,
)
    requires
        found_key(entries, address, r),
        0 <= n < entries.len(),
        secret.len() == 32,
        match scheme {
            KeyScheme::Ed25519 => entries[n] == base64_text(seq![0u8] + secret + tail)
                && ed25519_address(secret) == address@,
            KeyScheme::Secp256k1 => entries[n] == base64_text(seq![1u8] + secret + tail) && in_group(
                secret,
                secp256k1_order(),
            ) && secp256k1_address(secret) == address@,
            KeyScheme::Secp256r1 => entries[n] == base64_text(seq![2u8] + secret + tail) && in_group(
                secret,
                secp256r1_order(),
            ) && secp256r1_address(secret) == address@,
        },
    ensures
        r.outcome matches Ok(w) && w.address == address && w.keypair@.address() == address@
            && w.wf(),
        (forall|j: int| 0 <= j < n ==> !owns(#[trigger] entries[j], address@)) ==> (r.outcome matches Ok(
            w,
        ) && w.keypair.scheme == scheme && w.keypair.secret@ == secret && r.skipped@
            == entry_errors(entries.take(n))),
{
    lemma_entry(0, secret, tail);
    lemma_entry(1, secret, tail);
    lemma_entry(2, secret, tail);
    assert(owns(entries[n], address@));
    lemma_before_first_owner(entries, address@);
    if forall|j: int| 0 <= j < n ==> !owns(#[trigger] entries[j], address@) {
        lemma_first_owner(entries, address@, n as nat);
    }
}

/// The key of a loaded wallet stands in the keystore; where no entry holds the key of the
/// address, there is no wallet, and every entry without a key is told of.
pub proof fn loaded_keys_stand_in_the_keystore(
    entries: Seq<Seq<char>>,
    address: RawId,
    r: WalletSearch,
)
    requires
        found_key(entries, address, r),
    ensures
        r.outcome matches Ok(w) ==> exists|n: int|
            0 <= n < entries.len() && owns(#[trigger] entries[n], address@) && entry_key(
                base64_bytes(entries[n]),
            ) == Ok::<KeypairView, KeyError>(w.keypair@),
        (forall|n: int| 0 <= n < entries.len() ==> !owns(#[trigger] entries[n], address@)) ==> {
            &&& r.outcome == Err::<Wallet, MarketError>(MarketError::NoKeypair { address })
            &&& r.skipped@ == entry_errors(entries)
        },
{
    lemma_before_first_owner(entries, address@);
    let n = first_owner(entries, address@) as int;
    if r.outcome is Ok {
        assert(owns(entries[n], address@));
    }
    if forall|n: int| 0 <= n < entries.len() ==> !owns(#[trigger] entries[n], address@) {
        lemma_first_owner(entries, address@, entries.len());
        assert(entries.take(n) =~= entries);
    }
}

/// Each entry without a key is told of once, in the order of the entries, and those with a
/// key are not.
pub proof fn entries_are_told_of_one_by_one(
    a: Seq<Seq<char>>,
    b: Seq<Seq<char>>,
    entry: Seq<char>,
)
    ensures
        entry_errors(a + b) == entry_errors(a) + entry_errors(b),
        entry_errors(seq![entry]) == match entry_key(base64_bytes(entry)) {
            Ok(_) => Seq::<KeyError>::empty(),
            Err(e) => seq![e],
        },
    decreases b.len(),
{
    let one = seq![entry];
    assert(one.drop_last() =~= seq![]);
    assert(entry_errors(one.drop_last()) =~= seq![]);
    assert(one.last() == entry);
    if b.len() == 0 {
        assert(a + b =~= a);
    } else {
        entries_are_told_of_one_by_one(a, b.drop_last(), entry);
        assert((a + b).drop_last() =~= a + b.drop_last());
        assert((a + b).last() == b.last());
    }
}

/// A keystore file is searched entry by entry if it lists texts, for the configured
/// address, and is refused if not.
pub proof fn keystores_are_lists_of_texts(
    cfg: MarketConfig,
    ks_bytes: Seq<u8>,
    r: WalletSearch,
)
    requires
        searched(cfg, ks_bytes, r),
    ensures
        json_texts(ks_bytes) is None ==> r.outcome == Err::<Wallet, MarketError>(
            MarketError::KeystoreUnparsable,
        ) && r.skipped@.len() == 0,
        json_texts(ks_bytes) matches Some(entries) ==> found_key(entries, cfg.sui.address, r),
        r.outcome matches Ok(w) ==> w.address == cfg.sui.address && w.wf(),
{
}

/// A number in base 256 has its high byte first.
pub proof fn the_high_byte_comes_first(high: u8, rest: Seq<u8>)
    ensures
        big_endian(seq![high] + rest) == high * pow(256, rest.len()) + big_endian(rest),
        big_endian(rest) < pow(256, rest.len()),
    decreases rest.len(),
{
    let all = seq![high] + rest;
    if rest.len() == 0 {
        lemma_pow0(256);
        assert(all =~= seq![high]);
        assert(all.drop_last() =~= seq![]);
        assert(big_endian(all.drop_last()) == 0);
    } else {
        let init = rest.drop_last();
        the_high_byte_comes_first(high, init);
        assert(all.drop_last() =~= seq![high] + init);
        assert(all.last() == rest.last());
        reveal(pow);
        assert(pow(256, rest.len()) == 256 * pow(256, init.len()));
        let p = pow(256, init.len());
        assert(256 * (high * p) == high * (256 * p)) by (nonlinear_arith);
    }
}

/// The orders of the two groups.
pub proof fn the_orders_of_the_groups()
    ensures
        big_endian(secp256k1_order())
            == 0xffffffff_ffffffff_ffffffff_fffffffe_baaedce6_af48a03b_bfd25e8c_d0364141int,
        big_endian(secp256r1_order())
            == 0xffffffff_00000000_ffffffff_ffffffff_bce6faad_a7179e84_f3b9cac2_fc632551int,
{
    lemma_words(secp256k1_order());
    lemma_words(secp256r1_order());
    lemma_word(secp256k1_order(), 0);
    lemma_word(secp256k1_order(), 4);
    lemma_word(secp256k1_order(), 8);
    lemma_word(secp256k1_order(), 12);
    lemma_word(secp256k1_order(), 16);
    lemma_word(secp256k1_order(), 20);
    lemma_word(secp256k1_order(), 24);
    lemma_word(secp256r1_order(), 0);
    lemma_word(secp256r1_order(), 4);
    lemma_word(secp256r1_order(), 8);
    lemma_word(secp256r1_order(), 12);
    lemma_word(secp256r1_order(), 16);
    lemma_word(secp256r1_order(), 20);
    lemma_word(secp256r1_order(), 24);
}

/// A secret is a key if its number is neither zero nor as large as the order of the group.
pub proof fn keys_are_numbers_below_the_order(secret: Seq<u8>, order: Seq<u8>)
    ensures
        in_group(secret, order) <==> big_endian(secret) != 0 && big_endian(secret) < big_endian(
            order,
        ),
        !in_group(order, order),
{
}

/// A key has the address that its own scheme gives it.
pub proof fn keys_have_the_address_of_their_scheme(key: Keypair)
    ensures
        key@.scheme == key.scheme && key@.secret == key.secret@,
        key.scheme == KeyScheme::Ed25519 ==> key@.address() == ed25519_address(key.secret@),
        key.scheme == KeyScheme::Secp256k1 ==> key@.address() == secp256k1_address(key.secret@),
        key.scheme == KeyScheme::Secp256r1 ==> key@.address() == secp256r1_address(key.secret@),
{
}

/// The next four bytes of a number in base 256.
proof fn lemma_word(s: Seq<u8>, k: int)
    requires
        0 <= k,
        k + 4 <= s.len(),
    ensures
        big_endian(s.take(k + 4)) == big_endian(s.take(k)) * 0x1_0000_0000 + s[k] * 0x100_0000 + s[k
            + 1] * 0x1_0000 + s[k + 2] * 0x100 + s[k + 3],
{
    assert(s.take(k + 1).drop_last() =~= s.take(k));
    assert(s.take(k + 2).drop_last() =~= s.take(k + 1));
    assert(s.take(k + 3).drop_last() =~= s.take(k + 2));
    assert(s.take(k + 4).drop_last() =~= s.take(k + 3));
    assert(big_endian(s.take(k + 1)) == 256 * big_endian(s.take(k)) + s[k]);
    assert(big_endian(s.take(k + 2)) == 256 * big_endian(s.take(k + 1)) + s[k + 1]);
    assert(big_endian(s.take(k + 3)) == 256 * big_endian(s.take(k + 2)) + s[k + 2]);
    assert(big_endian(s.take(k + 4)) == 256 * big_endian(s.take(k + 3)) + s[k + 3]);
}

proof fn lemma_words(s: Seq<u8>)
    requires
        s.len() == 32,
    ensures
        big_endian(s.take(0)) == 0,
        big_endian(s) == big_endian(s.take(28)) * 0x1_0000_0000 + s[28] * 0x100_0000 + s[29]
            * 0x1_0000 + s[30] * 0x100 + s[31],
{
    lemma_word(s, 28);
    assert(s.take(32) =~= s);
}

/// A keystore can be searched unless a broken entry stands before the key of the address;
/// one that lists no texts can be searched, and is refused.
pub proof fn broken_entries_stand_in_the_way(
    entries: Seq<Seq<char>>,
    address: Seq<u8>,
    bytes: Seq<u8>,
    n: int,
)
    ensures
        0 <= n < entries.len() && owns(entries[n], address) && (forall|i: int|
            0 <= i < n ==> !broken_entry(base64_bytes(#[trigger] entries[i]))) ==> loadable(
            entries,
            address,
        ),
        (forall|i: int|
            0 <= i < entries.len() ==> !broken_entry(base64_bytes(#[trigger] entries[i])))
            ==> loadable(entries, address),
        0 <= n < entries.len() && broken_entry(base64_bytes(entries[n])) && (forall|i: int|
            0 <= i < n ==> !owns(#[trigger] entries[i], address)) ==> !loadable(entries, address),
        json_texts(bytes) is None ==> keystore_loadable(bytes, address),
        json_texts(bytes) == Some(entries) ==> (keystore_loadable(bytes, address) <==> loadable(
            entries,
            address,
        )),
{
    lemma_before_first_owner(entries, address);
    let k = first_owner(entries, address) as int;
    if 0 <= n < entries.len() && owns(entries[n], address) {
        assert(k <= n) by {
            if n < k {
                assert(!owns(entries[n], address));
            }
        }
    }
    if 0 <= n < entries.len() && broken_entry(base64_bytes(entries[n])) && (forall|i: int|
        0 <= i < n ==> !owns(#[trigger] entries[i], address)) {
        assert(!owns(entries[n], address));
        assert(n < k) by {
            if k <= n && k < entries.len() {
                assert(owns(entries[k], address));
            }
        }
    }
}

}
