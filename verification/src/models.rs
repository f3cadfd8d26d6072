//! The on-chain objects and events of the marketplace, and how they are read from
//! their BCS bytes. Time fields are in seconds; bandwidth fields are in kB/s.

use vstd::prelude::*;

use crate::address::RawId;
use crate::encoding::{
    bool_bytes, bool_bytes_unique, equal_heads, text_bytes, text_bytes_unique, text_fits,
    u64_bytes, u64_bytes_unique,
};

verus! {

/// The right to use a service for a while.
#[derive(Debug)]
pub struct AccessToken {
    pub id: RawId,
    pub listing_id: RawId,
    pub service_name: String,
    pub ip_address: String,
    pub valid_from: u64,
    pub expires_at: u64,
    pub bandwidth: u64,
    pub issuer: RawId,
}

/// An offer of a service; its `token` holds the widest terms that can be bought.
#[derive(Debug)]
pub struct ServiceListing {
    pub id: RawId,
    pub issuer: RawId,
    pub name: String,
    pub ip_address: String,
    pub price_mist: u64,
    pub is_active: bool,
    pub min_bandwidth: u64,
    pub min_duration: u64,
    pub bw_granularity: u64,
    pub time_granularity: u64,
    pub token: AccessToken,
}

/// The bag that a marketplace keeps its listings in.
#[derive(Debug)]
pub struct ObjectBagRef {
    pub id: RawId,
    pub size: u64,
}

/// A marketplace.
#[derive(Debug)]
pub struct MarketplaceObject {
    pub id: RawId,
    pub listings: ObjectBagRef,
}

/// The event that tells of a redeemed access token.
#[derive(Debug)]
pub struct TokenRedeemed {
    pub token_id: RawId,
    pub issuer: RawId,
    pub redeemed_by: RawId,
    pub ip_address: String,
    pub valid_from: u64,
    pub expires_at: u64,
    pub bandwidth: u64,
}

impl Clone for AccessToken {
    fn clone(&self) -> (r: Self)
        ensures
            r == *self,
    {
        AccessToken {
            id: self.id,
            listing_id: self.listing_id,
            service_name: self.service_name.clone(),
            ip_address: self.ip_address.clone(),
            valid_from: self.valid_from,
            expires_at: self.expires_at,
            bandwidth: self.bandwidth,
            issuer: self.issuer,
        }
    }
}

impl Clone for ServiceListing {
    fn clone(&self) -> (r: Self)
        ensures
            r == *self,
    {
        ServiceListing {
            id: self.id,
            issuer: self.issuer,
            name: self.name.clone(),
            ip_address: self.ip_address.clone(),
            price_mist: self.price_mist,
            is_active: self.is_active,
            min_bandwidth: self.min_bandwidth,
            min_duration: self.min_duration,
            bw_granularity: self.bw_granularity,
            time_granularity: self.time_granularity,
            token: self.token.clone(),
        }
    }
}

/// What an [`AccessToken`] holds.
pub struct AccessTokenView {
    pub id: Seq<u8>,
    pub listing_id: Seq<u8>,
    pub service_name: Seq<char>,
    pub ip_address: Seq<char>,
    pub valid_from: u64,
    pub expires_at: u64,
    pub bandwidth: u64,
    pub issuer: Seq<u8>,
}

/// What a [`ServiceListing`] holds.
pub struct ServiceListingView {
    pub id: Seq<u8>,
    pub issuer: Seq<u8>,
    pub name: Seq<char>,
    pub ip_address: Seq<char>,
    pub price_mist: u64,
    pub is_active: bool,
    pub min_bandwidth: u64,
    pub min_duration: u64,
    pub bw_granularity: u64,
    pub time_granularity: u64,
    pub token: AccessTokenView,
}

/// What a [`MarketplaceObject`] holds.
pub struct MarketplaceObjectView {
    pub id: Seq<u8>,
    pub bag_id: Seq<u8>,
    pub bag_size: u64,
}

/// What a [`TokenRedeemed`] event holds.
pub struct TokenRedeemedView {
    pub token_id: Seq<u8>,
    pub issuer: Seq<u8>,
    pub redeemed_by: Seq<u8>,
    pub ip_address: Seq<char>,
    pub valid_from: u64,
    pub expires_at: u64,
    pub bandwidth: u64,
}

impl View for AccessToken {
    type V = AccessTokenView;

    open spec fn view(&self) -> AccessTokenView {
        AccessTokenView {
            id: self.id@,
            listing_id: self.listing_id@,
            service_name: self.service_name@,
            ip_address: self.ip_address@,
            valid_from: self.valid_from,
            expires_at: self.expires_at,
            bandwidth: self.bandwidth,
            issuer: self.issuer@,
        }
    }
}

impl View for ServiceListing {
    type V = ServiceListingView;

    open spec fn view(&self) -> ServiceListingView {
        ServiceListingView {
            id: self.id@,
            issuer: self.issuer@,
            name: self.name@,
            ip_address: self.ip_address@,
            price_mist: self.price_mist,
            is_active: self.is_active,
            min_bandwidth: self.min_bandwidth,
            min_duration: self.min_duration,
            bw_granularity: self.bw_granularity,
            time_granularity: self.time_granularity,
            token: self.token@,
        }
    }
}

impl View for MarketplaceObject {
    type V = MarketplaceObjectView;

    open spec fn view(&self) -> MarketplaceObjectView {
        MarketplaceObjectView {
            id: self.id@,
            bag_id: self.listings.id@,
            bag_size: self.listings.size,
        }
    }
}

impl View for TokenRedeemed {
    type V = TokenRedeemedView;

    open spec fn view(&self) -> TokenRedeemedView {
        TokenRedeemedView {
            token_id: self.token_id@,
            issuer: self.issuer@,
            redeemed_by: self.redeemed_by@,
            ip_address: self.ip_address@,
            valid_from: self.valid_from,
            expires_at: self.expires_at,
            bandwidth: self.bandwidth,
        }
    }
}

impl AccessTokenView {
    /// Whether the format has room for an access token.
    pub open spec fn encodable(self) -> bool {
        &&& self.id.len() == 32
        &&& self.listing_id.len() == 32
        &&& text_fits(self.service_name)
        &&& text_fits(self.ip_address)
        &&& self.issuer.len() == 32
    }

    /// The bytes of an access token: its fields, one after the other.
    pub open spec fn bytes(self) -> Seq<u8> {
        let numbers_on = u64_bytes(self.valid_from) + (u64_bytes(self.expires_at) + (u64_bytes(
            self.bandwidth,
        ) + self.issuer));
        let texts_on = text_bytes(self.service_name) + (text_bytes(self.ip_address) + numbers_on);
        self.id + (self.listing_id + texts_on)
    }
}

/// No two access tokens share their bytes.
pub proof fn access_token_bytes_unique(a: AccessTokenView, b: AccessTokenView)
    requires
        a.encodable(),
        b.encodable(),
        a.bytes() == b.bytes(),
    ensures
        a == b,
{
    let x7 = a.issuer;
    let y7 = b.issuer;
    let x6 = u64_bytes(a.bandwidth) + x7;
    let y6 = u64_bytes(b.bandwidth) + y7;
    let x5 = u64_bytes(a.expires_at) + x6;
    let y5 = u64_bytes(b.expires_at) + y6;
    let x4 = u64_bytes(a.valid_from) + x5;
    let y4 = u64_bytes(b.valid_from) + y5;
    let x3 = text_bytes(a.ip_address) + x4;
    let y3 = text_bytes(b.ip_address) + y4;
    let x2 = text_bytes(a.service_name) + x3;
    let y2 = text_bytes(b.service_name) + y3;
    let x1 = a.listing_id + x2;
    let y1 = b.listing_id + y2;
    equal_heads(a.id, b.id, x1, y1);
    equal_heads(a.listing_id, b.listing_id, x2, y2);
    text_bytes_unique(a.service_name, b.service_name, x3, y3);
    text_bytes_unique(a.ip_address, b.ip_address, x4, y4);
    u64_bytes_unique(a.valid_from, b.valid_from, x5, y5);
    u64_bytes_unique(a.expires_at, b.expires_at, x6, y6);
    u64_bytes_unique(a.bandwidth, b.bandwidth, x7, y7);
}

/// The access token that `bytes` are the bytes of, if they are those of one.
pub open spec fn access_token_of(bytes: Seq<u8>) -> Option<AccessTokenView> {
    if exists|v: AccessTokenView| v.encodable() && #[trigger] v.bytes() == bytes {
        Some(choose|v: AccessTokenView| v.encodable() && #[trigger] v.bytes() == bytes)
    } else {
        None
    }
}

/// Reading the bytes of an access token gives it back.
pub proof fn access_token_round_trip(v: AccessTokenView)
    requires
        v.encodable(),
    ensures
        access_token_of(v.bytes()) == Some(v),
{
    let w = choose|w: AccessTokenView| w.encodable() && #[trigger] w.bytes() == v.bytes();
    access_token_bytes_unique(v, w);
}

impl ServiceListingView {
    /// Whether the format has room for a listing.
    pub open spec fn encodable(self) -> bool {
        &&& self.id.len() == 32
        &&& self.issuer.len() == 32
        &&& text_fits(self.name)
        &&& text_fits(self.ip_address)
        &&& self.token.encodable()
    }

    /// The bytes of a listing: its fields, one after the other.
    pub open spec fn bytes(self) -> Seq<u8> {
        let granularities_on = u64_bytes(self.bw_granularity) + (u64_bytes(self.time_granularity)
            + self.token.bytes());
        let minima_on = u64_bytes(self.min_bandwidth) + (u64_bytes(self.min_duration)
            + granularities_on);
        let price_on = u64_bytes(self.price_mist) + (bool_bytes(self.is_active) + minima_on);
        let texts_on = text_bytes(self.name) + (text_bytes(self.ip_address) + price_on);
        self.id + (self.issuer + texts_on)
    }
}

/// No two listings share their bytes.
pub proof fn service_listing_bytes_unique(a: ServiceListingView, b: ServiceListingView)
    requires
        a.encodable(),
        b.encodable(),
        a.bytes() == b.bytes(),
    ensures
        a == b,
{
    let x10 = a.token.bytes();
    let y10 = b.token.bytes();
    let x9 = u64_bytes(a.time_granularity) + x10;
    let y9 = u64_bytes(b.time_granularity) + y10;
    let x8 = u64_bytes(a.bw_granularity) + x9;
    let y8 = u64_bytes(b.bw_granularity) + y9;
    let x7 = u64_bytes(a.min_duration) + x8;
    let y7 = u64_bytes(b.min_duration) + y8;
    let x6 = u64_bytes(a.min_bandwidth) + x7;
    let y6 = u64_bytes(b.min_bandwidth) + y7;
    let x5 = bool_bytes(a.is_active) + x6;
    let y5 = bool_bytes(b.is_active) + y6;
    let x4 = u64_bytes(a.price_mist) + x5;
    let y4 = u64_bytes(b.price_mist) + y5;
    let x3 = text_bytes(a.ip_address) + x4;
    let y3 = text_bytes(b.ip_address) + y4;
    let x2 = text_bytes(a.name) + x3;
    let y2 = text_bytes(b.name) + y3;
    let x1 = a.issuer + x2;
    let y1 = b.issuer + y2;
    equal_heads(a.id, b.id, x1, y1);
    equal_heads(a.issuer, b.issuer, x2, y2);
    text_bytes_unique(a.name, b.name, x3, y3);
    text_bytes_unique(a.ip_address, b.ip_address, x4, y4);
    u64_bytes_unique(a.price_mist, b.price_mist, x5, y5);
    bool_bytes_unique(a.is_active, b.is_active, x6, y6);
    u64_bytes_unique(a.min_bandwidth, b.min_bandwidth, x7, y7);
    u64_bytes_unique(a.min_duration, b.min_duration, x8, y8);
    u64_bytes_unique(a.bw_granularity, b.bw_granularity, x9, y9);
    u64_bytes_unique(a.time_granularity, b.time_granularity, x10, y10);
    access_token_bytes_unique(a.token, b.token);
}

/// The listing that `bytes` are the bytes of, if they are those of one.
pub open spec fn service_listing_of(bytes: Seq<u8>) -> Option<ServiceListingView> {
    if exists|v: ServiceListingView| v.encodable() && #[trigger] v.bytes() == bytes {
        Some(choose|v: ServiceListingView| v.encodable() && #[trigger] v.bytes() == bytes)
    } else {
        None
    }
}

/// Reading the bytes of a listing gives it back.
pub proof fn service_listing_round_trip(v: ServiceListingView)
    requires
        v.encodable(),
    ensures
        service_listing_of(v.bytes()) == Some(v),
{
    let w = choose|w: ServiceListingView| w.encodable() && #[trigger] w.bytes() == v.bytes();
    service_listing_bytes_unique(v, w);
}

impl MarketplaceObjectView {
    /// Whether the format has room for a marketplace.
    pub open spec fn encodable(self) -> bool {
        &&& self.id.len() == 32
        &&& self.bag_id.len() == 32
    }

    /// The bytes of a marketplace: its fields, one after the other.
    pub open spec fn bytes(self) -> Seq<u8> {
        self.id + (self.bag_id + u64_bytes(self.bag_size))
    }
}

/// No two marketplaces share their bytes.
pub proof fn marketplace_bytes_unique(a: MarketplaceObjectView, b: MarketplaceObjectView)
    requires
        a.encodable(),
        b.encodable(),
        a.bytes() == b.bytes(),
    ensures
        a == b,
{
    let empty: Seq<u8> = seq![];
    let x2 = u64_bytes(a.bag_size);
    let y2 = u64_bytes(b.bag_size);
    let x1 = a.bag_id + x2;
    let y1 = b.bag_id + y2;
    equal_heads(a.id, b.id, x1, y1);
    equal_heads(a.bag_id, b.bag_id, x2, y2);
    assert(u64_bytes(a.bag_size) + empty =~= u64_bytes(a.bag_size));
    assert(u64_bytes(b.bag_size) + empty =~= u64_bytes(b.bag_size));
    u64_bytes_unique(a.bag_size, b.bag_size, empty, empty);
}

/// The marketplace that `bytes` are the bytes of, if they are those of one.
pub open spec fn marketplace_of(bytes: Seq<u8>) -> Option<MarketplaceObjectView> {
    if exists|v: MarketplaceObjectView| v.encodable() && #[trigger] v.bytes() == bytes {
        Some(choose|v: MarketplaceObjectView| v.encodable() && #[trigger] v.bytes() == bytes)
    } else {
        None
    }
}

/// Reading the bytes of a marketplace gives it back.
pub proof fn marketplace_round_trip(v: MarketplaceObjectView)
    requires
        v.encodable(),
    ensures
        marketplace_of(v.bytes()) == Some(v),
{
    let w = choose|w: MarketplaceObjectView| w.encodable() && #[trigger] w.bytes() == v.bytes();
    marketplace_bytes_unique(v, w);
}

impl TokenRedeemedView {
    /// Whether the format has room for a redemption event.
    pub open spec fn encodable(self) -> bool {
        &&& self.token_id.len() == 32
        &&& self.issuer.len() == 32
        &&& self.redeemed_by.len() == 32
        &&& text_fits(self.ip_address)
    }

    /// The bytes of a redemption event: its fields, one after the other.
    pub open spec fn bytes(self) -> Seq<u8> {
        let numbers = u64_bytes(self.valid_from) + (u64_bytes(self.expires_at) + u64_bytes(
            self.bandwidth,
        ));
        self.token_id + (self.issuer + (self.redeemed_by + (text_bytes(self.ip_address) + numbers)))
    }
}

/// No two redemption events share their bytes.
pub proof fn token_redeemed_bytes_unique(a: TokenRedeemedView, b: TokenRedeemedView)
    requires
        a.encodable(),
        b.encodable(),
        a.bytes() == b.bytes(),
    ensures
        a == b,
{
    let empty: Seq<u8> = seq![];
    let x6 = u64_bytes(a.bandwidth);
    let y6 = u64_bytes(b.bandwidth);
    let x5 = u64_bytes(a.expires_at) + x6;
    let y5 = u64_bytes(b.expires_at) + y6;
    let x4 = u64_bytes(a.valid_from) + x5;
    let y4 = u64_bytes(b.valid_from) + y5;
    let x3 = text_bytes(a.ip_address) + x4;
    let y3 = text_bytes(b.ip_address) + y4;
    let x2 = a.redeemed_by + x3;
    let y2 = b.redeemed_by + y3;
    let x1 = a.issuer + x2;
    let y1 = b.issuer + y2;
    equal_heads(a.token_id, b.token_id, x1, y1);
    equal_heads(a.issuer, b.issuer, x2, y2);
    equal_heads(a.redeemed_by, b.redeemed_by, x3, y3);
    text_bytes_unique(a.ip_address, b.ip_address, x4, y4);
    u64_bytes_unique(a.valid_from, b.valid_from, x5, y5);
    u64_bytes_unique(a.expires_at, b.expires_at, x6, y6);
    assert(u64_bytes(a.bandwidth) + empty =~= u64_bytes(a.bandwidth));
    assert(u64_bytes(b.bandwidth) + empty =~= u64_bytes(b.bandwidth));
    u64_bytes_unique(a.bandwidth, b.bandwidth, empty, empty);
}

/// The redemption event that `bytes` are the bytes of, if they are those of one.
pub open spec fn token_redeemed_of(bytes: Seq<u8>) -> Option<TokenRedeemedView> {
    if exists|v: TokenRedeemedView| v.encodable() && #[trigger] v.bytes() == bytes {
        Some(choose|v: TokenRedeemedView| v.encodable() && #[trigger] v.bytes() == bytes)
    } else {
        None
    }
}

/// Reading the bytes of a redemption event gives it back.
pub proof fn token_redeemed_round_trip(v: TokenRedeemedView)
    requires
        v.encodable(),
    ensures
        token_redeemed_of(v.bytes()) == Some(v),
{
    let w = choose|w: TokenRedeemedView| w.encodable() && #[trigger] w.bytes() == v.bytes();
    token_redeemed_bytes_unique(v, w);
}

/// The fields of an access token, in the order of their bytes.
type TokenFields = (RawId, RawId, String, String, u64, u64, u64, RawId);

/// The fields of a listing, in the order of their bytes.
type ListingFields = (RawId, RawId, String, String, u64, bool, u64, u64, u64, u64, TokenFields);

/// The fields of a redemption event, in the order of their bytes.
type RedeemedFields = (RawId, RawId, RawId, String, u64, u64, u64);

/// The error of a BCS decoding.
#[verifier::external_type_specification]
#[verifier::external_body]
pub struct ExBcsError(bcs::Error);

/// Reads an access token from its BCS bytes.
///
/// Trusted: `bcs::from_bytes` gives the value whose encoding is exactly `bytes`: the
/// fields in the order of their declaration, lengths in shortest form, texts in
/// valid UTF-8, nothing left over. It fails where there is no such value.
#[verifier::external_body]
pub(crate) fn decode_access_token(bytes: &[u8]) -> (r: Result<AccessToken, bcs::Error>)
    ensures
        match r {
            Ok(token) => token@.encodable() && token@.bytes() == bytes@,
            Err(_) => access_token_of(bytes@) is None,
        },
{
    let t: TokenFields = bcs::from_bytes(bytes)?;
    Ok(AccessToken {
        id: t.0,
        listing_id: t.1,
        service_name: t.2,
        ip_address: t.3,
        valid_from: t.4,
        expires_at: t.5,
        bandwidth: t.6,
        issuer: t.7,
    })
}

/// Reads a listing from its BCS bytes.
///
/// Trusted: `bcs::from_bytes` gives the value whose encoding is exactly `bytes`: the
/// fields in the order of their declaration, lengths in shortest form, texts in
/// valid UTF-8, nothing left over. It fails where there is no such value.
#[verifier::external_body]
pub(crate) fn decode_service_listing(bytes: &[u8]) -> (r: Result<ServiceListing, bcs::Error>)
    ensures
        match r {
            Ok(listing) => listing@.encodable() && listing@.bytes() == bytes@,
            Err(_) => service_listing_of(bytes@) is None,
        },
{
    let l: ListingFields = bcs::from_bytes(bytes)?;
    let (
        id, listing_id, service_name, ip_address, valid_from, expires_at, bandwidth, issuer,
    ) = l.10;
    let token = AccessToken {
        id, listing_id, service_name, ip_address, valid_from, expires_at, bandwidth, issuer,
    };
    let (id, issuer, name, ip_address, price_mist) = (l.0, l.1, l.2, l.3, l.4);
    let (is_active, min_bandwidth, min_duration) = (l.5, l.6, l.7);
    let (bw_granularity, time_granularity) = (l.8, l.9);
    Ok(ServiceListing {
        id, issuer, name, ip_address, price_mist, is_active, min_bandwidth, min_duration,
        bw_granularity, time_granularity, token,
    })
}

/// Reads a marketplace from its BCS bytes.
///
/// Trusted: `bcs::from_bytes` gives the value whose encoding is exactly `bytes`: the
/// fields in the order of their declaration, lengths in shortest form, texts in
/// valid UTF-8, nothing left over. It fails where there is no such value.
#[verifier::external_body]
pub(crate) fn decode_marketplace(bytes: &[u8]) -> (r: Result<MarketplaceObject, bcs::Error>)
    ensures
        match r {
            Ok(market) => market@.encodable() && market@.bytes() == bytes@,
            Err(_) => marketplace_of(bytes@) is None,
        },
{
    let m: (RawId, (RawId, u64)) = bcs::from_bytes(bytes)?;
    Ok(MarketplaceObject { id: m.0, listings: ObjectBagRef { id: m.1.0, size: m.1.1 } })
}

/// The text of the error with which the reading of a redemption event from `bytes`
/// fails, where it does.
pub uninterp spec fn token_redeemed_error(bytes: Seq<u8>) -> Seq<char>;

/// Reads a redemption event from its BCS bytes.
///
/// Trusted: `bcs::from_bytes` gives the value whose encoding is exactly `bytes`: the
/// fields in the order of their declaration, lengths in shortest form, texts in
/// valid UTF-8, nothing left over. It fails where there is no such value, with an error
/// whose text follows from `bytes` alone.
#[verifier::external_body]
pub(crate) fn decode_token_redeemed(bytes: &[u8]) -> (r: Result<TokenRedeemed, String>)
    ensures
        match r {
            Ok(event) => event@.encodable() && event@.bytes() == bytes@,
            Err(text) => {
                &&& token_redeemed_of(bytes@) is None
                &&& text@ == token_redeemed_error(bytes@)
            },
        },
{
    let e: RedeemedFields = bcs::from_bytes(bytes).map_err(|e| e.to_string())?;
    Ok(TokenRedeemed {
        token_id: e.0,
        issuer: e.1,
        redeemed_by: e.2,
        ip_address: e.3,
        valid_from: e.4,
        expires_at: e.5,
        bandwidth: e.6,
    })
}

/// Nothing of an object is lost in what it holds: two that hold the same have the same
/// identifiers, texts and numbers.
pub proof fn objects_hold_all_of_their_fields(
    token: AccessToken,
    listing: ServiceListing,
    event: TokenRedeemed,
    market: MarketplaceObject,
)
    ensures
        token@.id == token.id@ && token@.listing_id == token.listing_id@,
        token@.service_name == token.service_name@ && token@.ip_address == token.ip_address@,
        token@.valid_from == token.valid_from && token@.expires_at == token.expires_at,
        token@.bandwidth == token.bandwidth && token@.issuer == token.issuer@,
        listing@.id == listing.id@ && listing@.issuer == listing.issuer@,
        listing@.name == listing.name@ && listing@.ip_address == listing.ip_address@,
        listing@.price_mist == listing.price_mist && listing@.is_active == listing.is_active,
        listing@.min_bandwidth == listing.min_bandwidth,
        listing@.min_duration == listing.min_duration,
        listing@.bw_granularity == listing.bw_granularity,
        listing@.time_granularity == listing.time_granularity,
        listing@.token == listing.token@,
        event@.token_id == event.token_id@ && event@.issuer == event.issuer@,
        event@.redeemed_by == event.redeemed_by@ && event@.ip_address == event.ip_address@,
        event@.valid_from == event.valid_from && event@.expires_at == event.expires_at,
        event@.bandwidth == event.bandwidth,
        market@.id == market.id@ && market@.bag_id == market.listings.id@,
        market@.bag_size == market.listings.size,
{
}

/// The bytes of an object begin with its identifiers, in the order of their declaration,
/// and those of a listing end with its token.
pub proof fn bytes_begin_with_the_identifiers(
    token: AccessTokenView,
    listing: ServiceListingView,
    event: TokenRedeemedView,
    market: MarketplaceObjectView,
)
    ensures
        (token.id + token.listing_id + text_bytes(token.service_name)).is_prefix_of(token.bytes()),
        token.issuer.is_suffix_of(token.bytes()),
        (listing.id + listing.issuer + text_bytes(listing.name)).is_prefix_of(listing.bytes()),
        (u64_bytes(listing.time_granularity) + listing.token.bytes()).is_suffix_of(listing.bytes()),
        (event.token_id + event.issuer + event.redeemed_by).is_prefix_of(event.bytes()),
        u64_bytes(event.bandwidth).is_suffix_of(event.bytes()),
        market.bytes() == market.id + market.bag_id + u64_bytes(market.bag_size),
{
    assert(market.bytes() =~= market.id + market.bag_id + u64_bytes(market.bag_size));
    let tail = listing.bytes().len() - listing.token.bytes().len() - u64_bytes(
        listing.time_granularity,
    ).len();
    assert(listing.bytes().skip(tail) =~= u64_bytes(listing.time_granularity)
        + listing.token.bytes());
}

}
