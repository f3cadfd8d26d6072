//! The marketplace client: the Move calls that it makes, and what it makes of their
//! answers.

use sui_transaction_builder::TransactionBuilder;
use vstd::prelude::*;

use crate::address::{
    address_chars, address_text_round_trip, parse_address, parsed_address, RawId,
};
use crate::config::MarketConfig;
use crate::effects::{
    created_object, executed_effects, find_access_token, find_created, found_id, object_of_type,
    objects_are_known_by_type_and_operation, the_first_created_object_is_found,
    the_first_object_of_a_type_is_found, ExecutionReply,
};
use crate::encoding::{
    integers_are_written_in_eight_bytes, number_of_bytes, text_bytes, text_fits, u64_bytes,
};
use crate::error::{KeyError, MarketError};
use crate::listings::{
    all_listings, fetch_failures, price_order, row_views, selected_rows, Fetched, Listings,
    SearchFilter,
};
use crate::models::{ServiceListing, ServiceListingView};
use crate::objects::ObjectReply;
use crate::offer::OfferTerms;
use crate::purchase::{
    listings_sell_whole_granules, resolved_terms, resolved_terms_are_aligned, PurchaseTerms,
};
use crate::transaction::{
    builder_calls, builder_gas_budget, builder_sender, call_inputs, call_transaction,
    canonical_types, is_identifier, parse_type_tag, type_tag_of, CallArg, CallInput, CallRecord,
};
use crate::wallet::{
    keystore_loadable, load_wallet, searched, try_load_wallet, Wallet, WalletSearch,
};

verus! {

/// A client of a marketplace: its configuration, and the wallet that it signs with.
pub struct MarketplaceClient {
    cfg: MarketConfig,
    wallet: Wallet,
}

/// What the start of a client came to.
pub struct ClientSearch {
    /// The client, or why there is none.
    pub outcome: Result<MarketplaceClient, MarketError>,
    /// What was wrong with the keystore entries that were skipped on the way.
    pub skipped: Vec<KeyError>,
}

/// What the start of a client comes to, by the search for its wallet.
pub open spec fn started(cfg: MarketConfig, search: WalletSearch, r: ClientSearch) -> bool {
    &&& r.skipped == search.skipped
    &&& match search.outcome {
        Ok(wallet) => {
            &&& r.outcome matches Ok(client)
            &&& client.spec_config() == cfg
            &&& client.spec_wallet() == wallet
        },
        Err(e) => r.outcome == Err::<MarketplaceClient, MarketError>(e),
    }
}

/// What is passed to create a listing in a marketplace.
pub open spec fn listing_inputs(
    marketplace_id: Seq<u8>,
    name: Seq<char>,
    ip_address: Seq<char>,
    price_mist: u64,
    terms: OfferTerms,
) -> Seq<CallInput> {
    seq![
        CallInput::Object(marketplace_id),
        CallInput::Pure(text_bytes(name)),
        CallInput::Pure(text_bytes(ip_address)),
        CallInput::Pure(u64_bytes(price_mist)),
        CallInput::Pure(u64_bytes(terms.valid_from)),
        CallInput::Pure(u64_bytes(terms.expires_at)),
        CallInput::Pure(u64_bytes(terms.max_bandwidth)),
        CallInput::Pure(u64_bytes(terms.min_bandwidth)),
        CallInput::Pure(u64_bytes(terms.min_duration)),
        CallInput::Pure(u64_bytes(terms.bw_granularity)),
        CallInput::Pure(u64_bytes(terms.time_granularity)),
    ]
}

/// What is passed to purchase a listing of a marketplace.
pub open spec fn purchase_inputs(
    marketplace_id: Seq<u8>,
    listing_id: Seq<u8>,
    terms: PurchaseTerms,
) -> Seq<CallInput> {
    seq![
        CallInput::Object(marketplace_id),
        CallInput::Pure(listing_id),
        CallInput::Gas,
        CallInput::Pure(u64_bytes(terms.start)),
        CallInput::Pure(u64_bytes(terms.end)),
        CallInput::Pure(u64_bytes(terms.bandwidth)),
    ]
}

/// What is passed to redeem a token.
pub open spec fn redeem_inputs(token_id: Seq<u8>, ip_address: Seq<char>) -> Seq<CallInput> {
    seq![CallInput::Object(token_id), CallInput::Pure(text_bytes(ip_address))]
}

/// A purchase that is ready to be made, once its listing has been fetched.
#[derive(Debug, Clone, Copy)]
pub struct PurchaseOrder {
    /// The listing.
    pub listing_id: RawId,
    pub terms: PurchaseTerms,
}

/// A redemption that is ready to be made.
pub struct Redemption {
    /// The service that the token gives access to.
    pub service_name: String,
    pub transaction: TransactionBuilder,
}

proof fn lemma_names()
    ensures
        is_identifier("marketplace"@),
        is_identifier("create_marketplace"@),
        is_identifier("create_listing"@),
        is_identifier("purchase"@),
        is_identifier("redeem"@),
{
    reveal_strlit("marketplace");
    reveal_strlit("create_marketplace");
    reveal_strlit("create_listing");
    reveal_strlit("purchase");
    reveal_strlit("redeem");
}

/// The address in `text`, or else the given error.
pub open spec fn id_or_error(
    text: Seq<char>,
    error: MarketError,
    r: Result<RawId, MarketError>,
) -> bool {
    match parsed_address(text) {
        Some(id) => r matches Ok(x) && x@ == id,
        None => r == Err::<RawId, MarketError>(error),
    }
}

/// The error of an execution that did not succeed, by the answer to it.
pub open spec fn execution_error(reply: ExecutionReply, error: MarketError) -> bool {
    match reply.transaction {
        None => error == MarketError::NoTransaction,
        Some(t) => match t.effects {
            None => error == MarketError::NoEffects,
            Some(e) => {
                &&& error matches MarketError::OnChainFailure { cause }
                &&& cause@ == match e.status->0.error {
                    Some(text) => text@,
                    None => "unknown error"@,
                }
            },
        },
    }
}

/// The address of the object of the type that ends with `suffix`, which an execution
/// created, or why there is none.
pub open spec fn created_by(
    reply: ExecutionReply,
    suffix: Seq<char>,
    r: Result<RawId, MarketError>,
) -> bool {
    if reply.succeeded() {
        found_id(
            created_object(reply.transaction->0.effects->0.changed_objects@, suffix),
            MarketError::CreatedNotFound,
            MarketError::InvalidCreatedId,
            r,
        )
    } else {
        r matches Err(e) && execution_error(reply, e)
    }
}

/// The address of the access token that an execution minted, or why there is none.
pub open spec fn minted_by(reply: ExecutionReply, r: Result<RawId, MarketError>) -> bool {
    if reply.succeeded() {
        found_id(
            object_of_type(
                reply.transaction->0.effects->0.changed_objects@,
                "::marketplace::AccessToken"@,
            ),
            MarketError::TokenNotFound,
            MarketError::InvalidMintedId,
            r,
        )
    } else {
        r matches Err(e) && execution_error(reply, e)
    }
}

/// The order of a purchase, or why it cannot be made.
pub open spec fn ordered(
    listing_id: Seq<char>,
    terms: PurchaseTerms,
    r: Result<PurchaseOrder, MarketError>,
) -> bool {
    match parsed_address(listing_id) {
        None => r == Err::<PurchaseOrder, MarketError>(MarketError::InvalidListingId),
        Some(id) => match terms.fault() {
            Some(e) => r == Err::<PurchaseOrder, MarketError>(e),
            None => r matches Ok(order) && order.listing_id@ == id && order.terms == terms,
        },
    }
}

fn created_id(reply: ExecutionReply, suffix: &str) -> (r: Result<RawId, MarketError>)
    ensures
        created_by(reply, suffix@, r),
{
    match executed_effects(reply) {
        Ok(effects) => find_created(&effects, suffix),
        Err(e) => Err(e),
    }
}

impl MarketplaceClient {
    #[verifier::type_invariant]
    spec fn inv(self) -> bool {
        self.wallet.wf()
    }

    /// The configuration.
    pub closed spec fn spec_config(self) -> MarketConfig {
        self.cfg
    }

    /// The wallet.
    pub closed spec fn spec_wallet(self) -> Wallet {
        self.wallet
    }

    /// Whether `b` is the transaction by which the client calls one function of the
    /// marketplace module, and nothing else.
    pub open spec fn calls(
        self,
        b: TransactionBuilder,
        function: Seq<char>,
        type_args: Seq<Seq<char>>,
        args: Seq<CallInput>,
    ) -> bool {
        &&& builder_sender(b) == Some(self.spec_wallet().address@)
        &&& builder_gas_budget(b) == Some(self.spec_config().sui.gas_budget)
        &&& builder_calls(b) == seq![
            CallRecord {
                package: self.spec_config().marketplace.package_id@,
                module: "marketplace"@,
                function,
                type_args,
                args,
            },
        ]
    }

    /// The call of a function that is told the coin type of the marketplace, or the
    /// error that the configured coin type is none.
    pub open spec fn coin_call(
        self,
        function: Seq<char>,
        args: Seq<CallInput>,
        r: Result<TransactionBuilder, MarketError>,
    ) -> bool {
        match type_tag_of(self.spec_config().marketplace.coin_type@) {
            Some(coin) => r matches Ok(b) && self.calls(b, function, seq![coin], args),
            None => r matches Err(MarketError::InvalidCoinType),
        }
    }

    /// A client, by the search for its wallet.
    fn start(cfg: MarketConfig, search: WalletSearch) -> (r: ClientSearch)
        requires
            search.outcome matches Ok(wallet) ==> wallet.wf(),
        ensures
            started(cfg, search, r),
    {
        let outcome = match search.outcome {
            Ok(wallet) => Ok(MarketplaceClient { cfg, wallet }),
            Err(e) => Err(e),
        };
        ClientSearch { outcome, skipped: search.skipped }
    }

    /// What comes of an order, given the answer to the request for its listing: a listing
    /// that cannot be read or does not sell such terms refuses it.
    pub open spec fn purchased(
        self,
        order: PurchaseOrder,
        reply: ObjectReply,
        r: Result<TransactionBuilder, MarketError>,
    ) -> bool {
        match reply.listing() {
            Err(e) => r == Err::<TransactionBuilder, MarketError>(e),
            Ok(listing) => match order.terms.misalignment(
                listing.time_granularity,
                listing.bw_granularity,
            ) {
                Some(e) => r == Err::<TransactionBuilder, MarketError>(e),
                None => self.coin_call(
                    "purchase"@,
                    purchase_inputs(
                        self.spec_config().marketplace.marketplace_id@,
                        order.listing_id@,
                        order.terms,
                    ),
                    r,
                ),
            },
        }
    }

    /// What comes of a redemption, given the answer to the request for its token.
    pub open spec fn redeems(
        self,
        token_id: Seq<u8>,
        reply: ObjectReply,
        ip_address: Seq<char>,
        r: Result<Redemption, MarketError>,
    ) -> bool {
        match reply.token() {
            Err(e) => r == Err::<Redemption, MarketError>(e),
            Ok(token) => {
                &&& r matches Ok(redemption)
                &&& redemption.service_name@ == token.service_name
                &&& self.calls(
                    redemption.transaction,
                    "redeem"@,
                    seq![],
                    redeem_inputs(token_id, ip_address),
                )
            },
        }
    }

    /// A client for the wallet that the configuration names, from the bytes of its
    /// keystore file.
    pub fn new(cfg: MarketConfig, ks_bytes: &[u8]) -> (r: ClientSearch)
        requires
            keystore_loadable(ks_bytes@, cfg.sui.address@),
        ensures
            exists|search: WalletSearch|
                searched(cfg, ks_bytes@, search) && #[trigger] started(cfg, search, r),
    {
        let search = load_wallet(&cfg, ks_bytes);
        Self::start(cfg, search)
    }

    /// A client for the wallet that the configuration names, or `None` where a broken
    /// entry of the keystore stands in the way of the search.
    pub fn try_new(cfg: MarketConfig, ks_bytes: &[u8]) -> (r: Option<ClientSearch>)
        ensures
            r is Some <==> keystore_loadable(ks_bytes@, cfg.sui.address@),
            r matches Some(c) ==> exists|search: WalletSearch|
                searched(cfg, ks_bytes@, search) && #[trigger] started(cfg, search, c),
    {
        match try_load_wallet(&cfg, ks_bytes) {
            Some(_) => Some(Self::new(cfg, ks_bytes)),
            None => None,
        }
    }

    /// The configuration.
    pub fn config(&self) -> (r: &MarketConfig)
        ensures
            *r == self.spec_config(),
    {
        &self.cfg
    }

    /// The wallet.
    pub fn wallet(&self) -> (r: &Wallet)
        ensures
            *r == self.spec_wallet(),
            r.wf(),
    {
        proof {
            use_type_invariant(self);
        }
        &self.wallet
    }

    /// The configured coin type, in its canonical form.
    pub fn coin_type_tag(&self) -> (r: Result<String, MarketError>)
        ensures
            match type_tag_of(self.spec_config().marketplace.coin_type@) {
                Some(coin) => r matches Ok(s) && s@ == coin,
                None => r matches Err(MarketError::InvalidCoinType),
            },
    {
        match parse_type_tag(self.cfg.marketplace.coin_type.as_str()) {
            Some(coin) => Ok(coin),
            None => Err(MarketError::InvalidCoinType),
        }
    }

    /// The transaction that calls a function of the marketplace module with the coin
    /// type of the marketplace.
    fn call_with_coin(&self, function: &str, args: Vec<CallArg>) -> (r: Result<
        TransactionBuilder,
        MarketError,
    >)
        requires
            is_identifier(function@),
            forall|i: int| 0 <= i < args@.len() ==> (#[trigger] args@[i]).encodable(),
        ensures
            self.coin_call(function@, call_inputs(args@), r),
    {
        match self.coin_type_tag() {
            Ok(_) => {},
            Err(e) => return Err(e),
        }
        let types: Vec<String> = vec![self.cfg.marketplace.coin_type.clone()];
        proof {
            lemma_names();
            assert(canonical_types(types@) =~= seq![
                type_tag_of(self.spec_config().marketplace.coin_type@)->0,
            ]);
        }
        Ok(
            call_transaction(
                &self.wallet.address,
                self.cfg.sui.gas_budget,
                &self.cfg.marketplace.package_id,
                "marketplace",
                function,
                &types,
                &args,
            ),
        )
    }

    /// The transaction that creates a marketplace for the configured coin type.
    pub fn create_marketplace(&self) -> (r: Result<TransactionBuilder, MarketError>)
        ensures
            self.coin_call("create_marketplace"@, seq![], r),
    {
        let args: Vec<CallArg> = Vec::new();
        proof {
            lemma_names();
            assert(call_inputs(args@) =~= seq![]);
        }
        self.call_with_coin("create_marketplace", args)
    }

    /// The marketplace that an execution created.
    pub fn created_marketplace(reply: ExecutionReply) -> (r: Result<RawId, MarketError>)
        ensures
            created_by(reply, "::marketplace::Marketplace"@, r),
    {
        created_id(reply, "::marketplace::Marketplace")
    }

    /// The transaction that creates a listing, at a price in MIST; times are in
    /// seconds and bandwidths in kB/s.
    pub fn create_listing(
        &self,
        name: String,
        ip_address: String,
        price_mist: u64,
        valid_from: u64,
        expires_at: u64,
        max_bandwidth: u64,
        min_bandwidth: u64,
        min_duration: u64,
        bw_granularity: u64,
        time_granularity: u64,
    ) -> (r: Result<TransactionBuilder, MarketError>)
        requires
            text_fits(name@),
            text_fits(ip_address@),
        ensures
            self.coin_call(
                "create_listing"@,
                listing_inputs(
                    self.spec_config().marketplace.marketplace_id@,
                    name@,
                    ip_address@,
                    price_mist,
                    (OfferTerms {
                        valid_from,
                        expires_at,
                        max_bandwidth,
                        min_bandwidth,
                        min_duration,
                        bw_granularity,
                        time_granularity,
                    }),
                ),
                r,
            ),
            self.coin_call(
                "create_listing"@,
                seq![
                    CallInput::Object(self.spec_config().marketplace.marketplace_id@),
                    CallInput::Pure(text_bytes(name@)),
                    CallInput::Pure(text_bytes(ip_address@)),
                    CallInput::Pure(u64_bytes(price_mist)),
                    CallInput::Pure(u64_bytes(valid_from)),
                    CallInput::Pure(u64_bytes(expires_at)),
                    CallInput::Pure(u64_bytes(max_bandwidth)),
                    CallInput::Pure(u64_bytes(min_bandwidth)),
                    CallInput::Pure(u64_bytes(min_duration)),
                    CallInput::Pure(u64_bytes(bw_granularity)),
                    CallInput::Pure(u64_bytes(time_granularity)),
                ],
                r,
            ),
    {
        let args: Vec<CallArg> = vec![
            CallArg::Object(self.cfg.marketplace.marketplace_id),
            CallArg::Bytes(name.as_str().as_bytes_vec()),
            CallArg::Bytes(ip_address.as_str().as_bytes_vec()),
            CallArg::U64(price_mist),
            CallArg::U64(valid_from),
            CallArg::U64(expires_at),
            CallArg::U64(max_bandwidth),
            CallArg::U64(min_bandwidth),
            CallArg::U64(min_duration),
            CallArg::U64(bw_granularity),
            CallArg::U64(time_granularity),
        ];
        proof {
            lemma_names();
            assert(call_inputs(args@) =~= seq![
                CallInput::Object(self.spec_config().marketplace.marketplace_id@),
                CallInput::Pure(text_bytes(name@)),
                CallInput::Pure(text_bytes(ip_address@)),
                CallInput::Pure(u64_bytes(price_mist)),
                CallInput::Pure(u64_bytes(valid_from)),
                CallInput::Pure(u64_bytes(expires_at)),
                CallInput::Pure(u64_bytes(max_bandwidth)),
                CallInput::Pure(u64_bytes(min_bandwidth)),
                CallInput::Pure(u64_bytes(min_duration)),
                CallInput::Pure(u64_bytes(bw_granularity)),
                CallInput::Pure(u64_bytes(time_granularity)),
            ]);
        }
        self.call_with_coin("create_listing", args)
    }

    /// The listing that an execution created.
    pub fn created_listing(reply: ExecutionReply) -> (r: Result<RawId, MarketError>)
        ensures
            created_by(reply, "::marketplace::ServiceListing"@, r),
    {
        created_id(reply, "::marketplace::ServiceListing")
    }

    /// The listings among those that were fetched, ordered by price.
    pub fn get_listings(fetched: &Vec<Fetched>) -> (r: Listings)
        ensures
            row_views(r.rows@) == price_order(selected_rows(fetched@, None)),
            r.failures@ == fetch_failures(fetched@),
    {
        all_listings(fetched)
    }

    /// The listings among those that were fetched which a filter selects, ordered by
    /// price.
    pub fn search_listings(filter: &SearchFilter, fetched: &Vec<Fetched>) -> (r: Listings)
        requires
            filter.subnet.wf(),
        ensures
            row_views(r.rows@) == price_order(selected_rows(fetched@, Some(*filter))),
            r.failures@ == fetch_failures(fetched@),
    {
        filter.search(fetched)
    }

    /// The object that holds the listing with the given identifier.
    pub fn get_listing(listing_id: &str) -> (r: Result<RawId, MarketError>)
        ensures
            id_or_error(listing_id@, MarketError::InvalidListingId, r),
    {
        match parse_address(listing_id) {
            Some(id) => Ok(id),
            None => Err(MarketError::InvalidListingId),
        }
    }

    /// The order of a purchase, before its listing is fetched.
    pub fn buy_listing(listing_id: &str, start: u64, end: u64, bandwidth: u64) -> (r: Result<
        PurchaseOrder,
        MarketError,
    >)
        ensures
            ordered(listing_id@, (PurchaseTerms { start, end, bandwidth }), r),
            match parsed_address(listing_id@) {
                None => r == Err::<PurchaseOrder, MarketError>(MarketError::InvalidListingId),
                Some(id) => match (PurchaseTerms { start, end, bandwidth }).fault() {
                    Some(e) => r == Err::<PurchaseOrder, MarketError>(e),
                    None => {
                        &&& r matches Ok(order)
                        &&& order.listing_id@ == id
                        &&& order.terms == (PurchaseTerms { start, end, bandwidth })
                    },
                },
            },
    {
        let listing_id = match Self::get_listing(listing_id) {
            Ok(id) => id,
            Err(e) => return Err(e),
        };
        let terms = PurchaseTerms { start, end, bandwidth };
        match terms.check() {
            Ok(_) => Ok(PurchaseOrder { listing_id, terms }),
            Err(e) => Err(e),
        }
    }

    /// The transaction of a purchase, given the answer to the request for its listing.
    pub fn purchase(&self, order: &PurchaseOrder, reply: &ObjectReply) -> (r: Result<
        TransactionBuilder,
        MarketError,
    >)
        requires
            order.terms.fault() is None,
        ensures
            self.purchased(*order, *reply, r),
            match reply.listing() {
                Err(e) => r == Err::<TransactionBuilder, MarketError>(e),
                Ok(listing) => match order.terms.misalignment(
                    listing.time_granularity,
                    listing.bw_granularity,
                ) {
                    Some(e) => r == Err::<TransactionBuilder, MarketError>(e),
                    None => self.coin_call(
                        "purchase"@,
                        purchase_inputs(
                            self.spec_config().marketplace.marketplace_id@,
                            order.listing_id@,
                            order.terms,
                        ),
                        r,
                    ) && self.coin_call(
                        "purchase"@,
                        seq![
                            CallInput::Object(self.spec_config().marketplace.marketplace_id@),
                            CallInput::Pure(order.listing_id@),
                            CallInput::Gas,
                            CallInput::Pure(u64_bytes(order.terms.start)),
                            CallInput::Pure(u64_bytes(order.terms.end)),
                            CallInput::Pure(u64_bytes(order.terms.bandwidth)),
                        ],
                        r,
                    ),
                },
            },
    {
        let listing = match reply.read_listing() {
            Ok(listing) => listing,
            Err(e) => return Err(e),
        };
        match order.terms.check_alignment(&listing) {
            Ok(_) => {},
            Err(e) => return Err(e),
        }
        let args: Vec<CallArg> = vec![
            CallArg::Object(self.cfg.marketplace.marketplace_id),
            CallArg::Id(order.listing_id),
            CallArg::Gas,
            CallArg::U64(order.terms.start),
            CallArg::U64(order.terms.end),
            CallArg::U64(order.terms.bandwidth),
        ];
        proof {
            lemma_names();
            assert(call_inputs(args@) =~= seq![
                CallInput::Object(self.spec_config().marketplace.marketplace_id@),
                CallInput::Pure(order.listing_id@),
                CallInput::Gas,
                CallInput::Pure(u64_bytes(order.terms.start)),
                CallInput::Pure(u64_bytes(order.terms.end)),
                CallInput::Pure(u64_bytes(order.terms.bandwidth)),
            ]);
        }
        self.call_with_coin("purchase", args)
    }

    /// The access token that an execution minted.
    pub fn minted_token(reply: ExecutionReply) -> (r: Result<RawId, MarketError>)
        ensures
            minted_by(reply, r),
            if reply.succeeded() {
                found_id(
                    object_of_type(
                        reply.transaction->0.effects->0.changed_objects@,
                        "::marketplace::AccessToken"@,
                    ),
                    MarketError::TokenNotFound,
                    MarketError::InvalidMintedId,
                    r,
                )
            } else {
                r matches Err(e) && execution_error(reply, e)
            },
    {
        match executed_effects(reply) {
            Ok(effects) => find_access_token(&effects),
            Err(e) => Err(e),
        }
    }

    /// The object that holds the access token that is to be redeemed.
    pub fn token_to_redeem(token_id: &str) -> (r: Result<RawId, MarketError>)
        ensures
            id_or_error(token_id@, MarketError::InvalidTokenId, r),
    {
        match parse_address(token_id) {
            Some(id) => Ok(id),
            None => Err(MarketError::InvalidTokenId),
        }
    }

    /// The redemption of an access token for a client with the given IP address, given
    /// the answer to the request for the token.
    pub fn redeem(&self, token_id: &RawId, reply: &ObjectReply, ip_address: String) -> (r: Result<
        Redemption,
        MarketError,
    >)
        requires
            text_fits(ip_address@),
        ensures
            self.redeems(token_id@, *reply, ip_address@, r),
            match reply.token() {
                Err(e) => r == Err::<Redemption, MarketError>(e),
                Ok(token) => {
                    &&& r matches Ok(redemption)
                    &&& redemption.service_name@ == token.service_name
                    &&& self.calls(
                        redemption.transaction,
                        "redeem"@,
                        seq![],
                        redeem_inputs(token_id@, ip_address@),
                    )
                    &&& self.calls(
                        redemption.transaction,
                        "redeem"@,
                        seq![],
                        seq![
                            CallInput::Object(token_id@),
                            CallInput::Pure(text_bytes(ip_address@)),
                        ],
                    )
                },
            },
    {
        let token = match reply.read_token() {
            Ok(token) => token,
            Err(e) => return Err(e),
        };
        let types: Vec<String> = Vec::new();
        let args: Vec<CallArg> = vec![
            CallArg::Object(*token_id),
            CallArg::Bytes(ip_address.as_str().as_bytes_vec()),
        ];
        proof {
            lemma_names();
            assert(canonical_types(types@) =~= seq![]);
            assert(call_inputs(args@) =~= seq![
                CallInput::Object(token_id@),
                CallInput::Pure(text_bytes(ip_address@)),
            ]);
        }
        let transaction = call_transaction(
            &self.wallet.address,
            self.cfg.sui.gas_budget,
            &self.cfg.marketplace.package_id,
            "marketplace",
            "redeem",
            &types,
            &args,
        );
        Ok(Redemption { service_name: token.service_name, transaction })
    }

    /// Whether a redemption was executed, or why it was not.
    pub fn redeemed(reply: ExecutionReply) -> (r: Result<(), MarketError>)
        ensures
            if reply.succeeded() {
                r == Ok::<(), MarketError>(())
            } else {
                r matches Err(e) && execution_error(reply, e)
            },
    {
        match executed_effects(reply) {
            Ok(_) => Ok(()),
            Err(e) => Err(e),
        }
    }
}

/// The number that is passed as a value.
pub open spec fn passed_number(input: CallInput) -> Option<nat> {
    match input {
        CallInput::Pure(bytes) => if bytes.len() == 8 {
            Some(number_of_bytes(bytes))
        } else {
            None
        },
        _ => None,
    }
}

/// A new listing carries its name, its address, its price and each of its terms, in this
/// order, behind the marketplace that it is for.
pub proof fn new_listings_carry_their_terms(
    marketplace_id: Seq<u8>,
    name: Seq<char>,
    ip_address: Seq<char>,
    price_mist: u64,
    terms: OfferTerms,
)
    ensures
        ({
            let passed = listing_inputs(marketplace_id, name, ip_address, price_mist, terms);
            &&& passed.len() == 11
            &&& passed[0] == CallInput::Object(marketplace_id)
            &&& passed[1] == CallInput::Pure(text_bytes(name))
            &&& passed[2] == CallInput::Pure(text_bytes(ip_address))
            &&& passed_number(passed[3]) == Some(price_mist as nat)
            &&& passed_number(passed[4]) == Some(terms.valid_from as nat)
            &&& passed_number(passed[5]) == Some(terms.expires_at as nat)
            &&& passed_number(passed[6]) == Some(terms.max_bandwidth as nat)
            &&& passed_number(passed[7]) == Some(terms.min_bandwidth as nat)
            &&& passed_number(passed[8]) == Some(terms.min_duration as nat)
            &&& passed_number(passed[9]) == Some(terms.bw_granularity as nat)
            &&& passed_number(passed[10]) == Some(terms.time_granularity as nat)
        }),
{
    integers_are_written_in_eight_bytes(price_mist);
    integers_are_written_in_eight_bytes(terms.valid_from);
    integers_are_written_in_eight_bytes(terms.expires_at);
    integers_are_written_in_eight_bytes(terms.max_bandwidth);
    integers_are_written_in_eight_bytes(terms.min_bandwidth);
    integers_are_written_in_eight_bytes(terms.min_duration);
    integers_are_written_in_eight_bytes(terms.bw_granularity);
    integers_are_written_in_eight_bytes(terms.time_granularity);
}

/// A purchase carries the marketplace, the listing, the coin that it is paid with, and the
/// start, the end and the bandwidth that are bought.
pub proof fn purchases_carry_their_terms(
    marketplace_id: Seq<u8>,
    listing_id: Seq<u8>,
    terms: PurchaseTerms,
)
    ensures
        ({
            let passed = purchase_inputs(marketplace_id, listing_id, terms);
            &&& passed.len() == 6
            &&& passed[0] == CallInput::Object(marketplace_id)
            &&& passed[1] == CallInput::Pure(listing_id)
            &&& passed[2] == CallInput::Gas
            &&& passed_number(passed[3]) == Some(terms.start as nat)
            &&& passed_number(passed[4]) == Some(terms.end as nat)
            &&& passed_number(passed[5]) == Some(terms.bandwidth as nat)
        }),
{
    integers_are_written_in_eight_bytes(terms.start);
    integers_are_written_in_eight_bytes(terms.end);
    integers_are_written_in_eight_bytes(terms.bandwidth);
}

/// A redemption carries the token and the address of the client, and nothing else.
pub proof fn redemptions_carry_the_address_of_the_client(token_id: Seq<u8>, ip_address: Seq<char>)
    ensures
        redeem_inputs(token_id, ip_address).len() == 2,
        redeem_inputs(token_id, ip_address)[0] == CallInput::Object(token_id),
        redeem_inputs(token_id, ip_address)[1] == CallInput::Pure(text_bytes(ip_address)),
{
}

/// A transaction of a client is sent from the address of its wallet, with the configured
/// budget, and holds one call: that of the function, in the configured package.
pub proof fn clients_make_one_call(
    client: MarketplaceClient,
    b: TransactionBuilder,
    function: Seq<char>,
    type_args: Seq<Seq<char>>,
    args: Seq<CallInput>,
)
    requires
        client.calls(b, function, type_args, args),
    ensures
        builder_sender(b) == Some(client.spec_wallet().address@),
        builder_gas_budget(b) == Some(client.spec_config().sui.gas_budget),
        builder_calls(b).len() == 1,
        builder_calls(b)[0].package == client.spec_config().marketplace.package_id@,
        builder_calls(b)[0].module == "marketplace"@,
        builder_calls(b)[0].function == function,
        builder_calls(b)[0].type_args == type_args,
        builder_calls(b)[0].args == args,
{
}

/// A call with the coin type of the marketplace is made if and only if that is a type, and
/// names it alone.
pub proof fn calls_name_the_coin_type(
    client: MarketplaceClient,
    function: Seq<char>,
    args: Seq<CallInput>,
    r: Result<TransactionBuilder, MarketError>,
)
    requires
        client.coin_call(function, args, r),
    ensures
        ({
            let coin = type_tag_of(client.spec_config().marketplace.coin_type@);
            &&& r is Ok <==> coin is Some
            &&& r is Err ==> r->Err_0 == MarketError::InvalidCoinType
            &&& r matches Ok(b) ==> {
                &&& builder_calls(b).len() == 1
                &&& builder_calls(b)[0].function == function
                &&& builder_calls(b)[0].type_args.len() == 1
                &&& builder_calls(b)[0].type_args[0] == coin->0
                &&& builder_calls(b)[0].args == args
                &&& builder_sender(b) == Some(client.spec_wallet().address@)
                &&& builder_gas_budget(b) == Some(client.spec_config().sui.gas_budget)
            }
        }),
{
}

/// An execution that succeeded tells of the first object of the type that it created, by
/// the address that is its identifier.
pub proof fn executions_tell_of_what_they_created(
    reply: ExecutionReply,
    suffix: Seq<char>,
    i: int,
    id: Seq<u8>,
    r: Result<RawId, MarketError>,
)
    requires
        created_by(reply, suffix, r),
        reply.succeeded(),
        ({
            let objects = reply.transaction->0.effects->0.changed_objects@;
            &&& 0 <= i < objects.len()
            &&& objects[i].has_type(suffix)
            &&& objects[i].id_operation == Some(2i32)
            &&& objects[i].object_id matches Some(s)
            &&& s@ == address_chars(id)
            &&& forall|j: int|
                0 <= j < i ==> !((#[trigger] objects[j]).has_type(suffix) && objects[j].id_operation
                    == Some(2i32))
        }),
        id.len() == 32,
    ensures
        r matches Ok(x) && x@ == id,
{
    let objects = reply.transaction->0.effects->0.changed_objects@;
    objects_are_known_by_type_and_operation(objects[i], seq![], suffix);
    assert forall|j: int| 0 <= j < i implies !((#[trigger] objects[j]).has_type(suffix)
        && objects[j].is_created()) by {
        objects_are_known_by_type_and_operation(objects[j], seq![], suffix);
    }
    the_first_created_object_is_found(objects, suffix, i);
    address_text_round_trip(id);
}

/// An execution that did not succeed tells of nothing, but why: what is missing in the
/// answer, or what the chain said.
pub proof fn failed_executions_say_why(
    reply: ExecutionReply,
    suffix: Seq<char>,
    r: Result<RawId, MarketError>,
)
    requires
        created_by(reply, suffix, r),
        !reply.succeeded(),
    ensures
        reply.transaction is None ==> r == Err::<RawId, MarketError>(MarketError::NoTransaction),
        reply.transaction matches Some(t) && t.effects is None ==> r == Err::<RawId, MarketError>(
            MarketError::NoEffects,
        ),
        reply.transaction matches Some(t) ==> (t.effects matches Some(e) ==> (e.status matches Some(
            s,
        ) ==> (r matches Err(MarketError::OnChainFailure { cause }) && (s.error matches Some(text)
            ==> cause@ == text@) && (s.error is None ==> cause@ == "unknown error"@)))),
{
}

/// A client has the configuration that it was given and the wallet that was found; without
/// a wallet there is no client.
pub proof fn clients_have_what_they_were_given(
    cfg: MarketConfig,
    search: WalletSearch,
    r: ClientSearch,
)
    requires
        started(cfg, search, r),
    ensures
        r.outcome is Ok <==> search.outcome is Ok,
        r.outcome matches Ok(client) ==> client.spec_config() == cfg,
        r.outcome is Ok ==> r.outcome->Ok_0.spec_wallet() == search.outcome->Ok_0,
        r.outcome is Err ==> r.outcome->Err_0 == search.outcome->Err_0,
        r.skipped@ == search.skipped@,
{
}

/// An identifier that writes an address is taken for it, and any other text is refused.
pub proof fn identifiers_are_addresses(
    text: Seq<char>,
    id: Seq<u8>,
    error: MarketError,
    r: Result<RawId, MarketError>,
)
    requires
        id_or_error(text, error, r),
        id.len() == 32,
    ensures
        text == address_chars(id) ==> (r matches Ok(x) && x@ == id),
        parsed_address(text) is None ==> r == Err::<RawId, MarketError>(error),
        parsed_address(text) is Some ==> r is Ok,
{
    address_text_round_trip(id);
}

/// A purchase that succeeded tells of the first access token in its effects, whatever was
/// done to it, by the address that is its identifier.
pub proof fn purchases_tell_of_the_token(
    reply: ExecutionReply,
    i: int,
    id: Seq<u8>,
    r: Result<RawId, MarketError>,
)
    requires
        minted_by(reply, r),
        reply.succeeded(),
        ({
            let objects = reply.transaction->0.effects->0.changed_objects@;
            &&& 0 <= i < objects.len()
            &&& objects[i].has_type("::marketplace::AccessToken"@)
            &&& objects[i].object_id matches Some(s)
            &&& s@ == address_chars(id)
            &&& forall|j: int|
                0 <= j < i ==> !(#[trigger] objects[j]).has_type("::marketplace::AccessToken"@)
        }),
        id.len() == 32,
    ensures
        r matches Ok(x) && x@ == id,
{
    let objects = reply.transaction->0.effects->0.changed_objects@;
    the_first_object_of_a_type_is_found(objects, "::marketplace::AccessToken"@, i);
    address_text_round_trip(id);
}

/// A purchase is ordered for the listing that its identifier writes and with the terms that
/// were asked for, if they can be bought at all; a wrong identifier is told of first.
pub proof fn orders_are_what_was_asked_for(
    listing_id: Seq<char>,
    id: Seq<u8>,
    terms: PurchaseTerms,
    r: Result<PurchaseOrder, MarketError>,
)
    requires
        ordered(listing_id, terms, r),
        id.len() == 32,
    ensures
        parsed_address(listing_id) is None ==> r == Err::<PurchaseOrder, MarketError>(
            MarketError::InvalidListingId,
        ),
        listing_id == address_chars(id) && 0 < terms.start < terms.end && 0 < terms.bandwidth ==> (
        r matches Ok(order) && order.listing_id@ == id && order.terms == terms),
        r matches Ok(order) ==> order.terms == terms && 0 < terms.start < terms.end && 0
            < terms.bandwidth && parsed_address(listing_id) == Some(order.listing_id@),
{
    address_text_round_trip(id);
}

/// A purchase is made if and only if its listing can be read, sells whole granules of its
/// duration and of its bandwidth, and the configured coin type is one; it then passes the
/// listing and the terms of the order.
pub proof fn purchases_are_made_in_whole_granules(
    client: MarketplaceClient,
    order: PurchaseOrder,
    reply: ObjectReply,
    listing: ServiceListingView,
    r: Result<TransactionBuilder, MarketError>,
)
    requires
        client.purchased(order, reply, r),
        order.terms.start <= order.terms.end,
        reply.listing() == Ok::<ServiceListingView, MarketError>(listing),
    ensures
        ({
            let tg = listing.time_granularity as int;
            let bg = listing.bw_granularity as int;
            let duration = order.terms.end - order.terms.start;
            r is Ok <==> (tg == 0 || duration % tg == 0) && (bg == 0 || order.terms.bandwidth as int
                % bg == 0) && type_tag_of(client.spec_config().marketplace.coin_type@) is Some
        }),
        r matches Ok(b) ==> {
            &&& builder_calls(b).len() == 1
            &&& builder_calls(b)[0].function == "purchase"@
            &&& builder_calls(b)[0].args.len() == 6
            &&& builder_calls(b)[0].args[1] == CallInput::Pure(order.listing_id@)
            &&& passed_number(builder_calls(b)[0].args[3]) == Some(order.terms.start as nat)
            &&& passed_number(builder_calls(b)[0].args[4]) == Some(order.terms.end as nat)
            &&& passed_number(builder_calls(b)[0].args[5]) == Some(order.terms.bandwidth as nat)
        },
{
    listings_sell_whole_granules(
        order.terms,
        listing.time_granularity,
        listing.bw_granularity,
    );
    purchases_carry_their_terms(
        client.spec_config().marketplace.marketplace_id@,
        order.listing_id@,
        order.terms,
    );
}

/// Without its listing a purchase fails, and without its token a redemption does, for the
/// reason that it could not be read for.
pub proof fn what_cannot_be_read_is_not_traded(
    client: MarketplaceClient,
    order: PurchaseOrder,
    token_id: Seq<u8>,
    ip_address: Seq<char>,
    reply: ObjectReply,
    bought: Result<TransactionBuilder, MarketError>,
    redeemed: Result<Redemption, MarketError>,
)
    requires
        client.purchased(order, reply, bought),
        client.redeems(token_id, reply, ip_address, redeemed),
    ensures
        reply.listing() matches Err(e) ==> bought == Err::<TransactionBuilder, MarketError>(e),
        reply.token() matches Err(e) ==> redeemed == Err::<Redemption, MarketError>(e),
        redeemed is Ok <==> reply.token() is Ok,
        redeemed matches Ok(redemption) ==> {
            &&& redemption.service_name@ == reply.token()->Ok_0.service_name
            &&& builder_calls(redemption.transaction).len() == 1
            &&& builder_calls(redemption.transaction)[0].function == "redeem"@
            &&& builder_calls(redemption.transaction)[0].type_args.len() == 0
            &&& builder_calls(redemption.transaction)[0].args.len() == 2
            &&& builder_calls(redemption.transaction)[0].args[0] == CallInput::Object(token_id)
            &&& builder_calls(redemption.transaction)[0].args[1] == CallInput::Pure(
                text_bytes(ip_address),
            )
            &&& builder_sender(redemption.transaction) == Some(client.spec_wallet().address@)
        },
{
}

/// What a buyer left open is filled in so that the listing sells it: a purchase with
/// resolved terms is never refused for its alignment.
pub proof fn resolved_purchases_are_not_refused(
    client: MarketplaceClient,
    listing: ServiceListing,
    start: Option<u64>,
    end: Option<u64>,
    bandwidth: u64,
    now: u64,
    order: PurchaseOrder,
    reply: ObjectReply,
    r: Result<TransactionBuilder, MarketError>,
)
    requires
        resolved_terms(listing, start, end, bandwidth, now, order.terms),
        client.purchased(order, reply, r),
        reply.listing() == Ok::<ServiceListingView, MarketError>(listing@),
    ensures
        r is Ok <==> type_tag_of(client.spec_config().marketplace.coin_type@) is Some,
{
    resolved_terms_are_aligned(listing, start, end, bandwidth, now, order.terms);
}

}
