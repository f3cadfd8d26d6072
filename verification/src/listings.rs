//! Listings as they are shown: which of them a search selects, in which order they
//! stand, and how they are written out.

use vstd::prelude::*;
use vstd::seq_lib::*;

use crate::address::RawId;
use crate::error::MarketError;
use crate::models::{ServiceListing, ServiceListingView};
use crate::network::{ip_of_text, parse_ip, parse_subnet, subnet_of_text, IpAddress, Subnet};
use crate::objects::ObjectReply;
use crate::text::{
    before_last, before_last_separator, no_separator_nothing_before, split_before_last, unbracket,
    unbracketed,
};

verus! {

/// What was asked for under an identifier, and the answer.
#[derive(Debug)]
pub struct Fetched {
    pub id: RawId,
    pub reply: ObjectReply,
}

/// A listing, with the identifier of its object.
#[derive(Debug)]
pub struct ListingRow {
    pub id: RawId,
    pub listing: ServiceListing,
}

/// What a [`ListingRow`] holds.
pub struct ListingRowView {
    pub id: Seq<u8>,
    pub listing: ServiceListingView,
}

impl View for ListingRow {
    type V = ListingRowView;

    open spec fn view(&self) -> ListingRowView {
        ListingRowView { id: self.id@, listing: self.listing@ }
    }
}

/// A listing that could not be read, and why.
#[derive(Debug)]
pub struct FetchFailure {
    pub id: RawId,
    pub error: MarketError,
}

/// Listings that were selected, and those that could not be read.
#[derive(Debug)]
pub struct Listings {
    pub rows: Vec<ListingRow>,
    pub failures: Vec<FetchFailure>,
}

/// What each row holds.
pub open spec fn row_views(rows: Seq<ListingRow>) -> Seq<ListingRowView> {
    rows.map_values(|r: ListingRow| r@)
}

/// What a search selects by.
#[derive(Debug, Clone, Copy)]
pub struct SearchFilter {
    /// The subnet that the service is in.
    pub subnet: Subnet,
    /// The least bandwidth that is offered (0: any).
    pub min_bandwidth: u64,
    /// A time by which the service is open (0: any).
    pub start: u64,
    /// A time at which the service is still open (0: any).
    pub end: u64,
}

/// The host in `host:port`: what stands before the last colon, without the brackets
/// around an IPv6 address.
pub open spec fn host_of(ip_address: Seq<char>) -> Option<Seq<char>> {
    match before_last(ip_address, ':') {
        Some(host) => Some(unbracketed(host)),
        None => None,
    }
}

/// The IP address of a listing: its host is one, or else all of `ip_address` is one. So
/// a text that reads both ways, such as `2001:db8::1:5`, is a host and a port.
pub open spec fn listing_ip(ip_address: Seq<char>) -> Option<IpAddress> {
    match host_ip(ip_address) {
        Some(ip) => Some(ip),
        None => ip_of_text(unbracketed(ip_address)),
    }
}

/// The IP address that the host in `host:port` is, if it is one.
pub open spec fn host_ip(ip_address: Seq<char>) -> Option<IpAddress> {
    match host_of(ip_address) {
        Some(host) => ip_of_text(host),
        None => None,
    }
}

/// Whether `r` is the filter that is asked for, or tells that its subnet is none.
pub open spec fn asked_filter(
    subnet: Seq<char>,
    min_bandwidth: u64,
    start: u64,
    end: u64,
    r: Result<SearchFilter, MarketError>,
) -> bool {
    match subnet_of_text(subnet) {
        Some(net) => {
            &&& r matches Ok(filter)
            &&& filter.subnet == net
            &&& filter.min_bandwidth == min_bandwidth
            &&& filter.start == start
            &&& filter.end == end
        },
        None => r matches Err(MarketError::InvalidSubnet { subnet: x }) && x@ == subnet,
    }
}

impl SearchFilter {
    /// Whether the filter selects a listing with the IP address `ip`. A listing that has
    /// a host name in its place passes any subnet.
    pub open spec fn selects(self, listing: ServiceListingView, ip: Option<IpAddress>) -> bool {
        &&& ip matches Some(ip) ==> self.subnet.holds(ip)
        &&& self.min_bandwidth == 0 || listing.token.bandwidth >= self.min_bandwidth
        &&& self.start == 0 || listing.token.valid_from <= self.start
        &&& self.end == 0 || listing.token.expires_at >= self.end
    }

    /// Whether the filter selects a listing.
    pub open spec fn keeps(self, listing: ServiceListingView) -> bool {
        self.selects(listing, listing_ip(listing.ip_address))
    }

    /// The filter of a search, with its subnet in CIDR notation.
    pub fn new(subnet: &str, min_bandwidth: u64, start: u64, end: u64) -> (r: Result<
        SearchFilter,
        MarketError,
    >)
        ensures
            match subnet_of_text(subnet@) {
                Some(net) => {
                    &&& r == Ok::<SearchFilter, MarketError>(
                        (SearchFilter { subnet: net, min_bandwidth, start, end }),
                    )
                    &&& net.wf()
                },
                None => r matches Err(MarketError::InvalidSubnet { subnet: x }) && x@ == subnet@,
            },
            asked_filter(subnet@, min_bandwidth, start, end, r),
    {
        match parse_subnet(subnet) {
            Some(net) => Ok(SearchFilter { subnet: net, min_bandwidth, start, end }),
            None => Err(MarketError::InvalidSubnet { subnet: subnet.to_owned() }),
        }
    }

    /// Whether the filter selects a listing with the IP address `ip`.
    pub fn matches_host(&self, listing: &ServiceListing, ip: Option<IpAddress>) -> (r: bool)
        requires
            self.subnet.wf(),
        ensures
            r == self.selects(listing@, ip),
    {
        if let Some(ip) = ip {
            if !self.subnet.contains(ip) {
                return false;
            }
        }
        if self.min_bandwidth > 0 && listing.token.bandwidth < self.min_bandwidth {
            return false;
        }
        if self.start > 0 && listing.token.valid_from > self.start {
            return false;
        }
        if self.end > 0 && listing.token.expires_at < self.end {
            return false;
        }
        true
    }

    /// Whether the filter selects a listing.
    pub fn matches_listing(&self, listing: &ServiceListing) -> (r: bool)
        requires
            self.subnet.wf(),
        ensures
            r == self.keeps(listing@),
    {
        self.matches_host(listing, read_listing_ip(listing.ip_address.as_str()))
    }
}

/// The host in `host:port`, if `ip_address` is of that form.
pub fn listing_host<'a>(ip_address: &'a str) -> (r: Option<&'a str>)
    ensures
        match r {
            Some(host) => host_of(ip_address@) == Some(host@),
            None => host_of(ip_address@) is None,
        },
{
    match split_before_last(ip_address, ':') {
        Some(host) => Some(unbracket(host)),
        None => None,
    }
}

/// The IP address of a listing, if it has one.
pub fn read_listing_ip(ip_address: &str) -> (r: Option<IpAddress>)
    ensures
        r == listing_ip(ip_address@),
{
    let of_host = match listing_host(ip_address) {
        Some(host) => parse_ip(host),
        None => None,
    };
    match of_host {
        Some(ip) => Some(ip),
        None => parse_ip(unbracket(ip_address)),
    }
}

/// Whether a listing is selected: by the filter, if there is one.
pub open spec fn selected(filter: Option<SearchFilter>, listing: ServiceListingView) -> bool {
    filter matches Some(f) ==> f.keeps(listing)
}

/// The listings among the answers that can be read and are selected, in the order of
/// the answers.
pub open spec fn selected_rows(fetched: Seq<Fetched>, filter: Option<SearchFilter>) -> Seq<
    ListingRowView,
>
    decreases fetched.len(),
{
    if fetched.len() == 0 {
        seq![]
    } else {
        let before = selected_rows(fetched.drop_last(), filter);
        match fetched.last().reply.listing() {
            Ok(listing) => if selected(filter, listing) {
                before.push(ListingRowView { id: fetched.last().id@, listing })
            } else {
                before
            },
            Err(_) => before,
        }
    }
}

/// The answers that no listing can be read from, in their order.
pub open spec fn fetch_failures(fetched: Seq<Fetched>) -> Seq<FetchFailure>
    decreases fetched.len(),
{
    if fetched.len() == 0 {
        seq![]
    } else {
        let before = fetch_failures(fetched.drop_last());
        match fetched.last().reply.listing() {
            Ok(_) => before,
            Err(error) => before.push(FetchFailure { id: fetched.last().id, error }),
        }
    }
}

/// `rows` with `row` before the first that does not cost less.
pub open spec fn inserted_by_price(row: ListingRowView, rows: Seq<ListingRowView>) -> Seq<
    ListingRowView,
>
    decreases rows.len(),
{
    if rows.len() == 0 || row.listing.price_mist <= rows.first().listing.price_mist {
        seq![row] + rows
    } else {
        seq![rows.first()] + inserted_by_price(row, rows.drop_first())
    }
}

/// `rows`, ordered by price; rows of the same price stay in their order.
pub open spec fn price_order(rows: Seq<ListingRowView>) -> Seq<ListingRowView>
    decreases rows.len(),
{
    if rows.len() == 0 {
        rows
    } else {
        inserted_by_price(rows.first(), price_order(rows.drop_first()))
    }
}

proof fn lemma_inserted_at(row: ListingRowView, rows: Seq<ListingRowView>, at: int)
    requires
        0 <= at <= rows.len(),
        forall|j: int|
            0 <= j < at ==> (#[trigger] rows[j]).listing.price_mist < row.listing.price_mist,
        at < rows.len() ==> row.listing.price_mist <= rows[at].listing.price_mist,
    ensures
        inserted_by_price(row, rows) == rows.insert(at, row),
    decreases rows.len(),
{
    if at == 0 {
        assert(rows.insert(0, row) =~= seq![row] + rows);
    } else {
        assert(rows[0].listing.price_mist < row.listing.price_mist);
        let rest = rows.drop_first();
        assert forall|j: int| 0 <= j < at - 1 implies (#[trigger] rest[j]).listing.price_mist
            < row.listing.price_mist by {
            assert(rest[j] == rows[j + 1]);
        }
        lemma_inserted_at(row, rest, at - 1);
        assert(rows.insert(at, row) =~= seq![rows.first()] + rest.insert(at - 1, row));
    }
}

/// Orders rows by price; rows of the same price stay in their order.
pub fn sort_by_price(rows: Vec<ListingRow>) -> (r: Vec<ListingRow>)
    ensures
        row_views(r@) == price_order(row_views(rows@)),
{
    let mut rest = rows;
    let mut sorted: Vec<ListingRow> = Vec::new();
    let ghost all = row_views(rows@);
    proof {
        assert(all.skip(rest@.len() as int) =~= seq![]);
        assert(row_views(sorted@) =~= seq![]);
    }
    while rest.len() > 0
        invariant
            all == row_views(rows@),
            rest@.len() <= rows@.len(),
            rest@ == rows@.take(rest@.len() as int),
            row_views(sorted@) == price_order(all.skip(rest@.len() as int)),
        decreases rest@.len(),
    {
        let ghost n = rest@.len() as int;
        let ghost before = sorted@;
        let row = match rest.pop() {
            Some(row) => row,
            None => return sorted,
        };
        let mut at: usize = 0;
        while at < sorted.len() && sorted[at].listing.price_mist < row.listing.price_mist
            invariant
                at <= sorted@.len(),
                sorted@ == before,
                forall|j: int|
                    0 <= j < at ==> (#[trigger] sorted@[j]).listing.price_mist
                        < row.listing.price_mist,
            decreases sorted@.len() - at,
        {
            at += 1;
        }
        proof {
            let views = row_views(before);
            assert forall|j: int| 0 <= j < at implies (#[trigger] views[j]).listing.price_mist
                < row@.listing.price_mist by {
                assert(views[j] == before[j]@);
            }
            lemma_inserted_at(row@, views, at as int);
            assert(all.skip(n - 1).first() == row@);
            assert(all.skip(n - 1).drop_first() =~= all.skip(n));
        }
        sorted.insert(at, row);
        proof {
            assert(row_views(sorted@) =~= row_views(before).insert(at as int, row@));
            assert(rest@ =~= rows@.take(n - 1));
        }
    }
    proof {
        assert(all.skip(0) =~= all);
    }
    sorted
}

/// Reads the listings among the answers that the filter selects, if there is one, and
/// orders them by price.
fn gather(fetched: &Vec<Fetched>, filter: Option<SearchFilter>) -> (r: Listings)
    requires
        filter matches Some(f) ==> f.subnet.wf(),
    ensures
        row_views(r.rows@) == price_order(selected_rows(fetched@, filter)),
        r.failures@ == fetch_failures(fetched@),
{
    let mut rows: Vec<ListingRow> = Vec::new();
    let mut failures: Vec<FetchFailure> = Vec::new();
    let mut i: usize = 0;
    proof {
        assert(fetched@.take(0) =~= seq![]);
        assert(row_views(rows@) =~= seq![]);
    }
    while i < fetched.len()
        invariant
            filter matches Some(f) ==> f.subnet.wf(),
            i <= fetched@.len(),
            row_views(rows@) == selected_rows(fetched@.take(i as int), filter),
            failures@ == fetch_failures(fetched@.take(i as int)),
        decreases fetched@.len() - i,
    {
        let item = &fetched[i];
        proof {
            assert(fetched@.take(i + 1).drop_last() =~= fetched@.take(i as int));
        }
        match item.reply.read_listing() {
            Ok(listing) => {
                let keep = match filter {
                    Some(f) => f.matches_listing(&listing),
                    None => true,
                };
                if keep {
                    let ghost before = rows@;
                    let row = ListingRow { id: item.id, listing };
                    rows.push(row);
                    proof {
                        assert(row_views(rows@) =~= row_views(before).push(row@));
                    }
                }
            },
            Err(error) => {
                failures.push(FetchFailure { id: item.id, error });
            },
        }
        i += 1;
    }
    proof {
        assert(fetched@.take(fetched@.len() as int) =~= fetched@);
    }
    Listings { rows: sort_by_price(rows), failures }
}

/// The listings among the answers, ordered by price.
pub fn all_listings(fetched: &Vec<Fetched>) -> (r: Listings)
    ensures
        row_views(r.rows@) == price_order(selected_rows(fetched@, None)),
        r.failures@ == fetch_failures(fetched@),
{
    gather(fetched, None)
}

impl SearchFilter {
    /// The listings among the answers that the filter selects, ordered by price.
    pub fn search(&self, fetched: &Vec<Fetched>) -> (r: Listings)
        requires
            self.subnet.wf(),
        ensures
            row_views(r.rows@) == price_order(selected_rows(fetched@, Some(*self))),
            r.failures@ == fetch_failures(fetched@),
    {
        gather(fetched, Some(*self))
    }
}

/// The first identifiers, at most `limit` of them.
pub open spec fn first_ids(ids: Seq<RawId>, limit: nat) -> Seq<RawId> {
    if limit < ids.len() {
        ids.take(limit as int)
    } else {
        ids
    }
}

/// The identifiers that are asked for where at most `limit` listings are to be shown:
/// the first ones.
pub fn limit_ids(ids: Vec<RawId>, limit: u32) -> (r: Vec<RawId>)
    ensures
        r@ == if limit < ids@.len() {
            ids@.take(limit as int)
        } else {
            ids@
        },
        r@ == first_ids(ids@, limit as nat),
{
    let mut r = ids;
    r.truncate(limit as usize);
    r
}

/// Whether no row costs more than a later one.
pub open spec fn sorted_by_price(rows: Seq<ListingRowView>) -> bool {
    forall|i: int, j: int|
        0 <= i <= j < rows.len() ==> (#[trigger] rows[i]).listing.price_mist <= (
        #[trigger] rows[j]).listing.price_mist
}

/// The rows of one price.
pub open spec fn of_price(rows: Seq<ListingRowView>, price: u64) -> Seq<ListingRowView> {
    rows.filter(|r: ListingRowView| r.listing.price_mist == price)
}

proof fn lemma_insertion_point(row: ListingRowView, rows: Seq<ListingRowView>) -> (at: int)
    ensures
        0 <= at <= rows.len(),
        forall|j: int|
            0 <= j < at ==> (#[trigger] rows[j]).listing.price_mist < row.listing.price_mist,
        at < rows.len() ==> row.listing.price_mist <= rows[at].listing.price_mist,
        inserted_by_price(row, rows) == rows.insert(at, row),
    decreases rows.len(),
{
    if rows.len() == 0 || row.listing.price_mist <= rows.first().listing.price_mist {
        lemma_inserted_at(row, rows, 0);
        0
    } else {
        let rest = rows.drop_first();
        let at = lemma_insertion_point(row, rest) + 1;
        assert forall|j: int| 0 <= j < at implies (#[trigger] rows[j]).listing.price_mist
            < row.listing.price_mist by {
            if j > 0 {
                assert(rows[j] == rest[j - 1]);
            }
        }
        lemma_inserted_at(row, rows, at);
        at
    }
}

/// Listings are shown in the order of their prices.
pub proof fn price_order_is_sorted(rows: Seq<ListingRowView>)
    ensures
        sorted_by_price(price_order(rows)),
    decreases rows.len(),
{
    if rows.len() > 0 {
        let row = rows.first();
        let rest = price_order(rows.drop_first());
        price_order_is_sorted(rows.drop_first());
        let at = lemma_insertion_point(row, rest);
        let all = rest.insert(at, row);
        assert forall|i: int, j: int| 0 <= i <= j < all.len() implies (
        #[trigger] all[i]).listing.price_mist <= (#[trigger] all[j]).listing.price_mist by {
            let a = if i < at {
                rest[i]
            } else if i == at {
                row
            } else {
                rest[i - 1]
            };
            let b = if j < at {
                rest[j]
            } else if j == at {
                row
            } else {
                rest[j - 1]
            };
            assert(all[i] == a && all[j] == b);
            if at < rest.len() {
                assert(row.listing.price_mist <= rest[at].listing.price_mist);
            }
        }
    }
}

/// Ordering neither drops nor repeats a listing.
pub proof fn price_order_keeps_all(rows: Seq<ListingRowView>)
    ensures
        price_order(rows).to_multiset() == rows.to_multiset(),
        price_order(rows).len() == rows.len(),
    decreases rows.len(),
{
    if rows.len() > 0 {
        let row = rows.first();
        let rest = price_order(rows.drop_first());
        price_order_keeps_all(rows.drop_first());
        let at = lemma_insertion_point(row, rest);
        broadcast use group_to_multiset_ensures;
        to_multiset_insert(rest, at, row);
        assert(rows =~= rows.drop_first().insert(0, row));
        to_multiset_insert(rows.drop_first(), 0, row);
    }
}

/// Listings of the same price stay in the order in which they were found.
pub proof fn price_order_is_stable(rows: Seq<ListingRowView>, price: u64)
    ensures
        of_price(price_order(rows), price) == of_price(rows, price),
    decreases rows.len(),
{
    if rows.len() > 0 {
        let row = rows.first();
        let tail = rows.drop_first();
        let rest = price_order(tail);
        price_order_is_stable(tail, price);
        let at = lemma_insertion_point(row, rest);
        let pred = |r: ListingRowView| r.listing.price_mist == price;
        let head = rest.take(at);
        let back = rest.skip(at);
        assert(rest =~= head + back);
        assert(rest.insert(at, row) =~= head + (seq![row] + back));
        assert(rows =~= seq![row] + tail);
        lemma_filter_concat(head, back, pred);
        lemma_filter_concat(seq![row], back, pred);
        lemma_filter_concat(head, seq![row] + back, pred);
        lemma_filter_concat(seq![row], tail, pred);
        if row.listing.price_mist == price {
            lemma_filter_none(head, pred);
        }
        lemma_filter_one(row, pred);
        assert(of_price(price_order(rows), price) =~= of_price(rows, price));
    }
}

proof fn lemma_filter_concat(
    a: Seq<ListingRowView>,
    b: Seq<ListingRowView>,
    pred: spec_fn(ListingRowView) -> bool,
)
    ensures
        (a + b).filter(pred) == a.filter(pred) + b.filter(pred),
    decreases b.len(),
{
    reveal(Seq::filter);
    if b.len() == 0 {
        assert(a + b =~= a);
        assert(b.filter(pred) =~= seq![]);
        assert(a.filter(pred) + b.filter(pred) =~= a.filter(pred));
    } else {
        assert((a + b).drop_last() =~= a + b.drop_last());
        lemma_filter_concat(a, b.drop_last(), pred);
        assert((a + b).last() == b.last());
        assert((a + b).filter(pred) =~= a.filter(pred) + b.filter(pred));
    }
}

proof fn lemma_filter_none(a: Seq<ListingRowView>, pred: spec_fn(ListingRowView) -> bool)
    requires
        forall|j: int| 0 <= j < a.len() ==> !pred(#[trigger] a[j]),
    ensures
        a.filter(pred) == Seq::<ListingRowView>::empty(),
    decreases a.len(),
{
    reveal(Seq::filter);
    if a.len() > 0 {
        assert(!pred(a[a.len() - 1]));
        assert forall|j: int| 0 <= j < a.len() - 1 implies !pred(#[trigger] a.drop_last()[j]) by {
            assert(a.drop_last()[j] == a[j]);
        }
        lemma_filter_none(a.drop_last(), pred);
    }
}

proof fn lemma_filter_one(row: ListingRowView, pred: spec_fn(ListingRowView) -> bool)
    ensures
        pred(row) ==> seq![row].filter(pred) == seq![row],
        !pred(row) ==> seq![row].filter(pred) == Seq::<ListingRowView>::empty(),
{
    reveal(Seq::filter);
    let one = seq![row];
    assert(one.drop_last() =~= Seq::<ListingRowView>::empty());
    assert(one.drop_last().filter(pred) =~= Seq::<ListingRowView>::empty());
    assert(seq![row] =~= Seq::<ListingRowView>::empty().push(row));
}

/// A search whose bounds are all zero selects by the subnet alone.
pub proof fn zero_bounds_select_all(
    filter: SearchFilter,
    listing: ServiceListingView,
    ip: Option<IpAddress>,
)
    requires
        filter.min_bandwidth == 0,
        filter.start == 0,
        filter.end == 0,
    ensures
        filter.selects(listing, ip) <==> (ip matches Some(x) ==> filter.subnet.holds(x)),
{
}

/// Without a filter, each answer is either shown or told of as a failure.
pub proof fn each_answer_is_shown_or_told_of(fetched: Seq<Fetched>)
    ensures
        price_order(selected_rows(fetched, None)).len() + fetch_failures(fetched).len()
            == fetched.len(),
{
    price_order_keeps_all(selected_rows(fetched, None));
    lemma_read_or_failed(fetched);
}

proof fn lemma_read_or_failed(fetched: Seq<Fetched>)
    ensures
        selected_rows(fetched, None).len() + fetch_failures(fetched).len() == fetched.len(),
    decreases fetched.len(),
{
    if fetched.len() > 0 {
        lemma_read_or_failed(fetched.drop_last());
    }
}

/// A listing at an IP address that does not read as one with a port is kept only where
/// the subnet holds the address.
pub proof fn addresses_obey_the_subnet(
    filter: SearchFilter,
    listing: ServiceListingView,
    ip: IpAddress,
)
    ensures
        host_ip(listing.ip_address) is None && ip_of_text(unbracketed(listing.ip_address)) == Some(
            ip,
        ) && filter.keeps(listing) ==> filter.subnet.holds(ip),
{
}

/// A listing at an IP address with a port, the address in brackets or not, is kept only
/// where the subnet holds the address.
pub proof fn addresses_with_ports_obey_the_subnet(
    filter: SearchFilter,
    listing: ServiceListingView,
    host: Seq<char>,
    port: Seq<char>,
    ip: IpAddress,
)
    requires
        listing.ip_address == host.push(':') + port,
        !port.contains(':'),
    ensures
        ip_of_text(unbracketed(host)) == Some(ip) && filter.keeps(listing) ==> filter.subnet.holds(
            ip,
        ),
{
    before_last_separator(host, ':', port);
}

impl Fetched {
    /// Whether the answer is a listing that is selected, and shown as `row`.
    pub open spec fn shown_as(self, filter: Option<SearchFilter>, row: ListingRowView) -> bool {
        &&& self.id@ == row.id
        &&& self.reply.listing() == Ok::<ServiceListingView, MarketError>(row.listing)
        &&& selected(filter, row.listing)
    }
}

/// A search shows a listing if and only if it could be read and the filter keeps it.
pub proof fn search_shows_exactly_the_kept(
    fetched: Seq<Fetched>,
    filter: Option<SearchFilter>,
    row: ListingRowView,
)
    ensures
        price_order(selected_rows(fetched, filter)).contains(row) <==> exists|i: int|
            0 <= i < fetched.len() && #[trigger] fetched[i].shown_as(filter, row),
{
    let rows = selected_rows(fetched, filter);
    price_order_keeps_all(rows);
    assert(price_order(rows).contains(row) <==> rows.contains(row)) by {
        broadcast use group_to_multiset_ensures;

        assert(price_order(rows).to_multiset().count(row) == rows.to_multiset().count(row));
    }
    if rows.contains(row) {
        let i = lemma_row_was_fetched(fetched, filter, row);
        assert(fetched[i].shown_as(filter, row));
    }
    if exists|i: int| 0 <= i < fetched.len() && #[trigger] fetched[i].shown_as(filter, row) {
        let i = choose|i: int|
            0 <= i < fetched.len() && #[trigger] fetched[i].shown_as(filter, row);
        lemma_shown_row_is_selected(fetched, filter, row, i);
    }
}

proof fn lemma_row_was_fetched(
    fetched: Seq<Fetched>,
    filter: Option<SearchFilter>,
    row: ListingRowView,
) -> (i: int)
    requires
        selected_rows(fetched, filter).contains(row),
    ensures
        0 <= i < fetched.len(),
        fetched[i].shown_as(filter, row),
    decreases fetched.len(),
{
    if fetched.last().shown_as(filter, row) {
        fetched.len() - 1
    } else {
        let all = selected_rows(fetched, filter);
        let before = selected_rows(fetched.drop_last(), filter);
        let k = choose|k: int| 0 <= k < all.len() && all[k] == row;
        assert(before[k] == row);
        lemma_row_was_fetched(fetched.drop_last(), filter, row)
    }
}

proof fn lemma_shown_row_is_selected(
    fetched: Seq<Fetched>,
    filter: Option<SearchFilter>,
    row: ListingRowView,
    i: int,
)
    requires
        0 <= i < fetched.len(),
        fetched[i].shown_as(filter, row),
    ensures
        selected_rows(fetched, filter).contains(row),
    decreases fetched.len(),
{
    let all = selected_rows(fetched, filter);
    let before = selected_rows(fetched.drop_last(), filter);
    if i == fetched.len() - 1 {
        assert(all[before.len() as int] == row);
    } else {
        lemma_shown_row_is_selected(fetched.drop_last(), filter, row, i);
        let k = choose|k: int| 0 <= k < before.len() && before[k] == row;
        assert(all[k] == row);
    }
}

/// Every listing that a search shows meets each bound that is not zero, and lies in the
/// subnet where it has an IP address.
pub proof fn shown_listings_meet_the_bounds(
    fetched: Seq<Fetched>,
    filter: SearchFilter,
    row: ListingRowView,
)
    requires
        price_order(selected_rows(fetched, Some(filter))).contains(row),
    ensures
        filter.min_bandwidth != 0 ==> row.listing.token.bandwidth >= filter.min_bandwidth,
        filter.start != 0 ==> row.listing.token.valid_from <= filter.start,
        filter.end != 0 ==> row.listing.token.expires_at >= filter.end,
        listing_ip(row.listing.ip_address) matches Some(ip) ==> filter.subnet.holds(ip),
{
    search_shows_exactly_the_kept(fetched, Some(filter), row);
}

/// A listing that can be read, meets each bound that is not zero and has no IP address
/// outside of the subnet is shown.
pub proof fn listings_that_meet_the_bounds_are_shown(
    fetched: Seq<Fetched>,
    filter: SearchFilter,
    i: int,
    listing: ServiceListingView,
)
    requires
        0 <= i < fetched.len(),
        fetched[i].reply.listing() == Ok::<ServiceListingView, MarketError>(listing),
        filter.min_bandwidth == 0 || filter.min_bandwidth <= listing.token.bandwidth,
        filter.start == 0 || listing.token.valid_from <= filter.start,
        filter.end == 0 || filter.end <= listing.token.expires_at,
        listing_ip(listing.ip_address) matches Some(ip) ==> filter.subnet.holds(ip),
    ensures
        price_order(selected_rows(fetched, Some(filter))).contains(
            ListingRowView { id: fetched[i].id@, listing },
        ),
{
    let row = ListingRowView { id: fetched[i].id@, listing };
    assert(fetched[i].shown_as(Some(filter), row));
    search_shows_exactly_the_kept(fetched, Some(filter), row);
}

/// A filter selects a listing by its bounds and its subnet, each of which counts alone.
pub proof fn each_bound_counts_alone(
    filter: SearchFilter,
    listing: ServiceListingView,
    ip: Option<IpAddress>,
)
    ensures
        filter.selects(listing, ip) ==> {
            &&& filter.min_bandwidth != 0 ==> filter.min_bandwidth <= listing.token.bandwidth
            &&& filter.start != 0 ==> filter.start >= listing.token.valid_from
            &&& filter.end != 0 ==> filter.end <= listing.token.expires_at
            &&& ip matches Some(x) ==> filter.subnet.holds(x)
        },
        !filter.selects(listing, ip) ==> {
            ||| 0 < filter.min_bandwidth && listing.token.bandwidth < filter.min_bandwidth
            ||| 0 < filter.start < listing.token.valid_from
            ||| listing.token.expires_at < filter.end
            ||| ip matches Some(x) && !filter.subnet.holds(x)
        },
        filter.keeps(listing) <==> filter.selects(listing, listing_ip(listing.ip_address)),
{
}

/// Without a filter every listing that can be read is shown, and nothing else.
pub proof fn all_listings_are_shown(fetched: Seq<Fetched>, row: ListingRowView)
    ensures
        price_order(selected_rows(fetched, None)).contains(row) <==> exists|i: int|
            0 <= i < fetched.len() && (#[trigger] fetched[i]).id@ == row.id
                && fetched[i].reply.listing() == Ok::<ServiceListingView, MarketError>(row.listing),
{
    search_shows_exactly_the_kept(fetched, None, row);
    if exists|i: int| 0 <= i < fetched.len() && #[trigger] fetched[i].shown_as(None, row) {
        let i = choose|i: int| 0 <= i < fetched.len() && #[trigger] fetched[i].shown_as(None, row);
        assert(fetched[i].id@ == row.id);
    }
    if exists|i: int|
        0 <= i < fetched.len() && (#[trigger] fetched[i]).id@ == row.id
            && fetched[i].reply.listing() == Ok::<ServiceListingView, MarketError>(row.listing) {
        let i = choose|i: int|
            0 <= i < fetched.len() && (#[trigger] fetched[i]).id@ == row.id
                && fetched[i].reply.listing() == Ok::<ServiceListingView, MarketError>(row.listing);
        assert(fetched[i].shown_as(None, row));
    }
}

/// Answers are selected each on its own: those of the first ones come before those of the
/// others, and an answer that is selected comes just once.
pub proof fn answers_are_selected_one_by_one(
    a: Seq<Fetched>,
    b: Seq<Fetched>,
    filter: Option<SearchFilter>,
    answer: Fetched,
)
    ensures
        selected_rows(a + b, filter) == selected_rows(a, filter) + selected_rows(b, filter),
        fetch_failures(a + b) == fetch_failures(a) + fetch_failures(b),
        forall|row: ListingRowView|
            answer.shown_as(filter, row) ==> selected_rows(seq![answer], filter) == seq![row],
        (forall|row: ListingRowView| !answer.shown_as(filter, row)) ==> selected_rows(
            seq![answer],
            filter,
        ).len() == 0,
        forall|error: MarketError|
            answer.reply.listing() == Err::<ServiceListingView, MarketError>(error)
                ==> #[trigger] fetch_failures(seq![answer]) == seq![
                FetchFailure { id: answer.id, error },
            ],
        answer.reply.listing() is Ok ==> fetch_failures(seq![answer]).len() == 0,
    decreases b.len(),
{
    let one = seq![answer];
    assert(one.drop_last() =~= seq![]);
    assert(selected_rows(one.drop_last(), filter) =~= seq![]);
    assert(fetch_failures(one.drop_last()) =~= seq![]);
    assert(one.last() == answer);
    if let Ok(listing) = answer.reply.listing() {
        let row = ListingRowView { id: answer.id@, listing };
        if selected(filter, listing) {
            assert(answer.shown_as(filter, row));
        }
    }
    if b.len() == 0 {
        assert(a + b =~= a);
    } else {
        answers_are_selected_one_by_one(a, b.drop_last(), filter, answer);
        assert((a + b).drop_last() =~= a + b.drop_last());
        assert((a + b).last() == b.last());
    }
}

/// The shown listings come by rising price.
pub proof fn cheaper_listings_come_first(
    fetched: Seq<Fetched>,
    filter: Option<SearchFilter>,
    i: int,
    j: int,
)
    requires
        0 <= i < j < price_order(selected_rows(fetched, filter)).len(),
    ensures
        price_order(selected_rows(fetched, filter))[i].listing.price_mist <= price_order(
            selected_rows(fetched, filter),
        )[j].listing.price_mist,
{
    price_order_is_sorted(selected_rows(fetched, filter));
}

/// A limit cuts off what is behind it, and nothing else.
pub proof fn a_limit_keeps_the_first(ids: Seq<RawId>, limit: nat)
    ensures
        first_ids(ids, limit).is_prefix_of(ids),
        first_ids(ids, limit).len() <= limit,
        first_ids(ids, limit).len() == limit || first_ids(ids, limit) == ids,
{
}

/// An IP address is read from a text that is one, with or without brackets, and from the
/// host of `host:port`; where neither is one, there is none.
pub proof fn addresses_are_read_with_and_without_a_port(
    text: Seq<char>,
    host: Seq<char>,
    port: Seq<char>,
)
    requires
        !port.contains(':'),
    ensures
        !text.contains(':') ==> listing_ip(text) == ip_of_text(unbracketed(text)),
        ip_of_text(unbracketed(host)) is Some ==> listing_ip(host.push(':') + port) == ip_of_text(
            unbracketed(host),
        ),
        ip_of_text(unbracketed(host)) is None ==> listing_ip(host.push(':') + port) == ip_of_text(
            unbracketed(host.push(':') + port),
        ),
{
    before_last_separator(host, ':', port);
    if !text.contains(':') {
        no_separator_nothing_before(text, ':');
    }
}

/// A row holds all of its listing, under the identifier of its object.
pub proof fn rows_hold_all(row: ListingRow)
    ensures
        row@.id == row.id@,
        row@.listing == row.listing@,
{
}

/// A filter has the bounds that were asked for, each its own, and a subnet that the text
/// writes; a text that writes none is told of.
pub proof fn filters_have_the_bounds_asked_for(
    subnet: Seq<char>,
    min_bandwidth: u64,
    start: u64,
    end: u64,
    r: Result<SearchFilter, MarketError>,
)
    requires
        asked_filter(subnet, min_bandwidth, start, end, r),
    ensures
        r is Ok <==> subnet_of_text(subnet) is Some,
        r matches Ok(f) ==> {
            &&& Some(f.subnet) == subnet_of_text(subnet)
            &&& f.min_bandwidth == min_bandwidth
            &&& f.start == start
            &&& f.end == end
        },
        r matches Err(e) ==> (e matches MarketError::InvalidSubnet { subnet: text } && text@
            == subnet),
{
}

/// A search that asks for more shows no listing that one that asks for less does not.
pub proof fn stricter_searches_show_less(
    loose: SearchFilter,
    strict: SearchFilter,
    listing: ServiceListingView,
)
    requires
        loose.subnet == strict.subnet,
        loose.min_bandwidth <= strict.min_bandwidth,
        loose.start == 0 || 0 < strict.start <= loose.start,
        loose.end <= strict.end,
        strict.keeps(listing),
    ensures
        loose.keeps(listing),
{
}

/// The rows that are shown are those of each row, in its place.
pub proof fn rows_keep_their_places(rows: Seq<ListingRow>, i: int)
    requires
        0 <= i < rows.len(),
    ensures
        row_views(rows).len() == rows.len(),
        row_views(rows)[i] == rows[i]@,
{
}

}
