//! What is told to the user: tables of listings, and the outcomes of operations, line
//! by line. Prices come as text, since they are shown as decimal fractions.

use vstd::prelude::*;
use vstd::string::*;

use crate::address::{address_chars, address_text, RawId};
use crate::listings::{FetchFailure, ListingRow};
use crate::offer::OfferTerms;
use crate::text::{
    align_left, align_right, copies, decimal, decimal_text, left_aligned, repeat_text,
    right_aligned, texts,
};

verus! {

/// A bandwidth, as it is shown; none stands for no limit.
pub open spec fn bandwidth_chars(bandwidth: u64) -> Seq<char> {
    if bandwidth == 0 {
        "unlimited"@
    } else {
        decimal(bandwidth as nat) + " kB/s"@
    }
}

/// A bandwidth, as it is shown.
pub fn bandwidth_text(bandwidth: u64) -> (r: String)
    ensures
        r@ == bandwidth_chars(bandwidth),
{
    if bandwidth == 0 {
        "unlimited".to_owned()
    } else {
        let mut r = decimal_text(bandwidth);
        r.append(" kB/s");
        r
    }
}

/// A row of the table of all listings.
pub open spec fn listing_line(row: ListingRow, price: Seq<char>) -> Seq<char> {
    address_chars(row.id@) + "  "@ + price + "  "@ + row.listing.name@ + "  (expires: "@ + decimal(
        row.listing.token.expires_at as nat,
    ) + " s, bw: "@ + bandwidth_chars(row.listing.token.bandwidth) + ")"@
}

/// A row of the table of a search.
pub open spec fn search_line(row: ListingRow, price: Seq<char>) -> Seq<char> {
    address_chars(row.id@) + "  "@ + price + "  "@ + left_aligned(row.listing.ip_address@, 22)
        + "  "@ + row.listing.name@ + "  (from: "@ + decimal(row.listing.token.valid_from as nat)
        + " s, until: "@ + decimal(row.listing.token.expires_at as nat) + " s, bw: "@
        + bandwidth_chars(row.listing.token.bandwidth) + ")"@
}

/// Writes a row of the table of all listings.
fn listing_text(row: &ListingRow, price: &str) -> (r: String)
    ensures
        r@ == listing_line(*row, price@),
{
    let mut r = address_text(&row.id);
    r.append("  ");
    r.append(price);
    r.append("  ");
    r.append(row.listing.name.as_str());
    r.append("  (expires: ");
    r.append(decimal_text(row.listing.token.expires_at).as_str());
    r.append(" s, bw: ");
    r.append(bandwidth_text(row.listing.token.bandwidth).as_str());
    r.append(")");
    r
}

/// Writes a row of the table of a search.
fn search_text(row: &ListingRow, price: &str) -> (r: String)
    ensures
        r@ == search_line(*row, price@),
{
    let mut r = address_text(&row.id);
    r.append("  ");
    r.append(price);
    r.append("  ");
    r.append(align_left(row.listing.ip_address.as_str(), 22).as_str());
    r.append("  ");
    r.append(row.listing.name.as_str());
    r.append("  (from: ");
    r.append(decimal_text(row.listing.token.valid_from).as_str());
    r.append(" s, until: ");
    r.append(decimal_text(row.listing.token.expires_at).as_str());
    r.append(" s, bw: ");
    r.append(bandwidth_text(row.listing.token.bandwidth).as_str());
    r.append(")");
    r
}

/// The head of the table of all listings.
pub open spec fn listing_head() -> Seq<char> {
    left_aligned("Listing ID"@, 68) + "  "@ + right_aligned("Price SUI"@, 10) + "  "@ + "Name"@
}

/// The head of the table of a search.
pub open spec fn search_head() -> Seq<char> {
    left_aligned("Listing ID"@, 68) + "  "@ + right_aligned("Price SUI"@, 10) + "  "@
        + left_aligned("IP"@, 22) + "  "@ + "Name"@
}

/// The table of all listings, given what `prices` they are shown with; `asked` is how
/// many listings were asked for.
pub open spec fn listings_report(asked: nat, rows: Seq<ListingRow>, prices: Seq<String>) -> Seq<
    Seq<char>,
> {
    if asked == 0 {
        seq!["No listings found."@]
    } else {
        seq![listing_head(), copies('─', 100)] + Seq::new(
            rows.len(),
            |i: int| listing_line(rows[i], prices[i]@),
        ) + seq!["\n"@ + decimal(rows.len()) + " listing(s) shown."@]
    }
}

/// The table of a search, given what `prices` the listings are shown with; `asked` is
/// how many listings were asked for.
pub open spec fn search_report(asked: nat, rows: Seq<ListingRow>, prices: Seq<String>) -> Seq<
    Seq<char>,
> {
    if asked == 0 {
        seq!["No listings found."@]
    } else if rows.len() == 0 {
        seq!["No listings match the given filters."@]
    } else {
        seq![search_head(), copies('─', 120)] + Seq::new(
            rows.len(),
            |i: int| search_line(rows[i], prices[i]@),
        ) + seq!["\n"@ + decimal(rows.len()) + " listing(s) found."@]
    }
}

/// The table of all listings.
pub fn listings_table(asked: usize, rows: &Vec<ListingRow>, prices: &Vec<String>) -> (r: Vec<
    String,
>)
    requires
        prices@.len() == rows@.len(),
    ensures
        texts(r@) == listings_report(asked as nat, rows@, prices@),
{
    let mut r: Vec<String> = Vec::new();
    if asked == 0 {
        r.push("No listings found.".to_owned());
        proof {
            assert(texts(r@) =~= listings_report(asked as nat, rows@, prices@));
        }
        return r;
    }
    let mut head = align_left("Listing ID", 68);
    head.append("  ");
    head.append(align_right("Price SUI", 10).as_str());
    head.append("  ");
    head.append("Name");
    r.push(head);
    proof {
        reveal_strlit("─");
    }
    r.push(repeat_text("─", 100));
    let ghost top = seq![listing_head(), copies('─', 100)];
    let ghost lines = Seq::new(rows@.len(), |i: int| listing_line(rows@[i], prices@[i]@));
    let mut i: usize = 0;
    proof {
        assert(texts(r@) =~= top + lines.take(0));
    }
    while i < rows.len()
        invariant
            prices@.len() == rows@.len(),
            i <= rows@.len(),
            lines == Seq::new(rows@.len(), |i: int| listing_line(rows@[i], prices@[i]@)),
            texts(r@) == top + lines.take(i as int),
        decreases rows@.len() - i,
    {
        let ghost before = r@;
        let line = listing_text(&rows[i], prices[i].as_str());
        r.push(line);
        i += 1;
        proof {
            assert(texts(r@) =~= texts(before).push(line@));
            assert(lines.take(i as int) =~= lines.take(i - 1).push(line@));
            assert(texts(r@) =~= top + lines.take(i as int));
        }
    }
    let mut foot = "\n".to_owned();
    foot.append(decimal_text(rows.len() as u64).as_str());
    foot.append(" listing(s) shown.");
    let ghost before = r@;
    r.push(foot);
    proof {
        assert(lines.take(rows@.len() as int) =~= lines);
        assert(texts(r@) =~= texts(before).push(foot@));
        assert(texts(r@) =~= listings_report(asked as nat, rows@, prices@));
    }
    r
}

/// The table of a search.
pub fn search_table(asked: usize, rows: &Vec<ListingRow>, prices: &Vec<String>) -> (r: Vec<String>)
    requires
        prices@.len() == rows@.len(),
    ensures
        texts(r@) == search_report(asked as nat, rows@, prices@),
{
    let mut r: Vec<String> = Vec::new();
    if asked == 0 {
        r.push("No listings found.".to_owned());
        proof {
            assert(texts(r@) =~= search_report(asked as nat, rows@, prices@));
        }
        return r;
    }
    if rows.len() == 0 {
        r.push("No listings match the given filters.".to_owned());
        proof {
            assert(texts(r@) =~= search_report(asked as nat, rows@, prices@));
        }
        return r;
    }
    let mut head = align_left("Listing ID", 68);
    head.append("  ");
    head.append(align_right("Price SUI", 10).as_str());
    head.append("  ");
    head.append(align_left("IP", 22).as_str());
    head.append("  ");
    head.append("Name");
    r.push(head);
    proof {
        reveal_strlit("─");
    }
    r.push(repeat_text("─", 120));
    let ghost top = seq![search_head(), copies('─', 120)];
    let ghost lines = Seq::new(rows@.len(), |i: int| search_line(rows@[i], prices@[i]@));
    let mut i: usize = 0;
    proof {
        assert(texts(r@) =~= top + lines.take(0));
    }
    while i < rows.len()
        invariant
            prices@.len() == rows@.len(),
            i <= rows@.len(),
            lines == Seq::new(rows@.len(), |i: int| search_line(rows@[i], prices@[i]@)),
            texts(r@) == top + lines.take(i as int),
        decreases rows@.len() - i,
    {
        let ghost before = r@;
        let line = search_text(&rows[i], prices[i].as_str());
        r.push(line);
        i += 1;
        proof {
            assert(texts(r@) =~= texts(before).push(line@));
            assert(lines.take(i as int) =~= lines.take(i - 1).push(line@));
            assert(texts(r@) =~= top + lines.take(i as int));
        }
    }
    let mut foot = "\n".to_owned();
    foot.append(decimal_text(rows.len() as u64).as_str());
    foot.append(" listing(s) found.");
    let ghost before = r@;
    r.push(foot);
    proof {
        assert(lines.take(rows@.len() as int) =~= lines);
        assert(texts(r@) =~= texts(before).push(foot@));
        assert(texts(r@) =~= search_report(asked as nat, rows@, prices@));
    }
    r
}

impl FetchFailure {
    /// The warning that a listing cannot be shown.
    pub fn warning(&self) -> (r: String)
        ensures
            r@ == "Warning: cannot fetch listing "@ + address_chars(self.id@) + ": "@
                + self.error.text(),
    {
        let mut r = "Warning: cannot fetch listing ".to_owned();
        r.append(address_text(&self.id).as_str());
        r.append(": ");
        r.append(self.error.message().as_str());
        r
    }

    /// The warning that a listing cannot be searched.
    pub fn search_warning(&self) -> (r: String)
        ensures
            r@ == "Warning: "@ + self.error.text(),
    {
        let mut r = "Warning: ".to_owned();
        r.append(self.error.message().as_str());
        r
    }
}

/// `label`, then `value`.
fn labelled(label: &str, value: &str) -> (r: String)
    ensures
        r@ == label@ + value@,
{
    let mut r = label.to_owned();
    r.append(value);
    r
}

/// `label`, then `value` in decimal, then `unit`.
fn measured(label: &str, value: u64, unit: &str) -> (r: String)
    ensures
        r@ == label@ + decimal(value as nat) + unit@,
{
    let mut r = label.to_owned();
    r.append(decimal_text(value).as_str());
    r.append(unit);
    r
}

/// Tells of a new marketplace.
pub fn marketplace_created(coin_type: &str, id: &RawId) -> (r: Vec<String>)
    ensures
        texts(r@) == seq![
            "Marketplace created!"@,
            "  Coin type:      "@ + coin_type@,
            "  Marketplace ID: "@ + address_chars(id@),
            "  Set marketplace_id = \""@ + address_chars(id@) + "\" in market-config.toml"@,
        ],
{
    let text = address_text(id);
    let mut hint = labelled("  Set marketplace_id = \"", text.as_str());
    hint.append("\" in market-config.toml");
    let r = vec![
        "Marketplace created!".to_owned(),
        labelled("  Coin type:      ", coin_type),
        labelled("  Marketplace ID: ", text.as_str()),
        hint,
    ];
    proof {
        assert(texts(r@) =~= seq![
            "Marketplace created!"@,
            "  Coin type:      "@ + coin_type@,
            "  Marketplace ID: "@ + address_chars(id@),
            "  Set marketplace_id = \""@ + address_chars(id@) + "\" in market-config.toml"@,
        ]);
    }
    r
}

/// Tells that a provider is about to create a listing with the given terms (B/s and
/// milliseconds).
pub fn creating_listing(name: &str, address: &str, terms: &OfferTerms) -> (r: String)
    ensures
        r@ == "Creating listing '"@ + name@ + "' at "@ + address@ + " ("@ + decimal(
            terms.max_bandwidth as nat,
        ) + " bps, "@ + decimal(terms.valid_from as nat) + " → "@ + decimal(
            terms.expires_at as nat,
        ) + ")"@,
{
    let mut r = labelled("Creating listing '", name);
    r.append("' at ");
    r.append(address);
    r.append(" (");
    r.append(decimal_text(terms.max_bandwidth).as_str());
    r.append(" bps, ");
    r.append(decimal_text(terms.valid_from).as_str());
    r.append(" → ");
    r.append(decimal_text(terms.expires_at).as_str());
    r.append(")");
    r
}

/// What is told of a new listing; `price` is its price in SUI.
pub open spec fn listing_created_lines(
    id: Seq<u8>,
    price: Seq<char>,
    terms: OfferTerms,
) -> Seq<Seq<char>> {
    seq![
        "Listing created!"@,
        "  Listing:        "@ + address_chars(id),
        "  Price:          "@ + price + " SUI"@,
        "  Valid from:     "@ + decimal(terms.valid_from as nat) + " s"@,
        "  Expires at:     "@ + decimal(terms.expires_at as nat) + " s"@,
        "  Max BW:         "@ + decimal(terms.max_bandwidth as nat) + " kB/s"@,
        "  Min BW:         "@ + decimal(terms.min_bandwidth as nat) + " kB/s"@,
        "  Min duration:   "@ + decimal(terms.min_duration as nat) + " s"@,
        "  BW granularity: "@ + decimal(terms.bw_granularity as nat) + " kB/s"@,
        "  Time gran.:     "@ + decimal(terms.time_granularity as nat) + " s"@,
    ]
}

/// Tells of a new listing.
pub fn listing_created(id: &RawId, price: &str, terms: &OfferTerms) -> (r: Vec<String>)
    ensures
        texts(r@) == listing_created_lines(id@, price@, *terms),
{
    let mut price_line = labelled("  Price:          ", price);
    price_line.append(" SUI");
    let r = vec![
        "Listing created!".to_owned(),
        labelled("  Listing:        ", address_text(id).as_str()),
        price_line,
        measured("  Valid from:     ", terms.valid_from, " s"),
        measured("  Expires at:     ", terms.expires_at, " s"),
        measured("  Max BW:         ", terms.max_bandwidth, " kB/s"),
        measured("  Min BW:         ", terms.min_bandwidth, " kB/s"),
        measured("  Min duration:   ", terms.min_duration, " s"),
        measured("  BW granularity: ", terms.bw_granularity, " kB/s"),
        measured("  Time gran.:     ", terms.time_granularity, " s"),
    ];
    proof {
        assert(texts(r@) =~= listing_created_lines(id@, price@, *terms));
    }
    r
}

/// Tells of a bought access token.
pub fn token_minted(listing_id: &str, token_id: &RawId) -> (r: Vec<String>)
    ensures
        texts(r@) == seq![
            "Access token minted!"@,
            "  Listing:  "@ + listing_id@,
            "  Token ID: "@ + address_chars(token_id@),
        ],
{
    let r = vec![
        "Access token minted!".to_owned(),
        labelled("  Listing:  ", listing_id),
        labelled("  Token ID: ", address_text(token_id).as_str()),
    ];
    proof {
        assert(texts(r@) =~= seq![
            "Access token minted!"@,
            "  Listing:  "@ + listing_id@,
            "  Token ID: "@ + address_chars(token_id@),
        ]);
    }
    r
}

/// Tells that the token of a service is about to be redeemed.
pub fn redeeming(service_name: &str) -> (r: String)
    ensures
        r@ == "Redeeming token for '"@ + service_name@ + "'…"@,
{
    let mut r = labelled("Redeeming token for '", service_name);
    r.append("'…");
    r
}

/// Tells of a redeemed access token.
pub fn token_redeemed(service_name: &str) -> (r: Vec<String>)
    ensures
        texts(r@) == seq![
            "Token redeemed! TokenRedeemed event emitted on-chain."@,
            "  Service: "@ + service_name@,
        ],
{
    let r = vec![
        "Token redeemed! TokenRedeemed event emitted on-chain.".to_owned(),
        labelled("  Service: ", service_name),
    ];
    proof {
        assert(texts(r@) =~= seq![
            "Token redeemed! TokenRedeemed event emitted on-chain."@,
            "  Service: "@ + service_name@,
        ]);
    }
    r
}

/// No bandwidth is shown as no limit, and any other by its number and its unit.
pub proof fn no_bandwidth_is_no_limit(bandwidth: u64)
    ensures
        bandwidth == 0 ==> bandwidth_chars(bandwidth) == "unlimited"@,
        bandwidth != 0 ==> decimal(bandwidth as nat).is_prefix_of(bandwidth_chars(bandwidth))
            && " kB/s"@.is_suffix_of(bandwidth_chars(bandwidth)) && bandwidth_chars(bandwidth).len()
            == decimal(bandwidth as nat).len() + " kB/s"@.len(),
{
}

/// A table has a head, a rule, a line for each listing in their order, and a count; one for
/// no listings says so.
pub proof fn tables_have_a_line_for_each_listing(
    asked: nat,
    rows: Seq<ListingRow>,
    prices: Seq<String>,
    i: int,
)
    requires
        0 < asked,
        0 <= i < rows.len(),
    ensures
        listings_report(asked, rows, prices).len() == rows.len() + 3,
        listings_report(asked, rows, prices)[0] == listing_head(),
        listings_report(asked, rows, prices)[1].len() == 100,
        search_report(asked, rows, prices)[1].len() == 120,
        listings_report(asked, rows, prices)[i + 2] == listing_line(rows[i], prices[i]@),
        listings_report(asked, rows, prices).last() == "\n"@ + decimal(rows.len())
            + " listing(s) shown."@,
        search_report(asked, rows, prices).len() == rows.len() + 3,
        search_report(asked, rows, prices)[0] == search_head(),
        search_report(asked, rows, prices)[i + 2] == search_line(rows[i], prices[i]@),
        search_report(asked, rows, prices).last() == "\n"@ + decimal(rows.len())
            + " listing(s) found."@,
        listings_report(0, rows, prices) == seq!["No listings found."@],
        search_report(0, rows, prices) == seq!["No listings found."@],
        search_report(asked, seq![], prices) == seq!["No listings match the given filters."@],
{
}

/// The line of a listing begins with its identifier, its price and its name, and ends with
/// its expiry and its bandwidth.
pub proof fn lines_tell_of_their_listing(row: ListingRow, price: Seq<char>)
    ensures
        (address_chars(row.id@) + "  "@ + price + "  "@ + row.listing.name@).is_prefix_of(
            listing_line(row, price),
        ),
        ("  (expires: "@ + decimal(row.listing.token.expires_at as nat) + " s, bw: "@
            + bandwidth_chars(row.listing.token.bandwidth) + ")"@).is_suffix_of(
            listing_line(row, price),
        ),
        (address_chars(row.id@) + "  "@ + price + "  "@ + left_aligned(row.listing.ip_address@, 22)
            + "  "@ + row.listing.name@).is_prefix_of(search_line(row, price)),
        ("  (from: "@ + decimal(row.listing.token.valid_from as nat) + " s, until: "@ + decimal(
            row.listing.token.expires_at as nat,
        ) + " s, bw: "@ + bandwidth_chars(row.listing.token.bandwidth) + ")"@).is_suffix_of(
            search_line(row, price),
        ),
{
    let end = "  (expires: "@ + decimal(row.listing.token.expires_at as nat) + " s, bw: "@
        + bandwidth_chars(row.listing.token.bandwidth) + ")"@;
    let start = address_chars(row.id@) + "  "@ + price + "  "@ + row.listing.name@;
    assert(listing_line(row, price) =~= start + end);
    let end = "  (from: "@ + decimal(row.listing.token.valid_from as nat) + " s, until: "@ + decimal(
        row.listing.token.expires_at as nat,
    ) + " s, bw: "@ + bandwidth_chars(row.listing.token.bandwidth) + ")"@;
    let start = address_chars(row.id@) + "  "@ + price + "  "@ + left_aligned(
        row.listing.ip_address@,
        22,
    ) + "  "@ + row.listing.name@;
    assert(search_line(row, price) =~= start + end);
}

/// What is told of a new listing are its identifier, its price and each of its terms.
pub proof fn new_listings_are_told_of_by_their_terms(
    id: Seq<u8>,
    price: Seq<char>,
    terms: OfferTerms,
)
    ensures
        ({
            let lines = listing_created_lines(id, price, terms);
            &&& lines.len() == 10
            &&& address_chars(id).is_suffix_of(lines[1])
            &&& lines[2] == "  Price:          "@ + (price + " SUI"@)
            &&& lines[3] == "  Valid from:     "@ + (decimal(terms.valid_from as nat) + " s"@)
            &&& lines[4] == "  Expires at:     "@ + (decimal(terms.expires_at as nat) + " s"@)
            &&& lines[5] == "  Max BW:         "@ + (decimal(terms.max_bandwidth as nat)
                + " kB/s"@)
            &&& lines[6] == "  Min BW:         "@ + (decimal(terms.min_bandwidth as nat)
                + " kB/s"@)
            &&& lines[7] == "  Min duration:   "@ + (decimal(terms.min_duration as nat) + " s"@)
            &&& lines[8] == "  BW granularity: "@ + (decimal(terms.bw_granularity as nat)
                + " kB/s"@)
            &&& lines[9] == "  Time gran.:     "@ + (decimal(terms.time_granularity as nat)
                + " s"@)
        }),
{
    let lines = listing_created_lines(id, price, terms);
    assert(lines[2] =~= "  Price:          "@ + (price + " SUI"@));
    assert(lines[3] =~= "  Valid from:     "@ + (decimal(terms.valid_from as nat) + " s"@));
    assert(lines[4] =~= "  Expires at:     "@ + (decimal(terms.expires_at as nat) + " s"@));
    assert(lines[5] =~= "  Max BW:         "@ + (decimal(terms.max_bandwidth as nat) + " kB/s"@));
    assert(lines[6] =~= "  Min BW:         "@ + (decimal(terms.min_bandwidth as nat) + " kB/s"@));
    assert(lines[7] =~= "  Min duration:   "@ + (decimal(terms.min_duration as nat) + " s"@));
    assert(lines[8] =~= "  BW granularity: "@ + (decimal(terms.bw_granularity as nat) + " kB/s"@));
    assert(lines[9] =~= "  Time gran.:     "@ + (decimal(terms.time_granularity as nat) + " s"@));
}

}
