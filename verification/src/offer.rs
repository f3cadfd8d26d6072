//! The terms of an offer: how what a seller leaves open is filled in before a
//! listing is created.

use vstd::prelude::*;

verus! {

/// How long a listing is open where its seller sets no end, in seconds.
pub const DEFAULT_WINDOW_SECONDS: u64 = 3_600;

/// How long a listing is open where its seller sets no end, in milliseconds.
pub const DEFAULT_WINDOW_MS: u64 = 3_600_000;

/// `v`, or `default` where `v` is zero.
pub open spec fn zero_or(v: u64, default: int) -> int {
    if v == 0 {
        default
    } else {
        v as int
    }
}

/// Whether `r` is when buyers may start and must end, by what the seller set, at the time
/// `now`.
pub open spec fn is_window(valid_from: u64, expires_at: u64, now: u64, r: (u64, u64)) -> bool {
    &&& r.0 == zero_or(valid_from, now as int)
    &&& r.1 == zero_or(expires_at, now + DEFAULT_WINDOW_SECONDS)
}

/// When buyers may start and must end: a start of zero is now, an end of zero is an
/// hour from now (Unix seconds).
pub fn resolve_window(valid_from: u64, expires_at: u64, now: u64) -> (r: (u64, u64))
    requires
        expires_at == 0 ==> now + DEFAULT_WINDOW_SECONDS <= u64::MAX,
    ensures
        r.0 == zero_or(valid_from, now as int),
        r.1 == zero_or(expires_at, now + DEFAULT_WINDOW_SECONDS),
        is_window(valid_from, expires_at, now, r),
{
    let from: u64 = if valid_from == 0 {
        now
    } else {
        valid_from
    };
    let until: u64 = if expires_at == 0 {
        now + DEFAULT_WINDOW_SECONDS
    } else {
        expires_at
    };
    (from, until)
}

/// `v` in whole thousands, but at least one where `v` is not zero.
pub open spec fn thousands(v: u64) -> int {
    if 0 < v < 1_000 {
        1
    } else {
        v as int / 1_000
    }
}

/// `v` in whole thousands, but at least one where `v` is not zero.
fn in_thousands(v: u64) -> (r: u64)
    ensures
        r == thousands(v),
{
    if 0 < v && v < 1_000 {
        1
    } else {
        v / 1_000
    }
}

/// The terms of an offer. A provider states them in milliseconds and B/s, a listing
/// holds them in seconds and kB/s.
#[derive(Debug, Clone, Copy, PartialEq, Eq, Structural)]
pub struct OfferTerms {
    pub valid_from: u64,
    pub expires_at: u64,
    pub max_bandwidth: u64,
    pub min_bandwidth: u64,
    pub min_duration: u64,
    pub bw_granularity: u64,
    pub time_granularity: u64,
}

impl OfferTerms {
    /// The first millisecond of the offer, once it is resolved at the time `now`.
    pub open spec fn opens(self, now: u64) -> int {
        zero_or(self.valid_from, now as int)
    }

    /// The last millisecond of the offer, once it is resolved at the time `now`.
    pub open spec fn closes(self, now: u64) -> int {
        zero_or(self.expires_at, now + DEFAULT_WINDOW_MS)
    }

    /// Whether the offer can be resolved at the time `now`: it ends in time, and not
    /// before it starts.
    pub open spec fn resolvable(self, now: u64) -> bool {
        self.opens(now) <= self.closes(now) <= u64::MAX
    }

    /// Whether `r` is the offer once it is resolved at the time `now`: what was left open
    /// with zeros is filled in.
    pub open spec fn resolves_to(self, now: u64, r: OfferTerms) -> bool {
        let bandwidth_tenth = self.max_bandwidth as int / 10;
        let duration_tenth = (r.expires_at - r.valid_from) / 10;
        &&& r.valid_from == self.opens(now)
        &&& r.expires_at == self.closes(now)
        &&& r.max_bandwidth == self.max_bandwidth
        &&& r.min_bandwidth == zero_or(self.min_bandwidth, bandwidth_tenth)
        &&& r.bw_granularity == zero_or(self.bw_granularity, bandwidth_tenth)
        &&& r.min_duration == zero_or(self.min_duration, duration_tenth)
        &&& r.time_granularity == zero_or(self.time_granularity, duration_tenth)
    }

    /// Whether `r` is the offer in the units of a listing.
    pub open spec fn measures_as(self, r: OfferTerms) -> bool {
        &&& r.valid_from == thousands(self.valid_from)
        &&& r.expires_at == thousands(self.expires_at)
        &&& r.max_bandwidth == thousands(self.max_bandwidth)
        &&& r.min_bandwidth == thousands(self.min_bandwidth)
        &&& r.min_duration == thousands(self.min_duration)
        &&& r.bw_granularity == thousands(self.bw_granularity)
        &&& r.time_granularity == thousands(self.time_granularity)
    }

    /// Whether the offer can be resolved at the time `now`.
    pub fn is_resolvable(&self, now: u64) -> (r: bool)
        ensures
            r == self.resolvable(now),
    {
        if self.expires_at == 0 && now > u64::MAX - DEFAULT_WINDOW_MS {
            return false;
        }
        let from: u64 = if self.valid_from == 0 {
            now
        } else {
            self.valid_from
        };
        let until: u64 = if self.expires_at == 0 {
            now + DEFAULT_WINDOW_MS
        } else {
            self.expires_at
        };
        from <= until
    }

    /// Fills in what a provider left open with zeros: the start is `now`, the end an
    /// hour later, and minima and granularities are a tenth of the bandwidth and of
    /// the duration (milliseconds and B/s).
    pub fn resolve(&self, now: u64) -> (r: OfferTerms)
        requires
            self.resolvable(now),
        ensures
            self.resolves_to(now, r),
    {
        let valid_from: u64 = if self.valid_from == 0 {
            now
        } else {
            self.valid_from
        };
        let expires_at: u64 = if self.expires_at == 0 {
            now + DEFAULT_WINDOW_MS
        } else {
            self.expires_at
        };
        let duration: u64 = expires_at - valid_from;
        let max_bandwidth: u64 = self.max_bandwidth;
        OfferTerms {
            valid_from,
            expires_at,
            max_bandwidth,
            min_bandwidth: if self.min_bandwidth == 0 {
                max_bandwidth / 10
            } else {
                self.min_bandwidth
            },
            min_duration: if self.min_duration == 0 {
                duration / 10
            } else {
                self.min_duration
            },
            bw_granularity: if self.bw_granularity == 0 {
                max_bandwidth / 10
            } else {
                self.bw_granularity
            },
            time_granularity: if self.time_granularity == 0 {
                duration / 10
            } else {
                self.time_granularity
            },
        }
    }

    /// The terms in the units of a listing, from milliseconds and B/s: seconds and kB/s,
    /// rounded so that nothing that is stated becomes zero, which would leave it open.
    pub fn in_listing_units(&self) -> (r: OfferTerms)
        ensures
            self.measures_as(r),
            (r.max_bandwidth == 0) <==> (self.max_bandwidth == 0),
            (r.min_bandwidth == 0) <==> (self.min_bandwidth == 0),
            (r.min_duration == 0) <==> (self.min_duration == 0),
            (r.bw_granularity == 0) <==> (self.bw_granularity == 0),
            (r.time_granularity == 0) <==> (self.time_granularity == 0),
    {
        OfferTerms {
            valid_from: in_thousands(self.valid_from),
            expires_at: in_thousands(self.expires_at),
            max_bandwidth: in_thousands(self.max_bandwidth),
            min_bandwidth: in_thousands(self.min_bandwidth),
            min_duration: in_thousands(self.min_duration),
            bw_granularity: in_thousands(self.bw_granularity),
            time_granularity: in_thousands(self.time_granularity),
        }
    }
}

/// An offer that leaves nothing open stays as it is, whatever the time is.
pub proof fn stated_offers_stay(offer: OfferTerms, now: u64, r: OfferTerms)
    requires
        offer.valid_from != 0,
        offer.expires_at != 0,
        offer.min_bandwidth != 0,
        offer.min_duration != 0,
        offer.bw_granularity != 0,
        offer.time_granularity != 0,
        offer.resolves_to(now, r),
    ensures
        r == offer,
{
}

/// Minima and granularities that were left open can be bought within the offer.
pub proof fn filled_in_terms_fit(offer: OfferTerms, now: u64, r: OfferTerms)
    requires
        offer.resolvable(now),
        offer.resolves_to(now, r),
    ensures
        r.valid_from <= r.expires_at,
        offer.min_bandwidth == 0 ==> r.min_bandwidth <= r.max_bandwidth,
        offer.bw_granularity == 0 ==> r.bw_granularity <= r.max_bandwidth,
        offer.min_duration == 0 ==> r.min_duration <= r.expires_at - r.valid_from,
        offer.time_granularity == 0 ==> r.time_granularity <= r.expires_at - r.valid_from,
{
}

/// In the units of a listing, the bounds of an offer stay in their order.
pub proof fn listing_units_keep_the_order(offer: OfferTerms, r: OfferTerms)
    requires
        offer.measures_as(r),
    ensures
        offer.valid_from <= offer.expires_at ==> r.valid_from <= r.expires_at,
        offer.min_bandwidth <= offer.max_bandwidth ==> r.min_bandwidth <= r.max_bandwidth,
        offer.bw_granularity <= offer.max_bandwidth ==> r.bw_granularity <= r.max_bandwidth,
{
}

/// Zero stands for the default, and every other number for itself.
pub proof fn zero_is_left_open(v: u64, default: int)
    ensures
        v == 0 ==> zero_or(v, default) == default,
        v != 0 ==> zero_or(v, default) == v,
{
}

/// A listing whose seller leaves the window open is open for an hour from now on; what the
/// seller sets stays.
pub proof fn windows_last_an_hour_from_now(
    valid_from: u64,
    expires_at: u64,
    now: u64,
    r: (u64, u64),
)
    requires
        is_window(valid_from, expires_at, now, r),
    ensures
        valid_from == 0 ==> r.0 == now,
        valid_from != 0 ==> r.0 == valid_from,
        expires_at == 0 ==> r.1 - now == 60 * 60,
        expires_at != 0 ==> r.1 == expires_at,
{
}

/// An offer whose provider leaves the window open is open for an hour of milliseconds from
/// now on; what the provider sets stays.
pub proof fn offers_last_an_hour_from_now(offer: OfferTerms, now: u64, r: OfferTerms)
    requires
        offer.resolves_to(now, r),
    ensures
        offer.valid_from == 0 ==> r.valid_from == now,
        offer.valid_from != 0 ==> r.valid_from == offer.valid_from,
        offer.expires_at == 0 ==> r.expires_at - now == 60 * 60 * 1000,
        offer.expires_at != 0 ==> r.expires_at == offer.expires_at,
{
}

/// Minima and granularities that were left open are a tenth of the bandwidth and of the
/// duration, rounded down; those that were set stay, and so does the bandwidth.
pub proof fn open_terms_are_a_tenth(offer: OfferTerms, now: u64, r: OfferTerms)
    requires
        offer.resolves_to(now, r),
    ensures
        r.max_bandwidth == offer.max_bandwidth,
        offer.min_bandwidth == 0 ==> 10 * r.min_bandwidth <= offer.max_bandwidth < 10
            * r.min_bandwidth + 10,
        offer.bw_granularity == 0 ==> 10 * r.bw_granularity <= offer.max_bandwidth < 10
            * r.bw_granularity + 10,
        offer.min_duration == 0 ==> 10 * r.min_duration <= r.expires_at - r.valid_from < 10
            * r.min_duration + 10,
        offer.time_granularity == 0 ==> 10 * r.time_granularity <= r.expires_at - r.valid_from < 10
            * r.time_granularity + 10,
        offer.min_bandwidth != 0 ==> r.min_bandwidth == offer.min_bandwidth,
        offer.bw_granularity != 0 ==> r.bw_granularity == offer.bw_granularity,
        offer.min_duration != 0 ==> r.min_duration == offer.min_duration,
        offer.time_granularity != 0 ==> r.time_granularity == offer.time_granularity,
{
}

/// An offer can be resolved if and only if its window, once it is filled in, does not end
/// before it starts, and ends at a time that can be written down.
pub proof fn offers_end_after_they_start(offer: OfferTerms, now: u64)
    ensures
        offer.valid_from != 0 && offer.expires_at != 0 ==> (offer.resolvable(now)
            <==> offer.valid_from <= offer.expires_at),
        offer.valid_from == 0 && offer.expires_at != 0 ==> (offer.resolvable(now) <==> now
            <= offer.expires_at),
        offer.expires_at == 0 ==> (offer.resolvable(now) <==> now + 3_600_000 <= u64::MAX && (
        offer.valid_from == 0 || offer.valid_from <= now + 3_600_000)),
{
}

/// A listing tells of the same quantity as the offer, less than a unit below it, but for
/// quantities below one unit, which are one.
pub proof fn listing_units_are_thousands(v: u64)
    ensures
        1_000 <= v ==> 1_000 * thousands(v) <= v < 1_000 * thousands(v) + 1_000,
        0 < v < 1_000 ==> thousands(v) == 1,
        v == 0 ==> thousands(v) == 0,
{
}

/// Each term of a listing is that of the offer, in the units of a listing.
pub proof fn listing_units_are_those_of_the_offer(offer: OfferTerms, r: OfferTerms)
    requires
        offer.measures_as(r),
    ensures
        1_000 <= offer.valid_from ==> r.valid_from == offer.valid_from as int / 1_000,
        1_000 <= offer.expires_at ==> r.expires_at == offer.expires_at as int / 1_000,
        1_000 <= offer.max_bandwidth ==> r.max_bandwidth == offer.max_bandwidth as int / 1_000,
        1_000 <= offer.min_bandwidth ==> r.min_bandwidth == offer.min_bandwidth as int / 1_000,
        1_000 <= offer.min_duration ==> r.min_duration == offer.min_duration as int / 1_000,
        1_000 <= offer.bw_granularity ==> r.bw_granularity == offer.bw_granularity as int / 1_000,
        1_000 <= offer.time_granularity ==> r.time_granularity == offer.time_granularity as int
            / 1_000,
        0 < offer.max_bandwidth < 1_000 ==> r.max_bandwidth == 1,
        0 < offer.min_bandwidth < 1_000 ==> r.min_bandwidth == 1,
        0 < offer.min_duration < 1_000 ==> r.min_duration == 1,
        0 < offer.bw_granularity < 1_000 ==> r.bw_granularity == 1,
        0 < offer.time_granularity < 1_000 ==> r.time_granularity == 1,
{
}

}
