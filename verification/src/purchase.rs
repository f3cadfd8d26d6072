//! The terms of a purchase: how what a buyer leaves open is filled in from the
//! listing, and what a listing accepts.

use vstd::arithmetic::div_mod::{lemma_fundamental_div_mod, lemma_mod_multiples_basic};
use vstd::prelude::*;

use crate::error::MarketError;
use crate::models::ServiceListing;

verus! {

/// What is bought: access from `start` to `end` (Unix seconds) with `bandwidth` (kB/s).
#[derive(Debug, Clone, Copy, PartialEq, Eq, Structural)]
pub struct PurchaseTerms {
    pub start: u64,
    pub end: u64,
    pub bandwidth: u64,
}

/// The largest multiple of `granularity` up to `v`; `v` itself without a granularity.
pub open spec fn aligned_down(v: int, granularity: int) -> int {
    if granularity > 0 {
        v / granularity * granularity
    } else {
        v
    }
}

/// The value that was asked for, or else the default.
pub open spec fn or_default(asked: Option<u64>, default: u64) -> u64 {
    match asked {
        Some(v) => v,
        None => default,
    }
}

/// The end of a purchase that starts at `start` and was meant to end at `end`: its
/// duration is aligned down to the granularity.
pub open spec fn aligned_end(start: int, end: int, granularity: int) -> int {
    if granularity > 0 {
        start + aligned_down(
            if end > start {
                end - start
            } else {
                0
            },
            granularity,
        )
    } else {
        end
    }
}

/// The terms that `terms` resolve to, for a listing and at the time `now`: without a
/// start the purchase starts now, without an end it ends with the seller's bound, and
/// a bandwidth of zero is the seller's bound; then duration and bandwidth are aligned
/// down to the granularities of the listing.
pub open spec fn resolved_terms(
    listing: ServiceListing,
    start: Option<u64>,
    end: Option<u64>,
    bandwidth: u64,
    now: u64,
    r: PurchaseTerms,
) -> bool {
    let end_asked = or_default(end, listing.token.expires_at);
    let bandwidth_asked = if bandwidth == 0 {
        listing.token.bandwidth
    } else {
        bandwidth
    };
    &&& r.start == or_default(start, now)
    &&& r.end == aligned_end(r.start as int, end_asked as int, listing.time_granularity as int)
    &&& r.bandwidth == aligned_down(bandwidth_asked as int, listing.bw_granularity as int)
}

proof fn lemma_aligned_down(v: int, g: int)
    requires
        0 <= v,
        0 < g,
    ensures
        0 <= aligned_down(v, g) <= v,
        v - aligned_down(v, g) < g,
        aligned_down(v, g) % g == 0,
{
    lemma_fundamental_div_mod(v, g);
    assert(v / g * g == g * (v / g)) by (nonlinear_arith);
    assert(0 <= v / g * g) by (nonlinear_arith)
        requires
            0 <= v,
            0 < g,
    ;
    lemma_mod_multiples_basic(v / g, g);
}

/// `v`, aligned down to a multiple of `granularity` (0: none).
fn align_down(v: u64, granularity: u64) -> (r: u64)
    ensures
        r == aligned_down(v as int, granularity as int),
        r <= v,
{
    if granularity > 0 {
        proof {
            lemma_aligned_down(v as int, granularity as int);
        }
        v / granularity * granularity
    } else {
        v
    }
}

/// Fills in what a buyer left open, and aligns the purchase to the granularities of
/// the listing.
pub fn resolve_purchase(
    listing: &ServiceListing,
    start: Option<u64>,
    end: Option<u64>,
    bandwidth: u64,
    now: u64,
) -> (r: PurchaseTerms)
    ensures
        resolved_terms(*listing, start, end, bandwidth, now, r),
{
    let start: u64 = match start {
        Some(v) => v,
        None => now,
    };
    let end_asked: u64 = match end {
        Some(v) => v,
        None => listing.token.expires_at,
    };
    let bandwidth_asked: u64 = if bandwidth == 0 {
        listing.token.bandwidth
    } else {
        bandwidth
    };
    let duration: u64 = if end_asked > start {
        end_asked - start
    } else {
        0
    };
    let end: u64 = if listing.time_granularity > 0 {
        start + align_down(duration, listing.time_granularity)
    } else {
        end_asked
    };
    let bandwidth: u64 = align_down(bandwidth_asked, listing.bw_granularity);
    PurchaseTerms { start, end, bandwidth }
}

/// What a number stands for where zero means that nothing was asked for.
pub open spec fn unless_zero(v: u64) -> Option<u64> {
    if v == 0 {
        None
    } else {
        Some(v)
    }
}

/// Like [`resolve_purchase`], for a buyer who writes zero for what is left open.
pub fn resolve_purchase_or_zero(
    listing: &ServiceListing,
    start: u64,
    end: u64,
    bandwidth: u64,
    now: u64,
) -> (r: PurchaseTerms)
    ensures
        resolved_terms(*listing, unless_zero(start), unless_zero(end), bandwidth, now, r),
{
    let start: Option<u64> = if start == 0 {
        None
    } else {
        Some(start)
    };
    let end: Option<u64> = if end == 0 {
        None
    } else {
        Some(end)
    };
    resolve_purchase(listing, start, end, bandwidth, now)
}

impl PurchaseTerms {
    /// Why the terms are none, whatever the listing is.
    pub open spec fn fault(self) -> Option<MarketError> {
        if self.start == 0 {
            Some(MarketError::ZeroStart)
        } else if self.end <= self.start {
            Some(MarketError::EndNotAfterStart)
        } else if self.bandwidth == 0 {
            Some(MarketError::ZeroBandwidth)
        } else {
            None
        }
    }

    /// The terms with another end.
    pub open spec fn ending(self, end: u64) -> PurchaseTerms {
        PurchaseTerms { end, ..self }
    }

    /// The terms with another bandwidth.
    pub open spec fn with_bandwidth(self, bandwidth: u64) -> PurchaseTerms {
        PurchaseTerms { bandwidth, ..self }
    }

    /// Whether the duration is a multiple of the granularity (0: none).
    pub open spec fn duration_aligned(self, time_granularity: u64) -> bool {
        time_granularity == 0 || (self.end - self.start) % time_granularity as int == 0
    }

    /// Whether the bandwidth is a multiple of the granularity (0: none).
    pub open spec fn bandwidth_aligned(self, bw_granularity: u64) -> bool {
        bw_granularity == 0 || self.bandwidth as int % bw_granularity as int == 0
    }

    /// Why a listing with the given granularities does not accept the terms.
    pub open spec fn misalignment(self, time_granularity: u64, bw_granularity: u64) -> Option<
        MarketError,
    > {
        let duration = self.end - self.start;
        if !self.duration_aligned(time_granularity) {
            Some(
                MarketError::UnalignedDuration {
                    duration: duration as u64,
                    granularity: time_granularity,
                    nearest_end: (self.start + aligned_down(
                        duration,
                        time_granularity as int,
                    )) as u64,
                },
            )
        } else if !self.bandwidth_aligned(bw_granularity) {
            Some(
                MarketError::UnalignedBandwidth {
                    bandwidth: self.bandwidth,
                    granularity: bw_granularity,
                    nearest: aligned_down(self.bandwidth as int, bw_granularity as int) as u64,
                },
            )
        } else {
            None
        }
    }

    /// Checks that start, end and bandwidth are there, and in order.
    pub fn check(&self) -> (r: Result<(), MarketError>)
        ensures
            match self.fault() {
                Some(e) => r == Err::<(), MarketError>(e),
                None => r == Ok::<(), MarketError>(()),
            },
    {
        if self.start == 0 {
            Err(MarketError::ZeroStart)
        } else if self.end <= self.start {
            Err(MarketError::EndNotAfterStart)
        } else if self.bandwidth == 0 {
            Err(MarketError::ZeroBandwidth)
        } else {
            Ok(())
        }
    }

    /// Checks that duration and bandwidth are multiples of the granularities of a
    /// listing.
    pub fn check_alignment(&self, listing: &ServiceListing) -> (r: Result<(), MarketError>)
        requires
            self.start <= self.end,
        ensures
            match self.misalignment(listing.time_granularity, listing.bw_granularity) {
                Some(e) => r == Err::<(), MarketError>(e),
                None => r == Ok::<(), MarketError>(()),
            },
    {
        let duration: u64 = self.end - self.start;
        let tg: u64 = listing.time_granularity;
        let bg: u64 = listing.bw_granularity;
        if tg != 0 && duration % tg != 0 {
            return Err(
                MarketError::UnalignedDuration {
                    duration,
                    granularity: tg,
                    nearest_end: self.start + align_down(duration, tg),
                },
            );
        }
        if bg != 0 && self.bandwidth % bg != 0 {
            return Err(
                MarketError::UnalignedBandwidth {
                    bandwidth: self.bandwidth,
                    granularity: bg,
                    nearest: align_down(self.bandwidth, bg),
                },
            );
        }
        Ok(())
    }
}

/// A resolved purchase is never refused for its alignment.
pub proof fn resolved_terms_are_aligned(
    listing: ServiceListing,
    start: Option<u64>,
    end: Option<u64>,
    bandwidth: u64,
    now: u64,
    terms: PurchaseTerms,
)
    requires
        resolved_terms(listing, start, end, bandwidth, now, terms),
    ensures
        terms.misalignment(listing.time_granularity, listing.bw_granularity) is None,
{
    let end_asked = or_default(end, listing.token.expires_at);
    let bandwidth_asked = if bandwidth == 0 {
        listing.token.bandwidth
    } else {
        bandwidth
    };
    if listing.time_granularity > 0 {
        lemma_aligned_down(
            if end_asked > terms.start {
                end_asked - terms.start
            } else {
                0
            },
            listing.time_granularity as int,
        );
    }
    if listing.bw_granularity > 0 {
        lemma_aligned_down(bandwidth_asked as int, listing.bw_granularity as int);
    }
}

/// Resolving takes nothing that was not asked for, and gives up less than one
/// granule of time and of bandwidth; where the end was asked for before the start, no
/// time is left.
pub proof fn resolving_rounds_down(
    listing: ServiceListing,
    start: Option<u64>,
    end: Option<u64>,
    bandwidth: u64,
    now: u64,
    terms: PurchaseTerms,
)
    requires
        resolved_terms(listing, start, end, bandwidth, now, terms),
    ensures
        ({
            let end_asked = or_default(end, listing.token.expires_at);
            if listing.time_granularity == 0 {
                terms.end == end_asked
            } else if end_asked < terms.start {
                terms.end == terms.start
            } else {
                terms.start <= terms.end <= end_asked < terms.end + listing.time_granularity
            }
        }),
        ({
            let bandwidth_asked = or_default(unless_zero(bandwidth), listing.token.bandwidth);
            if listing.bw_granularity == 0 {
                terms.bandwidth == bandwidth_asked
            } else {
                terms.bandwidth <= bandwidth_asked < terms.bandwidth + listing.bw_granularity
            }
        }),
{
    let end_asked = or_default(end, listing.token.expires_at);
    let bandwidth_asked = or_default(unless_zero(bandwidth), listing.token.bandwidth);
    if listing.time_granularity > 0 {
        lemma_aligned_down(
            if end_asked > terms.start {
                end_asked - terms.start
            } else {
                0
            },
            listing.time_granularity as int,
        );
    }
    if listing.bw_granularity > 0 {
        lemma_aligned_down(bandwidth_asked as int, listing.bw_granularity as int);
    }
}

/// Terms that a listing accepts resolve to themselves.
pub proof fn accepted_terms_resolve_to_themselves(
    listing: ServiceListing,
    terms: PurchaseTerms,
    now: u64,
    r: PurchaseTerms,
)
    requires
        terms.fault() is None,
        terms.misalignment(listing.time_granularity, listing.bw_granularity) is None,
        resolved_terms(listing, Some(terms.start), Some(terms.end), terms.bandwidth, now, r),
    ensures
        r == terms,
{
    if listing.time_granularity > 0 {
        lemma_fundamental_div_mod(terms.end - terms.start, listing.time_granularity as int);
        assert((terms.end - terms.start) / listing.time_granularity as int
            * listing.time_granularity == listing.time_granularity * ((terms.end - terms.start)
            / listing.time_granularity as int)) by (nonlinear_arith);
    }
    if listing.bw_granularity > 0 {
        lemma_fundamental_div_mod(terms.bandwidth as int, listing.bw_granularity as int);
        assert(terms.bandwidth as int / listing.bw_granularity as int * listing.bw_granularity
            == listing.bw_granularity * (terms.bandwidth as int / listing.bw_granularity as int))
            by (nonlinear_arith);
    }
}

/// The end that a refusal suggests is the last aligned one up to the end that was
/// asked for, and is not refused for its alignment.
pub proof fn suggested_end_is_aligned(
    terms: PurchaseTerms,
    time_granularity: u64,
    bw_granularity: u64,
    duration: u64,
    granularity: u64,
    nearest_end: u64,
)
    requires
        terms.start <= terms.end,
        terms.misalignment(time_granularity, bw_granularity) == Some(
            (MarketError::UnalignedDuration { duration, granularity, nearest_end }),
        ),
    ensures
        duration == terms.end - terms.start,
        granularity == time_granularity,
        terms.start <= nearest_end < terms.end < nearest_end + time_granularity,
        (nearest_end - terms.start) % time_granularity as int == 0,
        terms.ending(nearest_end).duration_aligned(time_granularity),
{
    lemma_aligned_down(terms.end - terms.start, time_granularity as int);
}

/// The bandwidth that a refusal suggests is the largest accepted one up to the one
/// that was asked for.
pub proof fn suggested_bandwidth_is_aligned(
    terms: PurchaseTerms,
    time_granularity: u64,
    bw_granularity: u64,
    bandwidth: u64,
    granularity: u64,
    nearest: u64,
)
    requires
        terms.misalignment(time_granularity, bw_granularity) == Some(
            (MarketError::UnalignedBandwidth { bandwidth, granularity, nearest }),
        ),
    ensures
        bandwidth == terms.bandwidth,
        granularity == bw_granularity,
        nearest < terms.bandwidth < nearest + bw_granularity,
        nearest as int % bw_granularity as int == 0,
        terms.with_bandwidth(nearest).misalignment(time_granularity, bw_granularity) is None,
{
    lemma_aligned_down(terms.bandwidth as int, bw_granularity as int);
}

/// A purchase starts at the time that was asked for, and now where none was.
pub proof fn a_purchase_starts_when_asked_or_now(
    listing: ServiceListing,
    start: Option<u64>,
    end: Option<u64>,
    bandwidth: u64,
    now: u64,
    terms: PurchaseTerms,
)
    requires
        resolved_terms(listing, start, end, bandwidth, now, terms),
    ensures
        start is None ==> terms.start == now,
        forall|s: u64| start == Some(s) ==> terms.start == s,
{
}

/// A purchase ends at the last whole granule up to the time that was asked for, and up to
/// the seller's bound where none was; without a granularity it ends just there.
pub proof fn a_purchase_ends_when_asked_or_with_the_seller(
    listing: ServiceListing,
    start: Option<u64>,
    end: Option<u64>,
    bandwidth: u64,
    now: u64,
    terms: PurchaseTerms,
    until: u64,
)
    requires
        resolved_terms(listing, start, end, bandwidth, now, terms),
        end == Some(until) || end is None && until == listing.token.expires_at,
    ensures
        listing.time_granularity == 0 ==> terms.end == until,
        listing.time_granularity > 0 && until <= terms.start ==> terms.end == terms.start,
        listing.time_granularity > 0 && until > terms.start ==> {
            &&& terms.start <= terms.end <= until
            &&& until - terms.end < listing.time_granularity
            &&& (terms.end - terms.start) % listing.time_granularity as int == 0
        },
{
    if listing.time_granularity > 0 {
        lemma_aligned_down(
            if until > terms.start {
                until - terms.start
            } else {
                0
            },
            listing.time_granularity as int,
        );
    }
}

/// A purchase has the most whole granules of bandwidth up to what was asked for, and up to
/// the seller's bound where it was zero; without a granularity it has all of it.
pub proof fn a_purchase_has_the_bandwidth_asked_or_the_sellers(
    listing: ServiceListing,
    start: Option<u64>,
    end: Option<u64>,
    bandwidth: u64,
    now: u64,
    terms: PurchaseTerms,
    most: u64,
)
    requires
        resolved_terms(listing, start, end, bandwidth, now, terms),
        bandwidth != 0 && most == bandwidth || bandwidth == 0 && most == listing.token.bandwidth,
    ensures
        listing.bw_granularity == 0 ==> terms.bandwidth == most,
        listing.bw_granularity > 0 ==> {
            &&& terms.bandwidth <= most
            &&& most - terms.bandwidth < listing.bw_granularity
            &&& terms.bandwidth as int % listing.bw_granularity as int == 0
        },
{
    if listing.bw_granularity > 0 {
        lemma_aligned_down(most as int, listing.bw_granularity as int);
    }
}

/// A start or an end of zero is one that was not asked for; any other is asked for as it
/// is.
pub proof fn zeros_are_left_open(v: u64)
    ensures
        v == 0 ==> unless_zero(v) is None,
        v != 0 ==> unless_zero(v) == Some(v),
{
}

/// The time of asking moves the start of a purchase that names none, by as much, and never
/// its bandwidth; a purchase that names its start does not depend on it.
pub proof fn the_clock_moves_open_starts_alone(
    listing: ServiceListing,
    start: Option<u64>,
    end: Option<u64>,
    bandwidth: u64,
    now: u64,
    later: u64,
    a: PurchaseTerms,
    b: PurchaseTerms,
)
    requires
        resolved_terms(listing, start, end, bandwidth, now, a),
        resolved_terms(listing, start, end, bandwidth, later, b),
    ensures
        a.bandwidth == b.bandwidth,
        start is Some ==> a == b,
        start is None ==> b.start - a.start == later - now,
{
}

/// A purchase is possible if and only if it has a start, ends after it and has a
/// bandwidth; it is refused for the first of these that is missing.
pub proof fn purchases_need_a_start_a_duration_and_a_bandwidth(terms: PurchaseTerms)
    ensures
        terms.fault() is None <==> 0 < terms.start && terms.start < terms.end && 0
            < terms.bandwidth,
        terms.start == 0 ==> terms.fault() == Some(MarketError::ZeroStart),
        0 < terms.start && terms.end <= terms.start ==> terms.fault() == Some(
            MarketError::EndNotAfterStart,
        ),
        0 < terms.start < terms.end && terms.bandwidth == 0 ==> terms.fault() == Some(
            MarketError::ZeroBandwidth,
        ),
{
}

/// A listing accepts a purchase if and only if its duration and its bandwidth are
/// multiples of the granularities, where there are any; an unaligned duration is told of
/// first.
pub proof fn listings_sell_whole_granules(
    terms: PurchaseTerms,
    time_granularity: u64,
    bw_granularity: u64,
)
    requires
        terms.start <= terms.end,
    ensures
        ({
            let refusal = terms.misalignment(time_granularity, bw_granularity);
            let whole_time = time_granularity == 0 || (terms.end - terms.start)
                % time_granularity as int == 0;
            let whole_bandwidth = bw_granularity == 0 || terms.bandwidth as int
                % bw_granularity as int == 0;
            &&& refusal is None <==> whole_time && whole_bandwidth
            &&& !whole_time ==> (refusal matches Some(MarketError::UnalignedDuration { .. }))
            &&& whole_time && !whole_bandwidth ==> (refusal matches Some(
                MarketError::UnalignedBandwidth { .. },
            ))
        }),
{
}

}
