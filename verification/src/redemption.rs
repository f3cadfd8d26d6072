//! Redemptions: which events let which clients in, what a client is answered, and how
//! a client waits to be let in.

use vstd::hash_set::StringHashSet;
use vstd::prelude::*;
use vstd::string::*;

use crate::address::{same_id, RawId};
use crate::models::{
    decode_token_redeemed, token_redeemed_error, token_redeemed_of, token_redeemed_round_trip,
    TokenRedeemed, TokenRedeemedView,
};
use crate::objects::BcsValue;
use crate::text::{
    contains_text, decimal, decimal_text, is_space, occurs_in, same_text, trim, trimmed,
    trimmed_end, trimmed_start, white_space_around_a_text_goes,
};

verus! {

/// An event, as far as it was reported.
#[derive(Debug)]
pub struct EventRecord {
    pub event_type: Option<String>,
    pub contents: Option<BcsValue>,
}

/// A transaction, as far as it was reported.
#[derive(Debug)]
pub struct TransactionRecord {
    pub events: Option<Vec<EventRecord>>,
}

/// A checkpoint: transactions in their order.
#[derive(Debug)]
pub struct CheckpointRecord {
    pub transactions: Vec<TransactionRecord>,
}

/// What is noted of an event.
#[derive(Debug)]
pub enum EventNotice {
    /// A token was redeemed: its redeemer is let in.
    Authorized(TokenRedeemed),
    /// A redemption came without its contents.
    NoContents,
    /// The contents of a redemption could not be read; the text of the error.
    Undecodable(String),
}

/// What an [`EventNotice`] tells.
pub enum NoticeView {
    Authorized(TokenRedeemedView),
    NoContents,
    Undecodable(Seq<char>),
}

impl View for EventNotice {
    type V = NoticeView;

    open spec fn view(&self) -> NoticeView {
        match self {
            EventNotice::Authorized(event) => NoticeView::Authorized(event@),
            EventNotice::NoContents => NoticeView::NoContents,
            EventNotice::Undecodable(text) => NoticeView::Undecodable(text@),
        }
    }
}

/// What each notice tells.
pub open spec fn notice_views(notices: Seq<EventNotice>) -> Seq<NoticeView> {
    notices.map_values(|n: EventNotice| n@)
}

/// The IP addresses that are let in.
pub struct AuthorizedIps {
    ips: StringHashSet,
}

impl View for AuthorizedIps {
    type V = Set<Seq<char>>;

    closed spec fn view(&self) -> Set<Seq<char>> {
        self.ips@
    }
}

/// What is noted of the redemption of a token, by the issuer of the tokens.
pub open spec fn redeemed_notice(redeemed: TokenRedeemedView, issuer: Seq<u8>) -> Option<
    NoticeView,
> {
    if redeemed.issuer == issuer {
        Some(NoticeView::Authorized(redeemed))
    } else {
        None
    }
}

/// What a notice tells, if there is one.
pub open spec fn notice_view(notice: Option<EventNotice>) -> Option<NoticeView> {
    match notice {
        Some(n) => Some(n@),
        None => None,
    }
}

/// What is noted of an event, by the issuer of the tokens: nothing of events of other
/// types and of tokens of other issuers.
pub open spec fn event_notice(event: EventRecord, issuer: Seq<u8>) -> Option<NoticeView> {
    match event.event_type {
        None => None,
        Some(t) => if !occurs_in("::marketplace::TokenRedeemed"@, t@) {
            None
        } else {
            match BcsValue::bytes(event.contents) {
                None => Some(NoticeView::NoContents),
                Some(bytes) => match token_redeemed_of(bytes) {
                    None => Some(NoticeView::Undecodable(token_redeemed_error(bytes))),
                    Some(redeemed) => redeemed_notice(redeemed, issuer),
                },
            }
        },
    }
}

/// The IP addresses that are let in after an event, by what is noted of it.
pub open spec fn let_in(ips: Set<Seq<char>>, notice: Option<NoticeView>) -> Set<Seq<char>> {
    match notice {
        Some(NoticeView::Authorized(redeemed)) => ips.insert(redeemed.ip_address),
        _ => ips,
    }
}

/// The events of a transaction.
pub open spec fn transaction_events(transaction: TransactionRecord) -> Seq<EventRecord> {
    match transaction.events {
        Some(events) => events@,
        None => seq![],
    }
}

/// The events of transactions, in their order.
pub open spec fn all_events(transactions: Seq<TransactionRecord>) -> Seq<EventRecord>
    decreases transactions.len(),
{
    if transactions.len() == 0 {
        seq![]
    } else {
        all_events(transactions.drop_last()) + transaction_events(transactions.last())
    }
}

/// The events of a checkpoint that may be missing.
pub open spec fn checkpoint_events(checkpoint: Option<CheckpointRecord>) -> Seq<EventRecord> {
    match checkpoint {
        Some(c) => all_events(c.transactions@),
        None => seq![],
    }
}

/// What is noted of events, in their order.
pub open spec fn event_notices(events: Seq<EventRecord>, issuer: Seq<u8>) -> Seq<NoticeView>
    decreases events.len(),
{
    if events.len() == 0 {
        seq![]
    } else {
        let before = event_notices(events.drop_last(), issuer);
        match event_notice(events.last(), issuer) {
            Some(notice) => before.push(notice),
            None => before,
        }
    }
}

/// The IP addresses that are let in after events.
pub open spec fn let_in_by(
    ips: Set<Seq<char>>,
    events: Seq<EventRecord>,
    issuer: Seq<u8>,
) -> Set<Seq<char>>
    decreases events.len(),
{
    if events.len() == 0 {
        ips
    } else {
        let_in(
            let_in_by(ips, events.drop_last(), issuer),
            event_notice(events.last(), issuer),
        )
    }
}

/// The events of checkpoints, in their order.
pub open spec fn stream_events(checkpoints: Seq<Option<CheckpointRecord>>) -> Seq<EventRecord>
    decreases checkpoints.len(),
{
    if checkpoints.len() == 0 {
        seq![]
    } else {
        stream_events(checkpoints.drop_last()) + checkpoint_events(checkpoints.last())
    }
}

/// The IP addresses that are let in after checkpoints, taken one after the other.
pub open spec fn let_in_after(
    ips: Set<Seq<char>>,
    checkpoints: Seq<Option<CheckpointRecord>>,
    issuer: Seq<u8>,
) -> Set<Seq<char>>
    decreases checkpoints.len(),
{
    if checkpoints.len() == 0 {
        ips
    } else {
        let_in_by(
            let_in_after(ips, checkpoints.drop_last(), issuer),
            checkpoint_events(checkpoints.last()),
            issuer,
        )
    }
}

/// What a client with the IP address `ip` is answered.
pub open spec fn reply_chars(ips: Set<Seq<char>>, ip: Seq<char>) -> Seq<char> {
    if ips.contains(ip) {
        "authorized\n"@
    } else {
        "unauthorized\n"@
    }
}

impl AuthorizedIps {
    /// Nobody is let in.
    pub fn new() -> (r: AuthorizedIps)
        ensures
            r@ == Set::<Seq<char>>::empty(),
    {
        AuthorizedIps { ips: StringHashSet::new() }
    }

    /// Whether a client with the IP address `ip` is let in.
    pub fn contains(&self, ip: &str) -> (r: bool)
        ensures
            r == self@.contains(ip@),
    {
        self.ips.contains(ip)
    }

    /// What a client with the IP address `ip` is answered.
    pub fn reply(&self, ip: &str) -> (r: &'static str)
        ensures
            r@ == reply_chars(self@, ip@),
    {
        if self.ips.contains(ip) {
            "authorized\n"
        } else {
            "unauthorized\n"
        }
    }

    /// Takes what was read of a redemption, or the text of the error: a redemption of a
    /// token of `issuer` lets its redeemer in.
    pub fn take_redeemed(
        &mut self,
        decoded: Result<TokenRedeemed, String>,
        issuer: &RawId,
    ) -> (r: Option<EventNotice>)
        ensures
            notice_view(r) == match decoded {
                Ok(redeemed) => redeemed_notice(redeemed@, issuer@),
                Err(text) => Some(NoticeView::Undecodable(text@)),
            },
            final(self)@ == let_in(old(self)@, notice_view(r)),
    {
        match decoded {
            Ok(redeemed) => {
                if same_id(&redeemed.issuer, issuer) {
                    self.ips.insert(redeemed.ip_address.clone());
                    Some(EventNotice::Authorized(redeemed))
                } else {
                    None
                }
            },
            Err(text) => Some(EventNotice::Undecodable(text)),
        }
    }

    /// Takes an event: a redemption of a token of `issuer` lets its redeemer in.
    pub fn take_event(&mut self, event: &EventRecord, issuer: &RawId) -> (r: Option<EventNotice>)
        ensures
            notice_view(r) == event_notice(*event, issuer@),
            final(self)@ == let_in(old(self)@, event_notice(*event, issuer@)),
    {
        let event_type = match &event.event_type {
            Some(t) => t,
            None => return None,
        };
        if !contains_text(event_type.as_str(), "::marketplace::TokenRedeemed") {
            return None;
        }
        let bytes = match BcsValue::get(&event.contents) {
            Some(b) => b,
            None => return Some(EventNotice::NoContents),
        };
        let decoded = decode_token_redeemed(bytes.as_slice());
        proof {
            if let Ok(redeemed) = &decoded {
                token_redeemed_round_trip(redeemed@);
            }
        }
        self.take_redeemed(decoded, issuer)
    }

    /// Takes the next checkpoint of the subscription, if it came with one: all of its
    /// events, in their order.
    pub fn take_checkpoint(
        &mut self,
        checkpoint: &Option<CheckpointRecord>,
        issuer: &RawId,
    ) -> (r: Vec<EventNotice>)
        ensures
            notice_views(r@) == event_notices(checkpoint_events(*checkpoint), issuer@),
            final(self)@ == let_in_by(old(self)@, checkpoint_events(*checkpoint), issuer@),
    {
        let mut notices: Vec<EventNotice> = Vec::new();
        proof {
            assert(notice_views(notices@) =~= seq![]);
        }
        let transactions = match checkpoint {
            Some(c) => &c.transactions,
            None => return notices,
        };
        let ghost ips = self@;
        let mut i: usize = 0;
        proof {
            assert(transactions@.take(0) =~= seq![]);
        }
        while i < transactions.len()
            invariant
                i <= transactions@.len(),
                notice_views(notices@) == event_notices(
                    all_events(transactions@.take(i as int)),
                    issuer@,
                ),
                self@ == let_in_by(ips, all_events(transactions@.take(i as int)), issuer@),
            decreases transactions@.len() - i,
        {
            let ghost done = all_events(transactions@.take(i as int));
            let ghost own = transaction_events(transactions@[i as int]);
            proof {
                assert(transactions@.take(i + 1).drop_last() =~= transactions@.take(i as int));
                assert(done + own.take(0) =~= done);
                assert(own.take(own.len() as int) =~= own);
            }
            if let Some(events) = &transactions[i].events {
                let mut j: usize = 0;
                while j < events.len()
                    invariant
                        own == events@,
                        j <= events@.len(),
                        notice_views(notices@) == event_notices(
                            done + own.take(j as int),
                            issuer@,
                        ),
                        self@ == let_in_by(ips, done + own.take(j as int), issuer@),
                    decreases events@.len() - j,
                {
                    let ghost before = notices@;
                    proof {
                        assert((done + own.take(j + 1)).drop_last() =~= done + own.take(j as int));
                    }
                    if let Some(notice) = self.take_event(&events[j], issuer) {
                        notices.push(notice);
                        proof {
                            assert(notice_views(notices@) =~= notice_views(before).push(notice@));
                        }
                    }
                    j += 1;
                }
            }
            i += 1;
        }
        proof {
            assert(transactions@.take(transactions@.len() as int) =~= transactions@);
        }
        notices
    }
}

/// Tells of a redemption that lets its redeemer in.
pub fn redemption_text(event: &TokenRedeemed) -> (r: String)
    ensures
        r@ == "Redemption received — authorizing IP: "@ + event.ip_address@ + "  ("@ + decimal(
            event.bandwidth as nat,
        ) + " kB/s, "@ + decimal(event.valid_from as nat) + " → "@ + decimal(
            event.expires_at as nat,
        ) + ")"@,
{
    let mut r = "Redemption received — authorizing IP: ".to_owned();
    r.append(event.ip_address.as_str());
    r.append("  (");
    r.append(decimal_text(event.bandwidth).as_str());
    r.append(" kB/s, ");
    r.append(decimal_text(event.valid_from).as_str());
    r.append(" → ");
    r.append(decimal_text(event.expires_at).as_str());
    r.append(")");
    r
}

/// How often a client tries to be let in.
pub const CONNECT_ATTEMPTS: u32 = 10;

/// Whether a client takes `response` for being let in.
pub open spec fn accepted(response: Seq<char>) -> bool {
    trimmed(response) == "authorized"@
}

/// The attempt after the one with the number `attempt`, by whether that one let the
/// client in.
pub open spec fn next_attempt(attempt: u32, admitted: bool) -> Option<u32> {
    if attempt >= CONNECT_ATTEMPTS || admitted {
        None
    } else {
        Some((attempt + 1) as u32)
    }
}

/// What a client tells of an attempt.
pub open spec fn attempt_line(attempt: u32, outcome: Result<String, String>) -> Seq<char> {
    match outcome {
        Ok(response) => "Server says: "@ + trimmed(response@),
        Err(e) => "Attempt "@ + decimal(attempt as nat) + "/10: "@ + e@,
    }
}

/// What a client tells of an attempt, and which attempt is next, if any.
#[derive(Debug)]
pub struct ConnectStep {
    pub line: String,
    pub next: Option<u32>,
}

/// Decides after the attempt with the number `attempt` to be let in: `outcome` is the
/// response of the server, or the text of an error.
pub fn connect_step(attempt: u32, outcome: &Result<String, String>) -> (r: ConnectStep)
    ensures
        r.line@ == attempt_line(attempt, *outcome),
        r.line@ == match *outcome {
            Ok(response) => "Server says: "@ + trimmed(response@),
            Err(e) => "Attempt "@ + decimal(attempt as nat) + "/10: "@ + e@,
        },
        r.next == next_attempt(
            attempt,
            *outcome matches Ok(response) && accepted(response@),
        ),
{
    let mut admitted: bool = false;
    let line = match outcome {
        Ok(response) => {
            let said = trim(response.as_str());
            admitted = same_text(said, "authorized");
            let mut line = "Server says: ".to_owned();
            line.append(said);
            line
        },
        Err(e) => {
            let mut line = "Attempt ".to_owned();
            line.append(decimal_text(attempt as u64).as_str());
            line.append("/10: ");
            line.append(e.as_str());
            line
        },
    };
    let next: Option<u32> = if attempt >= CONNECT_ATTEMPTS || admitted {
        None
    } else {
        Some(attempt + 1)
    };
    ConnectStep { line, next }
}

/// A client takes the reply of the server for being let in if and only if it is.
pub proof fn replies_are_understood(ips: Set<Seq<char>>, ip: Seq<char>)
    ensures
        accepted(reply_chars(ips, ip)) <==> ips.contains(ip),
{
    reveal_strlit("authorized");
    reveal_strlit("authorized\n");
    reveal_strlit("unauthorized\n");
    let yes = "authorized\n"@;
    let no = "unauthorized\n"@;
    assert(trimmed_start(yes) == yes);
    assert(trimmed_start(no) == no);
    assert(yes.drop_last() =~= "authorized"@);
    assert(yes.drop_last().last() == 'd');
    assert(no.drop_last().last() == 'd');
    reveal_with_fuel(trimmed_end, 2);
    assert(trimmed(yes) == yes.drop_last());
    assert(trimmed(no) == no.drop_last());
    assert(trimmed(no).len() != "authorized"@.len());
}

/// Events let in exactly those whose redemption they tell of, besides those who were
/// let in before; nobody is shut out.
pub proof fn events_let_in_redeemers(
    ips: Set<Seq<char>>,
    events: Seq<EventRecord>,
    issuer: Seq<u8>,
    ip: Seq<char>,
)
    ensures
        let_in_by(ips, events, issuer).contains(ip) <==> ips.contains(ip) || exists|i: int|
            0 <= i < events.len() && (event_notice(#[trigger] events[i], issuer) matches Some(
                NoticeView::Authorized(redeemed),
            ) && redeemed.ip_address == ip),
    decreases events.len(),
{
    if events.len() > 0 {
        let init = events.drop_last();
        events_let_in_redeemers(ips, init, issuer, ip);
        let last = events[events.len() - 1];
        if let_in_by(ips, init, issuer).contains(ip) {
            if !ips.contains(ip) {
                let i = choose|i: int|
                    0 <= i < init.len() && (event_notice(#[trigger] init[i], issuer) matches Some(
                        NoticeView::Authorized(redeemed),
                    ) && redeemed.ip_address == ip);
                assert(events[i] == init[i]);
            }
        } else {
            assert forall|i: int|
                0 <= i < events.len() && (event_notice(#[trigger] events[i], issuer) matches Some(
                    NoticeView::Authorized(redeemed),
                ) && redeemed.ip_address == ip) implies i == events.len() - 1 by {
                if i < init.len() {
                    assert(init[i] == events[i]);
                }
            }
        }
    }
}

/// A client whose redemption a checkpoint tells of is answered that it is let in, and
/// understands the answer.
pub proof fn redeemer_is_let_in(
    ips: Set<Seq<char>>,
    events: Seq<EventRecord>,
    issuer: Seq<u8>,
    i: int,
    redeemed: TokenRedeemedView,
)
    requires
        0 <= i < events.len(),
        event_notice(events[i], issuer) == Some(NoticeView::Authorized(redeemed)),
    ensures
        reply_chars(let_in_by(ips, events, issuer), redeemed.ip_address) == "authorized\n"@,
        accepted(reply_chars(let_in_by(ips, events, issuer), redeemed.ip_address)),
{
    events_let_in_redeemers(ips, events, issuer, redeemed.ip_address);
    replies_are_understood(let_in_by(ips, events, issuer), redeemed.ip_address);
}

/// A client of whose redemption no event tells is turned away, unless it was let in
/// before; so the tokens of other issuers let nobody in.
pub proof fn others_are_turned_away(
    ips: Set<Seq<char>>,
    events: Seq<EventRecord>,
    issuer: Seq<u8>,
    ip: Seq<char>,
)
    requires
        !ips.contains(ip),
        forall|i: int|
            0 <= i < events.len() ==> !(event_notice(#[trigger] events[i], issuer) matches Some(
                NoticeView::Authorized(redeemed),
            ) && redeemed.ip_address == ip),
    ensures
        reply_chars(let_in_by(ips, events, issuer), ip) == "unauthorized\n"@,
        !accepted(reply_chars(let_in_by(ips, events, issuer), ip)),
{
    events_let_in_redeemers(ips, events, issuer, ip);
    replies_are_understood(let_in_by(ips, events, issuer), ip);
}

/// The bytes of a redemption let its redeemer in at the issuer that they name.
pub proof fn redemption_bytes_authorize(
    event: EventRecord,
    event_type: String,
    redeemed: TokenRedeemedView,
)
    requires
        event.event_type == Some(event_type),
        occurs_in("::marketplace::TokenRedeemed"@, event_type@),
        BcsValue::bytes(event.contents) == Some(redeemed.bytes()),
        redeemed.encodable(),
    ensures
        event_notice(event, redeemed.issuer) == Some(NoticeView::Authorized(redeemed)),
{
    token_redeemed_round_trip(redeemed);
}

proof fn lemma_event_of_checkpoint(transactions: Seq<TransactionRecord>, t: int, e: int) -> (i: int)
    requires
        0 <= t < transactions.len(),
        0 <= e < transaction_events(transactions[t]).len(),
    ensures
        0 <= i < all_events(transactions).len(),
        all_events(transactions)[i] == transaction_events(transactions[t])[e],
    decreases transactions.len(),
{
    if t == transactions.len() - 1 {
        all_events(transactions.drop_last()).len() + e
    } else {
        lemma_event_of_checkpoint(transactions.drop_last(), t, e)
    }
}

/// Events that are taken one part after the other let in those whom they let in when they
/// are taken at once, and are told of in the same way.
pub proof fn events_in_parts(
    ips: Set<Seq<char>>,
    a: Seq<EventRecord>,
    b: Seq<EventRecord>,
    issuer: Seq<u8>,
)
    ensures
        let_in_by(let_in_by(ips, a, issuer), b, issuer) == let_in_by(ips, a + b, issuer),
        event_notices(a, issuer) + event_notices(b, issuer) == event_notices(a + b, issuer),
    decreases b.len(),
{
    if b.len() == 0 {
        assert(a + b =~= a);
    } else {
        events_in_parts(ips, a, b.drop_last(), issuer);
        assert((a + b).drop_last() =~= a + b.drop_last());
        assert((a + b).last() == b.last());
    }
}

/// Checkpoints that are taken one after the other let in those whom all of their events
/// let in.
pub proof fn checkpoints_in_turn(
    ips: Set<Seq<char>>,
    checkpoints: Seq<Option<CheckpointRecord>>,
    issuer: Seq<u8>,
)
    ensures
        let_in_after(ips, checkpoints, issuer) == let_in_by(
            ips,
            stream_events(checkpoints),
            issuer,
        ),
    decreases checkpoints.len(),
{
    if checkpoints.len() > 0 {
        let init = checkpoints.drop_last();
        checkpoints_in_turn(ips, init, issuer);
        events_in_parts(
            ips,
            stream_events(init),
            checkpoint_events(checkpoints.last()),
            issuer,
        );
    }
}

/// Whether event `e` of transaction `t` of a checkpoint tells of a redemption.
pub open spec fn tells_of(
    checkpoint: Option<CheckpointRecord>,
    t: int,
    e: int,
    redeemed: TokenRedeemedView,
) -> bool {
    &&& checkpoint matches Some(c)
    &&& 0 <= t < c.transactions@.len()
    &&& 0 <= e < transaction_events(c.transactions@[t]).len()
    &&& transaction_events(c.transactions@[t])[e].event_type matches Some(event_type)
    &&& occurs_in("::marketplace::TokenRedeemed"@, event_type@)
    &&& BcsValue::bytes(transaction_events(c.transactions@[t])[e].contents) == Some(
        redeemed.bytes(),
    )
    &&& redeemed.encodable()
}

proof fn lemma_told_event(
    checkpoint: Option<CheckpointRecord>,
    t: int,
    e: int,
    redeemed: TokenRedeemedView,
) -> (i: int)
    requires
        tells_of(checkpoint, t, e, redeemed),
    ensures
        0 <= i < checkpoint_events(checkpoint).len(),
        event_notice(checkpoint_events(checkpoint)[i], redeemed.issuer) == Some(
            NoticeView::Authorized(redeemed),
        ),
{
    let transactions = checkpoint->0.transactions@;
    let event = transaction_events(transactions[t])[e];
    redemption_bytes_authorize(event, event.event_type->0, redeemed);
    lemma_event_of_checkpoint(transactions, t, e)
}

/// Whoever redeems a token is answered that they are authorized, and understands it,
/// once the issuer of the token has taken the checkpoint that tells of the redemption.
pub proof fn redemption_authorizes(
    ips: Set<Seq<char>>,
    checkpoint: Option<CheckpointRecord>,
    t: int,
    e: int,
    redeemed: TokenRedeemedView,
)
    requires
        tells_of(checkpoint, t, e, redeemed),
    ensures
        ({
            let after = let_in_by(ips, checkpoint_events(checkpoint), redeemed.issuer);
            &&& reply_chars(after, redeemed.ip_address) == "authorized\n"@
            &&& accepted(reply_chars(after, redeemed.ip_address))
        }),
{
    let i = lemma_told_event(checkpoint, t, e, redeemed);
    redeemer_is_let_in(ips, checkpoint_events(checkpoint), redeemed.issuer, i, redeemed);
}

/// Whoever redeemed a token stays authorized, whatever checkpoints came before and come
/// after the one that tells of the redemption.
pub proof fn redemption_stays_authorized(
    ips: Set<Seq<char>>,
    checkpoints: Seq<Option<CheckpointRecord>>,
    c: int,
    t: int,
    e: int,
    redeemed: TokenRedeemedView,
)
    requires
        0 <= c < checkpoints.len(),
        tells_of(checkpoints[c], t, e, redeemed),
    ensures
        ({
            let after = let_in_after(ips, checkpoints, redeemed.issuer);
            &&& reply_chars(after, redeemed.ip_address) == "authorized\n"@
            &&& accepted(reply_chars(after, redeemed.ip_address))
        }),
    decreases checkpoints.len(),
{
    let init = checkpoints.drop_last();
    let ip = redeemed.ip_address;
    if c == init.len() {
        let before = let_in_after(ips, init, redeemed.issuer);
        redemption_authorizes(before, checkpoints.last(), t, e, redeemed);
    } else {
        redemption_stays_authorized(ips, init, c, t, e, redeemed);
        replies_are_understood(let_in_after(ips, init, redeemed.issuer), ip);
        events_let_in_redeemers(
            let_in_after(ips, init, redeemed.issuer),
            checkpoint_events(checkpoints.last()),
            redeemed.issuer,
            ip,
        );
        replies_are_understood(let_in_after(ips, checkpoints, redeemed.issuer), ip);
    }
}

/// A client of whose redemption no checkpoint tells stays turned away.
pub proof fn others_stay_turned_away(
    ips: Set<Seq<char>>,
    checkpoints: Seq<Option<CheckpointRecord>>,
    issuer: Seq<u8>,
    ip: Seq<char>,
)
    requires
        !ips.contains(ip),
        forall|i: int|
            0 <= i < stream_events(checkpoints).len() ==> !(event_notice(
                #[trigger] stream_events(checkpoints)[i],
                issuer,
            ) matches Some(NoticeView::Authorized(redeemed)) && redeemed.ip_address == ip),
    ensures
        reply_chars(let_in_after(ips, checkpoints, issuer), ip) == "unauthorized\n"@,
        !accepted(reply_chars(let_in_after(ips, checkpoints, issuer), ip)),
{
    checkpoints_in_turn(ips, checkpoints, issuer);
    others_are_turned_away(ips, stream_events(checkpoints), issuer, ip);
}

/// A client tries until it is let in, but for a fixed number of times.
pub proof fn connecting_ends(attempt: u32, admitted: bool)
    requires
        1 <= attempt <= CONNECT_ATTEMPTS,
    ensures
        admitted ==> next_attempt(attempt, admitted) is None,
        !admitted && attempt < CONNECT_ATTEMPTS ==> next_attempt(attempt, admitted) == Some(
            (attempt + 1) as u32,
        ),
        next_attempt(CONNECT_ATTEMPTS, admitted) is None,
{
}

/// A token of another issuer lets nobody in: its redemption is noted as nothing, and those
/// who are let in stay the same.
pub proof fn tokens_of_other_issuers_let_nobody_in(
    ips: Set<Seq<char>>,
    event: EventRecord,
    issuer: Seq<u8>,
    redeemed: TokenRedeemedView,
)
    requires
        BcsValue::bytes(event.contents) == Some(redeemed.bytes()),
        redeemed.encodable(),
        redeemed.issuer != issuer,
    ensures
        event_notice(event, issuer) is None,
        let_in(ips, event_notice(event, issuer)) == ips,
        let_in_by(ips, seq![event], issuer) == ips,
        redeemed_notice(redeemed, issuer) is None,
{
    token_redeemed_round_trip(redeemed);
    lemma_one_event(ips, event, issuer);
}

/// The redemption of an own token lets in the IP address that it names, and no other.
pub proof fn own_tokens_let_in_their_redeemer_alone(
    ips: Set<Seq<char>>,
    event: EventRecord,
    redeemed: TokenRedeemedView,
    other: Seq<char>,
)
    requires
        event.event_type matches Some(t) && occurs_in("::marketplace::TokenRedeemed"@, t@),
        BcsValue::bytes(event.contents) == Some(redeemed.bytes()),
        redeemed.encodable(),
        other != redeemed.ip_address,
    ensures
        let_in_by(ips, seq![event], redeemed.issuer).contains(redeemed.ip_address),
        let_in_by(ips, seq![event], redeemed.issuer).contains(other) <==> ips.contains(other),
        redeemed_notice(redeemed, redeemed.issuer) == Some(NoticeView::Authorized(redeemed)),
{
    token_redeemed_round_trip(redeemed);
    lemma_one_event(ips, event, redeemed.issuer);
}

/// Events of other types, and those of no type, are noted as nothing and let nobody in.
pub proof fn other_events_let_nobody_in(
    ips: Set<Seq<char>>,
    event: EventRecord,
    issuer: Seq<u8>,
)
    requires
        event.event_type matches Some(t) ==> !occurs_in("::marketplace::TokenRedeemed"@, t@),
    ensures
        event_notice(event, issuer) is None,
        let_in_by(ips, seq![event], issuer) == ips,
{
    lemma_one_event(ips, event, issuer);
}

/// A redemption without contents, or whose contents are the bytes of none, is told of as
/// just that, and lets nobody in.
pub proof fn unreadable_redemptions_let_nobody_in(
    ips: Set<Seq<char>>,
    event: EventRecord,
    issuer: Seq<u8>,
)
    requires
        event.event_type matches Some(t) && occurs_in("::marketplace::TokenRedeemed"@, t@),
    ensures
        event.contents is None ==> event_notice(event, issuer) == Some(NoticeView::NoContents),
        event.contents matches Some(v) && v.value is None ==> event_notice(event, issuer) == Some(
            NoticeView::NoContents,
        ),
        (event.contents matches Some(v) && v.value matches Some(b) && forall|r: TokenRedeemedView|
            r.encodable() ==> #[trigger] r.bytes() != b@) ==> (event_notice(event, issuer) matches Some(
            NoticeView::Undecodable(_),
        )),
        !(event_notice(event, issuer) matches Some(NoticeView::Authorized(_))) ==> let_in_by(
            ips,
            seq![event],
            issuer,
        ) == ips,
{
    lemma_one_event(ips, event, issuer);
}

proof fn lemma_one_event(ips: Set<Seq<char>>, event: EventRecord, issuer: Seq<u8>)
    ensures
        let_in_by(ips, seq![event], issuer) == let_in(ips, event_notice(event, issuer)),
        event_notices(seq![event], issuer) == match event_notice(event, issuer) {
            Some(notice) => seq![notice],
            None => seq![],
        },
{
    let one = seq![event];
    assert(one.drop_last() =~= seq![]);
    assert(one.last() == event);
    assert(let_in_by(ips, one.drop_last(), issuer) == ips);
    assert(event_notices(one.drop_last(), issuer) =~= seq![]);
}

/// One event is told of by its notice, if it has one, and by nothing else.
pub proof fn one_event_has_one_notice(event: EventRecord, issuer: Seq<u8>)
    ensures
        event_notices(seq![event], issuer) == match event_notice(event, issuer) {
            Some(notice) => seq![notice],
            None => seq![],
        },
        event_notices(seq![], issuer) == Seq::<NoticeView>::empty(),
{
    lemma_one_event(Set::empty(), event, issuer);
}

/// The events of transactions are those of the first ones, then those of the others; one
/// transaction has the events that were reported of it.
pub proof fn events_stand_in_the_order_of_transactions(
    a: Seq<TransactionRecord>,
    b: Seq<TransactionRecord>,
    transaction: TransactionRecord,
)
    ensures
        all_events(a + b) == all_events(a) + all_events(b),
        forall|events: Vec<EventRecord>|
            transaction.events == Some(events) ==> all_events(seq![transaction]) == events@,
        transaction.events is None ==> all_events(seq![transaction]).len() == 0,
    decreases b.len(),
{
    let one = seq![transaction];
    assert(one.drop_last() =~= seq![]);
    assert(all_events(one.drop_last()) =~= seq![]);
    assert(all_events(one) =~= transaction_events(transaction));
    if b.len() == 0 {
        assert(a + b =~= a);
    } else {
        events_stand_in_the_order_of_transactions(a, b.drop_last(), transaction);
        assert((a + b).drop_last() =~= a + b.drop_last());
        assert((a + b).last() == b.last());
    }
}

/// A checkpoint has the events of its transactions, and a missing one has none; a stream
/// has those of its checkpoints, in their order.
pub proof fn events_stand_in_the_order_of_checkpoints(
    a: Seq<Option<CheckpointRecord>>,
    b: Seq<Option<CheckpointRecord>>,
    checkpoint: CheckpointRecord,
)
    ensures
        checkpoint_events(Some(checkpoint)) == all_events(checkpoint.transactions@),
        checkpoint_events(None).len() == 0,
        stream_events(a + b) == stream_events(a) + stream_events(b),
        stream_events(seq![Some(checkpoint)]) == all_events(checkpoint.transactions@),
    decreases b.len(),
{
    let one = seq![Some(checkpoint)];
    assert(one.drop_last() =~= seq![]);
    assert(stream_events(one.drop_last()) =~= seq![]);
    assert(stream_events(one) =~= checkpoint_events(Some(checkpoint)));
    if b.len() == 0 {
        assert(a + b =~= a);
    } else {
        events_stand_in_the_order_of_checkpoints(a, b.drop_last(), checkpoint);
        assert((a + b).drop_last() =~= a + b.drop_last());
        assert((a + b).last() == b.last());
    }
}

/// A client is answered "authorized" if it is let in and "unauthorized" if not, each on a
/// line of its own.
pub proof fn clients_are_answered_in_one_word(ips: Set<Seq<char>>, ip: Seq<char>)
    ensures
        ips.contains(ip) ==> reply_chars(ips, ip) == "authorized"@.push('\n'),
        !ips.contains(ip) ==> reply_chars(ips, ip) == "unauthorized"@.push('\n'),
{
    reveal_strlit("authorized");
    reveal_strlit("unauthorized");
    reveal_strlit("authorized\n");
    reveal_strlit("unauthorized\n");
    assert("authorized\n"@ =~= "authorized"@.push('\n'));
    assert("unauthorized\n"@ =~= "unauthorized"@.push('\n'));
}

/// A client that was not let in tries ten times in all, and one that was let in never
/// again.
pub proof fn a_client_tries_ten_times(attempt: u32)
    requires
        1 <= attempt <= 10,
    ensures
        next_attempt(attempt, true) is None,
        attempt < 10 ==> next_attempt(attempt, false) == Some((attempt + 1) as u32),
        attempt == 10 ==> next_attempt(attempt, false) is None,
{
}

/// A notice tells all of the redemption or of the error that it is about.
pub proof fn notices_tell_all(redeemed: TokenRedeemed, text: String)
    ensures
        EventNotice::Authorized(redeemed)@ == NoticeView::Authorized(redeemed@),
        EventNotice::NoContents@ == NoticeView::NoContents,
        EventNotice::Undecodable(text)@ == NoticeView::Undecodable(text@),
        notice_view(Some(EventNotice::NoContents)) == Some(NoticeView::NoContents),
        notice_view(None) is None,
{
}

/// A client tells what the server said, without the white space around it, or the number of
/// the attempt and the whole error.
pub proof fn clients_tell_of_each_attempt(attempt: u32, response: String, e: String)
    ensures
        "Server says: "@.is_prefix_of(attempt_line(attempt, Ok(response))),
        trimmed(response@).is_suffix_of(attempt_line(attempt, Ok(response))),
        attempt_line(attempt, Ok(response)).len() == "Server says: "@.len() + trimmed(
            response@,
        ).len(),
        ("Attempt "@ + decimal(attempt as nat) + "/10: "@).is_prefix_of(
            attempt_line(attempt, Err(e)),
        ),
        e@.is_suffix_of(attempt_line(attempt, Err(e))),
        attempt_line(attempt, Err(e)).len() == "Attempt "@.len() + decimal(attempt as nat).len()
            + "/10: "@.len() + e@.len(),
{
}

/// A client takes a response for being let in if and only if it is the word "authorized",
/// with any white space around it.
pub proof fn one_word_lets_a_client_in(a: Seq<char>, b: Seq<char>, response: Seq<char>)
    requires
        forall|k: int| 0 <= k < a.len() ==> is_space(#[trigger] a[k]),
        forall|k: int| 0 <= k < b.len() ==> is_space(#[trigger] b[k]),
    ensures
        accepted(a + "authorized"@ + b),
        accepted(response) <==> trimmed(response) == "authorized"@,
        !accepted(a + "unauthorized"@ + b),
{
    reveal_strlit("authorized");
    reveal_strlit("unauthorized");
    white_space_around_a_text_goes(a, "authorized"@, b);
    white_space_around_a_text_goes(a, "unauthorized"@, b);
    assert("authorized"@.len() != "unauthorized"@.len());
}

/// The notices that are told are those of each notice, in its place.
pub proof fn notices_keep_their_places(notices: Seq<EventNotice>, i: int)
    requires
        0 <= i < notices.len(),
    ensures
        notice_views(notices).len() == notices.len(),
        notice_views(notices)[i] == notices[i]@,
{
}

}
