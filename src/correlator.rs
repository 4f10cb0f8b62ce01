//! The correlator: matches each receive event to the send event with the same
//! identifier and sequence number, and turns the pair into a ping result.
use crate::pinger::{IpAddr, UniPacket};
use std::collections::HashMap;
use vstd::prelude::*;

verus! {

broadcast use vstd::std_specs::hash::group_hash_axioms;

/// A request that left and has not been answered yet.
pub struct Outstanding {
    pub host: String,
    pub addr: IpAddr,
    pub sent_at: u128,
}

pub struct OutstandingView {
    pub host: Seq<char>,
    pub addr: IpAddr,
    pub sent_at: u128,
}

impl View for Outstanding {
    type V = OutstandingView;

    open spec fn view(&self) -> OutstandingView {
        OutstandingView { host: self.host@, addr: self.addr, sent_at: self.sent_at }
    }
}

/// A matched request and reply: who answered, and the round-trip time in
/// nanoseconds.
#[derive(Debug)]
pub struct PingResult {
    pub host: String,
    pub addr: IpAddr,
    pub seq: u16,
    pub ttl: u8,
    pub size: usize,
    pub rtt: u128,
}

pub struct PingResultView {
    pub host: Seq<char>,
    pub addr: IpAddr,
    pub seq: u16,
    pub ttl: u8,
    pub size: usize,
    pub rtt: u128,
}

impl View for PingResult {
    type V = PingResultView;

    open spec fn view(&self) -> PingResultView {
        PingResultView {
            host: self.host@,
            addr: self.addr,
            seq: self.seq,
            ttl: self.ttl,
            size: self.size,
            rtt: self.rtt,
        }
    }
}

pub open spec fn result_view(r: Option<PingResult>) -> Option<PingResultView> {
    match r {
        Some(p) => Some(p@),
        None => None,
    }
}

/// The key of the outstanding table for an identifier and a sequence number.
pub open spec fn probe_key(ident: u16, seq: u16) -> u32 {
    (ident * 0x10000 + seq) as u32
}

/// The time from `sent` to `received`; a reply stamped before its request
/// counts as zero.
pub open spec fn elapsed(sent: u128, received: u128) -> u128 {
    if received >= sent {
        (received - sent) as u128
    } else {
        0
    }
}

/// One event applied to the outstanding table: the table after it, and the
/// result it produces. A send records (or replaces) the entry of its key; a
/// receive with an entry removes that entry and yields a result; a receive
/// without one changes nothing and yields nothing.
pub open spec fn step(table: Map<u32, OutstandingView>, event: UniPacket) -> (
    Map<u32, OutstandingView>,
    Option<PingResultView>,
) {
    match event {
        UniPacket::SendPacket { host, addr, seq, ident, t } => (
            table.insert(probe_key(ident, seq), OutstandingView { host: host@, addr, sent_at: t }),
            None,
        ),
        UniPacket::RecvPacket { seq, ident, t, ttl, size } => {
            let key = probe_key(ident, seq);
            if table.contains_key(key) {
                let entry = table[key];
                (
                    table.remove(key),
                    Some(
                        PingResultView {
                            host: entry.host,
                            addr: entry.addr,
                            seq,
                            ttl,
                            size,
                            rtt: elapsed(entry.sent_at, t),
                        },
                    ),
                )
            } else {
                (table, None)
            }
        },
    }
}

/// The outstanding table, keyed by identifier and sequence number.
pub struct Correlator {
    table: HashMap<u32, Outstanding>,
}

impl View for Correlator {
    type V = Map<u32, OutstandingView>;

    closed spec fn view(&self) -> Map<u32, OutstandingView> {
        self.table@.map_values(|o: Outstanding| o@)
    }
}

fn key_of(ident: u16, seq: u16) -> (r: u32)
    ensures
        r == probe_key(ident, seq),
{
    (ident as u32) * 0x10000 + seq as u32
}

impl Correlator {
    /// A correlator with no outstanding request.
    pub fn new() -> (r: Correlator)
        ensures
            r@ == Map::<u32, OutstandingView>::empty(),
    {
        let r = Correlator { table: HashMap::new() };
        assert(r@ =~= Map::<u32, OutstandingView>::empty());
        r
    }

    /// Applies one event, as `step` says.
    pub fn handle(&mut self, event: UniPacket) -> (r: Option<PingResult>)
        ensures
            (final(self)@, result_view(r)) == step(old(self)@, event),
    {
        let ghost spec_event = event;
        match event {
            UniPacket::SendPacket { host, addr, seq, ident, t } => {
                let key = key_of(ident, seq);
                let ghost entry = OutstandingView { host: host@, addr, sent_at: t };
                self.table.insert(key, Outstanding { host, addr, sent_at: t });
                assert(self@ =~= old(self)@.insert(key, entry));
                None
            },
            UniPacket::RecvPacket { seq, ident, t, ttl, size } => {
                let key = key_of(ident, seq);
                match self.table.remove(&key) {
                    Some(entry) => {
                        assert(self@ =~= old(self)@.remove(key));
                        let rtt = if t >= entry.sent_at {
                            t - entry.sent_at
                        } else {
                            0
                        };
                        Some(
                            PingResult {
                                host: entry.host,
                                addr: entry.addr,
                                seq,
                                ttl,
                                size,
                                rtt,
                            },
                        )
                    },
                    None => {
                        assert(self@ =~= old(self)@);
                        None
                    },
                }
            },
        }
    }
}

/// The outstanding table after `events`, starting from an empty one.
pub open spec fn replay(events: Seq<UniPacket>) -> Map<u32, OutstandingView>
    decreases events.len(),
{
    if events.len() == 0 {
        Map::empty()
    } else {
        step(replay(events.drop_last()), events.last()).0
    }
}

/// Whether any of `events` is a send with this identifier and sequence number.
pub open spec fn was_sent(events: Seq<UniPacket>, ident: u16, seq: u16) -> bool {
    exists|i: int|
        0 <= i < events.len() && (#[trigger] events[i] matches UniPacket::SendPacket {
            ident: id,
            seq: sq,
            ..
        } && id == ident && sq == seq)
}

/// Distinct identifier and sequence pairs have distinct keys.
pub proof fn lemma_probe_key_injective(a: u16, b: u16, c: u16, d: u16)
    ensures
        probe_key(a, b) == probe_key(c, d) ==> a == c && b == d,
{
}

/// After any history of events in which no request with this identifier and
/// sequence number was sent, a receive event for them yields no result and
/// leaves the table as it was.
pub proof fn lemma_unmatched_reply_is_discarded(events: Seq<UniPacket>, reply: UniPacket)
    requires
        reply is RecvPacket,
        !was_sent(events, reply->RecvPacket_ident, reply->RecvPacket_seq),
    ensures
        !replay(events).contains_key(probe_key(reply->RecvPacket_ident, reply->RecvPacket_seq)),
        step(replay(events), reply) == (replay(events), None::<PingResultView>),
    decreases events.len(),
{
    let key = probe_key(reply->RecvPacket_ident, reply->RecvPacket_seq);
    if events.len() > 0 {
        let prefix = events.drop_last();
        assert(!was_sent(prefix, reply->RecvPacket_ident, reply->RecvPacket_seq)) by {
            if was_sent(prefix, reply->RecvPacket_ident, reply->RecvPacket_seq) {
                let i = choose|i: int|
                    0 <= i < prefix.len() && (#[trigger] prefix[i] matches UniPacket::SendPacket {
                        ident: id,
                        seq: sq,
                        ..
                    } && id == reply->RecvPacket_ident && sq == reply->RecvPacket_seq);
                assert(events[i] == prefix[i]);
            }
        }
        lemma_unmatched_reply_is_discarded(prefix, reply);
        let last = events.last();
        assert(events[events.len() - 1] == last);
        if let UniPacket::SendPacket { ident, seq, .. } = last {
            lemma_probe_key_injective(ident, seq, reply->RecvPacket_ident, reply->RecvPacket_seq);
        }
    }
}

/// A reply to an outstanding request yields exactly one result, with the
/// request's host and address and the time between the two stamps; the same
/// reply once more yields nothing and changes nothing.
pub proof fn lemma_reply_matches_once(
    table: Map<u32, OutstandingView>,
    request: UniPacket,
    reply: UniPacket,
)
    requires
        request is SendPacket,
        reply is RecvPacket,
        reply->RecvPacket_ident == request->SendPacket_ident,
        reply->RecvPacket_seq == request->SendPacket_seq,
        reply->RecvPacket_t >= request->SendPacket_t,
    ensures
        ({
            let key = probe_key(request->SendPacket_ident, request->SendPacket_seq);
            let sent = step(table, request).0;
            let first = step(sent, reply);
            let second = step(first.0, reply);
            &&& first.1 == Some(
                PingResultView {
                    host: request->SendPacket_host@,
                    addr: request->SendPacket_addr,
                    seq: reply->RecvPacket_seq,
                    ttl: reply->RecvPacket_ttl,
                    size: reply->RecvPacket_size,
                    rtt: (reply->RecvPacket_t - request->SendPacket_t) as u128,
                },
            )
            &&& first.0 == table.remove(key)
            &&& second == (first.0, None::<PingResultView>)
        }),
{
    let key = probe_key(request->SendPacket_ident, request->SendPacket_seq);
    let sent = step(table, request).0;
    assert(sent.remove(key) =~= table.remove(key));
}

/// A send whose identifier and sequence number are still outstanding (the
/// sequence number wrapped) replaces the stale entry: the table is as if the
/// earlier send never happened, and the next reply for that key is matched
/// against the newer send and leaves no entry behind.
pub proof fn lemma_resend_replaces_stale_entry(
    table: Map<u32, OutstandingView>,
    stale: UniPacket,
    fresh: UniPacket,
    reply: UniPacket,
)
    requires
        stale is SendPacket,
        fresh is SendPacket,
        reply is RecvPacket,
        stale->SendPacket_ident == fresh->SendPacket_ident,
        stale->SendPacket_seq == fresh->SendPacket_seq,
        reply->RecvPacket_ident == fresh->SendPacket_ident,
        reply->RecvPacket_seq == fresh->SendPacket_seq,
    ensures
        ({
            let key = probe_key(fresh->SendPacket_ident, fresh->SendPacket_seq);
            let both = step(step(table, stale).0, fresh).0;
            let matched = step(both, reply);
            &&& both == step(table, fresh).0
            &&& matched.1 == Some(
                PingResultView {
                    host: fresh->SendPacket_host@,
                    addr: fresh->SendPacket_addr,
                    seq: reply->RecvPacket_seq,
                    ttl: reply->RecvPacket_ttl,
                    size: reply->RecvPacket_size,
                    rtt: elapsed(fresh->SendPacket_t, reply->RecvPacket_t),
                },
            )
            &&& !matched.0.contains_key(key)
        }),
{
    let key = probe_key(fresh->SendPacket_ident, fresh->SendPacket_seq);
    let both = step(step(table, stale).0, fresh).0;
    assert(both =~= step(table, fresh).0);
}

} // verus!
