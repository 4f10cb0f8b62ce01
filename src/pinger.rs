//! The probe targets, and the decisions of the sender and the receiver: what
//! each probe sends, and which received datagrams become receive events.
use crate::icmp::{
    be16, decode_reply, encoded_request, is_echo_reply, EchoRequest, IcmpV4, IcmpV6, Proto,
};
use pnet::packet::ipv4::Ipv4Packet;
use pnet::packet::Packet;
use std::collections::HashMap;
use vstd::prelude::*;

verus! {

broadcast use vstd::std_specs::hash::group_hash_axioms;

/// An IP address: IPv4 as its 32-bit value, IPv6 as its 128-bit value.
#[derive(Clone, Copy, Debug, PartialEq, Eq, Structural)]
pub enum IpAddr {
    V4(u32),
    V6(u128),
}

/// An address family that the user asked for.
#[derive(Clone, Copy, Debug, PartialEq, Eq, Structural)]
pub enum SelectVersion {
    V4,
    V6,
}

/// A probe target: the host name it was resolved from, its identifier and
/// its address.
#[derive(Debug)]
pub struct Site {
    pub host: String,
    pub ident: u16,
    pub addr: IpAddr,
}

pub struct SiteView {
    pub host: Seq<char>,
    pub ident: u16,
    pub addr: IpAddr,
}

impl View for Site {
    type V = SiteView;

    open spec fn view(&self) -> SiteView {
        SiteView { host: self.host@, ident: self.ident, addr: self.addr }
    }
}

/// Whether targets at `addr` are probed under the families asked for; asking
/// for none means both.
pub open spec fn selects(versions: Seq<SelectVersion>, addr: IpAddr) -> bool {
    let both = !versions.contains(SelectVersion::V4) && !versions.contains(SelectVersion::V6);
    match addr {
        IpAddr::V4(_) => both || versions.contains(SelectVersion::V4),
        IpAddr::V6(_) => both || versions.contains(SelectVersion::V6),
    }
}

/// The identifier of the `i`-th resolved address of process `pid`.
pub open spec fn ident_for(pid: u32, i: int) -> u16 {
    ((pid + i) % 0x10000) as u16
}

/// The sites made from the first `n` resolved (host, address) pairs.
pub open spec fn planned_sites(
    resolved: Seq<(String, IpAddr)>,
    versions: Seq<SelectVersion>,
    pid: u32,
    n: nat,
) -> Seq<SiteView>
    decreases n,
{
    if n == 0 {
        Seq::empty()
    } else {
        let prev = planned_sites(resolved, versions, pid, (n - 1) as nat);
        let pair = resolved[n - 1];
        if selects(versions, pair.1) {
            prev.push(SiteView { host: pair.0@, ident: ident_for(pid, n - 1), addr: pair.1 })
        } else {
            prev
        }
    }
}

/// The host name of each identifier; a later site overrides an earlier one.
pub open spec fn sources_of(sites: Seq<SiteView>) -> Map<u16, Seq<char>>
    decreases sites.len(),
{
    if sites.len() == 0 {
        Map::empty()
    } else {
        let last = sites.last();
        sources_of(sites.drop_last()).insert(last.ident, last.host)
    }
}

/// The distinct addresses of the sites, in order of first appearance.
pub open spec fn addrs_of(sites: Seq<SiteView>) -> Seq<IpAddr>
    decreases sites.len(),
{
    if sites.len() == 0 {
        Seq::empty()
    } else {
        let prev = addrs_of(sites.drop_last());
        if prev.contains(sites.last().addr) {
            prev
        } else {
            prev.push(sites.last().addr)
        }
    }
}

/// The probe targets, in sending order, with an identifier-to-host map and
/// the set of their addresses.
pub struct PingTargets {
    pub output: Vec<Site>,
    pub sources: HashMap<u16, String>,
    pub addrs: Vec<IpAddr>,
}

impl PingTargets {
    pub open spec fn sites(&self) -> Seq<SiteView> {
        self.output@.map_values(|s: Site| s@)
    }

    pub open spec fn host_map(&self) -> Map<u16, Seq<char>> {
        self.sources@.map_values(|h: String| h@)
    }

    /// The identifier map and the address list agree with the sites.
    pub open spec fn wf(&self) -> bool {
        &&& self.host_map() == sources_of(self.sites())
        &&& self.addrs@ == addrs_of(self.sites())
    }
}

impl Default for PingTargets {
    fn default() -> (r: PingTargets)
        ensures
            r.sites() == Seq::<SiteView>::empty(),
            r.wf(),
    {
        let r = PingTargets { output: Vec::new(), sources: HashMap::new(), addrs: Vec::new() };
        assert(r.sites() =~= Seq::<SiteView>::empty());
        assert(r.host_map() =~= Map::<u16, Seq<char>>::empty());
        r
    }
}

fn contains_version(versions: &Vec<SelectVersion>, v: SelectVersion) -> (r: bool)
    ensures
        r == versions@.contains(v),
{
    let mut i: usize = 0;
    while i < versions.len()
        invariant
            i <= versions.len(),
            forall|j: int| 0 <= j < i ==> versions@[j] != v,
        decreases versions.len() - i,
    {
        if versions[i] == v {
            return true;
        }
        i = i + 1;
    }
    false
}

fn contains_addr(addrs: &Vec<IpAddr>, a: IpAddr) -> (r: bool)
    ensures
        r == addrs@.contains(a),
{
    let mut i: usize = 0;
    while i < addrs.len()
        invariant
            i <= addrs.len(),
            forall|j: int| 0 <= j < i ==> addrs@[j] != a,
        decreases addrs.len() - i,
    {
        if addrs[i] == a {
            return true;
        }
        i = i + 1;
    }
    false
}

/// Builds the targets from the resolved (host, address) pairs, in order. The
/// `i`-th pair gets the identifier `pid + i` modulo 2^16; pairs of a family
/// that was not asked for are skipped.
pub fn generate_targets(
    resolved: &Vec<(String, IpAddr)>,
    versions: &Vec<SelectVersion>,
    pid: u32,
) -> (r: PingTargets)
    ensures
        r.sites() == planned_sites(resolved@, versions@, pid, resolved@.len()),
        r.wf(),
{
    let mut result = PingTargets::default();
    let want_v4 = contains_version(versions, SelectVersion::V4);
    let want_v6 = contains_version(versions, SelectVersion::V6);
    let both = !want_v4 && !want_v6;
    let mut i: usize = 0;
    while i < resolved.len()
        invariant
            i <= resolved@.len(),
            want_v4 == versions@.contains(SelectVersion::V4),
            want_v6 == versions@.contains(SelectVersion::V6),
            both == (!want_v4 && !want_v6),
            result.sites() == planned_sites(resolved@, versions@, pid, i as nat),
            result.wf(),
        decreases resolved.len() - i,
    {
        let addr = resolved[i].1;
        let wanted = match addr {
            IpAddr::V4(_) => both || want_v4,
            IpAddr::V6(_) => both || want_v6,
        };
        if wanted {
            let ident = ((pid % 0x10000) as u16).wrapping_add((i % 0x10000) as u16);
            assert(ident == ident_for(pid, i as int));
            let ghost before = result.sites();
            if !contains_addr(&result.addrs, addr) {
                result.addrs.push(addr);
            }
            result.sources.insert(ident, resolved[i].0.clone());
            result.output.push(Site { host: resolved[i].0.clone(), ident, addr });
            proof {
                let after = result.sites();
                assert(after =~= before.push(after.last()));
                assert(after.drop_last() =~= before);
                assert(result.host_map() =~= sources_of(before).insert(ident, resolved@[i as int].0@));
            }
        }
        i = i + 1;
    }
    result
}

pub const ICMP_HEADER_SIZE: usize = 8;

pub const TOKEN_SIZE: usize = 24;

/// The size of every echo request that the sender transmits.
pub const ECHO_REQUEST_BUFFER_SIZE: usize = ICMP_HEADER_SIZE + TOKEN_SIZE + 32;

/// What the sender and the receiver publish to the correlator.
#[derive(PartialEq, Debug)]
pub enum UniPacket {
    /// A request to `addr` left, at `t` nanoseconds after the start.
    SendPacket { host: String, addr: IpAddr, seq: u16, ident: u16, t: u128 },
    /// A reply came back at `t`, with this TTL (0 for IPv6) and this ICMP size.
    RecvPacket { seq: u16, ident: u16, t: u128, ttl: u8, size: usize },
}

/// One probe, ready to go: its destination, the bytes to send there, and
/// the event that announces it.
pub struct Probe {
    pub dest: IpAddr,
    pub packet: Vec<u8>,
    pub event: UniPacket,
}

/// The 16 big-endian bytes of `v`.
pub open spec fn be_bytes(v: u128) -> Seq<u8> {
    Seq::new(16, |i: int| ((v >> ((120 - 8 * i) as u32)) & 0xff) as u8)
}

/// The echo request that probes `addr` with this identifier and sequence
/// number, carrying the send time `now`.
pub open spec fn probe_packet(addr: IpAddr, ident: u16, seq: u16, now: u128) -> Seq<u8> {
    let blank = Seq::new(ECHO_REQUEST_BUFFER_SIZE as nat, |i: int| 0u8);
    match addr {
        IpAddr::V4(_) => encoded_request::<IcmpV4>(blank, ident, seq, be_bytes(now)),
        IpAddr::V6(_) => encoded_request::<IcmpV6>(blank, ident, seq, be_bytes(now)),
    }
}

/// The receive event for an ICMP message of protocol `P`, if it is an echo
/// reply whose identifier is one of `known`.
pub open spec fn recv_event<P: Proto>(
    known: Set<u16>,
    icmp: Seq<u8>,
    ttl: u8,
    size: usize,
    now: u128,
) -> Option<UniPacket> {
    if is_echo_reply::<P>(icmp) && known.contains(be16(icmp[4], icmp[5])) {
        Some(
            UniPacket::RecvPacket {
                seq: be16(icmp[6], icmp[7]),
                ident: be16(icmp[4], icmp[5]),
                t: now,
                ttl,
                size,
            },
        )
    } else {
        None
    }
}

/// The ICMP message inside an IPv4 packet: what follows the header (options
/// included), up to the header's total length or the end of the bytes.
pub open spec fn ipv4_payload_of(p: Seq<u8>) -> Seq<u8> {
    let header = (p[0] % 16) as int * 4;
    let start = if header > 20 {
        header
    } else {
        20
    };
    let total = p[2] as int * 256 + p[3] as int;
    let len = if total > header {
        total - header
    } else {
        0
    };
    let end = if start + len < p.len() {
        start + len
    } else {
        p.len() as int
    };
    if p.len() <= start {
        Seq::empty()
    } else {
        p.subrange(start, end)
    }
}

/// Relies on pnet's `Ipv4Packet::new` (no packet under 20 bytes),
/// `Ipv4Packet::get_ttl` (byte 8) and `Packet::payload` of an `Ipv4Packet`
/// (the bytes after the header, bounded by the total length field).
#[verifier::external_body]
fn ipv4_ttl_and_payload(packet: &[u8]) -> (r: Option<(u8, Vec<u8>)>)
    ensures
        match r {
            Some(parts) => {
                &&& packet@.len() >= 20
                &&& parts.0 == packet@[8]
                &&& parts.1@ == ipv4_payload_of(packet@)
            },
            None => packet@.len() < 20,
        },
{
    match Ipv4Packet::new(packet) {
        Some(ip) => Some((ip.get_ttl(), ip.payload().to_vec())),
        None => None,
    }
}

fn timestamp_bytes(v: u128) -> (r: Vec<u8>)
    ensures
        r@ == be_bytes(v),
{
    let mut out: Vec<u8> = Vec::new();
    let mut i: u32 = 0;
    while i < 16
        invariant
            i <= 16,
            out@ == be_bytes(v).subrange(0, i as int),
        decreases 16 - i,
    {
        out.push(((v >> (120 - 8 * i)) & 0xff) as u8);
        i = i + 1;
        assert(out@ =~= be_bytes(v).subrange(0, i as int));
    }
    assert(out@ =~= be_bytes(v));
    out
}

impl PingTargets {
    /// The probe of `site` with sequence number `count` sent at `now`: an echo
    /// request of the site's family, carrying `now` as 16 big-endian bytes, in
    /// a buffer of `ECHO_REQUEST_BUFFER_SIZE` bytes.
    pub fn ping_site(&self, site: &Site, count: u16, now: u128) -> (r: Probe)
        ensures
            r.dest == site.addr,
            r.packet@ == probe_packet(site.addr, site.ident, count, now),
            r.event matches UniPacket::SendPacket { host, addr, seq, ident, t } && host@
                == site.host@ && addr == site.addr && seq == count && ident == site.ident && t
                == now,
    {
        let stamp = timestamp_bytes(now);
        let request = EchoRequest { ident: site.ident, seq_cnt: count, payload: stamp.as_slice() };
        let mut buffer: Vec<u8> = vec![0u8; ECHO_REQUEST_BUFFER_SIZE];
        let ghost blank = buffer@;
        assert(blank =~= Seq::new(ECHO_REQUEST_BUFFER_SIZE as nat, |i: int| 0u8));
        let encoded = match site.addr {
            IpAddr::V4(_) => request.encode::<IcmpV4>(buffer.as_mut_slice()),
            IpAddr::V6(_) => request.encode::<IcmpV6>(buffer.as_mut_slice()),
        };
        assert(encoded is Ok);
        Probe {
            dest: site.addr,
            packet: buffer,
            event: UniPacket::SendPacket {
                host: site.host.clone(),
                addr: site.addr,
                seq: count,
                ident: site.ident,
                t: now,
            },
        }
    }

    /// The receive event for the first `num` bytes of a datagram read from
    /// the ICMPv6 socket, which start at the ICMPv6 header. IPv6 gives no hop
    /// limit here: the event's TTL is 0.
    pub fn handle_icmpv6(&self, packet: &[u8], num: usize, now: u128) -> (r: Option<UniPacket>)
        requires
            num <= packet@.len(),
        ensures
            r == recv_event::<IcmpV6>(self.sources@.dom(), packet@.subrange(0, num as int), 0, num, now),
    {
        let icmp = &packet[0..num];
        match decode_reply::<IcmpV6>(icmp) {
            Ok(reply) => {
                if self.sources.contains_key(&reply.ident) {
                    Some(
                        UniPacket::RecvPacket {
                            seq: reply.seq,
                            ident: reply.ident,
                            t: now,
                            ttl: 0,
                            size: num,
                        },
                    )
                } else {
                    None
                }
            },
            Err(_) => None,
        }
    }

    /// The receive event for the first `num` bytes of a datagram read from
    /// the IPv4 socket, which start at the IP header: the ICMP message inside
    /// it, the TTL from the header, and the ICMP message's size.
    pub fn handle_icmpv4(&self, packet: &[u8], num: usize, now: u128) -> (r: Option<UniPacket>)
        requires
            num <= packet@.len(),
        ensures
            ({
                let ip = packet@.subrange(0, num as int);
                r == if ip.len() < 20 {
                    None
                } else {
                    recv_event::<IcmpV4>(
                        self.sources@.dom(),
                        ipv4_payload_of(ip),
                        ip[8],
                        ipv4_payload_of(ip).len() as usize,
                        now,
                    )
                }
            }),
    {
        let ip = &packet[0..num];
        match ipv4_ttl_and_payload(ip) {
            Some((ttl, icmp)) => match decode_reply::<IcmpV4>(icmp.as_slice()) {
                Ok(reply) => {
                    if self.sources.contains_key(&reply.ident) {
                        Some(
                            UniPacket::RecvPacket {
                                seq: reply.seq,
                                ident: reply.ident,
                                t: now,
                                ttl,
                                size: icmp.len(),
                            },
                        )
                    } else {
                        None
                    }
                },
                Err(_) => None,
            },
            None => None,
        }
    }
}

} // verus!
