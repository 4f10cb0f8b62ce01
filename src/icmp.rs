//! The ICMP / ICMPv6 echo codec.
use crate::checksum::{
    internet_checksum, lemma_checksum_verifies, lemma_fold_step, sum_words, with_checksum, word_at, word_count,
};
use vstd::prelude::*;

verus! {

#[derive(Debug, PartialEq, Eq, Structural)]
pub enum PacketError {
    /// The buffer cannot hold the message.
    InvalidSize,
    /// The buffer does not hold an echo reply of the expected protocol.
    InvalidPacket,
}

/// ICMP over IPv4.
pub struct IcmpV4;

/// ICMPv6 over IPv6.
pub struct IcmpV6;

/// The type and code bytes that an echo message carries in one protocol.
pub trait Proto {
    spec fn request_type() -> u8;

    spec fn request_code() -> u8;

    spec fn reply_type() -> u8;

    fn echo_request_type() -> (r: u8)
        ensures
            r == Self::request_type(),
    ;

    fn echo_request_code() -> (r: u8)
        ensures
            r == Self::request_code(),
    ;

    fn echo_reply_type() -> (r: u8)
        ensures
            r == Self::reply_type(),
    ;
}

impl Proto for IcmpV4 {
    open spec fn request_type() -> u8 {
        8
    }

    open spec fn request_code() -> u8 {
        0
    }

    open spec fn reply_type() -> u8 {
        0
    }

    fn echo_request_type() -> u8 {
        8
    }

    fn echo_request_code() -> u8 {
        0
    }

    fn echo_reply_type() -> u8 {
        0
    }
}

impl Proto for IcmpV6 {
    open spec fn request_type() -> u8 {
        128
    }

    open spec fn request_code() -> u8 {
        0
    }

    open spec fn reply_type() -> u8 {
        129
    }

    fn echo_request_type() -> u8 {
        128
    }

    fn echo_request_code() -> u8 {
        0
    }

    fn echo_reply_type() -> u8 {
        129
    }
}

/// An echo request: its identifier, its sequence number and the payload it carries.
pub struct EchoRequest<'a> {
    pub ident: u16,
    pub seq_cnt: u16,
    pub payload: &'a [u8],
}

/// What a decoded echo reply holds.
pub struct EchoReply {
    pub icmp_type: u8,
    pub code: u8,
    pub ident: u16,
    pub seq: u16,
    pub payload: Vec<u8>,
}

/// The high byte of a 16-bit value.
pub open spec fn hi_byte(v: u16) -> u8 {
    (v / 256) as u8
}

/// The low byte of a 16-bit value.
pub open spec fn lo_byte(v: u16) -> u8 {
    (v % 256) as u8
}

/// The 16-bit value of two big-endian bytes.
pub open spec fn be16(hi: u8, lo: u8) -> u16 {
    (hi * 256 + lo) as u16
}

/// `buffer` with an echo header (checksum field zero) and `payload` written
/// over its first `8 + payload.len()` bytes; the rest is left as it was.
pub open spec fn request_image(
    buffer: Seq<u8>,
    icmp_type: u8,
    code: u8,
    ident: u16,
    seq: u16,
    payload: Seq<u8>,
) -> Seq<u8> {
    Seq::new(
        buffer.len(),
        |i: int|
            if i == 0 {
                icmp_type
            } else if i == 1 {
                code
            } else if i < 4 {
                0u8
            } else if i == 4 {
                hi_byte(ident)
            } else if i == 5 {
                lo_byte(ident)
            } else if i == 6 {
                hi_byte(seq)
            } else if i == 7 {
                lo_byte(seq)
            } else if i < 8 + payload.len() {
                payload[i - 8]
            } else {
                buffer[i]
            },
    )
}

/// The bytes of an encoded echo request of protocol `P` in `buffer`.
pub open spec fn encoded_request<P: Proto>(
    buffer: Seq<u8>,
    ident: u16,
    seq: u16,
    payload: Seq<u8>,
) -> Seq<u8> {
    with_checksum(
        request_image(buffer, P::request_type(), P::request_code(), ident, seq, payload),
    )
}

/// Whether `bytes` hold an echo reply of protocol `P`.
pub open spec fn is_echo_reply<P: Proto>(bytes: Seq<u8>) -> bool {
    bytes.len() >= 8 && bytes[0] == P::reply_type()
}

impl EchoReply {
    /// The reply that the bytes of an echo message describe.
    pub open spec fn holds(&self, bytes: Seq<u8>) -> bool {
        &&& self.icmp_type == bytes[0]
        &&& self.code == bytes[1]
        &&& self.ident == be16(bytes[4], bytes[5])
        &&& self.seq == be16(bytes[6], bytes[7])
        &&& self.payload@ == bytes.subrange(8, bytes.len() as int)
    }
}

/// Writes the Internet checksum of the whole buffer into bytes 2 and 3.
pub fn write_checksum(buffer: &mut [u8])
    requires
        old(buffer)@.len() >= 4,
    ensures
        final(buffer)@ == with_checksum(old(buffer)@),
{
    let ghost s = buffer@;
    let n = buffer.len();
    let words: usize = n / 2 + n % 2;
    let mut sum: u32 = 0;
    let mut k: usize = 0;
    while k < words
        invariant
            buffer@ == s,
            n == s.len(),
            words == word_count(s),
            k <= words,
            sum <= 0xffff,
            sum == crate::checksum::fold_carries(sum_words(s, k as nat)),
        decreases words - k,
    {
        let hi = buffer[2 * k] as u32;
        let lo: u32 = if 2 * k + 1 < n {
            buffer[2 * k + 1] as u32
        } else {
            0
        };
        let word = hi * 256 + lo;
        assert(word == word_at(s, k as int));
        proof {
            lemma_fold_step(sum_words(s, k as nat), word as nat);
        }
        let t = sum + word;
        sum = if t > 0xffff {
            t - 0xffff
        } else {
            t
        };
        k = k + 1;
    }
    let c = 0xffff - sum;
    assert(c == internet_checksum(s));
    buffer[2] = (c / 256) as u8;
    buffer[3] = (c % 256) as u8;
}

impl<'a> EchoRequest<'a> {
    /// Encodes this request as an echo request of protocol `P` at the start of
    /// `buffer`, checksummed over the whole buffer. Fails, leaving the buffer
    /// as it was, when the header and payload do not fit.
    pub fn encode<P: Proto>(&self, buffer: &mut [u8]) -> (r: Result<(), PacketError>)
        ensures
            old(buffer)@.len() < 8 + self.payload@.len() ==> {
                &&& r == Err::<(), PacketError>(PacketError::InvalidSize)
                &&& final(buffer)@ == old(buffer)@
            },
            old(buffer)@.len() >= 8 + self.payload@.len() ==> {
                &&& r == Ok::<(), PacketError>(())
                &&& final(buffer)@ == encoded_request::<P>(
                    old(buffer)@,
                    self.ident,
                    self.seq_cnt,
                    self.payload@,
                )
            },
    {
        let plen = self.payload.len();
        if buffer.len() < 8 || buffer.len() - 8 < plen {
            return Err(PacketError::InvalidSize);
        }
        let ghost old_buf = buffer@;
        assert(old_buf.len() == buffer.len());
        buffer[0] = P::echo_request_type();
        buffer[1] = P::echo_request_code();
        buffer[2] = 0;
        buffer[3] = 0;
        buffer[4] = (self.ident / 256) as u8;
        buffer[5] = (self.ident % 256) as u8;
        buffer[6] = (self.seq_cnt / 256) as u8;
        buffer[7] = (self.seq_cnt % 256) as u8;
        let mut i: usize = 0;
        while i < plen
            invariant
                plen == self.payload@.len(),
                buffer@.len() == old_buf.len(),
                8 + plen <= old_buf.len() <= usize::MAX,
                i <= plen,
                forall|j: int|
                    0 <= j < old_buf.len() && !(8 + i <= j < 8 + plen) ==> buffer@[j]
                        == request_image(
                        old_buf,
                        P::request_type(),
                        P::request_code(),
                        self.ident,
                        self.seq_cnt,
                        self.payload@,
                    )[j],
            decreases plen - i,
        {
            buffer[8 + i] = self.payload[i];
            i = i + 1;
        }
        assert(buffer@ =~= request_image(
            old_buf,
            P::request_type(),
            P::request_code(),
            self.ident,
            self.seq_cnt,
            self.payload@,
        ));
        write_checksum(buffer);
        Ok(())
    }
}

/// Decodes an echo reply of protocol `P` from `bytes`, which start at the
/// ICMP header.
pub fn decode_reply<P: Proto>(bytes: &[u8]) -> (r: Result<EchoReply, PacketError>)
    ensures
        bytes@.len() < 8 ==> r == Err::<EchoReply, PacketError>(PacketError::InvalidSize),
        bytes@.len() >= 8 && !is_echo_reply::<P>(bytes@) ==> r == Err::<EchoReply, PacketError>(
            PacketError::InvalidPacket,
        ),
        is_echo_reply::<P>(bytes@) ==> r is Ok && r->Ok_0.holds(bytes@),
{
    let n = bytes.len();
    if n < 8 {
        return Err(PacketError::InvalidSize);
    }
    if bytes[0] != P::echo_reply_type() {
        return Err(PacketError::InvalidPacket);
    }
    let mut payload: Vec<u8> = Vec::new();
    let mut i: usize = 8;
    while i < n
        invariant
            n == bytes@.len(),
            8 <= i <= n,
            payload@ == bytes@.subrange(8, i as int),
        decreases n - i,
    {
        payload.push(bytes[i]);
        i = i + 1;
        assert(payload@ =~= bytes@.subrange(8, i as int));
    }
    Ok(EchoReply {
        icmp_type: bytes[0],
        code: bytes[1],
        ident: (bytes[4] as u16) * 256 + bytes[5] as u16,
        seq: (bytes[6] as u16) * 256 + bytes[7] as u16,
        payload,
    })
}

/// Recomputing the Internet checksum over an encoded echo request gives zero.
pub proof fn lemma_encoded_request_checksum_is_zero<P: Proto>(
    buffer: Seq<u8>,
    ident: u16,
    seq: u16,
    payload: Seq<u8>,
)
    requires
        buffer.len() >= 8 + payload.len(),
    ensures
        internet_checksum(encoded_request::<P>(buffer, ident, seq, payload)) == 0,
{
    let image = request_image(
        buffer,
        P::request_type(),
        P::request_code(),
        ident,
        seq,
        payload,
    );
    lemma_checksum_verifies(image);
}

/// An encoded echo request whose type byte is set to the reply type decodes
/// as an echo reply with the same identifier and sequence number, whose
/// payload starts with the request's payload (and is that payload when the
/// buffer had just room for it).
pub proof fn lemma_reply_round_trip<P: Proto>(
    buffer: Seq<u8>,
    ident: u16,
    seq: u16,
    payload: Seq<u8>,
    reply: EchoReply,
)
    requires
        buffer.len() >= 8 + payload.len(),
        reply.holds(
            encoded_request::<P>(buffer, ident, seq, payload).update(0, P::reply_type()),
        ),
    ensures
        is_echo_reply::<P>(
            encoded_request::<P>(buffer, ident, seq, payload).update(0, P::reply_type()),
        ),
        reply.ident == ident,
        reply.seq == seq,
        reply.payload@.subrange(0, payload.len() as int) == payload,
        buffer.len() == 8 + payload.len() ==> reply.payload@ == payload,
{
    let m = encoded_request::<P>(buffer, ident, seq, payload).update(0, P::reply_type());
    assert(reply.payload@.subrange(0, payload.len() as int) =~= payload);
    if buffer.len() == 8 + payload.len() {
        assert(reply.payload@ =~= payload);
    }
}

} // verus!
