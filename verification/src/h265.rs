//! Depacketizer of HEVC over RTP (RFC 7798) into Annex B NAL units.

use bytes::BufMut;
use bytes::Bytes;
use bytes::BytesMut;
use vstd::prelude::*;

verus! {

// ---------------------------------------------------------------------------
// Byte buffers
// ---------------------------------------------------------------------------

/// The type `bytes::Bytes`, whose contents `bytes_of` names.
#[verifier::external_type_specification]
#[verifier::external_body]
pub struct ExBytes(bytes::Bytes);

/// The type `bytes::BytesMut`, whose contents `buffer_of` names.
#[verifier::external_type_specification]
#[verifier::external_body]
pub struct ExBytesMut(bytes::BytesMut);

/// The bytes that a `bytes::Bytes` holds.
pub uninterp spec fn bytes_of(b: bytes::Bytes) -> Seq<u8>;

/// The bytes that a `bytes::BytesMut` holds.
pub uninterp spec fn buffer_of(b: bytes::BytesMut) -> Seq<u8>;

/// How many bytes a buffer can grow to: beyond half of the greatest allocation, making room
/// again may panic.
pub open spec fn buffer_limit() -> int {
    isize::MAX as int / 2
}

/// Wraps `BytesMut::new`: the buffer is empty.
#[verifier::external_body]
fn empty_buffer() -> (b: BytesMut)
    ensures
        buffer_of(b) == Seq::<u8>::empty(),
{
    BytesMut::new()
}

/// Wraps `BytesMut::with_capacity`: the buffer is empty, whatever room it has.
#[verifier::external_body]
fn buffer_with_room(n: usize) -> (b: BytesMut)
    requires
        n <= buffer_limit(),
    ensures
        buffer_of(b) == Seq::<u8>::empty(),
{
    BytesMut::with_capacity(n)
}

/// Wraps `BufMut::put_u8` of `BytesMut`: the byte is appended.
#[verifier::external_body]
fn put_byte(b: &mut BytesMut, v: u8)
    requires
        buffer_of(*old(b)).len() + 1 <= buffer_limit(),
    ensures
        buffer_of(*final(b)) == buffer_of(*old(b)).push(v),
{
    b.put_u8(v)
}

/// Wraps `BufMut::put_slice` of `BytesMut`: the bytes are appended in order.
#[verifier::external_body]
fn put_bytes(b: &mut BytesMut, v: &[u8])
    requires
        buffer_of(*old(b)).len() + v@.len() <= buffer_limit(),
    ensures
        buffer_of(*final(b)) == buffer_of(*old(b)) + v@,
{
    b.put_slice(v)
}

/// Wraps `BytesMut::len`: how many bytes the buffer holds.
#[verifier::external_body]
fn buffer_len(b: &BytesMut) -> (n: usize)
    ensures
        n == buffer_of(*b).len(),
{
    b.len()
}

/// Wraps `Deref` of `BytesMut`: the bytes of the buffer.
#[verifier::external_body]
fn buffer_slice(b: &BytesMut) -> (s: &[u8])
    ensures
        s@ == buffer_of(*b),
{
    b
}

/// Wraps `BytesMut::freeze`: the bytes stay the same.
#[verifier::external_body]
fn freeze(b: BytesMut) -> (r: Bytes)
    ensures
        bytes_of(r) == buffer_of(b),
{
    b.freeze()
}

/// Wraps `Deref` of `Bytes`: the bytes that it holds.
#[verifier::external_body]
pub(crate) fn bytes_slice(b: &Bytes) -> (s: &[u8])
    ensures
        s@ == bytes_of(*b),
{
    b
}

// ---------------------------------------------------------------------------
// What a packet means
// ---------------------------------------------------------------------------

/// The type in the header of a NAL unit, or of a payload, which has the same header.
pub open spec fn unit_type(header: u8) -> u8 {
    (header >> 1) & 0x3f
}

/// The type of an aggregation packet.
pub const AGGREGATION: u8 = 48;

/// The type of a fragmentation unit.
pub const FRAGMENTATION: u8 = 49;

/// A NAL unit with its Annex B start code.
pub open spec fn annex_b(nalu: Seq<u8>) -> Seq<u8> {
    seq![0u8, 0, 0, 1] + nalu
}

/// The NAL units of an aggregation packet from position `i` on: each is a length of two bytes,
/// the greater first, and that many bytes. A unit that the packet cuts short ends the packet.
pub open spec fn aggregated(payload: Seq<u8>, i: int) -> Seq<Seq<u8>>
    decreases payload.len() - i,
{
    if i < 0 || i + 2 > payload.len() {
        Seq::empty()
    } else {
        let size = payload[i] * 256 + payload[i + 1];
        if i + 2 + size > payload.len() {
            Seq::empty()
        } else {
            seq![annex_b(payload.subrange(i + 2, i + 2 + size))] + aggregated(
                payload,
                i + 2 + size,
            )
        }
    }
}

/// The fragment begins a NAL unit.
pub open spec fn fragment_starts(payload: Seq<u8>) -> bool {
    payload[2] & 0x80 != 0
}

/// The fragment ends a NAL unit.
pub open spec fn fragment_ends(payload: Seq<u8>) -> bool {
    payload[2] & 0x40 != 0
}

/// What is gathered of a NAL unit after a fragment: a first one begins anew, with the header that
/// the fragment spreads over its own first two bytes and its third; another one is appended, and
/// without a first one before it, is lost.
pub open spec fn gathered(pending: Option<Seq<u8>>, payload: Seq<u8>) -> Option<Seq<u8>> {
    if fragment_starts(payload) {
        Some(
            seq![(payload[0] & 0x81) | ((payload[2] & 0x3f) << 1), payload[1]] + payload.skip(3),
        )
    } else {
        match pending {
            Some(b) => Some(b + payload.skip(3)),
            None => None,
        }
    }
}

/// What is pending after a packet, and the NAL units that it gives.
pub open spec fn depacketized(pending: Option<Seq<u8>>, payload: Seq<u8>) -> (
    Option<Seq<u8>>,
    Seq<Seq<u8>>,
) {
    if payload.len() < 2 {
        (pending, Seq::empty())
    } else if unit_type(payload[0]) == AGGREGATION {
        (pending, aggregated(payload, 2))
    } else if unit_type(payload[0]) == FRAGMENTATION {
        if payload.len() < 3 {
            (pending, Seq::empty())
        } else {
            match gathered(pending, payload) {
                Some(b) => if fragment_ends(payload) {
                    (None, seq![annex_b(b)])
                } else {
                    (Some(b), Seq::empty())
                },
                None => (None, Seq::empty()),
            }
        }
    } else {
        (pending, seq![annex_b(payload)])
    }
}

/// A payload of `n` bytes fits with what is pending into a buffer, beside a start code.
pub open spec fn fits_with(pending: Option<Seq<u8>>, n: int) -> bool {
    let held = match pending {
        Some(b) => b.len() as int,
        None => 0,
    };
    held + n + 4 <= buffer_limit()
}

/// The contents of the buffers, in order.
pub open spec fn contents(units: Seq<Bytes>) -> Seq<Seq<u8>> {
    units.map_values(|b: Bytes| bytes_of(b))
}

// ---------------------------------------------------------------------------
// The depacketizer
// ---------------------------------------------------------------------------

/// Gathers RTP payloads into NAL units.
pub struct Depacketizer {
    fragment: Option<BytesMut>,
}

impl Depacketizer {
    /// The bytes of the NAL unit of which only a part has arrived.
    pub closed spec fn pending(self) -> Option<Seq<u8>> {
        match self.fragment {
            Some(b) => Some(buffer_of(b)),
            None => None,
        }
    }

    /// A payload of `n` bytes fits with what is pending into a buffer, beside a start code.
    pub open spec fn fits(self, n: int) -> bool {
        fits_with(self.pending(), n)
    }

    /// Whether a payload of `n` bytes fits with what is pending into a buffer.
    pub fn has_room(&self, n: usize) -> (r: bool)
        ensures
            r == self.fits(n as int),
    {
        let limit: usize = isize::MAX as usize / 2;
        let pending: usize = match &self.fragment {
            Some(b) => buffer_len(b),
            None => 0,
        };
        pending <= limit && n <= limit - pending && 4 <= limit - pending - n
    }

    /// Takes one RTP payload and gives the NAL units that it completes, in order.
    pub fn push(&mut self, payload: &[u8]) -> (r: Vec<Bytes>)
        requires
            old(self).fits(payload@.len() as int),
        ensures
            (final(self).pending(), contents(r@)) == depacketized(old(self).pending(), payload@),
    {
        if payload.len() < 2 {
            let r: Vec<Bytes> = Vec::new();
            assert(contents(r@) =~= Seq::empty());
            return r;
        }
        let kind: u8 = (payload[0] >> 1) & 0x3f;
        if kind == AGGREGATION {
            self.aggregation(payload)
        } else if kind == FRAGMENTATION {
            let mut r: Vec<Bytes> = Vec::new();
            match self.fragment(payload) {
                Some(unit) => {
                    r.push(unit);
                    assert(contents(r@) =~= seq![bytes_of(unit)]);
                },
                None => {
                    assert(contents(r@) =~= Seq::empty());
                },
            }
            r
        } else {
            let mut r: Vec<Bytes> = Vec::new();
            r.push(with_start_code(payload));
            assert(contents(r@) =~= seq![annex_b(payload@)]);
            r
        }
    }

    /// The NAL units of an aggregation packet, in order. What is pending stays pending.
    pub fn aggregation(&mut self, payload: &[u8]) -> (out: Vec<Bytes>)
        requires
            payload@.len() + 4 <= buffer_limit(),
        ensures
            contents(out@) == aggregated(payload@, 2),
            final(self).pending() == old(self).pending(),
    {
        let mut out: Vec<Bytes> = Vec::new();
        let mut i: usize = 2;
        assert(contents(out@) + aggregated(payload@, 2) =~= aggregated(payload@, 2));
        while i <= payload.len() && 2 <= payload.len() - i
            invariant
                2 <= i,
                payload@.len() + 4 <= buffer_limit(),
                contents(out@) + aggregated(payload@, i as int) == aggregated(payload@, 2),
                self.pending() == old(self).pending(),
            decreases payload.len() - i,
        {
            let size: usize = payload[i] as usize * 256 + payload[i + 1] as usize;
            if size > payload.len() - i - 2 {
                assert(contents(out@) + aggregated(payload@, i as int) =~= contents(out@));
                return out;
            }
            let unit = with_start_code(
                vstd::slice::slice_subrange(payload, i + 2, i + 2 + size),
            );
            let ghost before = contents(out@);
            let ghost rest = aggregated(payload@, i + 2 + size);
            out.push(unit);
            assert(contents(out@) =~= before.push(bytes_of(unit)));
            assert(contents(out@) + rest =~= before + (seq![bytes_of(unit)] + rest));
            i = i + 2 + size;
        }
        assert(contents(out@) + aggregated(payload@, i as int) =~= contents(out@));
        out
    }

    /// Adds a fragment; gives the NAL unit that it ends.
    fn fragment(&mut self, payload: &[u8]) -> (r: Option<Bytes>)
        requires
            old(self).fits(payload@.len() as int),
            2 <= payload@.len(),
            unit_type(payload@[0]) == FRAGMENTATION,
        ensures
            final(self).pending() == depacketized(old(self).pending(), payload@).0,
            match r {
                Some(unit) => seq![bytes_of(unit)] == depacketized(
                    old(self).pending(),
                    payload@,
                ).1,
                None => Seq::<Seq<u8>>::empty() == depacketized(old(self).pending(), payload@).1,
            },
    {
        if payload.len() < 3 {
            return None;
        }
        let header: u8 = payload[2];
        let start = header & 0x80 != 0;
        let end = header & 0x40 != 0;
        let body = vstd::slice::slice_subrange(payload, 3, payload.len());
        assert(body@ =~= payload@.skip(3));

        let buf = if start {
            let mut buf = empty_buffer();
            put_byte(&mut buf, (payload[0] & 0x81) | ((header & 0x3f) << 1));
            put_byte(&mut buf, payload[1]);
            put_bytes(&mut buf, body);
            assert(Some(buffer_of(buf)) == gathered(old(self).pending(), payload@)) by {
                assert(buffer_of(buf) =~= gathered(old(self).pending(), payload@).unwrap());
            }
            buf
        } else {
            match self.fragment.take() {
                Some(mut buf) => {
                    put_bytes(&mut buf, body);
                    buf
                },
                None => {
                    return None;
                },
            }
        };

        if !end {
            self.fragment = Some(buf);
            return None;
        }
        self.fragment = None;
        Some(with_start_code(buffer_slice(&buf)))
    }
}

impl Default for Depacketizer {
    fn default() -> (r: Depacketizer)
        ensures
            r.pending() is None,
    {
        Depacketizer { fragment: None }
    }
}

/// A NAL unit with its Annex B start code.
fn with_start_code(nalu: &[u8]) -> (r: Bytes)
    requires
        nalu@.len() + 4 <= buffer_limit(),
    ensures
        bytes_of(r) == annex_b(nalu@),
{
    let mut buf = buffer_with_room(4 + nalu.len());
    put_byte(&mut buf, 0);
    put_byte(&mut buf, 0);
    put_byte(&mut buf, 0);
    put_byte(&mut buf, 1);
    put_bytes(&mut buf, nalu);
    assert(buffer_of(buf) =~= annex_b(nalu@));
    freeze(buf)
}

// ---------------------------------------------------------------------------
// Laws
// ---------------------------------------------------------------------------

/// What is pending after some packets, and all NAL units that they give.
pub open spec fn depacketized_all(pending: Option<Seq<u8>>, packets: Seq<Seq<u8>>) -> (
    Option<Seq<u8>>,
    Seq<Seq<u8>>,
)
    decreases packets.len(),
{
    if packets.len() == 0 {
        (pending, Seq::empty())
    } else {
        let (before, units) = depacketized_all(pending, packets.drop_last());
        let (after, more) = depacketized(before, packets.last());
        (after, units + more)
    }
}

/// The fragmentation unit that carries `piece` of a NAL unit with the header `h0`, `h1`.
pub open spec fn fragment_packet(h0: u8, h1: u8, first: bool, last: bool, piece: Seq<u8>) -> Seq<
    u8,
> {
    let s: u8 = if first {
        0x80
    } else {
        0
    };
    let e: u8 = if last {
        0x40
    } else {
        0
    };
    seq![(h0 & 0x81) | (FRAGMENTATION << 1), h1, s | e | unit_type(h0)] + piece
}

/// The fragmentation unit that carries the piece at position `i`.
pub open spec fn fragment_at(h0: u8, h1: u8, pieces: Seq<Seq<u8>>, i: int) -> Seq<u8> {
    fragment_packet(h0, h1, i == 0, i == pieces.len() - 1, pieces[i])
}

/// A packet that is no fragment.
pub open spec fn no_fragment(packet: Seq<u8>) -> bool {
    packet.len() < 2 || unit_type(packet[0]) != FRAGMENTATION
}

/// The packets before the fragment at position `k`: the fragments before it, each followed by
/// the packets that came between it and the next.
pub open spec fn packets_before(
    h0: u8,
    h1: u8,
    pieces: Seq<Seq<u8>>,
    between: Seq<Seq<Seq<u8>>>,
    k: int,
) -> Seq<Seq<u8>>
    decreases k,
{
    if k <= 0 {
        Seq::empty()
    } else {
        packets_before(h0, h1, pieces, between, k - 1).push(
            fragment_at(h0, h1, pieces, k - 1),
        ) + between[k - 1]
    }
}

/// The NAL units that packets give by themselves, one packet after the other.
pub open spec fn units_of(packets: Seq<Seq<u8>>) -> Seq<Seq<u8>>
    decreases packets.len(),
{
    if packets.len() == 0 {
        Seq::empty()
    } else {
        units_of(packets.drop_last()) + depacketized(None, packets.last()).1
    }
}

/// The NAL units that the first `k` groups of packets give by themselves.
pub open spec fn units_between(between: Seq<Seq<Seq<u8>>>, k: int) -> Seq<Seq<u8>>
    decreases k,
{
    if k <= 0 {
        Seq::empty()
    } else {
        units_between(between, k - 1) + units_of(between[k - 1])
    }
}

/// The pieces one after the other.
pub open spec fn joined(pieces: Seq<Seq<u8>>) -> Seq<u8>
    decreases pieces.len(),
{
    if pieces.len() == 0 {
        Seq::empty()
    } else {
        joined(pieces.drop_last()) + pieces.last()
    }
}

/// The bits of a fragmentation unit are read as they were written.
proof fn lemma_fragment_bits(h0: u8, h1: u8, first: bool, last: bool, piece: Seq<u8>)
    ensures
        ({
            let p = fragment_packet(h0, h1, first, last, piece);
            &&& unit_type(p[0]) == FRAGMENTATION
            &&& (p[0] & 0x81) | ((p[2] & 0x3f) << 1) == h0
            &&& fragment_starts(p) == first
            &&& fragment_ends(p) == last
            &&& p.skip(3) == piece
            &&& p.len() >= 3
            &&& p[1] == h1
        }),
{
    let p = fragment_packet(h0, h1, first, last, piece);
    assert(p.skip(3) =~= piece);
    let s: u8 = if first {
        0x80
    } else {
        0
    };
    let e: u8 = if last {
        0x40
    } else {
        0
    };
    let a: u8 = (h0 & 0x81) | (49u8 << 1);
    let c: u8 = s | e | ((h0 >> 1) & 0x3f);
    assert(p[0] == a && p[2] == c);
    assert((a >> 1) & 0x3f == 49 && (a & 0x81) | ((c & 0x3f) << 1) == h0 && (c & 0x80 != 0 <==> s
        == 0x80) && (c & 0x40 != 0 <==> e == 0x40)) by (bit_vector)
        requires
            a == (h0 & 0x81) | (49u8 << 1),
            c == s | e | ((h0 >> 1) & 0x3f),
            s == 0x80 || s == 0,
            e == 0x40 || e == 0,
    ;
}

/// Packets that are no fragments leave what is pending as it is, and give what they give by
/// themselves.
proof fn lemma_no_fragments(pending: Option<Seq<u8>>, before: Seq<Seq<u8>>, packets: Seq<Seq<u8>>)
    requires
        forall|i: int| 0 <= i < packets.len() ==> no_fragment(#[trigger] packets[i]),
    ensures
        depacketized_all(pending, before + packets).0 == depacketized_all(pending, before).0,
        depacketized_all(pending, before + packets).1 == depacketized_all(pending, before).1
            + units_of(packets),
    decreases packets.len(),
{
    let units = depacketized_all(pending, before).1;
    if packets.len() == 0 {
        assert(before + packets =~= before);
        assert(units + units_of(packets) =~= units);
    } else {
        let front = packets.drop_last();
        assert((before + packets).drop_last() =~= before + front);
        assert(no_fragment(packets[packets.len() - 1]));
        assert forall|i: int| 0 <= i < front.len() implies no_fragment(#[trigger] front[i]) by {
            assert(front[i] == packets[i]);
        }
        lemma_no_fragments(pending, before, front);
        let more = depacketized(None, packets.last()).1;
        assert(depacketized(depacketized_all(pending, before).0, packets.last()).1 == more);
        assert(units + units_of(front) + more =~= units + units_of(packets));
    }
}

/// A fragment is taken with what the fragments before it left: all but the last give nothing, and
/// the last gives the whole NAL unit.
proof fn lemma_fragment_taken(
    pending: Option<Seq<u8>>,
    h0: u8,
    h1: u8,
    pieces: Seq<Seq<u8>>,
    k: int,
)
    requires
        0 <= k < pieces.len(),
        k > 0 ==> pending == Some(seq![h0, h1] + joined(pieces.take(k))),
    ensures
        ({
            let r = depacketized(pending, fragment_at(h0, h1, pieces, k));
            let whole = seq![h0, h1] + joined(pieces.take(k + 1));
            if k < pieces.len() - 1 {
                r.0 == Some(whole) && r.1 == Seq::<Seq<u8>>::empty()
            } else {
                r.0 is None && r.1 == seq![annex_b(whole)]
            }
        }),
{
    lemma_fragment_bits(h0, h1, k == 0, k == pieces.len() - 1, pieces[k]);
    assert(pieces.take(k + 1).drop_last() =~= pieces.take(k));
    let whole = seq![h0, h1] + joined(pieces.take(k + 1));
    if k == 0 {
        assert(joined(pieces.take(0)) =~= Seq::empty());
        assert(seq![h0, h1] + pieces[0] =~= whole);
    } else {
        assert(seq![h0, h1] + joined(pieces.take(k)) + pieces[k] =~= whole);
    }
}

/// What is pending before the fragment at position `k`, and what was given up to there.
proof fn lemma_before_fragment(
    pending: Option<Seq<u8>>,
    h0: u8,
    h1: u8,
    pieces: Seq<Seq<u8>>,
    between: Seq<Seq<Seq<u8>>>,
    k: int,
)
    requires
        0 <= k < pieces.len(),
        between.len() == pieces.len() - 1,
        forall|i: int, j: int|
            0 <= i < between.len() && 0 <= j < between[i].len() ==> no_fragment(
                #[trigger] between[i][j],
            ),
    ensures
        ({
            let r = depacketized_all(pending, packets_before(h0, h1, pieces, between, k));
            &&& r.0 == (if k == 0 {
                pending
            } else {
                Some(seq![h0, h1] + joined(pieces.take(k)))
            })
            &&& r.1 == units_between(between, k)
        }),
    decreases k,
{
    if k > 0 {
        lemma_before_fragment(pending, h0, h1, pieces, between, k - 1);
        let front = packets_before(h0, h1, pieces, between, k - 1);
        let last = fragment_at(h0, h1, pieces, k - 1);
        let state = depacketized_all(pending, front);
        lemma_fragment_taken(state.0, h0, h1, pieces, k - 1);
        assert(front.push(last).drop_last() =~= front);
        assert(front.push(last).last() == last);
        let next = depacketized_all(pending, front.push(last));
        assert(next.0 == Some(seq![h0, h1] + joined(pieces.take(k))));
        assert(next.1 =~= state.1);
        assert forall|i: int| 0 <= i < between[k - 1].len() implies no_fragment(
            #[trigger] between[k - 1][i],
        ) by {}
        lemma_no_fragments(pending, front.push(last), between[k - 1]);
    }
}

/// A NAL unit that is sent in fragments comes out whole, once, with its start code, whatever was
/// pending before and whatever packets that are no fragments come in between: every fragment but
/// the last gives nothing, the last gives the unit, and nothing is pending afterwards. What comes
/// in between gives what it gives by itself.
pub proof fn law_fragments_rejoin(
    pending: Option<Seq<u8>>,
    h0: u8,
    h1: u8,
    pieces: Seq<Seq<u8>>,
    between: Seq<Seq<Seq<u8>>>,
)
    requires
        pieces.len() >= 1,
        between.len() == pieces.len() - 1,
        forall|i: int, j: int|
            0 <= i < between.len() && 0 <= j < between[i].len() ==> no_fragment(
                #[trigger] between[i][j],
            ),
    ensures
        forall|k: int|
            0 <= k < pieces.len() - 1 ==> depacketized(
                depacketized_all(
                    pending,
                    #[trigger] packets_before(h0, h1, pieces, between, k),
                ).0,
                fragment_at(h0, h1, pieces, k),
            ).1 == Seq::<Seq<u8>>::empty(),
        ({
            let n = pieces.len() as int;
            let before = depacketized_all(
                pending,
                packets_before(h0, h1, pieces, between, n - 1),
            );
            let r = depacketized(before.0, fragment_at(h0, h1, pieces, n - 1));
            &&& before.1 == units_between(between, n - 1)
            &&& r.0 is None
            &&& r.1 == seq![annex_b(seq![h0, h1] + joined(pieces))]
        }),
{
    let n = pieces.len() as int;
    assert forall|k: int| 0 <= k < n - 1 implies depacketized(
        depacketized_all(pending, #[trigger] packets_before(h0, h1, pieces, between, k)).0,
        fragment_at(h0, h1, pieces, k),
    ).1 == Seq::<Seq<u8>>::empty() by {
        lemma_before_fragment(pending, h0, h1, pieces, between, k);
        lemma_fragment_taken(
            depacketized_all(pending, packets_before(h0, h1, pieces, between, k)).0,
            h0,
            h1,
            pieces,
            k,
        );
    }
    lemma_before_fragment(pending, h0, h1, pieces, between, n - 1);
    lemma_fragment_taken(
        depacketized_all(pending, packets_before(h0, h1, pieces, between, n - 1)).0,
        h0,
        h1,
        pieces,
        n - 1,
    );
    assert(pieces.take(n) =~= pieces);
}

/// The aggregation packet that carries `units`: behind the header, each with its length.
pub open spec fn aggregation_body(units: Seq<Seq<u8>>) -> Seq<u8>
    decreases units.len(),
{
    if units.len() == 0 {
        Seq::empty()
    } else {
        let n = units[0].len();
        seq![(n / 256) as u8, (n % 256) as u8] + units[0] + aggregation_body(units.skip(1))
    }
}

/// What is left of a unit that was cut short: less than a length, or less than the length says.
pub open spec fn cut_short(tail: Seq<u8>) -> bool {
    tail.len() < 2 || tail[0] * 256 + tail[1] > tail.len() - 2
}

/// The units that stand in a packet from position `i` on, before what was cut short, come out one
/// by one.
proof fn lemma_aggregated(packet: Seq<u8>, i: int, units: Seq<Seq<u8>>, tail: Seq<u8>)
    requires
        0 <= i <= packet.len(),
        packet.skip(i) == aggregation_body(units) + tail,
        forall|k: int| 0 <= k < units.len() ==> (#[trigger] units[k]).len() < 65536,
        cut_short(tail),
    ensures
        aggregated(packet, i) == units.map_values(|u: Seq<u8>| annex_b(u)),
    decreases units.len(),
{
    let out = units.map_values(|u: Seq<u8>| annex_b(u));
    if units.len() == 0 {
        assert(packet.skip(i) =~= tail);
        if tail.len() >= 2 {
            assert(packet[i] == packet.skip(i)[0] && packet[i + 1] == packet.skip(i)[1]);
        }
        assert(out =~= Seq::empty());
    } else {
        let u = units[0];
        let n = u.len();
        let body = aggregation_body(units) + tail;
        let rest = aggregation_body(units.skip(1)) + tail;
        assert(body.len() == 2 + n + rest.len());
        assert(packet[i] == packet.skip(i)[0] && packet[i + 1] == packet.skip(i)[1]);
        assert(packet[i] * 256 + packet[i + 1] == n);
        assert(packet.subrange(i + 2, i + 2 + n) =~= u) by {
            assert forall|k: int| 0 <= k < n implies packet[i + 2 + k] == u[k] by {
                assert(packet.skip(i)[2 + k] == u[k]);
            }
        }
        assert(packet.skip(i + 2 + n) =~= rest) by {
            assert forall|k: int| 0 <= k < rest.len() implies packet[i + 2 + n + k] == rest[k] by {
                assert(packet.skip(i)[2 + n + k] == rest[k]);
            }
        }
        lemma_aggregated(packet, i + 2 + n, units.skip(1), tail);
        assert(out =~= seq![annex_b(u)] + units.skip(1).map_values(|u: Seq<u8>| annex_b(u)));
    }
}

/// The units that stand behind the two bytes of a header are the units of the packet, in order,
/// whatever the header is; what was cut short behind them is dropped, and no unit before it is
/// lost.
pub proof fn law_aggregated_units(h0: u8, h1: u8, units: Seq<Seq<u8>>, tail: Seq<u8>)
    requires
        forall|k: int| 0 <= k < units.len() ==> (#[trigger] units[k]).len() < 65536,
        cut_short(tail),
    ensures
        aggregated(seq![h0, h1] + aggregation_body(units) + tail, 2) == units.map_values(
            |u: Seq<u8>| annex_b(u),
        ),
{
    let packet = seq![h0, h1] + aggregation_body(units) + tail;
    assert(packet.skip(2) =~= aggregation_body(units) + tail);
    lemma_aggregated(packet, 2, units, tail);
}

/// NAL units that are sent in one aggregation packet come out in order, each with its start code,
/// and what was pending stays pending. What is left of a unit that was cut short at the end of
/// the packet is dropped, and no unit before it is lost.
pub proof fn law_aggregation_parts(
    pending: Option<Seq<u8>>,
    h0: u8,
    h1: u8,
    units: Seq<Seq<u8>>,
    tail: Seq<u8>,
)
    requires
        unit_type(h0) == AGGREGATION,
        forall|k: int| 0 <= k < units.len() ==> (#[trigger] units[k]).len() < 65536,
        cut_short(tail),
    ensures
        depacketized(pending, seq![h0, h1] + aggregation_body(units) + tail) == (
            pending,
            units.map_values(|u: Seq<u8>| annex_b(u)),
        ),
{
    law_aggregated_units(h0, h1, units, tail);
}

/// A packet that is neither an aggregation nor a fragment is a NAL unit by itself: it comes out
/// with its start code, and what was pending stays pending.
pub proof fn law_single_unit(pending: Option<Seq<u8>>, unit: Seq<u8>)
    requires
        unit.len() >= 2,
        unit_type(unit[0]) != AGGREGATION,
        unit_type(unit[0]) != FRAGMENTATION,
    ensures
        depacketized(pending, unit) == (pending, seq![annex_b(unit)]),
{
}

/// A fragment that continues a NAL unit whose beginning was lost gives nothing and changes
/// nothing.
pub proof fn law_orphan_fragment(payload: Seq<u8>)
    requires
        payload.len() >= 3,
        unit_type(payload[0]) == FRAGMENTATION,
        !fragment_starts(payload),
    ensures
        depacketized(None, payload) == (None::<Seq<u8>>, Seq::<Seq<u8>>::empty()),
{
}

/// Whatever a packet gives begins with a start code.
pub proof fn law_start_codes(pending: Option<Seq<u8>>, payload: Seq<u8>)
    ensures
        forall|k: int|
            0 <= k < depacketized(pending, payload).1.len() ==> seq![0u8, 0, 0, 1].is_prefix_of(
                #[trigger] depacketized(pending, payload).1[k],
            ),
{
    lemma_aggregated_start_codes(payload, 2);
}

/// Every unit of an aggregation packet comes out with a start code.
proof fn lemma_aggregated_start_codes(payload: Seq<u8>, i: int)
    ensures
        forall|k: int|
            0 <= k < aggregated(payload, i).len() ==> seq![0u8, 0, 0, 1].is_prefix_of(
                #[trigger] aggregated(payload, i)[k],
            ),
    decreases payload.len() - i,
{
    if 0 <= i && i + 2 <= payload.len() {
        let size = payload[i] * 256 + payload[i + 1];
        if i + 2 + size <= payload.len() {
            lemma_aggregated_start_codes(payload, i + 2 + size);
            let rest = aggregated(payload, i + 2 + size);
            assert forall|k: int| 0 <= k < aggregated(payload, i).len() implies seq![
                0u8,
                0,
                0,
                1,
            ].is_prefix_of(#[trigger] aggregated(payload, i)[k]) by {
                if k > 0 {
                    assert(aggregated(payload, i)[k] == rest[k - 1]);
                }
            }
        }
    }
}

} // verus!
