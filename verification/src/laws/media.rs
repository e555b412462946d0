//! Laws on video: NAL units, packets and a running stream.

use bytes::Bytes;
use vstd::prelude::*;

use crate::h265;
use crate::h265::annex_b;
use crate::h265::depacketized;
use crate::h265::Depacketizer;
use crate::stream::leads_to;
use crate::stream::pending_after;
use crate::stream::Stream;
use crate::stream::StreamAction;
use crate::stream::StreamError;
use crate::stream::StreamEvent;

verus! {

/// What follows the start code is the whole NAL unit, whatever its length, and nothing else.
pub proof fn law_whole_unit(nalu: Seq<u8>)
    ensures
        annex_b(nalu).len() == nalu.len() + 4,
        annex_b(nalu).take(4) == seq![0u8, 0, 0, 1],
        annex_b(nalu).skip(4) == nalu,
        forall|i: int| 0 <= i < nalu.len() ==> annex_b(nalu)[i + 4] == #[trigger] nalu[i],
{
    assert(annex_b(nalu).take(4) =~= seq![0u8, 0, 0, 1]);
    assert(annex_b(nalu).skip(4) =~= nalu);
}

/// The type of a unit stands in the six bits of its first byte that follow the highest.
pub proof fn law_unit_type(header: u8)
    ensures
        h265::unit_type(header) == (header / 2) % 64,
        h265::AGGREGATION == 48,
        h265::FRAGMENTATION == 49,
{
    assert((header >> 1) & 0x3f == (header / 2) % 64) by (bit_vector);
}

/// A packet that is neither an aggregation nor a fragment gives one unit, which holds every byte
/// of the packet; what is pending stays pending.
pub proof fn law_whole_packet(pending: Option<Seq<u8>>, packet: Seq<u8>)
    requires
        packet.len() >= 2,
        (packet[0] / 2) % 64 != 48,
        (packet[0] / 2) % 64 != 49,
    ensures
        depacketized(pending, packet).0 == pending,
        depacketized(pending, packet).1.len() == 1,
        depacketized(pending, packet).1[0].len() == packet.len() + 4,
        depacketized(pending, packet).1[0].skip(4) == packet,
{
    law_unit_type(packet[0]);
    law_whole_unit(packet);
}

/// A packet without a whole header, and a fragment without one, give nothing and change nothing.
pub proof fn law_short_packet(pending: Option<Seq<u8>>, packet: Seq<u8>)
    requires
        packet.len() < 2 || packet.len() == 2 && (packet[0] / 2) % 64 == 49,
    ensures
        depacketized(pending, packet).0 == pending,
        depacketized(pending, packet).1.len() == 0,
{
    if packet.len() == 2 {
        law_unit_type(packet[0]);
    }
}

/// The bits of the third byte of a fragment, as numbers.
proof fn lemma_fragment_header(packet: Seq<u8>)
    requires
        packet.len() >= 3,
    ensures
        h265::fragment_starts(packet) <==> packet[2] / 128 == 1,
        h265::fragment_ends(packet) <==> (packet[2] / 64) % 2 == 1,
        ({
            let h = (packet[0] & 0x81) | ((packet[2] & 0x3f) << 1);
            &&& h / 128 == packet[0] / 128
            &&& h % 2 == packet[0] % 2
            &&& (h / 2) % 64 == packet[2] % 64
        }),
{
    let a = packet[0];
    let c = packet[2];
    assert((c & 0x80 != 0) == (c / 128 == 1)) by (bit_vector);
    assert((c & 0x40 != 0) == ((c / 64) % 2 == 1)) by (bit_vector);
    assert(((a & 0x81) | ((c & 0x3f) << 1)) / 128 == a / 128) by (bit_vector);
    assert(((a & 0x81) | ((c & 0x3f) << 1)) % 2 == a % 2) by (bit_vector);
    assert((((a & 0x81) | ((c & 0x3f) << 1)) / 2) % 64 == c % 64) by (bit_vector);
}

/// A fragment that begins a unit: the unit has the two header bytes, the first with the type that
/// the third byte of the fragment gives, and then every byte behind the third. It comes out where
/// the fragment ends it too, and is pending otherwise, whatever was pending before.
pub proof fn law_first_fragment(pending: Option<Seq<u8>>, packet: Seq<u8>)
    requires
        packet.len() >= 3,
        (packet[0] / 2) % 64 == 49,
        packet[2] / 128 == 1,
    ensures
        ({
            let r = depacketized(pending, packet);
            let ends = (packet[2] / 64) % 2 == 1;
            let unit = if ends {
                r.1[0].skip(4)
            } else {
                r.0.unwrap()
            };
            &&& ends ==> r.0 is None && r.1.len() == 1 && r.1[0].take(4) == seq![0u8, 0, 0, 1]
            &&& !ends ==> r.0 is Some && r.1.len() == 0
            &&& unit.len() == packet.len() - 1
            &&& unit[0] / 128 == packet[0] / 128
            &&& unit[0] % 2 == packet[0] % 2
            &&& (unit[0] / 2) % 64 == packet[2] % 64
            &&& unit[1] == packet[1]
            &&& unit.skip(2) == packet.skip(3)
        }),
{
    law_unit_type(packet[0]);
    lemma_fragment_header(packet);
    let unit = h265::gathered(pending, packet).unwrap();
    law_whole_unit(unit);
    assert(unit.skip(2) =~= packet.skip(3));
}

/// A fragment that continues a unit: every byte behind its third is appended to what is pending,
/// whatever its first bytes are. The unit comes out where the fragment ends it, and is pending
/// otherwise. Where nothing is pending, it gives nothing.
pub proof fn law_next_fragment(pending: Option<Seq<u8>>, packet: Seq<u8>)
    requires
        packet.len() >= 3,
        (packet[0] / 2) % 64 == 49,
        packet[2] / 128 == 0,
    ensures
        ({
            let r = depacketized(pending, packet);
            let ends = (packet[2] / 64) % 2 == 1;
            match pending {
                None => r.0 is None && r.1.len() == 0,
                Some(b) => if ends {
                    r.0 is None && r.1.len() == 1 && r.1[0].take(4) == seq![0u8, 0, 0, 1]
                        && r.1[0].skip(4) == b + packet.skip(3)
                } else {
                    r.0 == Some(b + packet.skip(3)) && r.1.len() == 0
                },
            }
        }),
{
    law_unit_type(packet[0]);
    lemma_fragment_header(packet);
    if let Some(b) = pending {
        law_whole_unit(b + packet.skip(3));
    }
}

/// The first unit of an aggregation packet, where the packet holds it whole, comes out whole, and
/// what follows comes out as from a packet without it; where the packet cuts it short, nothing
/// comes out. What is pending stays pending.
pub proof fn law_aggregation_unit(pending: Option<Seq<u8>>, packet: Seq<u8>)
    requires
        packet.len() >= 2,
        (packet[0] / 2) % 64 == 48,
    ensures
        depacketized(pending, packet).0 == pending,
        ({
            let units = depacketized(pending, packet).1;
            let size = 256 * packet[2] + packet[3];
            if packet.len() < 4 || packet.len() < 4 + size {
                units.len() == 0
            } else {
                let shorter = packet.take(2) + packet.skip(4 + size);
                let rest = depacketized(pending, shorter).1;
                &&& units.len() == rest.len() + 1
                &&& units[0].take(4) == seq![0u8, 0, 0, 1]
                &&& units[0].skip(4) == packet.subrange(4, 4 + size)
                &&& units.skip(1) == rest
            }
        }),
{
    law_unit_type(packet[0]);
    let size = 256 * packet[2] + packet[3];
    if packet.len() >= 4 && packet.len() >= 4 + size {
        let shorter = packet.take(2) + packet.skip(4 + size);
        let unit = packet.subrange(4, 4 + size);
        law_whole_unit(unit);
        lemma_aggregated_shift(packet, 4 + size, shorter, 2);
        let units = h265::aggregated(packet, 2);
        assert(units =~= seq![annex_b(unit)] + h265::aggregated(packet, 4 + size));
        assert(units.skip(1) =~= h265::aggregated(packet, 4 + size));
        assert(shorter[0] == packet[0]);
    }
}

/// What comes out from a position on depends only on what stands there.
proof fn lemma_aggregated_shift(a: Seq<u8>, i: int, b: Seq<u8>, j: int)
    requires
        0 <= i <= a.len(),
        0 <= j <= b.len(),
        a.skip(i) =~= b.skip(j),
    ensures
        h265::aggregated(a, i) == h265::aggregated(b, j),
    decreases a.len() - i,
{
    let x = a.skip(i);
    let y = b.skip(j);
    assert(x.len() == y.len());
    if i + 2 <= a.len() {
        assert(x[0] == a[i] && x[1] == a[i + 1] && y[0] == b[j] && y[1] == b[j + 1]);
        let size = a[i] * 256 + a[i + 1];
        if i + 2 + size <= a.len() {
            assert(a.skip(i + 2 + size) =~= x.skip(2 + size));
            assert(b.skip(j + 2 + size) =~= y.skip(2 + size));
            lemma_aggregated_shift(a, i + 2 + size, b, j + 2 + size);
            assert(a.subrange(i + 2, i + 2 + size) =~= x.subrange(2, 2 + size));
            assert(b.subrange(j + 2, j + 2 + size) =~= y.subrange(2, 2 + size));
        }
    }
}

/// The contents of some buffers are those of each, in order.
pub proof fn law_contents(units: Seq<Bytes>)
    ensures
        h265::contents(units).len() == units.len(),
        forall|i: int|
            0 <= i < units.len() ==> #[trigger] h265::contents(units)[i] == h265::bytes_of(
                units[i],
            ),
{
}

/// A packet can be taken where it makes, with what is pending and a start code, at most half of
/// the greatest allocation.
pub proof fn law_room(pending: Option<Seq<u8>>, n: int)
    ensures
        h265::fits_with(None, n) <==> n + 4 <= isize::MAX / 2,
        pending matches Some(b) ==> (h265::fits_with(pending, n) <==> b.len() + n + 4 <= isize::MAX
            / 2),
{
}

/// A packet can be taken by a depacketizer, and by a running stream, where it has room with what
/// is pending there; a stream can take everything else at any time.
pub proof fn law_taken(depacketizer: Depacketizer, stream: Stream, event: StreamEvent, n: int)
    ensures
        depacketizer.fits(n) <==> h265::fits_with(depacketizer.pending(), n),
        event matches StreamEvent::Packet(p) ==> (stream.takes(event) <==> h265::fits_with(
            stream.pending(),
            h265::bytes_of(p).len() as int,
        )),
        !(event is Packet) ==> stream.takes(event),
        h265::buffer_limit() == isize::MAX / 2,
{
}

/// Whatever comes from the muxer or from the audio track is handed on as it is; every packet is
/// depacketized, and what it completes is written; and whatever else happens, but for the time to
/// keep the stream alive, stops it, for its own reason. Only packets change what is pending.
pub proof fn law_stream_actions(
    pending: Option<Seq<u8>>,
    event: StreamEvent,
    action: StreamAction,
)
    requires
        leads_to(pending, event, action),
    ensures
        event matches StreamEvent::Muxed(b) ==> action == StreamAction::PublishVideo(b),
        event matches StreamEvent::Audio(b) ==> action == StreamAction::PublishAudio(b),
        event is KeepaliveDue ==> action is KeepAlive,
        event matches StreamEvent::Packet(p) ==> (action matches StreamAction::Write(units)
            && h265::contents(units@) == depacketized(pending, h265::bytes_of(p)).1
            && pending_after(pending, event) == depacketized(pending, h265::bytes_of(p)).0),
        !(event is Packet) ==> pending_after(pending, event) == pending,
        event is NoMedia ==> action == StreamAction::Stop(StreamError::NoMedia),
        event is VideoClosed ==> action == StreamAction::Stop(StreamError::VideoClosed),
        event is WriteFailed ==> action == StreamAction::Stop(StreamError::WriteFailed),
        event is MuxerClosed ==> action == StreamAction::Stop(StreamError::MuxerClosed),
        event is MuxerFailed ==> action == StreamAction::Stop(StreamError::MuxerFailed),
        event is AudioClosed ==> action == StreamAction::Stop(StreamError::AudioClosed),
        event is SwitchFailed ==> action == StreamAction::Stop(StreamError::SwitchFailed),
{
}

} // verus!
