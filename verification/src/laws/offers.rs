//! Laws on what is read from a description, and on the compact offer that is made of it.

use vstd::prelude::*;
use vstd::string::*;

use crate::json::byte_models;
use crate::json::has_names;
use crate::json::holds;
use crate::json::json_text;
use crate::json::JsonModel;
use crate::laws::words::law_first_beginning;
use crate::sdp;
use crate::sdp::offer;
use crate::sdp::offer::OfferModel;
use crate::sdp::SdpError;
use crate::text;
use crate::util;

verus! {

// ---------------------------------------------------------------------------
// Reading a description
// ---------------------------------------------------------------------------

/// An attribute is read from the first line that begins with its key: all that follows the key,
/// but for white space around it. Where none is read, no line begins with the key.
pub proof fn law_attribute(description: Seq<char>, key: Seq<char>) -> (k: int)
    ensures
        ({
            let lines = text::line_seq(description);
            match sdp::attr_of(description, key) {
                Some(t) => 0 <= k < lines.len() && text::occurs_at(lines[k], key, 0) && t
                    == text::trimmed(lines[k].skip(key.len() as int)) && sdp::line_of(
                    description,
                    key,
                ) == Some(lines[k]) && (forall|j: int|
                    0 <= j < k ==> !text::occurs_at(#[trigger] lines[j], key, 0)),
                None => sdp::line_of(description, key) is None && (forall|j: int|
                    0 <= j < lines.len() ==> !text::occurs_at(#[trigger] lines[j], key, 0)),
            }
        }),
{
    law_first_beginning(text::line_seq(description), key)
}

proof fn lemma_digits_in_front(s: Seq<char>)
    ensures
        ({
            let n = sdp::leading_digits(s);
            &&& 0 <= n <= s.len()
            &&& forall|i: int| 0 <= i < n ==> '0' <= #[trigger] s[i] <= '9'
            &&& n < s.len() ==> !('0' <= s[n] <= '9')
        }),
    decreases s.len(),
{
    if s.len() > 0 && text::digit(s[0]) {
        let rest = s.skip(1);
        lemma_digits_in_front(rest);
        assert(forall|i: int| 1 <= i < s.len() ==> #[trigger] s[i] == rest[i - 1]);
    }
}

/// The number of a stream is all the digits that its line begins with, however many; there is one
/// exactly where something else follows them.
pub proof fn law_stream_number(block: Seq<char>)
    ensures
        match (sdp::attr_of(block, "a=ssrc:"@), sdp::ssrc_in(block)) {
            (None, r) => r is None,
            (Some(t), Some(n)) => n.len() < t.len() && n == t.take(n.len() as int) && (forall|
                i: int,
            |
                0 <= i < n.len() ==> '0' <= #[trigger] n[i] <= '9') && !('0' <= t[n.len() as int]
                <= '9'),
            (Some(t), None) => forall|i: int| 0 <= i < t.len() ==> '0' <= #[trigger] t[i] <= '9',
        },
{
    if let Some(t) = sdp::attr_of(block, "a=ssrc:"@) {
        lemma_digits_in_front(t);
    }
}

/// The name of a stream is all that follows its key in the first line that holds the key, but for
/// white space around it; there is none exactly where no line holds the key.
pub proof fn law_stream_name(block: Seq<char>)
    ensures
        match text::first_holding(text::line_seq(block), " cname:"@) {
            None => sdp::cname_in(block) is None,
            Some(l) => text::parted(l, " cname:"@) matches Some((_, name)) && sdp::cname_in(block)
                == Some(text::trimmed(name)),
        },
{
    let lines = text::line_seq(block);
    crate::laws::words::law_first_holding(lines, " cname:"@);
}

/// The part of a description that belongs to a medium: it begins where the prefix first stands,
/// reaches to the next `m=` line or to the end, and no other `m=` line begins in it.
pub proof fn law_block(description: Seq<char>, prefix: Seq<char>)
    requires
        prefix.len() > 0,
    ensures
        match sdp::block_of(description, prefix) {
            None => forall|j: int| !text::occurs_at(description, prefix, j),
            Some(b) => text::first_occurrence(description, prefix) matches Some(start) && ({
                let end = start + b.len();
                &&& text::occurs_at(description, prefix, start)
                &&& b.len() >= 1
                &&& end <= description.len()
                &&& b == description.subrange(start, end)
                &&& end == description.len() || text::occurs_at(description, "\r\nm="@, end)
                &&& forall|j: int| start < j < end ==> !text::occurs_at(description, "\r\nm="@, j)
            }),
        },
{
    let next = "\r\nm="@;
    reveal_strlit("\r\nm=");
    text::lemma_occurrence(description, prefix, 0);
    if let Some(start) = text::first_occurrence(description, prefix) {
        let rest = description.skip(start);
        let behind = rest.skip(1);
        text::lemma_occurrence(behind, next, 0);
        assert forall|j: int| 0 <= j implies text::occurs_at(behind, next, j) == text::occurs_at(
            description,
            next,
            start + 1 + j,
        ) by {
            if j + next.len() <= behind.len() {
                assert(behind.subrange(j, j + next.len()) =~= description.subrange(
                    start + 1 + j,
                    start + 1 + j + next.len(),
                ));
            }
        }
        let b = sdp::block_of(description, prefix).unwrap();
        let end = start + b.len();
        assert(b =~= description.subrange(start, end));
        assert forall|j: int| start < j < end implies !text::occurs_at(description, next, j) by {
            assert(text::occurs_at(behind, next, j - start - 1) == text::occurs_at(
                description,
                next,
                j,
            ));
        }
        if let Some(i) = text::first_occurrence(behind, next) {
            assert(text::occurs_at(description, next, start + 1 + i));
        }
    }
}

/// A description can be searched for a prefix where an ASCII character stands at its first place,
/// and so always for a prefix that begins with one.
pub proof fn law_searchable(description: Seq<char>, prefix: Seq<char>)
    ensures
        prefix.len() > 0 && (prefix[0] as u32) < 128 ==> sdp::ascii_at_first(description, prefix),
        match text::first_occurrence(description, prefix) {
            Some(k) => 0 <= k < description.len() && (description[k] as u32) < 128
                ==> sdp::ascii_at_first(description, prefix),
            None => sdp::ascii_at_first(description, prefix),
        },
{
    text::lemma_occurrence(description, prefix, 0);
    if let Some(k) = text::first_occurrence(description, prefix) {
        if prefix.len() > 0 {
            assert(description.subrange(k, k + prefix.len())[0] == prefix[0]);
        }
    }
}

// ---------------------------------------------------------------------------
// What an offer takes
// ---------------------------------------------------------------------------

/// An offer fails for the first thing that the description lacks, and for nothing else.
pub proof fn law_offer_fails(d: Seq<char>)
    ensures
        ({
            let audio = sdp::block_of(d, "m=audio"@) is Some;
            let video = sdp::block_of(d, "m=video"@) is Some;
            let ufrag = sdp::attr_of(d, "a=ice-ufrag:"@) is Some;
            let pwd = sdp::attr_of(d, "a=ice-pwd:"@) is Some;
            let fingerprint = sdp::attr_of(d, "a=fingerprint:"@) is Some;
            let setup = sdp::attr_of(d, "a=setup:"@) is Some;
            let origin = sdp::attr_of(d, "o="@) is Some;
            match offer::offer_error(d) {
                None => audio && video && ufrag && pwd && fingerprint && setup && origin,
                Some(SdpError::MissingAudio) => !audio,
                Some(SdpError::MissingVideo) => audio && !video,
                Some(SdpError::MissingUfrag) => audio && video && !ufrag,
                Some(SdpError::MissingPassword) => audio && video && ufrag && !pwd,
                Some(SdpError::MissingFingerprint) => audio && video && ufrag && pwd
                    && !fingerprint,
                Some(SdpError::MissingSetup) => audio && video && ufrag && pwd && fingerprint
                    && !setup,
                Some(SdpError::MissingOrigin) => audio && video && ufrag && pwd && fingerprint
                    && setup && !origin,
                Some(_) => false,
            }
        }),
{
}

/// The number of a section is the one that stands in it, where one does.
pub proof fn law_number_of_section(block: Seq<char>, absent: u8)
    ensures
        match sdp::attr_of(block, "a=mid:"@) {
            None => offer::mid_in(block, absent) == absent,
            Some(t) => match text::u8_value(t) {
                None => offer::mid_in(block, absent) == absent,
                Some(n) => offer::mid_in(block, absent) == n,
            },
        },
{
}

/// An offer takes the attributes of the description, and the numbers and the stream of its
/// sections, each whole.
pub proof fn law_offer_takes(d: Seq<char>)
    requires
        offer::offer_error(d) is None,
    ensures
        ({
            let parts = offer::offer_parts(d);
            let audio = sdp::block_of(d, "m=audio"@).unwrap();
            let video = sdp::block_of(d, "m=video"@).unwrap();
            &&& Some(parts.ufrag) == sdp::attr_of(d, "a=ice-ufrag:"@)
            &&& Some(parts.pwd) == sdp::attr_of(d, "a=ice-pwd:"@)
            &&& Some(parts.fingerprint) == sdp::attr_of(d, "a=fingerprint:"@)
            &&& Some(parts.setup) == sdp::attr_of(d, "a=setup:"@)
            &&& Some(parts.origin) == sdp::attr_of(d, "o="@)
            &&& parts.audio_mid == offer::mid_in(audio, 0)
            &&& parts.video_mid == offer::mid_in(video, 1)
            &&& parts.ssrc == sdp::ssrc_in(audio)
            &&& parts.cname == sdp::cname_in(audio)
            &&& offer::audio_mid_of(d) == parts.audio_mid
            &&& offer::video_mid_of(d) == parts.video_mid
        }),
{
}

/// The number and the name of the stream in an offer are those of the description, whole; where
/// it has none they are made of what was drawn, the number as a numeral that is not 0.
pub proof fn law_offer_stream(own: Seq<char>, drawn: u32, bytes: Seq<u8>)
    ensures
        offer::offer_ssrc(Some(own), drawn) == own,
        offer::offer_cname(Some(own), bytes) == own,
        drawn > 0 ==> offer::offer_ssrc(None, drawn) == text::decimal(drawn as nat),
        offer::offer_ssrc(None, 0) == text::decimal(1),
        offer::offer_cname(None, bytes) == util::base64_text(bytes),
{
}

// ---------------------------------------------------------------------------
// What an offer holds
// ---------------------------------------------------------------------------

/// The video part of an offer: its section number, and what this side can take.
pub proof fn law_offer_video(mid: u8)
    ensures
        has_names(
            offer::offer_video(mid),
            set![
                "mid"@,
                "sr"@,
                "dc"@,
                "pt"@,
                "fb"@,
                "fbc"@,
                "rm"@,
                "rr"@,
                "sc"@,
                "ce"@,
                "md"@,
                "m"@,
                "pts"@,
                "rtx"@,
                "red"@,
                "fec"@,
                "fmtp"@,
            ],
        ),
        holds(offer::offer_video(mid), "mid"@, JsonModel::Int(mid as int)),
        holds(offer::offer_video(mid), "sr"@, JsonModel::Int(0)),
        holds(offer::offer_video(mid), "dc"@, JsonModel::Int(1)),
        holds(offer::offer_video(mid), "pt"@, JsonModel::Int(127)),
        holds(offer::offer_video(mid), "fb"@, JsonModel::Int(35)),
        holds(offer::offer_video(mid), "fbc"@, JsonModel::Int(22)),
        holds(offer::offer_video(mid), "rm"@, JsonModel::Int(1)),
        holds(offer::offer_video(mid), "rr"@, JsonModel::Int(1)),
        holds(offer::offer_video(mid), "sc"@, JsonModel::Array(Seq::empty())),
        holds(offer::offer_video(mid), "ce"@, JsonModel::Text(""@)),
        holds(offer::offer_video(mid), "md"@, JsonModel::Text(""@)),
        holds(offer::offer_video(mid), "m"@, JsonModel::Int(9)),
        holds(offer::offer_video(mid), "pts"@, JsonModel::Int(90000)),
        holds(
            offer::offer_video(mid),
            "rtx"@,
            JsonModel::Array(seq![JsonModel::Int(123), JsonModel::Int(122)]),
        ),
        holds(offer::offer_video(mid), "red"@, JsonModel::Int(126)),
        holds(offer::offer_video(mid), "fec"@, JsonModel::Int(125)),
        holds(
            offer::offer_video(mid),
            "fmtp"@,
            JsonModel::Array(
                seq![JsonModel::Text(text::decimal(123) + " apt="@ + text::decimal(127)), JsonModel::Text(text::decimal(122) + " apt="@ + text::decimal(126))],
            ),
        ),
{
    reveal_strlit("mid");
    reveal_strlit("sr");
    reveal_strlit("dc");
    reveal_strlit("pt");
    reveal_strlit("fb");
    reveal_strlit("fbc");
    reveal_strlit("rm");
    reveal_strlit("rr");
    reveal_strlit("sc");
    reveal_strlit("ce");
    reveal_strlit("md");
    reveal_strlit("m");
    reveal_strlit("pts");
    reveal_strlit("rtx");
    reveal_strlit("red");
    reveal_strlit("fec");
    reveal_strlit("fmtp");
    assert("mid"@.len() == 3 && "mid"@[0] == 'm' && "mid"@[1] == 'i' && "mid"@[2] == 'd');
    assert("sr"@.len() == 2 && "sr"@[0] == 's' && "sr"@[1] == 'r');
    assert("dc"@.len() == 2 && "dc"@[0] == 'd' && "dc"@[1] == 'c');
    assert("pt"@.len() == 2 && "pt"@[0] == 'p' && "pt"@[1] == 't');
    assert("fb"@.len() == 2 && "fb"@[0] == 'f' && "fb"@[1] == 'b');
    assert("fbc"@.len() == 3 && "fbc"@[0] == 'f' && "fbc"@[1] == 'b' && "fbc"@[2] == 'c');
    assert("rm"@.len() == 2 && "rm"@[0] == 'r' && "rm"@[1] == 'm');
    assert("rr"@.len() == 2 && "rr"@[0] == 'r' && "rr"@[1] == 'r');
    assert("sc"@.len() == 2 && "sc"@[0] == 's' && "sc"@[1] == 'c');
    assert("ce"@.len() == 2 && "ce"@[0] == 'c' && "ce"@[1] == 'e');
    assert("md"@.len() == 2 && "md"@[0] == 'm' && "md"@[1] == 'd');
    assert("m"@.len() == 1 && "m"@[0] == 'm');
    assert("pts"@.len() == 3 && "pts"@[0] == 'p' && "pts"@[1] == 't' && "pts"@[2] == 's');
    assert("rtx"@.len() == 3 && "rtx"@[0] == 'r' && "rtx"@[1] == 't' && "rtx"@[2] == 'x');
    assert("red"@.len() == 3 && "red"@[0] == 'r' && "red"@[1] == 'e' && "red"@[2] == 'd');
    assert("fec"@.len() == 3 && "fec"@[0] == 'f' && "fec"@[1] == 'e' && "fec"@[2] == 'c');
    assert("fmtp"@.len() == 4 && "fmtp"@[0] == 'f' && "fmtp"@[1] == 'm' && "fmtp"@[2] == 't');
    assert("fmtp"@[3] == 'p');
    assert(offer::offer_video(mid)->Object_0.dom() =~= set![
        "mid"@,
        "sr"@,
        "dc"@,
        "pt"@,
        "fb"@,
        "fbc"@,
        "rm"@,
        "rr"@,
        "sc"@,
        "ce"@,
        "md"@,
        "m"@,
        "pts"@,
        "rtx"@,
        "red"@,
        "fec"@,
        "fmtp"@,
    ]);
}

/// The audio part of an offer: its section number, and the number and the name of its stream, each
/// whole.
pub proof fn law_offer_audio(mid: u8, ssrc: Seq<char>, cname: Seq<char>)
    ensures
        has_names(
            offer::offer_audio(mid, ssrc, cname),
            set![
                "mid"@,
                "sr"@,
                "dc"@,
                "pt"@,
                "8000"@,
                "rm"@,
                "sc"@,
                "ce"@,
                "md"@,
                "pts"@,
                "m"@,
            ],
        ),
        holds(offer::offer_audio(mid, ssrc, cname), "mid"@, JsonModel::Int(mid as int)),
        holds(offer::offer_audio(mid, ssrc, cname), "sr"@, JsonModel::Int(1)),
        holds(offer::offer_audio(mid, ssrc, cname), "dc"@, JsonModel::Int(1)),
        holds(offer::offer_audio(mid, ssrc, cname), "pt"@, JsonModel::Int(97)),
        holds(offer::offer_audio(mid, ssrc, cname), "8000"@, JsonModel::Int(96)),
        holds(offer::offer_audio(mid, ssrc, cname), "rm"@, JsonModel::Int(1)),
        holds(
            offer::offer_audio(mid, ssrc, cname),
            "sc"@,
            JsonModel::Array(seq![JsonModel::Text(ssrc)]),
        ),
        holds(offer::offer_audio(mid, ssrc, cname), "ce"@, JsonModel::Text(cname)),
        holds(offer::offer_audio(mid, ssrc, cname), "md"@, JsonModel::Text("Lo AID"@)),
        holds(offer::offer_audio(mid, ssrc, cname), "pts"@, JsonModel::Int(16000)),
        holds(offer::offer_audio(mid, ssrc, cname), "m"@, JsonModel::Int(9)),
{
    reveal_strlit("mid");
    reveal_strlit("sr");
    reveal_strlit("dc");
    reveal_strlit("pt");
    reveal_strlit("8000");
    reveal_strlit("rm");
    reveal_strlit("sc");
    reveal_strlit("ce");
    reveal_strlit("md");
    reveal_strlit("pts");
    reveal_strlit("m");
    assert("mid"@.len() == 3 && "mid"@[0] == 'm' && "mid"@[1] == 'i' && "mid"@[2] == 'd');
    assert("sr"@.len() == 2 && "sr"@[0] == 's' && "sr"@[1] == 'r');
    assert("dc"@.len() == 2 && "dc"@[0] == 'd' && "dc"@[1] == 'c');
    assert("pt"@.len() == 2 && "pt"@[0] == 'p' && "pt"@[1] == 't');
    assert("8000"@.len() == 4 && "8000"@[0] == '8' && "8000"@[1] == '0' && "8000"@[2] == '0');
    assert("8000"@[3] == '0');
    assert("rm"@.len() == 2 && "rm"@[0] == 'r' && "rm"@[1] == 'm');
    assert("sc"@.len() == 2 && "sc"@[0] == 's' && "sc"@[1] == 'c');
    assert("ce"@.len() == 2 && "ce"@[0] == 'c' && "ce"@[1] == 'e');
    assert("md"@.len() == 2 && "md"@[0] == 'm' && "md"@[1] == 'd');
    assert("pts"@.len() == 3 && "pts"@[0] == 'p' && "pts"@[1] == 't' && "pts"@[2] == 's');
    assert("m"@.len() == 1 && "m"@[0] == 'm');
    assert(offer::offer_audio(mid, ssrc, cname)->Object_0.dom() =~= set![
        "mid"@,
        "sr"@,
        "dc"@,
        "pt"@,
        "8000"@,
        "rm"@,
        "sc"@,
        "ce"@,
        "md"@,
        "pts"@,
        "m"@,
    ]);
}

/// The common part of an offer: the origin and the transport of the description, each whole, both
/// section numbers, and the session key, twice.
pub proof fn law_offer_common(parts: OfferModel, key: Seq<u8>)
    ensures
        has_names(
            offer::offer_common(parts, key),
            set![
                "v"@,
                "iO"@,
                "is"@,
                "iT"@,
                "iG"@,
                "isc"@,
                "I"@,
                "r"@,
                "u"@,
                "p"@,
                "o"@,
                "ft"@,
                "s"@,
                "ll"@,
                "abs"@,
                "tcc"@,
                "pp"@,
                "sk"@,
                "rk"@,
            ],
        ),
        holds(offer::offer_common(parts, key), "v"@, JsonModel::Int(1)),
        holds(offer::offer_common(parts, key), "iO"@, JsonModel::Text(parts.origin)),
        holds(offer::offer_common(parts, key), "is"@, JsonModel::Int(1)),
        holds(offer::offer_common(parts, key), "iT"@, JsonModel::Text("0 0"@)),
        holds(
            offer::offer_common(parts, key),
            "iG"@,
            JsonModel::Text(
                text::decimal(
                    parts.audio_mid as nat) + " "@ + text::decimal(parts.video_mid as nat,
                ),
            ),
        ),
        holds(offer::offer_common(parts, key), "isc"@, JsonModel::Text("WMS Lo"@)),
        holds(offer::offer_common(parts, key), "I"@, JsonModel::Text("IP4 0.0.0.0"@)),
        holds(offer::offer_common(parts, key), "r"@, JsonModel::Text("9 IN IP4 0.0.0.0"@)),
        holds(offer::offer_common(parts, key), "u"@, JsonModel::Text(parts.ufrag)),
        holds(offer::offer_common(parts, key), "p"@, JsonModel::Text(parts.pwd)),
        holds(offer::offer_common(parts, key), "o"@, JsonModel::Text("trickle renomination"@)),
        holds(offer::offer_common(parts, key), "ft"@, JsonModel::Text(parts.fingerprint)),
        holds(offer::offer_common(parts, key), "s"@, JsonModel::Text(parts.setup)),
        holds(offer::offer_common(parts, key), "ll"@, JsonModel::Int(1)),
        holds(offer::offer_common(parts, key), "abs"@, JsonModel::Int(7)),
        holds(offer::offer_common(parts, key), "tcc"@, JsonModel::Int(3)),
        holds(offer::offer_common(parts, key), "pp"@, JsonModel::Int(10)),
        holds(offer::offer_common(parts, key), "sk"@, JsonModel::Array(byte_models(key))),
        holds(offer::offer_common(parts, key), "rk"@, JsonModel::Array(byte_models(key))),
{
    reveal_strlit("v");
    reveal_strlit("iO");
    reveal_strlit("is");
    reveal_strlit("iT");
    reveal_strlit("iG");
    reveal_strlit("isc");
    reveal_strlit("I");
    reveal_strlit("r");
    reveal_strlit("u");
    reveal_strlit("p");
    reveal_strlit("o");
    reveal_strlit("ft");
    reveal_strlit("s");
    reveal_strlit("ll");
    reveal_strlit("abs");
    reveal_strlit("tcc");
    reveal_strlit("pp");
    reveal_strlit("sk");
    reveal_strlit("rk");
    assert("v"@.len() == 1 && "v"@[0] == 'v');
    assert("iO"@.len() == 2 && "iO"@[0] == 'i' && "iO"@[1] == 'O');
    assert("is"@.len() == 2 && "is"@[0] == 'i' && "is"@[1] == 's');
    assert("iT"@.len() == 2 && "iT"@[0] == 'i' && "iT"@[1] == 'T');
    assert("iG"@.len() == 2 && "iG"@[0] == 'i' && "iG"@[1] == 'G');
    assert("isc"@.len() == 3 && "isc"@[0] == 'i' && "isc"@[1] == 's' && "isc"@[2] == 'c');
    assert("I"@.len() == 1 && "I"@[0] == 'I');
    assert("r"@.len() == 1 && "r"@[0] == 'r');
    assert("u"@.len() == 1 && "u"@[0] == 'u');
    assert("p"@.len() == 1 && "p"@[0] == 'p');
    assert("o"@.len() == 1 && "o"@[0] == 'o');
    assert("ft"@.len() == 2 && "ft"@[0] == 'f' && "ft"@[1] == 't');
    assert("s"@.len() == 1 && "s"@[0] == 's');
    assert("ll"@.len() == 2 && "ll"@[0] == 'l' && "ll"@[1] == 'l');
    assert("abs"@.len() == 3 && "abs"@[0] == 'a' && "abs"@[1] == 'b' && "abs"@[2] == 's');
    assert("tcc"@.len() == 3 && "tcc"@[0] == 't' && "tcc"@[1] == 'c' && "tcc"@[2] == 'c');
    assert("pp"@.len() == 2 && "pp"@[0] == 'p' && "pp"@[1] == 'p');
    assert("sk"@.len() == 2 && "sk"@[0] == 's' && "sk"@[1] == 'k');
    assert("rk"@.len() == 2 && "rk"@[0] == 'r' && "rk"@[1] == 'k');
    assert(offer::offer_common(parts, key)->Object_0.dom() =~= set![
        "v"@,
        "iO"@,
        "is"@,
        "iT"@,
        "iG"@,
        "isc"@,
        "I"@,
        "r"@,
        "u"@,
        "p"@,
        "o"@,
        "ft"@,
        "s"@,
        "ll"@,
        "abs"@,
        "tcc"@,
        "pp"@,
        "sk"@,
        "rk"@,
    ]);
}

/// An offer has three parts.
pub proof fn law_offer_parts_held(parts: OfferModel, drawn: u32, bytes: Seq<u8>, key: Seq<u8>)
    ensures
        has_names(
            offer::offer_model(parts, drawn, bytes, key),
            set![
                "video"@,
                "audio"@,
                "com"@,
            ],
        ),
        holds(
            offer::offer_model(parts, drawn, bytes, key),
            "video"@,
            offer::offer_video(parts.video_mid),
        ),
        holds(
            offer::offer_model(parts, drawn, bytes, key),
            "audio"@,
            offer::offer_audio(
                parts.audio_mid,
                offer::offer_ssrc(parts.ssrc, drawn),
                offer::offer_cname(parts.cname, bytes),
            ),
        ),
        holds(
            offer::offer_model(parts, drawn, bytes, key),
            "com"@,
            offer::offer_common(parts, key),
        ),
{
    reveal_strlit("video");
    reveal_strlit("audio");
    reveal_strlit("com");
    assert("video"@.len() == 5 && "video"@[0] == 'v' && "video"@[1] == 'i' && "video"@[2] == 'd');
    assert("video"@[3] == 'e' && "video"@[4] == 'o');
    assert("audio"@.len() == 5 && "audio"@[0] == 'a' && "audio"@[1] == 'u' && "audio"@[2] == 'd');
    assert("audio"@[3] == 'i' && "audio"@[4] == 'o');
    assert("com"@.len() == 3 && "com"@[0] == 'c' && "com"@[1] == 'o' && "com"@[2] == 'm');
    assert(offer::offer_model(parts, drawn, bytes, key)->Object_0.dom() =~= set![
        "video"@,
        "audio"@,
        "com"@,
    ]);
}

/// The offer of a description carries its stream number and name as they stand in its audio
/// section, whole, where they do; and its origin and transport as they are read from it.
pub proof fn law_offer_carries(d: Seq<char>, drawn: u32, bytes: Seq<u8>, key: Seq<u8>)
    requires
        offer::offer_error(d) is None,
    ensures
        ({
            let offered = offer::offer_model(offer::offer_parts(d), drawn, bytes, key);
            let block = sdp::block_of(d, "m=audio"@).unwrap();
            let audio = offered->Object_0["audio"@];
            let com = offered->Object_0["com"@];
            &&& sdp::ssrc_in(block) matches Some(n) ==> holds(
                audio,
                "sc"@,
                JsonModel::Array(seq![JsonModel::Text(n)]),
            )
            &&& sdp::cname_in(block) matches Some(n) ==> holds(audio, "ce"@, JsonModel::Text(n))
            &&& holds(com, "iO"@, JsonModel::Text(sdp::attr_of(d, "o="@).unwrap()))
            &&& holds(com, "u"@, JsonModel::Text(sdp::attr_of(d, "a=ice-ufrag:"@).unwrap()))
            &&& holds(com, "p"@, JsonModel::Text(sdp::attr_of(d, "a=ice-pwd:"@).unwrap()))
            &&& holds(com, "ft"@, JsonModel::Text(sdp::attr_of(d, "a=fingerprint:"@).unwrap()))
            &&& holds(com, "s"@, JsonModel::Text(sdp::attr_of(d, "a=setup:"@).unwrap()))
        }),
{
    let parts = offer::offer_parts(d);
    law_offer_parts_held(parts, drawn, bytes, key);
    law_offer_audio(
        parts.audio_mid,
        offer::offer_ssrc(parts.ssrc, drawn),
        offer::offer_cname(parts.cname, bytes),
    );
    law_offer_common(parts, key);
}

/// A format that belongs to another names both, each whole.
pub proof fn law_belongs(format: u8, other: u8)
    ensures
        offer::apt_text(format, other) == text::decimal(format as nat) + " apt="@ + text::decimal(
            other as nat,
        ),
{
}

/// A compact offer is two zeros, a line ending, and the JSON text of what is offered.
pub proof fn law_offer_form(d: Seq<char>, drawn: u32, bytes: Seq<u8>, key: Seq<u8>)
    ensures
        offer::offer_text(d, drawn, bytes, key) == "00\r\n"@ + json_text(
            offer::offer_model(offer::offer_parts(d), drawn, bytes, key),
        ),
        sdp::compact_prefix() == "00\r\n"@,
{
}

/// A session key is thirty bytes, none of them 0.
pub proof fn law_session_key(key: Seq<u8>)
    ensures
        offer::is_session_key(key) <==> key.len() == 30 && (forall|i: int|
            0 <= i < key.len() ==> #[trigger] key[i] != 0),
        offer::KEY_LEN == 30,
{
}

} // verus!
