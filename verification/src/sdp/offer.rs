//! Compact offers: what they take from a local description, and their text.

use vstd::prelude::*;
use vstd::string::*;

use crate::json::json_text;
use crate::json::Json;
use crate::json::JsonModel;
use crate::sdp::attr;
use crate::sdp::attr_of;
use crate::sdp::block_of;
use crate::sdp::ascii_at_first;
use crate::sdp::cname_in;
use crate::sdp::cname_of;
use crate::sdp::compact_prefix;
use crate::sdp::local_ssrc;
use crate::sdp::m_block;
use crate::sdp::ssrc_in;
use crate::sdp::SdpError;
use crate::sdp::AUDIO_ALT_8K_PT;
use crate::sdp::AUDIO_CLOCK_RATE;
use crate::sdp::AUDIO_PT;
use crate::sdp::VIDEO_CLOCK_RATE;
use crate::sdp::VIDEO_FB;
use crate::sdp::VIDEO_FBC;
use crate::sdp::VIDEO_FEC_PT;
use crate::sdp::VIDEO_PT;
use crate::sdp::VIDEO_RED_PT;
use crate::sdp::VIDEO_RTX_PT;
use crate::sdp::VIDEO_RTX_RED_PT;
use crate::text;
use crate::util;

verus! {

/// What an offer takes from the local description.
pub struct OfferParts {
    pub audio_mid: u8,
    pub video_mid: u8,
    pub ufrag: String,
    pub pwd: String,
    pub fingerprint: String,
    pub setup: String,
    pub origin: String,
    /// The number of the audio stream, where the description has one.
    pub ssrc: Option<String>,
    /// The name of the audio stream, where the description has one.
    pub cname: Option<String>,
}

/// The first thing that an offer needs and the description lacks.
pub open spec fn offer_error(sdp: Seq<char>) -> Option<SdpError> {
    if block_of(sdp, "m=audio"@) is None {
        Some(SdpError::MissingAudio)
    } else if block_of(sdp, "m=video"@) is None {
        Some(SdpError::MissingVideo)
    } else if attr_of(sdp, "a=ice-ufrag:"@) is None {
        Some(SdpError::MissingUfrag)
    } else if attr_of(sdp, "a=ice-pwd:"@) is None {
        Some(SdpError::MissingPassword)
    } else if attr_of(sdp, "a=fingerprint:"@) is None {
        Some(SdpError::MissingFingerprint)
    } else if attr_of(sdp, "a=setup:"@) is None {
        Some(SdpError::MissingSetup)
    } else if attr_of(sdp, "o="@) is None {
        Some(SdpError::MissingOrigin)
    } else {
        None
    }
}

/// The number in the `a=mid:` line of a block, `absent` where there is none.
pub open spec fn mid_in(block: Seq<char>, absent: u8) -> u8 {
    match attr_of(block, "a=mid:"@) {
        Some(t) => match text::u8_value(t) {
            Some(n) => n,
            None => absent,
        },
        None => absent,
    }
}

/// The audio block of a description that has one.
pub open spec fn audio_block(sdp: Seq<char>) -> Seq<char> {
    block_of(sdp, "m=audio"@).unwrap()
}

/// The video block of a description that has one.
pub open spec fn video_block(sdp: Seq<char>) -> Seq<char> {
    block_of(sdp, "m=video"@).unwrap()
}

/// The number of the audio section: its own, or 0.
pub open spec fn audio_mid_of(sdp: Seq<char>) -> u8 {
    mid_in(audio_block(sdp), 0)
}

/// The number of the video section: its own, or 1.
pub open spec fn video_mid_of(sdp: Seq<char>) -> u8 {
    mid_in(video_block(sdp), 1)
}

/// The characters of a text that may be absent.
pub open spec fn opt_text(t: Option<String>) -> Option<Seq<char>> {
    match t {
        Some(t) => Some(t@),
        None => None,
    }
}

/// What an offer takes from the local description, as plain text.
pub struct OfferModel {
    pub audio_mid: u8,
    pub video_mid: u8,
    pub ufrag: Seq<char>,
    pub pwd: Seq<char>,
    pub fingerprint: Seq<char>,
    pub setup: Seq<char>,
    pub origin: Seq<char>,
    pub ssrc: Option<Seq<char>>,
    pub cname: Option<Seq<char>>,
}

impl View for OfferParts {
    type V = OfferModel;

    open spec fn view(&self) -> OfferModel {
        OfferModel {
            audio_mid: self.audio_mid,
            video_mid: self.video_mid,
            ufrag: self.ufrag@,
            pwd: self.pwd@,
            fingerprint: self.fingerprint@,
            setup: self.setup@,
            origin: self.origin@,
            ssrc: opt_text(self.ssrc),
            cname: opt_text(self.cname),
        }
    }
}

/// What an offer takes from the description `sdp`, which lacks nothing that it needs.
pub open spec fn offer_parts(sdp: Seq<char>) -> OfferModel {
    OfferModel {
        audio_mid: audio_mid_of(sdp),
        video_mid: video_mid_of(sdp),
        ufrag: attr_of(sdp, "a=ice-ufrag:"@).unwrap(),
        pwd: attr_of(sdp, "a=ice-pwd:"@).unwrap(),
        fingerprint: attr_of(sdp, "a=fingerprint:"@).unwrap(),
        setup: attr_of(sdp, "a=setup:"@).unwrap(),
        origin: attr_of(sdp, "o="@).unwrap(),
        ssrc: ssrc_in(audio_block(sdp)),
        cname: cname_in(audio_block(sdp)),
    }
}

/// The number in the `a=mid:` line of a block, `absent` where there is none.
fn mid_or(block: &str, absent: u8) -> (r: u8)
    ensures
        r == mid_in(block@, absent),
{
    match attr(block, "a=mid:") {
        Some(t) => match text::parse_u8(t) {
            Some(n) => n,
            None => absent,
        },
        None => absent,
    }
}

/// Where a text that begins with `m` stands, an ASCII character stands.
proof fn lemma_ascii_at_m(sdp: Seq<char>, prefix: Seq<char>)
    requires
        prefix.len() > 0,
        prefix[0] == 'm',
    ensures
        ascii_at_first(sdp, prefix),
{
    text::lemma_occurrence(sdp, prefix, 0);
    match text::first_occurrence(sdp, prefix) {
        Some(start) => {
            assert(sdp.subrange(start, start + prefix.len())[0] == sdp[start]);
        },
        None => {},
    }
}

/// The text that is there, as one of its own.
fn own(t: Option<&str>) -> (r: Option<String>)
    ensures
        match t {
            Some(t) => r matches Some(o) && o@ == t@,
            None => r is None,
        },
{
    match t {
        Some(t) => Some(t.to_owned()),
        None => None,
    }
}

/// Reads what an offer needs of the local description.
pub fn read_offer(local_sdp: &str) -> (r: Result<OfferParts, SdpError>)
    ensures
        match r {
            Ok(parts) => offer_error(local_sdp@) is None && parts@ == offer_parts(local_sdp@),
            Err(e) => offer_error(local_sdp@) == Some(e),
        },
{
    proof {
        reveal_strlit("m=audio");
        reveal_strlit("m=video");
        lemma_ascii_at_m(local_sdp@, "m=audio"@);
        lemma_ascii_at_m(local_sdp@, "m=video"@);
    }
    let audio = match m_block(local_sdp, "m=audio") {
        Some(b) => b,
        None => {
            return Err(SdpError::MissingAudio);
        },
    };
    let video = match m_block(local_sdp, "m=video") {
        Some(b) => b,
        None => {
            return Err(SdpError::MissingVideo);
        },
    };
    let ufrag = match attr(local_sdp, "a=ice-ufrag:") {
        Some(v) => v,
        None => {
            return Err(SdpError::MissingUfrag);
        },
    };
    let pwd = match attr(local_sdp, "a=ice-pwd:") {
        Some(v) => v,
        None => {
            return Err(SdpError::MissingPassword);
        },
    };
    let fingerprint = match attr(local_sdp, "a=fingerprint:") {
        Some(v) => v,
        None => {
            return Err(SdpError::MissingFingerprint);
        },
    };
    let setup = match attr(local_sdp, "a=setup:") {
        Some(v) => v,
        None => {
            return Err(SdpError::MissingSetup);
        },
    };
    let origin = match attr(local_sdp, "o=") {
        Some(v) => v,
        None => {
            return Err(SdpError::MissingOrigin);
        },
    };
    Ok(
        OfferParts {
            audio_mid: mid_or(audio, 0),
            video_mid: mid_or(video, 1),
            ufrag: ufrag.to_owned(),
            pwd: pwd.to_owned(),
            fingerprint: fingerprint.to_owned(),
            setup: setup.to_owned(),
            origin: origin.to_owned(),
            ssrc: own(local_ssrc(audio)),
            cname: own(cname_of(audio)),
        },
    )
}

/// The number of the audio stream in an offer: that of the description, or else a number drawn at
/// random, but at least 1.
pub open spec fn offer_ssrc(own: Option<Seq<char>>, drawn: u32) -> Seq<char> {
    match own {
        Some(n) => n,
        None => text::decimal(
            if drawn == 0 {
                1
            } else {
                drawn as nat
            },
        ),
    }
}

/// The name of the audio stream in an offer: that of the description, or else bytes drawn at
/// random, in base 64.
pub open spec fn offer_cname(own: Option<Seq<char>>, drawn: Seq<u8>) -> Seq<char> {
    match own {
        Some(n) => n,
        None => util::base64_text(drawn),
    }
}

/// An integer as a JSON value.
pub open spec fn int_model(n: int) -> JsonModel {
    JsonModel::Int(n)
}

/// A text as a JSON value.
pub open spec fn text_model(t: Seq<char>) -> JsonModel {
    JsonModel::Text(t)
}

/// The `fmtp` entry that ties a retransmission to the payload type that it repeats.
pub open spec fn apt_text(rtx: u8, pt: u8) -> Seq<char> {
    text::decimal(rtx as nat) + " apt="@ + text::decimal(pt as nat)
}

/// The video part of an offer.
pub open spec fn offer_video(mid: u8) -> JsonModel {
    JsonModel::Object(
        map![
            "mid"@ => int_model(mid as int),
            "sr"@ => int_model(0),
            "dc"@ => int_model(1),
            "pt"@ => int_model(VIDEO_PT as int),
            "fb"@ => int_model(VIDEO_FB as int),
            "fbc"@ => int_model(VIDEO_FBC as int),
            "rm"@ => int_model(1),
            "rr"@ => int_model(1),
            "sc"@ => JsonModel::Array(Seq::empty()),
            "ce"@ => text_model(""@),
            "md"@ => text_model(""@),
            "m"@ => int_model(9),
            "pts"@ => int_model(VIDEO_CLOCK_RATE as int),
            "rtx"@ => JsonModel::Array(
                seq![int_model(VIDEO_RTX_PT as int), int_model(VIDEO_RTX_RED_PT as int)],
            ),
            "red"@ => int_model(VIDEO_RED_PT as int),
            "fec"@ => int_model(VIDEO_FEC_PT as int),
            "fmtp"@ => JsonModel::Array(
                seq![
                    text_model(apt_text(VIDEO_RTX_PT, VIDEO_PT)),
                    text_model(apt_text(VIDEO_RTX_RED_PT, VIDEO_RED_PT)),
                ],
            ),
        ],
    )
}

/// The audio part of an offer.
pub open spec fn offer_audio(mid: u8, ssrc: Seq<char>, cname: Seq<char>) -> JsonModel {
    JsonModel::Object(
        map![
            "mid"@ => int_model(mid as int),
            "sr"@ => int_model(1),
            "dc"@ => int_model(1),
            "pt"@ => int_model(AUDIO_PT as int),
            "8000"@ => int_model(AUDIO_ALT_8K_PT as int),
            "rm"@ => int_model(1),
            "sc"@ => JsonModel::Array(seq![text_model(ssrc)]),
            "ce"@ => text_model(cname),
            "md"@ => text_model("Lo AID"@),
            "pts"@ => int_model(AUDIO_CLOCK_RATE as int),
            "m"@ => int_model(9),
        ],
    )
}

/// The common part of an offer.
pub open spec fn offer_common(parts: OfferModel, key: Seq<u8>) -> JsonModel {
    JsonModel::Object(
        map![
            "v"@ => int_model(1),
            "iO"@ => text_model(parts.origin),
            "is"@ => int_model(1),
            "iT"@ => text_model("0 0"@),
            "iG"@ => text_model(
                text::decimal(parts.audio_mid as nat) + " "@ + text::decimal(
                    parts.video_mid as nat,
                ),
            ),
            "isc"@ => text_model("WMS Lo"@),
            "I"@ => text_model("IP4 0.0.0.0"@),
            "r"@ => text_model("9 IN IP4 0.0.0.0"@),
            "u"@ => text_model(parts.ufrag),
            "p"@ => text_model(parts.pwd),
            "o"@ => text_model("trickle renomination"@),
            "ft"@ => text_model(parts.fingerprint),
            "s"@ => text_model(parts.setup),
            "ll"@ => int_model(1),
            "abs"@ => int_model(7),
            "tcc"@ => int_model(3),
            "pp"@ => int_model(10),
            "sk"@ => JsonModel::Array(crate::json::byte_models(key)),
            "rk"@ => JsonModel::Array(crate::json::byte_models(key)),
        ],
    )
}

/// The payload of an offer.
pub open spec fn offer_model(
    parts: OfferModel,
    drawn_ssrc: u32,
    drawn_cname: Seq<u8>,
    key: Seq<u8>,
) -> JsonModel {
    JsonModel::Object(
        map![
            "video"@ => offer_video(parts.video_mid),
            "audio"@ => offer_audio(
                parts.audio_mid,
                offer_ssrc(parts.ssrc, drawn_ssrc),
                offer_cname(parts.cname, drawn_cname),
            ),
            "com"@ => offer_common(parts, key),
        ],
    )
}

/// A retransmission entry of the video part.
fn apt(rtx: u8, pt: u8) -> (r: Json)
    ensures
        r@ == text_model(apt_text(rtx, pt)),
{
    let a = text::decimal_text(rtx as u64);
    let b = text::decimal_text(pt as u64);
    Json::Text(text::cat3(a.as_str(), " apt=", b.as_str()))
}

/// The video part of an offer.
fn video_json(mid: u8) -> (r: Json)
    ensures
        r@ == offer_video(mid),
{
    let rtx = Json::array().and(Json::Int(VIDEO_RTX_PT as i64)).and(
        Json::Int(VIDEO_RTX_RED_PT as i64),
    );
    assert(rtx@->Array_0 =~= seq![
        int_model(VIDEO_RTX_PT as int),
        int_model(VIDEO_RTX_RED_PT as int),
    ]);
    let fmtp = Json::array().and(apt(VIDEO_RTX_PT, VIDEO_PT)).and(
        apt(VIDEO_RTX_RED_PT, VIDEO_RED_PT),
    );
    assert(fmtp@->Array_0 =~= seq![
        text_model(apt_text(VIDEO_RTX_PT, VIDEO_PT)),
        text_model(apt_text(VIDEO_RTX_RED_PT, VIDEO_RED_PT)),
    ]);
    Json::object()
        .with("mid", Json::Int(mid as i64))
        .with("sr", Json::Int(0))
        .with("dc", Json::Int(1))
        .with("pt", Json::Int(VIDEO_PT as i64))
        .with("fb", Json::Int(VIDEO_FB as i64))
        .with("fbc", Json::Int(VIDEO_FBC as i64))
        .with("rm", Json::Int(1))
        .with("rr", Json::Int(1))
        .with("sc", Json::array())
        .with("ce", Json::text(""))
        .with("md", Json::text(""))
        .with("m", Json::Int(9))
        .with("pts", Json::Int(VIDEO_CLOCK_RATE as i64))
        .with("rtx", rtx)
        .with("red", Json::Int(VIDEO_RED_PT as i64))
        .with("fec", Json::Int(VIDEO_FEC_PT as i64))
        .with("fmtp", fmtp)
}

/// The audio part of an offer.
fn audio_json(mid: u8, ssrc: &str, cname: &str) -> (r: Json)
    ensures
        r@ == offer_audio(mid, ssrc@, cname@),
{
    let sc = Json::array().and(Json::text(ssrc));
    assert(sc@->Array_0 =~= seq![text_model(ssrc@)]);
    Json::object()
        .with("mid", Json::Int(mid as i64))
        .with("sr", Json::Int(1))
        .with("dc", Json::Int(1))
        .with("pt", Json::Int(AUDIO_PT as i64))
        .with("8000", Json::Int(AUDIO_ALT_8K_PT as i64))
        .with("rm", Json::Int(1))
        .with("sc", sc)
        .with("ce", Json::text(cname))
        .with("md", Json::text("Lo AID"))
        .with("pts", Json::Int(AUDIO_CLOCK_RATE as i64))
        .with("m", Json::Int(9))
}

/// The common part of an offer.
fn common_json(parts: &OfferParts, key: &[u8]) -> (r: Json)
    ensures
        r@ == offer_common(parts@, key@),
{
    let a = text::decimal_text(parts.audio_mid as u64);
    let v = text::decimal_text(parts.video_mid as u64);
    let group = text::cat3(a.as_str(), " ", v.as_str());
    Json::object()
        .with("v", Json::Int(1))
        .with("iO", Json::text(parts.origin.as_str()))
        .with("is", Json::Int(1))
        .with("iT", Json::text("0 0"))
        .with("iG", Json::Text(group))
        .with("isc", Json::text("WMS Lo"))
        .with("I", Json::text("IP4 0.0.0.0"))
        .with("r", Json::text("9 IN IP4 0.0.0.0"))
        .with("u", Json::text(parts.ufrag.as_str()))
        .with("p", Json::text(parts.pwd.as_str()))
        .with("o", Json::text("trickle renomination"))
        .with("ft", Json::text(parts.fingerprint.as_str()))
        .with("s", Json::text(parts.setup.as_str()))
        .with("ll", Json::Int(1))
        .with("abs", Json::Int(7))
        .with("tcc", Json::Int(3))
        .with("pp", Json::Int(10))
        .with("sk", Json::bytes(key))
        .with("rk", Json::bytes(key))
}

/// The payload of an offer. `drawn_ssrc` and `drawn_cname` stand in where the description has no
/// number or name for the audio stream.
pub fn offer_payload(
    parts: &OfferParts,
    drawn_ssrc: u32,
    drawn_cname: &[u8],
    key: &[u8],
) -> (r: Json)
    requires
        drawn_cname@.len() <= isize::MAX / 2,
    ensures
        r@ == offer_model(parts@, drawn_ssrc, drawn_cname@, key@),
{
    let ssrc = match &parts.ssrc {
        Some(n) => n.clone(),
        None => text::decimal_text(
            if drawn_ssrc == 0 {
                1
            } else {
                drawn_ssrc as u64
            },
        ),
    };
    let cname = match &parts.cname {
        Some(n) => n.clone(),
        None => util::base64_encode(drawn_cname),
    };
    Json::object()
        .with("video", video_json(parts.video_mid))
        .with("audio", audio_json(parts.audio_mid, ssrc.as_str(), cname.as_str()))
        .with("com", common_json(parts, key))
}

/// The compact form of a payload whose text is `payload`.
pub fn frame_offer(payload: &str) -> (r: String)
    ensures
        r@ == compact_prefix() + payload@,
{
    text::cat("00\r\n", payload)
}

/// The compact offer that comes of a description and of what was drawn at random.
pub open spec fn offer_text(
    sdp: Seq<char>,
    drawn_ssrc: u32,
    drawn_cname: Seq<u8>,
    key: Seq<u8>,
) -> Seq<char> {
    compact_prefix() + json_text(offer_model(offer_parts(sdp), drawn_ssrc, drawn_cname, key))
}

/// Makes the compact offer of a local description, with given stand-ins and session key; gives
/// the numbers of the audio and the video section too.
pub fn encode_offer_with(
    local_sdp: &str,
    drawn_ssrc: u32,
    drawn_cname: &[u8],
    key: &[u8],
) -> (r: Result<(String, u8, u8), SdpError>)
    requires
        drawn_cname@.len() <= isize::MAX / 2,
    ensures
        match r {
            Ok((t, audio_mid, video_mid)) => {
                &&& offer_error(local_sdp@) is None
                &&& audio_mid == audio_mid_of(local_sdp@)
                &&& video_mid == video_mid_of(local_sdp@)
                &&& t@ == offer_text(local_sdp@, drawn_ssrc, drawn_cname@, key@)
            },
            Err(e) => offer_error(local_sdp@) == Some(e),
        },
{
    match read_offer(local_sdp) {
        Ok(parts) => {
            let payload = offer_payload(&parts, drawn_ssrc, drawn_cname, key);
            let t = frame_offer(payload.to_text().as_str());
            Ok((t, parts.audio_mid, parts.video_mid))
        },
        Err(e) => Err(e),
    }
}

/// How many bytes a session key has.
pub const KEY_LEN: usize = 30;

/// Some bytes are a session key: as many as one has, and none of them 0.
pub open spec fn is_session_key(key: Seq<u8>) -> bool {
    &&& key.len() == KEY_LEN
    &&& forall|i: int| 0 <= i < key.len() ==> #[trigger] key[i] != 0
}

/// The byte of a session key that comes of a byte drawn at random.
pub fn key_byte(drawn: u8) -> (r: u8)
    ensures
        r == drawn % 255 + 1,
        r != 0,
{
    drawn % 255 + 1
}

/// The session key that comes of bytes drawn at random.
pub fn key_of(drawn: &[u8]) -> (r: Vec<u8>)
    ensures
        r@ == drawn@.map_values(|b: u8| (b % 255 + 1) as u8),
{
    let mut r: Vec<u8> = Vec::new();
    while r.len() < drawn.len()
        invariant
            r.len() <= drawn.len(),
            r@ == drawn@.take(r.len() as int).map_values(|b: u8| (b % 255 + 1) as u8),
        decreases drawn.len() - r.len(),
    {
        r.push(key_byte(drawn[r.len()]));
        assert(r@ =~= drawn@.take(r.len() as int).map_values(|b: u8| (b % 255 + 1) as u8));
    }
    assert(drawn@.take(r.len() as int) =~= drawn@);
    r
}

/// A session key drawn at random.
pub fn session_key() -> (r: Vec<u8>)
    ensures
        is_session_key(r@),
{
    let drawn = util::random_bytes(KEY_LEN);
    key_of(drawn.as_slice())
}

/// Makes the compact offer of a local description; gives the numbers of the audio and the video
/// section too. The session key, and the number and the name of the audio stream where the
/// description has none, are drawn at random.
pub fn encode_offer(local_sdp: &str) -> (r: Result<(String, u8, u8), SdpError>)
    ensures
        match r {
            Ok((t, audio_mid, video_mid)) => {
                &&& offer_error(local_sdp@) is None
                &&& audio_mid == audio_mid_of(local_sdp@)
                &&& video_mid == video_mid_of(local_sdp@)
                &&& exists|drawn_ssrc: u32, drawn_cname: Seq<u8>, key: Seq<u8>|
                    drawn_cname.len() == 12 && is_session_key(key) && t@ == #[trigger] offer_text(
                        local_sdp@,
                        drawn_ssrc,
                        drawn_cname,
                        key,
                    )
            },
            Err(e) => offer_error(local_sdp@) == Some(e),
        },
{
    let drawn_ssrc: u32 = util::random_u32();
    let drawn_cname = util::random_bytes(12);
    let key = session_key();
    encode_offer_with(local_sdp, drawn_ssrc, drawn_cname.as_slice(), key.as_slice())
}

/// The number that stands in for a missing stream number is never 0.
pub proof fn law_drawn_ssrc(drawn: u32)
    ensures
        text::digits_value(offer_ssrc(None, drawn)) matches Some(n) && n >= 1,
{
    text::lemma_digits_of_decimal(
        if drawn == 0 {
            1
        } else {
            drawn as nat
        },
    );
}

} // verus!
