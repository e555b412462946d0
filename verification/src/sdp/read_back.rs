//! What is read back of an offer: its compact form loses nothing that it was made of.

use vstd::prelude::*;
use vstd::string::*;

use crate::json::json_text;
use crate::json::Json;
use crate::json::JsonModel;
use crate::sdp::answer::answer_lines;
use crate::sdp::answer::answer_text;
use crate::sdp::answer::media_lines;
use crate::sdp::answer::payload_of;
use crate::sdp::answer::session_lines;
use crate::sdp::answer::ssrc_text;
use crate::sdp::answer::Answer;
use crate::sdp::answer::Com;
use crate::sdp::answer::MLine;
use crate::sdp::answer::Medium;
use crate::sdp::attr_of;
use crate::sdp::cname_in;
use crate::sdp::laws::com_on_lines;
use crate::sdp::laws::law_answer_lines;
use crate::sdp::laws::law_answer_transport;
use crate::sdp::laws::law_framed;
use crate::sdp::laws::lemma_cat_on_line;
use crate::sdp::laws::lemma_decimal_on_line;
use crate::sdp::laws::medium_on_lines;
use crate::sdp::offer::audio_block;
use crate::sdp::offer::audio_mid_of;
use crate::sdp::offer::offer_audio;
use crate::sdp::offer::offer_cname;
use crate::sdp::offer::offer_common;
use crate::sdp::offer::offer_error;
use crate::sdp::offer::offer_model;
use crate::sdp::offer::offer_parts;
use crate::sdp::offer::offer_ssrc;
use crate::sdp::offer::offer_text;
use crate::sdp::offer::offer_video;
use crate::sdp::offer::video_mid_of;
use crate::sdp::offer::OfferModel;
use crate::sdp::ssrc_in;
use crate::text;
use crate::util;

verus! {

// ---------------------------------------------------------------------------
// An answer that a JSON object is read as
// ---------------------------------------------------------------------------

/// The member is this text.
pub open spec fn has_text(o: Map<Seq<char>, JsonModel>, name: Seq<char>, t: Seq<char>) -> bool {
    o.dom().contains(name) && o[name] == JsonModel::Text(t)
}

/// The member is this integer.
pub open spec fn has_int(o: Map<Seq<char>, JsonModel>, name: Seq<char>, n: int) -> bool {
    o.dom().contains(name) && o[name] == JsonModel::Int(n)
}

/// The member is this integer, or there is none and this is 0.
pub open spec fn has_int_or_zero(o: Map<Seq<char>, JsonModel>, name: Seq<char>, n: int) -> bool {
    has_int(o, name, n) || !o.dom().contains(name) && n == 0
}

/// The value is an array, and no item of it is a number with a fraction.
pub open spec fn plain_list(value: Json) -> bool {
    value matches Json::Array(items) && forall|k: int|
        0 <= k < items@.len() ==> !(#[trigger] items@[k] is Fraction)
}

/// The common part is the one that the object is read as. Only the candidate may be missing.
pub open spec fn common_read(com: Com, o: Map<Seq<char>, JsonModel>) -> bool {
    &&& has_text(o, "iO"@, com.io@)
    &&& has_int(o, "is"@, com.is as int)
    &&& has_text(o, "iT"@, com.it@)
    &&& has_text(o, "iG"@, com.ig@)
    &&& has_text(o, "isc"@, com.isc@)
    &&& has_text(o, "ic"@, com.ic@) || !o.dom().contains("ic"@) && com.ic@.len() == 0
    &&& has_text(o, "r"@, com.r@)
    &&& has_text(o, "u"@, com.u@)
    &&& has_text(o, "p"@, com.p@)
    &&& has_text(o, "o"@, com.o@)
    &&& has_text(o, "ft"@, com.ft@)
    &&& has_text(o, "s"@, com.s@)
}

/// The part for one medium is the one that the object is read as.
pub open spec fn medium_read(m: MLine, o: Map<Seq<char>, JsonModel>) -> bool {
    &&& has_int(o, "sr"@, m.sr as int)
    &&& has_int_or_zero(o, "dc"@, m.dc as int)
    &&& has_int(o, "pt"@, m.pt as int)
    &&& has_int_or_zero(o, "fbc"@, m.fbc as int)
    &&& has_int(o, "rm"@, m.rm as int)
    &&& has_int_or_zero(o, "rr"@, m.rr as int)
    &&& has_int_or_zero(o, "rs"@, m.rs as int)
    &&& o.dom().contains("sc"@) && o["sc"@] == m.sc@ && plain_list(m.sc)
    &&& has_text(o, "ce"@, m.ce@)
    &&& has_text(o, "md"@, m.md@)
    &&& has_int(o, "m"@, m.m as int)
    &&& has_int(o, "pts"@, m.pts as int)
}

/// The answer is the one that the object is read as.
pub open spec fn answer_read(a: Answer, o: Map<Seq<char>, JsonModel>) -> bool {
    &&& o.dom().contains("video"@) && o["video"@] is Object && medium_read(
        a.video,
        o["video"@]->Object_0,
    )
    &&& o.dom().contains("audio"@) && o["audio"@] is Object && medium_read(
        a.audio,
        o["audio"@]->Object_0,
    )
    &&& o.dom().contains("com"@) && o["com"@] is Object && common_read(a.com, o["com"@]->Object_0)
}

// ---------------------------------------------------------------------------
// What is read from a description stands on one line
// ---------------------------------------------------------------------------

/// No line of a text holds a line feed.
proof fn lemma_lines_on_lines(s: Seq<char>)
    ensures
        forall|k: int|
            0 <= k < text::line_seq(s).len() ==> text::one_line(#[trigger] text::line_seq(s)[k]),
    decreases s.len(),
{
    if s.len() > 0 {
        text::lemma_line_end(s);
        lemma_lines_on_lines(text::tail_lines(s));
        let first = text::head_line(s);
        let rest = text::line_seq(text::tail_lines(s));
        assert(text::one_line(first));
        assert forall|k: int| 0 <= k < text::line_seq(s).len() implies text::one_line(
            #[trigger] text::line_seq(s)[k],
        ) by {
            if k > 0 {
                assert(text::line_seq(s)[k] == rest[k - 1]);
            }
        }
    }
}

/// A line that is found by its beginning is one of the lines.
proof fn lemma_beginning_on_line(lines: Seq<Seq<char>>, p: Seq<char>)
    requires
        forall|k: int| 0 <= k < lines.len() ==> text::one_line(#[trigger] lines[k]),
    ensures
        text::first_beginning(lines, p) matches Some(l) ==> text::one_line(l),
    decreases lines.len(),
{
    if lines.len() > 0 {
        let rest = lines.skip(1);
        assert forall|k: int| 0 <= k < rest.len() implies text::one_line(#[trigger] rest[k]) by {
            assert(rest[k] == lines[k + 1]);
        }
        assert(text::one_line(lines[0]));
        lemma_beginning_on_line(rest, p);
    }
}

/// A line that is found by what it holds is one of the lines.
proof fn lemma_holding_on_line(lines: Seq<Seq<char>>, p: Seq<char>)
    requires
        forall|k: int| 0 <= k < lines.len() ==> text::one_line(#[trigger] lines[k]),
    ensures
        text::first_holding(lines, p) matches Some(l) ==> text::one_line(l),
    decreases lines.len(),
{
    if lines.len() > 0 {
        let rest = lines.skip(1);
        assert forall|k: int| 0 <= k < rest.len() implies text::one_line(#[trigger] rest[k]) by {
            assert(rest[k] == lines[k + 1]);
        }
        assert(text::one_line(lines[0]));
        lemma_holding_on_line(rest, p);
    }
}

proof fn lemma_trimmed_start(s: Seq<char>)
    ensures
        ({
            let r = text::trimmed_start(s);
            &&& r.len() > 0 ==> !text::white_space(r[0])
            &&& text::one_line(s) ==> text::one_line(r)
        }),
    decreases s.len(),
{
    if s.len() > 0 && text::white_space(s[0]) {
        lemma_trimmed_start(s.skip(1));
    }
}

proof fn lemma_trimmed_end(s: Seq<char>)
    ensures
        ({
            let r = text::trimmed_end(s);
            &&& r.len() <= s.len()
            &&& r == s.take(r.len() as int)
            &&& r.len() > 0 ==> !text::white_space(r.last())
        }),
    decreases s.len(),
{
    if s.len() > 0 && text::white_space(s.last()) {
        lemma_trimmed_end(s.drop_last());
        let r = text::trimmed_end(s);
        assert(s.drop_last().take(r.len() as int) =~= s.take(r.len() as int));
    } else {
        assert(s.take(s.len() as int) =~= s);
    }
}

/// What was trimmed has no white space left around it, and no line feed that was not there.
proof fn lemma_trimmed_again(s: Seq<char>)
    ensures
        text::trimmed(text::trimmed(s)) == text::trimmed(s),
        text::one_line(s) ==> text::one_line(text::trimmed(s)),
{
    lemma_trimmed_start(s);
    lemma_trimmed_end(text::trimmed_start(s));
    let t = text::trimmed(s);
    if t.len() > 0 {
        assert(t[0] == text::trimmed_start(s)[0]);
    }
    assert(text::trimmed_start(t) == t);
    assert(text::trimmed_end(t) == t);
}

/// What is read of an attribute stands on one line, with no white space around it.
proof fn lemma_attr_on_line(sdp: Seq<char>, p: Seq<char>)
    ensures
        attr_of(sdp, p) matches Some(t) ==> text::one_line(t) && text::trimmed(t) == t,
{
    let lines = text::line_seq(sdp);
    lemma_lines_on_lines(sdp);
    lemma_beginning_on_line(lines, p);
    if let Some(l) = text::first_beginning(lines, p) {
        let value = l.skip(p.len() as int);
        lemma_begins_long_enough(lines, p);
        assert(text::one_line(value));
        lemma_trimmed_again(value);
    }
}

/// A line that begins with `p` is at least as long.
proof fn lemma_begins_long_enough(lines: Seq<Seq<char>>, p: Seq<char>)
    ensures
        text::first_beginning(lines, p) matches Some(l) ==> p.len() <= l.len(),
    decreases lines.len(),
{
    if lines.len() > 0 {
        lemma_begins_long_enough(lines.skip(1), p);
    }
}

/// The number and the name of the audio stream in an offer stand on one line each.
proof fn lemma_stream_on_line(block: Seq<char>, drawn_ssrc: u32, drawn_cname: Seq<u8>)
    ensures
        text::one_line(offer_ssrc(ssrc_in(block), drawn_ssrc)),
        text::one_line(offer_cname(cname_in(block), drawn_cname)),
{
    lemma_attr_on_line(block, "a=ssrc:"@);
    lemma_decimal_on_line(
        if drawn_ssrc == 0 {
            1
        } else {
            drawn_ssrc as nat
        },
    );
    if let Some(rest) = attr_of(block, "a=ssrc:"@) {
        lemma_leading_digits(rest);
    }
    let lines = text::line_seq(block);
    let key = " cname:"@;
    lemma_lines_on_lines(block);
    lemma_holding_on_line(lines, key);
    if let Some(l) = text::first_holding(lines, key) {
        text::lemma_occurrence(l, key, 0);
        if let Some((_, name)) = text::parted(l, key) {
            assert(text::one_line(name));
            lemma_trimmed_again(name);
        }
    }
    util::lemma_base64_chars(drawn_cname);
    let t = util::base64_text(drawn_cname);
    assert forall|i: int| 0 <= i < t.len() implies t[i] != '\n' by {
        let c = util::base64_text(drawn_cname)[i];
        assert('A' <= c <= 'Z' || 'a' <= c <= 'z' || '0' <= c <= '9' || c == '+' || c == '/' || c
            == '=');
    }
}

proof fn lemma_leading_digits(s: Seq<char>)
    ensures
        0 <= crate::sdp::leading_digits(s) <= s.len(),
    decreases s.len(),
{
    if s.len() > 0 && text::digit(s[0]) {
        lemma_leading_digits(s.skip(1));
    }
}

// ---------------------------------------------------------------------------
// The members of an offer
// ---------------------------------------------------------------------------

/// The members of the common part of an offer.
proof fn lemma_common_members(parts: OfferModel, key: Seq<u8>)
    ensures
        ({
            let o = offer_common(parts, key)->Object_0;
            &&& has_text(o, "iO"@, parts.origin)
            &&& has_text(o, "iT"@, "0 0"@)
            &&& has_text(
                o,
                "iG"@,
                text::decimal(parts.audio_mid as nat) + " "@ + text::decimal(
                    parts.video_mid as nat,
                ),
            )
            &&& has_text(o, "isc"@, "WMS Lo"@)
            &&& !o.dom().contains("ic"@)
            &&& has_text(o, "r"@, "9 IN IP4 0.0.0.0"@)
            &&& has_text(o, "u"@, parts.ufrag)
            &&& has_text(o, "p"@, parts.pwd)
            &&& has_text(o, "o"@, "trickle renomination"@)
            &&& has_text(o, "ft"@, parts.fingerprint)
            &&& has_text(o, "s"@, parts.setup)
        }),
{
    reveal_strlit("v");
    reveal_strlit("iO");
    reveal_strlit("is");
    reveal_strlit("iT");
    reveal_strlit("iG");
    reveal_strlit("isc");
    reveal_strlit("ic");
    reveal_strlit("I");
    reveal_strlit("r");
    reveal_strlit("u");
    reveal_strlit("p");
    reveal_strlit("o");
    reveal_strlit("ft");
    reveal_strlit("s");
    reveal_strlit("ll");
    reveal_strlit("abs");
    reveal_strlit("tcc");
    reveal_strlit("pp");
    reveal_strlit("sk");
    reveal_strlit("rk");
    assert("v"@.len() == 1 && "I"@.len() == 1 && "r"@.len() == 1 && "u"@.len() == 1);
    assert("p"@.len() == 1 && "o"@.len() == 1 && "s"@.len() == 1);
    assert("isc"@.len() == 3 && "abs"@.len() == 3 && "tcc"@.len() == 3);
    assert("iO"@.len() == 2 && "is"@.len() == 2 && "iT"@.len() == 2 && "iG"@.len() == 2);
    assert("ic"@.len() == 2 && "ft"@.len() == 2 && "ll"@.len() == 2 && "pp"@.len() == 2);
    assert("sk"@.len() == 2 && "rk"@.len() == 2);
    assert("v"@[0] == 'v' && "I"@[0] == 'I' && "r"@[0] == 'r' && "u"@[0] == 'u');
    assert("p"@[0] == 'p' && "o"@[0] == 'o' && "s"@[0] == 's');
    assert("isc"@[0] == 'i' && "abs"@[0] == 'a' && "tcc"@[0] == 't');
    assert("iO"@[1] == 'O' && "is"@[1] == 's' && "iT"@[1] == 'T' && "iG"@[1] == 'G');
    assert("ic"@[1] == 'c' && "ft"@[1] == 't' && "ll"@[1] == 'l' && "pp"@[1] == 'p');
    assert("sk"@[1] == 'k' && "rk"@[1] == 'k');
}

/// The members of the audio part of an offer that are texts or hold one.
proof fn lemma_audio_members(mid: u8, ssrc: Seq<char>, cname: Seq<char>)
    ensures
        ({
            let o = offer_audio(mid, ssrc, cname)->Object_0;
            &&& o["sc"@] == JsonModel::Array(seq![JsonModel::Text(ssrc)])
            &&& has_text(o, "ce"@, cname)
            &&& has_text(o, "md"@, "Lo AID"@)
        }),
{
    reveal_strlit("sc");
    reveal_strlit("ce");
    reveal_strlit("md");
    reveal_strlit("pts");
    reveal_strlit("m");
    assert("sc"@.len() == 2 && "ce"@.len() == 2 && "md"@.len() == 2);
    assert("pts"@.len() == 3 && "m"@.len() == 1);
    assert("sc"@[0] == 's' && "ce"@[0] == 'c' && "md"@[0] == 'm');
}

/// The members of the video part of an offer that are texts or hold none.
proof fn lemma_video_members(mid: u8)
    ensures
        ({
            let o = offer_video(mid)->Object_0;
            &&& o["sc"@] == JsonModel::Array(Seq::empty())
            &&& has_text(o, "ce"@, ""@)
            &&& has_text(o, "md"@, ""@)
        }),
{
    reveal_strlit("sc");
    reveal_strlit("ce");
    reveal_strlit("md");
    reveal_strlit("m");
    reveal_strlit("pts");
    reveal_strlit("rtx");
    reveal_strlit("red");
    reveal_strlit("fec");
    reveal_strlit("fmtp");
    assert("sc"@.len() == 2 && "ce"@.len() == 2 && "md"@.len() == 2);
    assert("pts"@.len() == 3 && "m"@.len() == 1 && "rtx"@.len() == 3 && "red"@.len() == 3);
    assert("fec"@.len() == 3 && "fmtp"@.len() == 4);
    assert("sc"@[0] == 's' && "ce"@[0] == 'c' && "md"@[0] == 'm');
}

/// The parts of an offer.
proof fn lemma_offer_members(
    parts: OfferModel,
    drawn_ssrc: u32,
    drawn_cname: Seq<u8>,
    key: Seq<u8>,
)
    ensures
        ({
            let o = offer_model(parts, drawn_ssrc, drawn_cname, key)->Object_0;
            &&& o["video"@] == offer_video(parts.video_mid)
            &&& o["audio"@] == offer_audio(
                parts.audio_mid,
                offer_ssrc(parts.ssrc, drawn_ssrc),
                offer_cname(parts.cname, drawn_cname),
            )
            &&& o["com"@] == offer_common(parts, key)
        }),
{
    reveal_strlit("video");
    reveal_strlit("audio");
    reveal_strlit("com");
    assert("video"@.len() == 5 && "audio"@.len() == 5 && "com"@.len() == 3);
    assert("video"@[0] == 'v' && "audio"@[0] == 'a');
}

/// The number of a stream in a list of none or one.
proof fn lemma_ssrc_of_list(sc: Json, ssrc: Seq<char>)
    requires
        plain_list(sc),
    ensures
        sc@ == JsonModel::Array(seq![JsonModel::Text(ssrc)]) ==> ssrc_text(sc) == ssrc,
        sc@ == JsonModel::Array(Seq::empty()) ==> ssrc_text(sc).len() == 0,
{
    let items = sc->Array_0@;
    assert(sc@ == JsonModel::Array(Json::item_models(items)));
    reveal_with_fuel(Json::item_models, 3);
    if items.len() > 0 {
        assert(Json::item_models(items).len() > 0);
        if items.len() > 1 {
            assert(Json::item_models(items.drop_last()).len() > 0);
        } else {
            assert(items.last() == items[0]);
            assert(Json::item_models(items)[0] == items[0]@);
            assert(!(items[0] is Fraction));
        }
    }
}

// ---------------------------------------------------------------------------
// The law
// ---------------------------------------------------------------------------

/// The texts that every offer holds stand on one line each.
proof fn lemma_words_on_line()
    ensures
        text::one_line("0 0"@),
        text::one_line(" "@),
        text::one_line(""@),
        text::one_line("WMS Lo"@),
        text::one_line("9 IN IP4 0.0.0.0"@),
        text::one_line("trickle renomination"@),
        text::one_line("Lo AID"@),
{
    reveal_strlit("0 0");
    reveal_strlit(" ");
    reveal_strlit("");
    reveal_strlit("WMS Lo");
    reveal_strlit("9 IN IP4 0.0.0.0");
    reveal_strlit("trickle renomination");
    reveal_strlit("Lo AID");
}

/// What is read from the common part of an offer is what it was made of.
proof fn lemma_common_read(parts: OfferModel, key: Seq<u8>, com: Com)
    requires
        common_read(com, offer_common(parts, key)->Object_0),
    ensures
        com.io@ == parts.origin,
        com.it@ == "0 0"@,
        com.ig@ == text::decimal(parts.audio_mid as nat) + " "@ + text::decimal(
            parts.video_mid as nat,
        ),
        com.isc@ == "WMS Lo"@,
        com.ic@.len() == 0,
        com.r@ == "9 IN IP4 0.0.0.0"@,
        com.u@ == parts.ufrag,
        com.p@ == parts.pwd,
        com.o@ == "trickle renomination"@,
        com.ft@ == parts.fingerprint,
        com.s@ == parts.setup,
{
    lemma_common_members(parts, key);
}

/// No text of the common part of an offer holds a line feed.
proof fn lemma_common_on_lines(sdp: Seq<char>, key: Seq<u8>, com: Com)
    requires
        offer_error(sdp) is None,
        common_read(com, offer_common(offer_parts(sdp), key)->Object_0),
    ensures
        com_on_lines(com),
{
    let parts = offer_parts(sdp);
    lemma_common_read(parts, key, com);
    lemma_words_on_line();
    lemma_attr_on_line(sdp, "o="@);
    lemma_attr_on_line(sdp, "a=ice-ufrag:"@);
    lemma_attr_on_line(sdp, "a=ice-pwd:"@);
    lemma_attr_on_line(sdp, "a=fingerprint:"@);
    lemma_attr_on_line(sdp, "a=setup:"@);
    let left = text::decimal(parts.audio_mid as nat);
    let right = text::decimal(parts.video_mid as nat);
    lemma_decimal_on_line(parts.audio_mid as nat);
    lemma_decimal_on_line(parts.video_mid as nat);
    lemma_cat_on_line(left, " "@);
    lemma_cat_on_line(left + " "@, right);
}

/// No text of the audio part of an offer holds a line feed.
proof fn lemma_audio_on_lines(mid: u8, ssrc: Seq<char>, cname: Seq<char>, m: MLine)
    requires
        medium_read(m, offer_audio(mid, ssrc, cname)->Object_0),
        text::one_line(ssrc),
        text::one_line(cname),
    ensures
        medium_on_lines(m, ssrc_text(m.sc)),
{
    lemma_audio_members(mid, ssrc, cname);
    lemma_words_on_line();
    lemma_ssrc_of_list(m.sc, ssrc);
}

/// No text of the video part of an offer holds a line feed.
proof fn lemma_video_on_lines(mid: u8, m: MLine)
    requires
        medium_read(m, offer_video(mid)->Object_0),
    ensures
        medium_on_lines(m, ssrc_text(m.sc)),
{
    lemma_video_members(mid);
    lemma_words_on_line();
    lemma_ssrc_of_list(m.sc, ""@);
}

/// No text of an answer that an offer is read as holds a line feed.
proof fn lemma_offer_on_lines(
    sdp: Seq<char>,
    drawn_ssrc: u32,
    drawn_cname: Seq<u8>,
    key: Seq<u8>,
    a: Answer,
)
    requires
        offer_error(sdp) is None,
        answer_read(a, offer_model(offer_parts(sdp), drawn_ssrc, drawn_cname, key)->Object_0),
    ensures
        com_on_lines(a.com),
        medium_on_lines(a.audio, ssrc_text(a.audio.sc)),
        medium_on_lines(a.video, ssrc_text(a.video.sc)),
        common_read(a.com, offer_common(offer_parts(sdp), key)->Object_0),
{
    let parts = offer_parts(sdp);
    lemma_offer_members(parts, drawn_ssrc, drawn_cname, key);
    lemma_common_on_lines(sdp, key, a.com);
    lemma_stream_on_line(audio_block(sdp), drawn_ssrc, drawn_cname);
    lemma_audio_on_lines(
        parts.audio_mid,
        offer_ssrc(parts.ssrc, drawn_ssrc),
        offer_cname(parts.cname, drawn_cname),
        a.audio,
    );
    lemma_video_on_lines(parts.video_mid, a.video);
}

/// A section says its number.
proof fn lemma_number_in_section(kind: Medium, m: MLine, ssrc: Seq<char>, com: Com, mid: u8)
    ensures
        media_lines(kind, m, ssrc, com, mid).contains("a=mid:"@ + text::decimal(mid as nat)),
{
    let lines = media_lines(kind, m, ssrc, com, mid);
    let front = crate::sdp::answer::head_lines(kind, m, com) + crate::sdp::answer::ssrc_lines(
        ssrc,
        m,
    );
    let i = front.len() + 6;
    assert(lines[i as int] == crate::sdp::answer::transport_lines(com, mid)[6]);
}

/// The description that an answer stands for says the numbers of both sections.
proof fn lemma_numbers_in_answer(
    a: Answer,
    audio_ssrc: Seq<char>,
    video_ssrc: Seq<char>,
    audio_mid: u8,
    video_mid: u8,
)
    ensures
        answer_lines(a, audio_ssrc, video_ssrc, audio_mid, video_mid).contains(
            "a=mid:"@ + text::decimal(audio_mid as nat),
        ),
        answer_lines(a, audio_ssrc, video_ssrc, audio_mid, video_mid).contains(
            "a=mid:"@ + text::decimal(video_mid as nat),
        ),
{
    let lines = answer_lines(a, audio_ssrc, video_ssrc, audio_mid, video_mid);
    let front = session_lines(a.com);
    let audio = media_lines(Medium::Audio, a.audio, audio_ssrc, a.com, audio_mid);
    let video = media_lines(Medium::Video, a.video, video_ssrc, a.com, video_mid);
    lemma_number_in_section(Medium::Audio, a.audio, audio_ssrc, a.com, audio_mid);
    lemma_number_in_section(Medium::Video, a.video, video_ssrc, a.com, video_mid);
    let x = "a=mid:"@ + text::decimal(audio_mid as nat);
    let y = "a=mid:"@ + text::decimal(video_mid as nat);
    let i = choose|i: int| 0 <= i < audio.len() && audio[i] == x;
    let j = choose|j: int| 0 <= j < video.len() && video[j] == y;
    if audio_mid < video_mid {
        assert(lines[front.len() + i] == x);
        assert(lines[front.len() + audio.len() + j] == y);
    } else {
        assert(lines[front.len() + video.len() + i] == x);
        assert(lines[front.len() + j] == y);
    }
}

/// The compact offer that a description is made into, read as an answer, stands for a description
/// from which the origin and the transport are read as from the first one, and which has both
/// section numbers. `a` is the answer that the JSON text of the offer is read as.
pub proof fn law_offer_read_back(
    sdp: Seq<char>,
    drawn_ssrc: u32,
    drawn_cname: Seq<u8>,
    key: Seq<u8>,
    a: Answer,
)
    requires
        offer_error(sdp) is None,
        answer_read(a, offer_model(offer_parts(sdp), drawn_ssrc, drawn_cname, key)->Object_0),
    ensures
        payload_of(offer_text(sdp, drawn_ssrc, drawn_cname, key)) == Some(
            json_text(offer_model(offer_parts(sdp), drawn_ssrc, drawn_cname, key)),
        ),
        ({
            let s = answer_text(
                a,
                ssrc_text(a.audio.sc),
                ssrc_text(a.video.sc),
                audio_mid_of(sdp),
                video_mid_of(sdp),
            );
            &&& attr_of(s, "o="@) == attr_of(sdp, "o="@)
            &&& attr_of(s, "a=ice-ufrag:"@) == attr_of(sdp, "a=ice-ufrag:"@)
            &&& attr_of(s, "a=ice-pwd:"@) == attr_of(sdp, "a=ice-pwd:"@)
            &&& attr_of(s, "a=fingerprint:"@) == attr_of(sdp, "a=fingerprint:"@)
            &&& attr_of(s, "a=setup:"@) == attr_of(sdp, "a=setup:"@)
            &&& text::line_seq(s).contains("a=mid:"@ + text::decimal(audio_mid_of(sdp) as nat))
            &&& text::line_seq(s).contains("a=mid:"@ + text::decimal(video_mid_of(sdp) as nat))
        }),
{
    let audio_ssrc = ssrc_text(a.audio.sc);
    let video_ssrc = ssrc_text(a.video.sc);
    let audio_mid = audio_mid_of(sdp);
    let video_mid = video_mid_of(sdp);
    law_framed(json_text(offer_model(offer_parts(sdp), drawn_ssrc, drawn_cname, key)));
    lemma_offer_on_lines(sdp, drawn_ssrc, drawn_cname, key, a);
    law_answer_lines(a, audio_ssrc, video_ssrc, audio_mid, video_mid);
    law_answer_transport(a, audio_ssrc, video_ssrc, audio_mid, video_mid);
    lemma_attr_on_line(sdp, "o="@);
    lemma_attr_on_line(sdp, "a=ice-ufrag:"@);
    lemma_attr_on_line(sdp, "a=ice-pwd:"@);
    lemma_attr_on_line(sdp, "a=fingerprint:"@);
    lemma_attr_on_line(sdp, "a=setup:"@);
    lemma_common_read(offer_parts(sdp), key, a.com);
    lemma_numbers_in_answer(a, audio_ssrc, video_ssrc, audio_mid, video_mid);
}

} // verus!
