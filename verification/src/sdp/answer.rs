//! Compact answers, and the description that one stands for.

use vstd::prelude::*;
use vstd::string::*;

use crate::json::json_text;
use crate::json::Json;
use crate::sdp::compact_prefix;
use crate::sdp::SdpError;
use crate::text;

verus! {

/// The common part of a compact answer.
pub struct Com {
    pub io: String,
    pub is: i32,
    pub it: String,
    pub ig: String,
    pub isc: String,
    pub ic: String,
    pub r: String,
    pub u: String,
    pub p: String,
    pub o: String,
    pub ft: String,
    pub s: String,
}

/// The part of a compact answer for one medium.
pub struct MLine {
    pub sr: i32,
    pub dc: i32,
    pub pt: u32,
    pub fbc: u32,
    pub rm: i32,
    pub rr: i32,
    pub rs: i32,
    pub sc: Json,
    pub ce: String,
    pub md: String,
    pub m: u32,
    pub pts: u32,
}

/// A compact answer.
pub struct Answer {
    pub video: MLine,
    pub audio: MLine,
    pub com: Com,
}

/// The medium of a section.
#[derive(Clone, Copy, PartialEq, Eq, Debug, Structural)]
pub enum Medium {
    Audio,
    Video,
}

impl Medium {
    /// What the section is called.
    pub open spec fn name_text(self) -> Seq<char> {
        match self {
            Medium::Audio => "audio"@,
            Medium::Video => "video"@,
        }
    }

    /// What the section is called.
    pub fn name(self) -> (r: &'static str)
        ensures
            r@ == self.name_text(),
    {
        match self {
            Medium::Audio => "audio",
            Medium::Video => "video",
        }
    }
}

/// The number of a stream that a JSON value gives: a text itself, or the first item of an array,
/// a text itself or another value by its JSON text; otherwise an empty text.
pub open spec fn ssrc_text(value: Json) -> Seq<char> {
    match value {
        Json::Text(t) => t@,
        Json::Array(items) => if items@.len() == 0 {
            Seq::empty()
        } else {
            match items@[0] {
                Json::Text(t) => t@,
                other => json_text(other@),
            }
        },
        _ => Seq::empty(),
    }
}

/// The number of a stream that a JSON value gives, as a text.
pub fn ssrc_of(value: &Json) -> (r: String)
    ensures
        r@ == ssrc_text(*value),
{
    match value {
        Json::Text(t) => t.clone(),
        Json::Array(items) => {
            if items.len() == 0 {
                String::new()
            } else {
                match &items[0] {
                    Json::Text(t) => t.clone(),
                    other => other.to_text(),
                }
            }
        },
        _ => String::new(),
    }
}

/// The line, where the condition holds.
pub open spec fn line_if(holds: bool, l: Seq<char>) -> Seq<Seq<char>> {
    if holds {
        seq![l]
    } else {
        Seq::empty()
    }
}

/// The lines before the media sections.
pub open spec fn session_lines(com: Com) -> Seq<Seq<char>> {
    seq!["v=0"@, "o="@ + com.io@] + line_if(com.is == 1, "s=-"@) + seq![
        "t="@ + com.it@,
        "a=group:"@ + com.ig@,
        "a=msid-semantic:"@ + com.isc@,
    ]
}

/// The first line of a media section.
pub open spec fn media_line(kind: Medium, m: MLine) -> Seq<char> {
    "m="@ + kind.name_text() + " "@ + text::decimal(m.m as nat) + " UDP/TLS/RTP/SAVPF "@
        + text::decimal(m.pt as nat)
}

/// The stream and the track that a `msid` names: what stands before and after its first space.
pub open spec fn msid_parts(md: Seq<char>) -> (Seq<char>, Seq<char>) {
    match text::parted(md, " "@) {
        Some(parts) => parts,
        None => (md, ""@),
    }
}

/// One line on the stream with the number `ssrc`.
pub open spec fn ssrc_line(ssrc: Seq<char>, key: Seq<char>, value: Seq<char>) -> Seq<char> {
    "a=ssrc:"@ + ssrc + key + value
}

/// The lines on the stream with the number `ssrc`; none where it has no number.
pub open spec fn ssrc_lines(ssrc: Seq<char>, m: MLine) -> Seq<Seq<char>> {
    if ssrc.len() == 0 {
        Seq::empty()
    } else {
        let (stream, track) = msid_parts(m.md@);
        seq![
            ssrc_line(ssrc, " cname:"@, m.ce@),
            ssrc_line(ssrc, " msid:"@, m.md@),
            ssrc_line(ssrc, " mslabel:"@, stream),
            ssrc_line(ssrc, " label:"@, track),
        ]
    }
}

/// The lines on the transport of a section.
pub open spec fn transport_lines(com: Com, mid: u8) -> Seq<Seq<char>> {
    seq![
        "a=rtcp:"@ + com.r@,
        "a=ice-ufrag:"@ + com.u@,
        "a=ice-pwd:"@ + com.p@,
        "a=ice-options:"@ + com.o@,
        "a=fingerprint:"@ + com.ft@,
        "a=setup:"@ + com.s@,
        "a=mid:"@ + text::decimal(mid as nat),
    ]
}

/// The line that gives the codec of the payload type.
pub open spec fn rtpmap_line(m: MLine, codec: Seq<char>) -> Seq<char> {
    "a=rtpmap:"@ + text::decimal(m.pt as nat) + codec + text::decimal(m.pts as nat)
}

/// The lines on direction, multiplexing and codec of a section.
pub open spec fn codec_lines(kind: Medium, m: MLine) -> Seq<Seq<char>> {
    match kind {
        Medium::Video => line_if(m.sr == 0, "a=sendonly"@) + line_if(m.rm == 1, "a=rtcp-mux"@)
            + line_if(m.rs == 1, "a=rtcp-rsize"@) + seq![
            rtpmap_line(
                m,
                if m.dc == 1 {
                    " H265/"@
                } else {
                    " H264/"@
                },
            ),
        ],
        Medium::Audio => line_if(m.rm == 1, "a=rtcp-mux"@) + line_if(m.sr == 1, "a=sendrecv"@)
            + line_if(m.rr == 1 || m.rs == 1, "a=rtcp-rsize"@) + seq![rtpmap_line(m, " AAC/"@)],
    }
}

/// The line on one kind of feedback.
pub open spec fn feedback_line(m: MLine, name: Seq<char>) -> Seq<char> {
    "a=rtcp-fb:"@ + text::decimal(m.pt as nat) + name
}

/// The lines on the kinds of feedback whose bits are set.
pub open spec fn feedback_lines(m: MLine) -> Seq<Seq<char>> {
    line_if(m.fbc & 1 != 0, feedback_line(m, " goog-remb"@)) + line_if(
        m.fbc & 2 != 0,
        feedback_line(m, " transport-cc"@),
    ) + line_if(m.fbc & 4 != 0, feedback_line(m, " ccm fir"@)) + line_if(
        m.fbc & 8 != 0,
        feedback_line(m, " nack pli"@),
    ) + line_if(m.fbc & 16 != 0, feedback_line(m, " nack"@))
}

/// The lines that a media section begins with.
pub open spec fn head_lines(kind: Medium, m: MLine, com: Com) -> Seq<Seq<char>> {
    seq![media_line(kind, m)] + line_if(com.ic@.len() > 0, "a=candidate:"@ + com.ic@) + seq![
        "a=msid:"@ + m.md@,
    ]
}

/// The lines of a media section.
pub open spec fn media_lines(
    kind: Medium,
    m: MLine,
    ssrc: Seq<char>,
    com: Com,
    mid: u8,
) -> Seq<Seq<char>> {
    head_lines(kind, m, com) + ssrc_lines(ssrc, m) + transport_lines(com, mid) + codec_lines(
        kind,
        m,
    ) + feedback_lines(m)
}

/// The lines of the description that an answer stands for: the section with the smaller number
/// comes first, the video section where the numbers are the same.
pub open spec fn answer_lines(
    a: Answer,
    audio_ssrc: Seq<char>,
    video_ssrc: Seq<char>,
    audio_mid: u8,
    video_mid: u8,
) -> Seq<Seq<char>> {
    let audio = media_lines(Medium::Audio, a.audio, audio_ssrc, a.com, audio_mid);
    let video = media_lines(Medium::Video, a.video, video_ssrc, a.com, video_mid);
    if audio_mid < video_mid {
        session_lines(a.com) + audio + video
    } else {
        session_lines(a.com) + video + audio
    }
}

/// Appends the line, where the condition holds.
fn push_if(lines: &mut Vec<String>, holds: bool, l: &str)
    ensures
        text::texts(final(lines)@) == text::texts(old(lines)@) + line_if(holds, l@),
{
    if holds {
        lines.push(l.to_owned());
    }
    assert(text::texts(lines@) =~= text::texts(old(lines)@) + line_if(holds, l@));
}

/// Appends the line `key` and then `value`.
fn push_pair(lines: &mut Vec<String>, key: &str, value: &str)
    ensures
        text::texts(final(lines)@) == text::texts(old(lines)@).push(key@ + value@),
{
    lines.push(text::cat(key, value));
    assert(text::texts(lines@) =~= text::texts(old(lines)@).push(key@ + value@));
}

/// Appends the lines before the media sections.
fn push_session(lines: &mut Vec<String>, com: &Com)
    ensures
        text::texts(final(lines)@) == text::texts(old(lines)@) + session_lines(*com),
{
    push_if(lines, true, "v=0");
    push_pair(lines, "o=", com.io.as_str());
    push_if(lines, com.is == 1, "s=-");
    push_pair(lines, "t=", com.it.as_str());
    push_pair(lines, "a=group:", com.ig.as_str());
    push_pair(lines, "a=msid-semantic:", com.isc.as_str());
    assert(text::texts(lines@) =~= text::texts(old(lines)@) + session_lines(*com));
}

/// Appends one line on the stream with the number `ssrc`.
fn push_ssrc(lines: &mut Vec<String>, ssrc: &str, key: &str, value: &str)
    ensures
        text::texts(final(lines)@) == text::texts(old(lines)@).push(ssrc_line(ssrc@, key@, value@)),
{
    let mut l = text::cat3("a=ssrc:", ssrc, key);
    l.append(value);
    lines.push(l);
    assert(text::texts(lines@) =~= text::texts(old(lines)@).push(
        ssrc_line(ssrc@, key@, value@),
    ));
}

/// Appends the lines on the stream with the number `ssrc`.
fn push_stream(lines: &mut Vec<String>, ssrc: &str, m: &MLine)
    ensures
        text::texts(final(lines)@) == text::texts(old(lines)@) + ssrc_lines(ssrc@, *m),
{
    if !ssrc.is_empty() {
        let (stream, track) = match text::split_once(m.md.as_str(), " ") {
            Some(parts) => parts,
            None => (m.md.as_str(), ""),
        };
        push_ssrc(lines, ssrc, " cname:", m.ce.as_str());
        push_ssrc(lines, ssrc, " msid:", m.md.as_str());
        push_ssrc(lines, ssrc, " mslabel:", stream);
        push_ssrc(lines, ssrc, " label:", track);
    }
    assert(text::texts(lines@) =~= text::texts(old(lines)@) + ssrc_lines(ssrc@, *m));
}

/// Appends the lines on the transport of a section.
fn push_transport(lines: &mut Vec<String>, com: &Com, mid: u8)
    ensures
        text::texts(final(lines)@) == text::texts(old(lines)@) + transport_lines(*com, mid),
{
    push_pair(lines, "a=rtcp:", com.r.as_str());
    push_pair(lines, "a=ice-ufrag:", com.u.as_str());
    push_pair(lines, "a=ice-pwd:", com.p.as_str());
    push_pair(lines, "a=ice-options:", com.o.as_str());
    push_pair(lines, "a=fingerprint:", com.ft.as_str());
    push_pair(lines, "a=setup:", com.s.as_str());
    push_pair(lines, "a=mid:", text::decimal_text(mid as u64).as_str());
    assert(text::texts(lines@) =~= text::texts(old(lines)@) + transport_lines(*com, mid));
}

/// Appends the line that gives the codec of the payload type.
fn push_rtpmap(lines: &mut Vec<String>, m: &MLine, codec: &str)
    ensures
        text::texts(final(lines)@) == text::texts(old(lines)@).push(rtpmap_line(*m, codec@)),
{
    let mut l = text::cat3("a=rtpmap:", text::decimal_text(m.pt as u64).as_str(), codec);
    text::push_decimal(&mut l, m.pts as u64);
    lines.push(l);
    assert(text::texts(lines@) =~= text::texts(old(lines)@).push(rtpmap_line(*m, codec@)));
}

/// Appends the lines on direction, multiplexing and codec of a section.
fn push_codec(lines: &mut Vec<String>, kind: Medium, m: &MLine)
    ensures
        text::texts(final(lines)@) == text::texts(old(lines)@) + codec_lines(kind, *m),
{
    match kind {
        Medium::Video => {
            push_if(lines, m.sr == 0, "a=sendonly");
            push_if(lines, m.rm == 1, "a=rtcp-mux");
            push_if(lines, m.rs == 1, "a=rtcp-rsize");
            let codec: &str = if m.dc == 1 {
                " H265/"
            } else {
                " H264/"
            };
            push_rtpmap(lines, m, codec);
        },
        Medium::Audio => {
            push_if(lines, m.rm == 1, "a=rtcp-mux");
            push_if(lines, m.sr == 1, "a=sendrecv");
            push_if(lines, m.rr == 1 || m.rs == 1, "a=rtcp-rsize");
            push_rtpmap(lines, m, " AAC/");
        },
    }
    assert(text::texts(lines@) =~= text::texts(old(lines)@) + codec_lines(kind, *m));
}

/// Appends the line on one kind of feedback, where its bit is set.
fn push_feedback(lines: &mut Vec<String>, m: &MLine, set: bool, name: &str)
    ensures
        text::texts(final(lines)@) == text::texts(old(lines)@) + line_if(
            set,
            feedback_line(*m, name@),
        ),
{
    let l = text::cat3("a=rtcp-fb:", text::decimal_text(m.pt as u64).as_str(), name);
    push_if(lines, set, l.as_str());
}

/// Appends the lines on the kinds of feedback whose bits are set.
fn push_feedbacks(lines: &mut Vec<String>, m: &MLine)
    ensures
        text::texts(final(lines)@) == text::texts(old(lines)@) + feedback_lines(*m),
{
    push_feedback(lines, m, m.fbc & 1 != 0, " goog-remb");
    push_feedback(lines, m, m.fbc & 2 != 0, " transport-cc");
    push_feedback(lines, m, m.fbc & 4 != 0, " ccm fir");
    push_feedback(lines, m, m.fbc & 8 != 0, " nack pli");
    push_feedback(lines, m, m.fbc & 16 != 0, " nack");
    assert(text::texts(lines@) =~= text::texts(old(lines)@) + feedback_lines(*m));
}

/// Appends the lines that a media section begins with.
fn push_head(lines: &mut Vec<String>, kind: Medium, m: &MLine, com: &Com)
    ensures
        text::texts(final(lines)@) == text::texts(old(lines)@) + head_lines(kind, *m, *com),
{
    let mut first = text::cat3("m=", kind.name(), " ");
    text::push_decimal(&mut first, m.m as u64);
    first.append(" UDP/TLS/RTP/SAVPF ");
    text::push_decimal(&mut first, m.pt as u64);
    push_if(lines, true, first.as_str());
    let candidate = text::cat("a=candidate:", com.ic.as_str());
    push_if(lines, !com.ic.as_str().is_empty(), candidate.as_str());
    push_pair(lines, "a=msid:", m.md.as_str());
    assert(text::texts(lines@) =~= text::texts(old(lines)@) + head_lines(kind, *m, *com));
}

/// Appending five groups one by one is appending them all.
proof fn lemma_groups(
    before: Seq<Seq<char>>,
    a: Seq<Seq<char>>,
    b: Seq<Seq<char>>,
    c: Seq<Seq<char>>,
    d: Seq<Seq<char>>,
    e: Seq<Seq<char>>,
)
    ensures
        before + a + b + c + d + e == before + (a + b + c + d + e),
{
    assert(before + a + b + c + d + e =~= before + (a + b + c + d + e));
}

/// Appends the lines of a media section. `ssrc` is the number of its stream, empty where it has
/// none.
fn push_lines(lines: &mut Vec<String>, kind: Medium, m: &MLine, ssrc: &str, com: &Com, mid: u8)
    ensures
        text::texts(final(lines)@) == text::texts(old(lines)@) + media_lines(
            kind,
            *m,
            ssrc@,
            *com,
            mid,
        ),
{
    push_head(lines, kind, m, com);
    push_stream(lines, ssrc, m);
    push_transport(lines, com, mid);
    push_codec(lines, kind, m);
    push_feedbacks(lines, m);
    proof {
        lemma_groups(
            text::texts(old(lines)@),
            head_lines(kind, *m, *com),
            ssrc_lines(ssrc@, *m),
            transport_lines(*com, mid),
            codec_lines(kind, *m),
            feedback_lines(*m),
        );
    }
}

/// The text of a media section.
pub open spec fn section_text(
    kind: Medium,
    m: MLine,
    ssrc: Seq<char>,
    com: Com,
    mid: u8,
) -> Seq<char> {
    text::crlf_text(media_lines(kind, m, ssrc, com, mid))
}

/// Appends a media section to a description, with a given number of its stream, empty where it
/// has none.
pub fn push_section(
    sdp: &mut String,
    kind: Medium,
    m: &MLine,
    ssrc: &str,
    com: &Com,
    mid: u8,
)
    ensures
        final(sdp)@ == old(sdp)@ + section_text(kind, *m, ssrc@, *com, mid),
{
    let mut lines: Vec<String> = Vec::new();
    push_lines(&mut lines, kind, m, ssrc, com, mid);
    assert(text::texts(lines@) =~= media_lines(kind, *m, ssrc@, *com, mid));
    sdp.append(text::write_lines(&lines).as_str());
}

/// Appends a media section to a description. What is appended depends on nothing that stands
/// there; it begins with `m=`, the medium and a space, and ends with a carriage return and a line
/// feed.
pub fn push_media(sdp: &mut String, kind: Medium, m: &MLine, com: &Com, mid: u8)
    ensures
        final(sdp)@ == old(sdp)@ + section_text(kind, *m, ssrc_text(m.sc), *com, mid),
        ("m="@ + kind.name_text() + " "@).is_prefix_of(
            final(sdp)@.skip(old(sdp)@.len() as int),
        ),
        seq!['\r', '\n'].is_suffix_of(final(sdp)@.skip(old(sdp)@.len() as int)),
{
    let ghost before = sdp@;
    let ssrc = ssrc_of(&m.sc);
    push_section(sdp, kind, m, ssrc.as_str(), com, mid);
    proof {
        crate::sdp::laws::law_section_appended(Seq::empty(), kind, *m, *com, mid);
        let t = section_text(kind, *m, ssrc@, *com, mid);
        assert(sdp@.skip(before.len() as int) =~= t);
    }
}

/// The text of the description that an answer stands for.
pub open spec fn answer_text(
    a: Answer,
    audio_ssrc: Seq<char>,
    video_ssrc: Seq<char>,
    audio_mid: u8,
    video_mid: u8,
) -> Seq<char> {
    text::crlf_text(answer_lines(a, audio_ssrc, video_ssrc, audio_mid, video_mid))
}

/// The text of the description is that of the lines before the sections and then those of the
/// sections.
pub(crate) proof fn lemma_answer_text(
    a: Answer,
    audio_ssrc: Seq<char>,
    video_ssrc: Seq<char>,
    audio_mid: u8,
    video_mid: u8,
)
    ensures
        ({
            let audio = section_text(Medium::Audio, a.audio, audio_ssrc, a.com, audio_mid);
            let video = section_text(Medium::Video, a.video, video_ssrc, a.com, video_mid);
            let front = text::crlf_text(session_lines(a.com));
            answer_text(a, audio_ssrc, video_ssrc, audio_mid, video_mid) == (if audio_mid
                < video_mid {
                front + audio + video
            } else {
                front + video + audio
            })
        }),
{
    let s = session_lines(a.com);
    let audio = media_lines(Medium::Audio, a.audio, audio_ssrc, a.com, audio_mid);
    let video = media_lines(Medium::Video, a.video, video_ssrc, a.com, video_mid);
    text::law_text_of_lines_added(s, audio);
    text::law_text_of_lines_added(s + audio, video);
    text::law_text_of_lines_added(s, video);
    text::law_text_of_lines_added(s + video, audio);
}

/// The text before the media sections.
fn session_text(com: &Com) -> (r: String)
    ensures
        r@ == text::crlf_text(session_lines(*com)),
{
    let mut lines: Vec<String> = Vec::new();
    push_session(&mut lines, com);
    assert(text::texts(lines@) =~= session_lines(*com));
    text::write_lines(&lines)
}

/// Writes the description that an answer stands for, with given numbers of the streams.
pub fn write_answer(
    a: &Answer,
    audio_ssrc: &str,
    video_ssrc: &str,
    audio_mid: u8,
    video_mid: u8,
) -> (r: String)
    ensures
        r@ == answer_text(*a, audio_ssrc@, video_ssrc@, audio_mid, video_mid),
{
    let mut sdp = session_text(&a.com);
    if audio_mid < video_mid {
        push_section(&mut sdp, Medium::Audio, &a.audio, audio_ssrc, &a.com, audio_mid);
        push_section(&mut sdp, Medium::Video, &a.video, video_ssrc, &a.com, video_mid);
    } else {
        push_section(&mut sdp, Medium::Video, &a.video, video_ssrc, &a.com, video_mid);
        push_section(&mut sdp, Medium::Audio, &a.audio, audio_ssrc, &a.com, audio_mid);
    }
    proof {
        lemma_answer_text(*a, audio_ssrc@, video_ssrc@, audio_mid, video_mid);
    }
    sdp
}

/// The JSON text of a compact answer: what stands behind the prefix.
pub open spec fn payload_of(compact: Seq<char>) -> Option<Seq<char>> {
    if text::occurs_at(compact, compact_prefix(), 0) {
        Some(compact.skip(compact_prefix().len() as int))
    } else {
        None
    }
}

/// The JSON text of a compact answer: what stands behind the prefix.
pub fn answer_payload<'a>(compact: &'a str) -> (r: Result<&'a str, SdpError>)
    ensures
        match r {
            Ok(t) => payload_of(compact@) == Some(t@),
            Err(e) => payload_of(compact@) is None && e == SdpError::BadPrefix,
        },
{
    let s = text::chars_of(compact);
    let p = text::chars_of("00\r\n");
    if text::stands_at(s.as_slice(), p.as_slice(), 0) {
        let r = compact.substring_char(p.len(), s.len());
        assert(r@ =~= compact@.skip(p@.len() as int));
        Ok(r)
    } else {
        Err(SdpError::BadPrefix)
    }
}

/// Writes the description that a compact answer stands for. `parsed` is the answer that its JSON
/// text, which `answer_payload` gives, was read as.
pub fn decode_answer(
    compact: &str,
    parsed: Option<&Answer>,
    audio_mid: u8,
    video_mid: u8,
) -> (r: Result<String, SdpError>)
    ensures
        match r {
            Ok(t) => payload_of(compact@) is Some && parsed is Some && t@ == answer_text(
                *parsed.unwrap(),
                ssrc_text(parsed.unwrap().audio.sc),
                ssrc_text(parsed.unwrap().video.sc),
                audio_mid,
                video_mid,
            ),
            Err(e) => if payload_of(compact@) is None {
                e == SdpError::BadPrefix
            } else {
                parsed is None && e == SdpError::BadJson
            },
        },
{
    match answer_payload(compact) {
        Ok(_) => match parsed {
            Some(a) => {
                let mut sdp = session_text(&a.com);
                if audio_mid < video_mid {
                    push_media(&mut sdp, Medium::Audio, &a.audio, &a.com, audio_mid);
                    push_media(&mut sdp, Medium::Video, &a.video, &a.com, video_mid);
                } else {
                    push_media(&mut sdp, Medium::Video, &a.video, &a.com, video_mid);
                    push_media(&mut sdp, Medium::Audio, &a.audio, &a.com, audio_mid);
                }
                proof {
                    lemma_answer_text(
                        *a,
                        ssrc_text(a.audio.sc),
                        ssrc_text(a.video.sc),
                        audio_mid,
                        video_mid,
                    );
                }
                Ok(sdp)
            },
            None => Err(SdpError::BadJson),
        },
        Err(e) => Err(e),
    }
}

} // verus!
