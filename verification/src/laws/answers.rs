//! Laws on the description that an answer stands for: what each of its lines says, and when it
//! stands there.

use vstd::prelude::*;
use vstd::string::*;

use crate::json::json_text;
use crate::json::Json;
use crate::sdp::answer;
use crate::sdp::answer::Answer;
use crate::sdp::answer::Com;
use crate::sdp::answer::MLine;
use crate::sdp::answer::Medium;
use crate::sdp::laws::lemma_differs;
use crate::sdp::laws::lemma_none_begins_add;
use crate::sdp::laws::none_begins;
use crate::text;

verus! {

/// The number of a stream is the whole text that is given for it, or that the first item of a list
/// is, or the JSON text of that item where it is no text; otherwise there is none.
pub proof fn law_given_number(t: String, items: Vec<Json>, value: Json)
    ensures
        answer::ssrc_text(Json::Text(t)) == t@,
        items@.len() == 0 ==> answer::ssrc_text(Json::Array(items)).len() == 0,
        items@.len() > 0 ==> (items@[0] matches Json::Text(u) ==> answer::ssrc_text(
            Json::Array(items),
        ) == u@),
        items@.len() > 0 && !(items@[0] is Text) ==> answer::ssrc_text(Json::Array(items))
            == json_text(items@[0]@),
        !(value is Text) && !(value is Array) ==> answer::ssrc_text(value).len() == 0,
{
}

/// The lines before the sections, each with its whole value; the name of the session stands there
/// exactly where the answer says so.
pub proof fn law_session_lines(com: Com)
    ensures
        ({
            let lines = answer::session_lines(com);
            let k: int = if com.is == 1 {
                1
            } else {
                0
            };
            &&& lines.len() == 5 + k
            &&& lines[0] == "v=0"@
            &&& lines[1] == "o="@ + com.io@
            &&& com.is == 1 ==> lines[2] == "s=-"@
            &&& lines[2 + k] == "t="@ + com.it@
            &&& lines[3 + k] == "a=group:"@ + com.ig@
            &&& lines[4 + k] == "a=msid-semantic:"@ + com.isc@
        }),
{
}

/// The first lines of a section: the medium, the port and the payload type, the candidate exactly
/// where there is one, and the stream, each whole.
pub proof fn law_head_lines(kind: Medium, m: MLine, com: Com)
    ensures
        ({
            let lines = answer::head_lines(kind, m, com);
            let name = if kind is Audio {
                "audio"@
            } else {
                "video"@
            };
            let k: int = if com.ic@.len() > 0 {
                1
            } else {
                0
            };
            &&& lines.len() == 2 + k
            &&& lines[0] == "m="@ + name + " "@ + text::decimal(m.m as nat)
                + " UDP/TLS/RTP/SAVPF "@ + text::decimal(m.pt as nat)
            &&& com.ic@.len() > 0 ==> lines[1] == "a=candidate:"@ + com.ic@
            &&& lines[1 + k] == "a=msid:"@ + m.md@
        }),
{
}

/// A stream and a track are what stands before and after the first space; without a space there is
/// only the stream.
pub proof fn law_stream_and_track(md: Seq<char>)
    ensures
        ({
            let (stream, track) = answer::msid_parts(md);
            match text::first_occurrence(md, " "@) {
                Some(_) => md == stream + " "@ + track && (forall|j: int|
                    0 <= j < stream.len() ==> !text::occurs_at(md, " "@, j)),
                None => md == stream && track.len() == 0,
            }
        }),
{
    reveal_strlit("");
    crate::laws::words::law_parted(md, " "@);
}

/// The lines on a stream, each with its whole number and value; none where it has no number.
pub proof fn law_stream_lines(ssrc: Seq<char>, m: MLine)
    ensures
        ssrc.len() == 0 ==> answer::ssrc_lines(ssrc, m).len() == 0,
        ssrc.len() > 0 ==> ({
            let lines = answer::ssrc_lines(ssrc, m);
            let (stream, track) = answer::msid_parts(m.md@);
            &&& lines.len() == 4
            &&& lines[0] == "a=ssrc:"@ + ssrc + " cname:"@ + m.ce@
            &&& lines[1] == "a=ssrc:"@ + ssrc + " msid:"@ + m.md@
            &&& lines[2] == "a=ssrc:"@ + ssrc + " mslabel:"@ + stream
            &&& lines[3] == "a=ssrc:"@ + ssrc + " label:"@ + track
        }),
{
}

/// The lines on the transport, each with its whole value, and the number of the section.
pub proof fn law_transport_lines(com: Com, mid: u8)
    ensures
        ({
            let lines = answer::transport_lines(com, mid);
            &&& lines.len() == 7
            &&& lines[0] == "a=rtcp:"@ + com.r@
            &&& lines[1] == "a=ice-ufrag:"@ + com.u@
            &&& lines[2] == "a=ice-pwd:"@ + com.p@
            &&& lines[3] == "a=ice-options:"@ + com.o@
            &&& lines[4] == "a=fingerprint:"@ + com.ft@
            &&& lines[5] == "a=setup:"@ + com.s@
            &&& lines[6] == "a=mid:"@ + text::decimal(mid as nat)
        }),
{
}

/// How many of the conditions hold.
pub open spec fn count(a: bool, b: bool, c: bool) -> int {
    (if a {
        1int
    } else {
        0
    }) + (if b {
        1int
    } else {
        0
    }) + (if c {
        1int
    } else {
        0
    })
}

/// The lines on direction, multiplexing and codec of a video section: each stands there exactly
/// where its own flag says so, in this order, and the codec always.
pub proof fn law_video_lines(m: MLine)
    ensures
        ({
            let lines = answer::codec_lines(Medium::Video, m);
            let k = count(m.sr == 0, m.rm == 1, m.rs == 1);
            let codec = if m.dc == 1 {
                " H265/"@
            } else {
                " H264/"@
            };
            &&& lines.len() == k + 1
            &&& m.sr == 0 ==> lines[0] == "a=sendonly"@
            &&& m.rm == 1 ==> lines[count(m.sr == 0, false, false)] == "a=rtcp-mux"@
            &&& m.rs == 1 ==> lines[k - 1] == "a=rtcp-rsize"@
            &&& lines[k] == "a=rtpmap:"@ + text::decimal(m.pt as nat) + codec + text::decimal(
                m.pts as nat,
            )
        }),
{
}

/// The lines on direction, multiplexing and codec of an audio section: each stands there exactly
/// where its own flag says so, in this order, and the codec always.
pub proof fn law_audio_lines(m: MLine)
    ensures
        ({
            let lines = answer::codec_lines(Medium::Audio, m);
            let rsize = m.rr == 1 || m.rs == 1;
            let k = count(m.rm == 1, m.sr == 1, rsize);
            &&& lines.len() == k + 1
            &&& m.rm == 1 ==> lines[0] == "a=rtcp-mux"@
            &&& m.sr == 1 ==> lines[count(m.rm == 1, false, false)] == "a=sendrecv"@
            &&& rsize ==> lines[k - 1] == "a=rtcp-rsize"@
            &&& lines[k] == "a=rtpmap:"@ + text::decimal(m.pt as nat) + " AAC/"@ + text::decimal(
                m.pts as nat,
            )
        }),
{
}

/// The bits of a number, one by one.
proof fn lemma_bits(f: u32)
    ensures
        (f & 1 != 0) == (f % 2 == 1),
        (f & 2 != 0) == (f / 2 % 2 == 1),
        (f & 4 != 0) == (f / 4 % 2 == 1),
        (f & 8 != 0) == (f / 8 % 2 == 1),
        (f & 16 != 0) == (f / 16 % 2 == 1),
{
    assert((f & 1 != 0) == (f % 2 == 1)) by (bit_vector);
    assert((f & 2 != 0) == (f / 2 % 2 == 1)) by (bit_vector);
    assert((f & 4 != 0) == (f / 4 % 2 == 1)) by (bit_vector);
    assert((f & 8 != 0) == (f / 8 % 2 == 1)) by (bit_vector);
    assert((f & 16 != 0) == (f / 16 % 2 == 1)) by (bit_vector);
}

/// The line that announces a kind of feedback for a payload type.
pub open spec fn feedback(pt: u32, name: Seq<char>) -> Seq<char> {
    "a=rtcp-fb:"@ + text::decimal(pt as nat) + name
}

/// The lines on feedback stand in the order of their bits, each exactly where its own bit is set,
/// whatever the others are.
pub proof fn law_feedback_order(m: MLine)
    ensures
        ({
            let bit = |d: u32| m.fbc / d % 2 == 1;
            let at = |d: u32, name: Seq<char>|
                if bit(d) {
                    seq![feedback(m.pt, name)]
                } else {
                    Seq::empty()
                };
            answer::feedback_lines(m) == at(1, " goog-remb"@) + at(2, " transport-cc"@) + at(
                4,
                " ccm fir"@,
            ) + at(8, " nack pli"@) + at(16, " nack"@)
        }),
{
    lemma_bits(m.fbc);
    assert(m.fbc / 1 == m.fbc);
}

/// The names of the kinds of feedback differ.
proof fn lemma_names_differ()
    ensures
        " goog-remb"@ != " transport-cc"@,
        " goog-remb"@ != " ccm fir"@,
        " goog-remb"@ != " nack pli"@,
        " goog-remb"@ != " nack"@,
        " transport-cc"@ != " ccm fir"@,
        " transport-cc"@ != " nack pli"@,
        " transport-cc"@ != " nack"@,
        " ccm fir"@ != " nack pli"@,
        " ccm fir"@ != " nack"@,
        " nack pli"@ != " nack"@,
{
    reveal_strlit(" goog-remb");
    reveal_strlit(" transport-cc");
    reveal_strlit(" ccm fir");
    reveal_strlit(" nack pli");
    reveal_strlit(" nack");
    assert(" goog-remb"@[1] == 'g' && " transport-cc"@[1] == 't' && " ccm fir"@[1] == 'c');
    assert(" nack pli"@[1] == 'n' && " nack"@[1] == 'n');
    assert(" nack pli"@.len() == 9 && " nack"@.len() == 5);
}

proof fn lemma_feedback_differs(pt: u32, a: Seq<char>, b: Seq<char>)
    requires
        a != b,
    ensures
        feedback(pt, a) != feedback(pt, b),
{
    let p = "a=rtcp-fb:"@ + text::decimal(pt as nat);
    if feedback(pt, a) == feedback(pt, b) {
        assert(feedback(pt, a).skip(p.len() as int) =~= a);
        assert(feedback(pt, b).skip(p.len() as int) =~= b);
    }
}

/// The lines of a section that say nothing of feedback do not begin as those that do.
proof fn lemma_no_feedback(kind: Medium, m: MLine, ssrc: Seq<char>, com: Com, mid: u8)
    ensures
        none_begins(answer::head_lines(kind, m, com), "a=rtcp-fb:"@),
        none_begins(answer::ssrc_lines(ssrc, m), "a=rtcp-fb:"@),
        none_begins(answer::transport_lines(com, mid), "a=rtcp-fb:"@),
        none_begins(answer::codec_lines(kind, m), "a=rtcp-fb:"@),
{
    lemma_no_feedback_front(kind, m, ssrc, com);
    lemma_no_feedback_transport(com, mid);
    lemma_no_feedback_codec(kind, m);
}

proof fn lemma_no_feedback_front(kind: Medium, m: MLine, ssrc: Seq<char>, com: Com)
    ensures
        none_begins(answer::head_lines(kind, m, com), "a=rtcp-fb:"@),
        none_begins(answer::ssrc_lines(ssrc, m), "a=rtcp-fb:"@),
{
    let p = "a=rtcp-fb:"@;
    reveal_strlit("a=rtcp-fb:");
    reveal_strlit("m=");
    reveal_strlit("a=candidate:");
    reveal_strlit("a=msid:");
    reveal_strlit("a=ssrc:");
    assert(answer::media_line(kind, m)[0] == 'm');
    lemma_differs(answer::media_line(kind, m), p, 0);
    lemma_differs("a=candidate:"@ + com.ic@, p, 2);
    lemma_differs("a=msid:"@ + m.md@, p, 2);
    let (stream, track) = answer::msid_parts(m.md@);
    lemma_differs(answer::ssrc_line(ssrc, " cname:"@, m.ce@), p, 2);
    lemma_differs(answer::ssrc_line(ssrc, " msid:"@, m.md@), p, 2);
    lemma_differs(answer::ssrc_line(ssrc, " mslabel:"@, stream), p, 2);
    lemma_differs(answer::ssrc_line(ssrc, " label:"@, track), p, 2);
}

proof fn lemma_no_feedback_transport(com: Com, mid: u8)
    ensures
        none_begins(answer::transport_lines(com, mid), "a=rtcp-fb:"@),
{
    let p = "a=rtcp-fb:"@;
    reveal_strlit("a=rtcp-fb:");
    reveal_strlit("a=rtcp:");
    reveal_strlit("a=ice-ufrag:");
    reveal_strlit("a=ice-pwd:");
    reveal_strlit("a=ice-options:");
    reveal_strlit("a=fingerprint:");
    reveal_strlit("a=setup:");
    reveal_strlit("a=mid:");
    lemma_differs("a=rtcp:"@ + com.r@, p, 6);
    lemma_differs("a=ice-ufrag:"@ + com.u@, p, 2);
    lemma_differs("a=ice-pwd:"@ + com.p@, p, 2);
    lemma_differs("a=ice-options:"@ + com.o@, p, 2);
    lemma_differs("a=fingerprint:"@ + com.ft@, p, 2);
    lemma_differs("a=setup:"@ + com.s@, p, 2);
    lemma_differs("a=mid:"@ + text::decimal(mid as nat), p, 2);
}

proof fn lemma_no_feedback_codec(kind: Medium, m: MLine)
    ensures
        none_begins(answer::codec_lines(kind, m), "a=rtcp-fb:"@),
{
    let p = "a=rtcp-fb:"@;
    reveal_strlit("a=rtcp-fb:");
    reveal_strlit("a=sendonly");
    reveal_strlit("a=sendrecv");
    reveal_strlit("a=rtcp-mux");
    reveal_strlit("a=rtcp-rsize");
    reveal_strlit("a=rtpmap:");
    lemma_differs("a=sendonly"@, p, 2);
    lemma_differs("a=sendrecv"@, p, 2);
    lemma_differs("a=rtcp-mux"@, p, 7);
    lemma_differs("a=rtcp-rsize"@, p, 7);
    lemma_differs(answer::rtpmap_line(m, " H265/"@), p, 4);
    lemma_differs(answer::rtpmap_line(m, " H264/"@), p, 4);
    lemma_differs(answer::rtpmap_line(m, " AAC/"@), p, 4);
}

/// A line on feedback stands in a section exactly where it stands among the lines on feedback.
proof fn lemma_feedback_in_section(
    kind: Medium,
    m: MLine,
    ssrc: Seq<char>,
    com: Com,
    mid: u8,
    name: Seq<char>,
)
    ensures
        answer::media_lines(kind, m, ssrc, com, mid).contains(feedback(m.pt, name))
            <==> answer::feedback_lines(m).contains(feedback(m.pt, name)),
{
    let p = "a=rtcp-fb:"@;
    let l = feedback(m.pt, name);
    let a = answer::head_lines(kind, m, com);
    let b = answer::ssrc_lines(ssrc, m);
    let c = answer::transport_lines(com, mid);
    let d = answer::codec_lines(kind, m);
    let e = answer::feedback_lines(m);
    let front = a + b + c + d;
    lemma_no_feedback(kind, m, ssrc, com, mid);
    lemma_none_begins_add(a, b, p);
    lemma_none_begins_add(a + b, c, p);
    lemma_none_begins_add(a + b + c, d, p);
    let lines = answer::media_lines(kind, m, ssrc, com, mid);
    assert(lines == front + e);
    assert(l.subrange(0, p.len() as int) =~= p);
    assert(text::occurs_at(l, p, 0));
    if lines.contains(l) {
        let i = choose|i: int| 0 <= i < lines.len() && lines[i] == l;
        if i < front.len() {
            assert(front[i] == l);
            assert(false);
        } else {
            assert(e[i - front.len()] == l);
        }
    }
    if e.contains(l) {
        let i = choose|i: int| 0 <= i < e.len() && e[i] == l;
        assert(lines[front.len() + i] == l);
    }
}

/// A kind of feedback is announced in a section exactly where its own bit is set, whatever the
/// other bits are, and whatever else the section says.
pub proof fn law_feedback_bits(kind: Medium, m: MLine, ssrc: Seq<char>, com: Com, mid: u8)
    ensures
        ({
            let lines = answer::media_lines(kind, m, ssrc, com, mid);
            &&& lines.contains(feedback(m.pt, " goog-remb"@)) <==> m.fbc % 2 == 1
            &&& lines.contains(feedback(m.pt, " transport-cc"@)) <==> m.fbc / 2 % 2 == 1
            &&& lines.contains(feedback(m.pt, " ccm fir"@)) <==> m.fbc / 4 % 2 == 1
            &&& lines.contains(feedback(m.pt, " nack pli"@)) <==> m.fbc / 8 % 2 == 1
            &&& lines.contains(feedback(m.pt, " nack"@)) <==> m.fbc / 16 % 2 == 1
        }),
{
    lemma_feedback_in_section(kind, m, ssrc, com, mid, " goog-remb"@);
    lemma_feedback_in_section(kind, m, ssrc, com, mid, " transport-cc"@);
    lemma_feedback_in_section(kind, m, ssrc, com, mid, " ccm fir"@);
    lemma_feedback_in_section(kind, m, ssrc, com, mid, " nack pli"@);
    lemma_feedback_in_section(kind, m, ssrc, com, mid, " nack"@);
    lemma_feedback_set(m);
}

/// Which kinds of feedback stand among the lines on feedback.
proof fn lemma_feedback_set(m: MLine)
    ensures
        answer::feedback_lines(m).contains(feedback(m.pt, " goog-remb"@)) <==> m.fbc % 2 == 1,
        answer::feedback_lines(m).contains(feedback(m.pt, " transport-cc"@)) <==> m.fbc / 2 % 2
            == 1,
        answer::feedback_lines(m).contains(feedback(m.pt, " ccm fir"@)) <==> m.fbc / 4 % 2 == 1,
        answer::feedback_lines(m).contains(feedback(m.pt, " nack pli"@)) <==> m.fbc / 8 % 2 == 1,
        answer::feedback_lines(m).contains(feedback(m.pt, " nack"@)) <==> m.fbc / 16 % 2 == 1,
{
    let a = feedback(m.pt, " goog-remb"@);
    let b = feedback(m.pt, " transport-cc"@);
    let c = feedback(m.pt, " ccm fir"@);
    let d = feedback(m.pt, " nack pli"@);
    let e = feedback(m.pt, " nack"@);
    lemma_bits(m.fbc);
    lemma_names_differ();
    lemma_feedback_differs(m.pt, " goog-remb"@, " transport-cc"@);
    lemma_feedback_differs(m.pt, " goog-remb"@, " ccm fir"@);
    lemma_feedback_differs(m.pt, " goog-remb"@, " nack pli"@);
    lemma_feedback_differs(m.pt, " goog-remb"@, " nack"@);
    lemma_feedback_differs(m.pt, " transport-cc"@, " ccm fir"@);
    lemma_feedback_differs(m.pt, " transport-cc"@, " nack pli"@);
    lemma_feedback_differs(m.pt, " transport-cc"@, " nack"@);
    lemma_feedback_differs(m.pt, " ccm fir"@, " nack pli"@);
    lemma_feedback_differs(m.pt, " ccm fir"@, " nack"@);
    lemma_feedback_differs(m.pt, " nack pli"@, " nack"@);
    lemma_five(
        m.fbc & 1 != 0,
        a,
        m.fbc & 2 != 0,
        b,
        m.fbc & 4 != 0,
        c,
        m.fbc & 8 != 0,
        d,
        m.fbc & 16 != 0,
        e,
    );
}

/// Of five lines, each there or not, those that are there stand in the list.
proof fn lemma_five(
    p: bool,
    a: Seq<char>,
    q: bool,
    b: Seq<char>,
    r: bool,
    c: Seq<char>,
    s: bool,
    d: Seq<char>,
    t: bool,
    e: Seq<char>,
)
    requires
        a != b && a != c && a != d && a != e,
        b != c && b != d && b != e,
        c != d && c != e,
        d != e,
    ensures
        ({
            let list = answer::line_if(p, a) + answer::line_if(q, b) + answer::line_if(r, c)
                + answer::line_if(s, d) + answer::line_if(t, e);
            &&& list.contains(a) <==> p
            &&& list.contains(b) <==> q
            &&& list.contains(c) <==> r
            &&& list.contains(d) <==> s
            &&& list.contains(e) <==> t
        }),
{
    let u = answer::line_if(p, a);
    let v = answer::line_if(q, b);
    let w = answer::line_if(r, c);
    let x = answer::line_if(s, d);
    let y = answer::line_if(t, e);
    lemma_contains_add(u, v);
    lemma_contains_add(u + v, w);
    lemma_contains_add(u + v + w, x);
    lemma_contains_add(u + v + w + x, y);
    lemma_one(p, a);
    lemma_one(q, b);
    lemma_one(r, c);
    lemma_one(s, d);
    lemma_one(t, e);
}

proof fn lemma_one(holds: bool, l: Seq<char>)
    ensures
        forall|k: Seq<char>| #[trigger]
            answer::line_if(holds, l).contains(k) <==> holds && k == l,
{
    if holds {
        assert(answer::line_if(holds, l)[0] == l);
    }
}

proof fn lemma_contains_add(a: Seq<Seq<char>>, b: Seq<Seq<char>>)
    ensures
        forall|k: Seq<char>| #[trigger] (a + b).contains(k) <==> a.contains(k) || b.contains(k),
{
    assert forall|k: Seq<char>| #[trigger] (a + b).contains(k) <==> a.contains(k) || b.contains(
        k,
    ) by {
        if a.contains(k) {
            let i = choose|i: int| 0 <= i < a.len() && a[i] == k;
            assert((a + b)[i] == k);
        }
        if b.contains(k) {
            let i = choose|i: int| 0 <= i < b.len() && b[i] == k;
            assert((a + b)[a.len() + i] == k);
        }
    }
}

/// A section is its first lines, those on the stream, the transport, the codec and the feedback,
/// all of them and in this order; a description is the lines before the sections, the section
/// with the smaller number, and then the other.
pub proof fn law_order_of_lines(
    a: Answer,
    kind: Medium,
    m: MLine,
    ssrc: Seq<char>,
    other: Seq<char>,
    mid: u8,
    audio_mid: u8,
    video_mid: u8,
)
    ensures
        answer::media_lines(kind, m, ssrc, a.com, mid) == answer::head_lines(kind, m, a.com)
            + answer::ssrc_lines(ssrc, m) + answer::transport_lines(a.com, mid)
            + answer::codec_lines(kind, m) + answer::feedback_lines(m),
        answer::section_text(kind, m, ssrc, a.com, mid) == text::crlf_text(
            answer::media_lines(kind, m, ssrc, a.com, mid),
        ),
        ({
            let t = answer::answer_text(a, ssrc, other, audio_mid, video_mid);
            let front = text::crlf_text(answer::session_lines(a.com));
            let audio = answer::section_text(Medium::Audio, a.audio, ssrc, a.com, audio_mid);
            let video = answer::section_text(Medium::Video, a.video, other, a.com, video_mid);
            &&& audio_mid < video_mid ==> t == front + audio + video
            &&& audio_mid >= video_mid ==> t == front + video + audio
        }),
{
    answer::lemma_answer_text(a, ssrc, other, audio_mid, video_mid);
}

/// The JSON text of a compact answer is all that follows two zeros and a line ending; without
/// these there is none.
pub proof fn law_answer_form(compact: Seq<char>)
    ensures
        match answer::payload_of(compact) {
            Some(t) => compact == "00\r\n"@ + t,
            None => !text::occurs_at(compact, "00\r\n"@, 0),
        },
{
    if let Some(t) = answer::payload_of(compact) {
        assert(compact =~= "00\r\n"@ + t);
    }
}

} // verus!
