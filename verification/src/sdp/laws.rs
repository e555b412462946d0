//! What holds of the description that is written for an answer, and of compact descriptions.

use vstd::prelude::*;
use vstd::string::*;

use crate::sdp::answer::Answer;
use crate::sdp::answer::Com;
use crate::sdp::answer::MLine;
use crate::sdp::answer::Medium;
use crate::sdp::answer::answer_lines;
use crate::sdp::answer::answer_text;
use crate::sdp::answer::codec_lines;
use crate::sdp::answer::feedback_line;
use crate::sdp::answer::feedback_lines;
use crate::sdp::answer::head_lines;
use crate::sdp::answer::line_if;
use crate::sdp::answer::media_line;
use crate::sdp::answer::media_lines;
use crate::sdp::answer::msid_parts;
use crate::sdp::answer::payload_of;
use crate::sdp::answer::rtpmap_line;
use crate::sdp::answer::section_text;
use crate::sdp::answer::session_lines;
use crate::sdp::answer::ssrc_line;
use crate::sdp::answer::ssrc_lines;
use crate::sdp::answer::ssrc_text;
use crate::sdp::answer::transport_lines;
use crate::sdp::attr_of;
use crate::sdp::compact_prefix;
use crate::sdp::line_of;
use crate::sdp::offer::mid_in;
use crate::text;

verus! {

/// No line feed stands in a text of the common part.
pub open spec fn com_on_lines(com: Com) -> bool {
    &&& text::one_line(com.io@)
    &&& text::one_line(com.it@)
    &&& text::one_line(com.ig@)
    &&& text::one_line(com.isc@)
    &&& text::one_line(com.ic@)
    &&& text::one_line(com.r@)
    &&& text::one_line(com.u@)
    &&& text::one_line(com.p@)
    &&& text::one_line(com.o@)
    &&& text::one_line(com.ft@)
    &&& text::one_line(com.s@)
}

/// No line feed stands in a text of the part for one medium.
pub open spec fn medium_on_lines(m: MLine, ssrc: Seq<char>) -> bool {
    text::one_line(m.ce@) && text::one_line(m.md@) && text::one_line(ssrc)
}

/// Every one of the lines holds no line feed.
pub open spec fn all_on_lines(lines: Seq<Seq<char>>) -> bool {
    forall|k: int| 0 <= k < lines.len() ==> text::one_line(#[trigger] lines[k])
}

/// No line feed stands in a decimal numeral.
pub(crate) proof fn lemma_decimal_on_line(n: nat)
    ensures
        text::one_line(text::decimal(n)),
{
    text::lemma_digits_of_decimal(n);
    assert forall|i: int| 0 <= i < text::decimal(n).len() implies text::decimal(n)[i] != '\n' by {
        assert(text::digit(text::decimal(n)[i]));
    }
}

proof fn lemma_session_on_lines(com: Com)
    requires
        com_on_lines(com),
    ensures
        all_on_lines(session_lines(com)),
{
    reveal_strlit("v=0");
    reveal_strlit("o=");
    reveal_strlit("s=-");
    reveal_strlit("t=");
    reveal_strlit("a=group:");
    reveal_strlit("a=msid-semantic:");
}

proof fn lemma_head_on_lines(kind: Medium, m: MLine, com: Com)
    requires
        com_on_lines(com),
        text::one_line(m.md@),
    ensures
        all_on_lines(head_lines(kind, m, com)),
{
    reveal_strlit("m=");
    reveal_strlit("audio");
    reveal_strlit("video");
    reveal_strlit(" ");
    reveal_strlit(" UDP/TLS/RTP/SAVPF ");
    reveal_strlit("a=candidate:");
    reveal_strlit("a=msid:");
    lemma_decimal_on_line(m.m as nat);
    lemma_decimal_on_line(m.pt as nat);
}

proof fn lemma_stream_on_lines(ssrc: Seq<char>, m: MLine)
    requires
        medium_on_lines(m, ssrc),
    ensures
        all_on_lines(ssrc_lines(ssrc, m)),
{
    reveal_strlit("a=ssrc:");
    reveal_strlit(" cname:");
    reveal_strlit(" msid:");
    reveal_strlit(" mslabel:");
    reveal_strlit(" label:");
    reveal_strlit(" ");
    reveal_strlit("");
    text::lemma_occurrence(m.md@, " "@, 0);
    let (stream, track) = msid_parts(m.md@);
    assert(text::one_line(stream));
    assert(text::one_line(track));
}

proof fn lemma_transport_on_lines(com: Com, mid: u8)
    requires
        com_on_lines(com),
    ensures
        all_on_lines(transport_lines(com, mid)),
{
    reveal_strlit("a=rtcp:");
    reveal_strlit("a=ice-ufrag:");
    reveal_strlit("a=ice-pwd:");
    reveal_strlit("a=ice-options:");
    reveal_strlit("a=fingerprint:");
    reveal_strlit("a=setup:");
    reveal_strlit("a=mid:");
    lemma_decimal_on_line(mid as nat);
}

/// No line feed stands in a line made of two texts without one.
pub(crate) proof fn lemma_cat_on_line(a: Seq<char>, b: Seq<char>)
    requires
        text::one_line(a),
        text::one_line(b),
    ensures
        text::one_line(a + b),
{
}

/// A single line, there or not, without a line feed.
proof fn lemma_line_if_on_lines(holds: bool, l: Seq<char>)
    requires
        text::one_line(l),
    ensures
        all_on_lines(line_if(holds, l)),
        all_on_lines(seq![l]),
{
}

proof fn lemma_rtpmap_on_line(m: MLine, codec: Seq<char>)
    requires
        text::one_line(codec),
    ensures
        text::one_line(rtpmap_line(m, codec)),
{
    reveal_strlit("a=rtpmap:");
    let pt = text::decimal(m.pt as nat);
    let pts = text::decimal(m.pts as nat);
    lemma_decimal_on_line(m.pt as nat);
    lemma_decimal_on_line(m.pts as nat);
    lemma_cat_on_line("a=rtpmap:"@, pt);
    lemma_cat_on_line("a=rtpmap:"@ + pt, codec);
    lemma_cat_on_line("a=rtpmap:"@ + pt + codec, pts);
}

/// Four groups without line feeds, one after the other.
proof fn lemma_four_on_lines(
    a: Seq<Seq<char>>,
    b: Seq<Seq<char>>,
    c: Seq<Seq<char>>,
    d: Seq<Seq<char>>,
)
    requires
        all_on_lines(a),
        all_on_lines(b),
        all_on_lines(c),
        all_on_lines(d),
    ensures
        all_on_lines(a + b + c + d),
{
    lemma_on_lines_add(a, b);
    lemma_on_lines_add(a + b, c);
    lemma_on_lines_add(a + b + c, d);
}

proof fn lemma_codec_words_on_line()
    ensures
        text::one_line("a=sendonly"@),
        text::one_line("a=rtcp-mux"@),
        text::one_line("a=rtcp-rsize"@),
        text::one_line("a=sendrecv"@),
        text::one_line(" H265/"@),
        text::one_line(" H264/"@),
        text::one_line(" AAC/"@),
{
    reveal_strlit("a=sendonly");
    reveal_strlit("a=rtcp-mux");
    reveal_strlit("a=rtcp-rsize");
    reveal_strlit("a=sendrecv");
    reveal_strlit(" H265/");
    reveal_strlit(" H264/");
    reveal_strlit(" AAC/");
}

proof fn lemma_codec_on_lines(kind: Medium, m: MLine)
    ensures
        all_on_lines(codec_lines(kind, m)),
{
    lemma_codec_words_on_line();
    let mux = line_if(m.rm == 1, "a=rtcp-mux"@);
    lemma_line_if_on_lines(m.rm == 1, "a=rtcp-mux"@);
    match kind {
        Medium::Video => {
            let codec = if m.dc == 1 {
                " H265/"@
            } else {
                " H264/"@
            };
            lemma_line_if_on_lines(m.sr == 0, "a=sendonly"@);
            lemma_line_if_on_lines(m.rs == 1, "a=rtcp-rsize"@);
            lemma_rtpmap_on_line(m, codec);
            lemma_line_if_on_lines(true, rtpmap_line(m, codec));
            lemma_four_on_lines(
                line_if(m.sr == 0, "a=sendonly"@),
                mux,
                line_if(m.rs == 1, "a=rtcp-rsize"@),
                seq![rtpmap_line(m, codec)],
            );
        },
        Medium::Audio => {
            let rsize = m.rr == 1 || m.rs == 1;
            lemma_line_if_on_lines(m.sr == 1, "a=sendrecv"@);
            lemma_line_if_on_lines(rsize, "a=rtcp-rsize"@);
            lemma_rtpmap_on_line(m, " AAC/"@);
            lemma_line_if_on_lines(true, rtpmap_line(m, " AAC/"@));
            lemma_four_on_lines(
                mux,
                line_if(m.sr == 1, "a=sendrecv"@),
                line_if(rsize, "a=rtcp-rsize"@),
                seq![rtpmap_line(m, " AAC/"@)],
            );
        },
    }
}

proof fn lemma_feedback_on_line(m: MLine, set: bool, name: Seq<char>)
    requires
        text::one_line(name),
    ensures
        all_on_lines(line_if(set, feedback_line(m, name))),
{
    reveal_strlit("a=rtcp-fb:");
    let pt = text::decimal(m.pt as nat);
    lemma_decimal_on_line(m.pt as nat);
    lemma_cat_on_line("a=rtcp-fb:"@, pt);
    lemma_cat_on_line("a=rtcp-fb:"@ + pt, name);
    lemma_line_if_on_lines(set, feedback_line(m, name));
}

proof fn lemma_feedback_words_on_line()
    ensures
        text::one_line(" goog-remb"@),
        text::one_line(" transport-cc"@),
        text::one_line(" ccm fir"@),
        text::one_line(" nack pli"@),
        text::one_line(" nack"@),
{
    reveal_strlit(" goog-remb");
    reveal_strlit(" transport-cc");
    reveal_strlit(" ccm fir");
    reveal_strlit(" nack pli");
    reveal_strlit(" nack");
}

proof fn lemma_feedback_on_lines(m: MLine)
    ensures
        all_on_lines(feedback_lines(m)),
{
    lemma_feedback_words_on_line();
    let a = line_if(m.fbc & 1 != 0, feedback_line(m, " goog-remb"@));
    let b = line_if(m.fbc & 2 != 0, feedback_line(m, " transport-cc"@));
    let c = line_if(m.fbc & 4 != 0, feedback_line(m, " ccm fir"@));
    let d = line_if(m.fbc & 8 != 0, feedback_line(m, " nack pli"@));
    let e = line_if(m.fbc & 16 != 0, feedback_line(m, " nack"@));
    lemma_feedback_on_line(m, m.fbc & 1 != 0, " goog-remb"@);
    lemma_feedback_on_line(m, m.fbc & 2 != 0, " transport-cc"@);
    lemma_feedback_on_line(m, m.fbc & 4 != 0, " ccm fir"@);
    lemma_feedback_on_line(m, m.fbc & 8 != 0, " nack pli"@);
    lemma_feedback_on_line(m, m.fbc & 16 != 0, " nack"@);
    lemma_four_on_lines(a, b, c, d);
    lemma_on_lines_add(a + b + c + d, e);
}

proof fn lemma_on_lines_add(a: Seq<Seq<char>>, b: Seq<Seq<char>>)
    requires
        all_on_lines(a),
        all_on_lines(b),
    ensures
        all_on_lines(a + b),
{
    assert forall|k: int| 0 <= k < (a + b).len() implies text::one_line(#[trigger] (a + b)[k]) by {
        if k < a.len() {
            assert((a + b)[k] == a[k]);
        } else {
            assert((a + b)[k] == b[k - a.len()]);
        }
    }
}

proof fn lemma_media_on_lines(kind: Medium, m: MLine, ssrc: Seq<char>, com: Com, mid: u8)
    requires
        com_on_lines(com),
        medium_on_lines(m, ssrc),
    ensures
        all_on_lines(media_lines(kind, m, ssrc, com, mid)),
{
    let a = head_lines(kind, m, com);
    let b = ssrc_lines(ssrc, m);
    let c = transport_lines(com, mid);
    let d = codec_lines(kind, m);
    let e = feedback_lines(m);
    lemma_head_on_lines(kind, m, com);
    lemma_stream_on_lines(ssrc, m);
    lemma_transport_on_lines(com, mid);
    lemma_codec_on_lines(kind, m);
    lemma_feedback_on_lines(m);
    lemma_on_lines_add(a, b);
    lemma_on_lines_add(a + b, c);
    lemma_on_lines_add(a + b + c, d);
    lemma_on_lines_add(a + b + c + d, e);
}

/// The description that is written for an answer, split into lines, is the lines of the answer,
/// where no text of the answer holds a line feed: no text can add a line or take one away.
pub proof fn law_answer_lines(
    a: Answer,
    audio_ssrc: Seq<char>,
    video_ssrc: Seq<char>,
    audio_mid: u8,
    video_mid: u8,
)
    requires
        com_on_lines(a.com),
        medium_on_lines(a.audio, audio_ssrc),
        medium_on_lines(a.video, video_ssrc),
    ensures
        text::line_seq(answer_text(a, audio_ssrc, video_ssrc, audio_mid, video_mid)) == answer_lines(a, audio_ssrc, video_ssrc, audio_mid, video_mid),
{
    let s = session_lines(a.com);
    let audio = media_lines(Medium::Audio, a.audio, audio_ssrc, a.com, audio_mid);
    let video = media_lines(Medium::Video, a.video, video_ssrc, a.com, video_mid);
    lemma_session_on_lines(a.com);
    lemma_media_on_lines(Medium::Audio, a.audio, audio_ssrc, a.com, audio_mid);
    lemma_media_on_lines(Medium::Video, a.video, video_ssrc, a.com, video_mid);
    lemma_on_lines_add(s, audio);
    lemma_on_lines_add(s + audio, video);
    lemma_on_lines_add(s, video);
    lemma_on_lines_add(s + video, audio);
    text::law_lines_of_text(answer_lines(a, audio_ssrc, video_ssrc, audio_mid, video_mid));
}

// ---------------------------------------------------------------------------
// Reading a written answer
// ---------------------------------------------------------------------------

/// No line begins with `p`.
pub open spec fn none_begins(lines: Seq<Seq<char>>, p: Seq<char>) -> bool {
    forall|k: int| 0 <= k < lines.len() ==> !text::occurs_at(#[trigger] lines[k], p, 0)
}

/// A line that differs from `p` at some position does not begin with it.
pub(crate) proof fn lemma_differs(l: Seq<char>, p: Seq<char>, k: int)
    requires
        0 <= k < p.len(),
        k < l.len(),
        l[k] != p[k],
    ensures
        !text::occurs_at(l, p, 0),
{
    if text::occurs_at(l, p, 0) {
        assert(l.subrange(0, p.len() as int)[k] == l[k]);
    }
}

/// Lines that do not begin with `p` can be passed over.
proof fn lemma_pass_over(a: Seq<Seq<char>>, b: Seq<Seq<char>>, p: Seq<char>)
    requires
        none_begins(a, p),
    ensures
        text::first_beginning(a + b, p) == text::first_beginning(b, p),
    decreases a.len(),
{
    if a.len() == 0 {
        assert(a + b =~= b);
    } else {
        assert((a + b)[0] == a[0]);
        assert((a + b).skip(1) =~= a.skip(1) + b);
        assert forall|k: int| 0 <= k < a.skip(1).len() implies !text::occurs_at(
            #[trigger] a.skip(1)[k],
            p,
            0,
        ) by {
            assert(a.skip(1)[k] == a[k + 1]);
        }
        lemma_pass_over(a.skip(1), b, p);
    }
}

/// A line that begins with `p`, behind lines that do not, is the first that does.
proof fn lemma_found(
    front: Seq<Seq<char>>,
    p: Seq<char>,
    value: Seq<char>,
    tail: Seq<Seq<char>>,
)
    requires
        none_begins(front, p),
    ensures
        text::first_beginning(front + (seq![p + value] + tail), p) == Some(p + value),
{
    let behind = seq![p + value] + tail;
    lemma_pass_over(front, behind, p);
    assert(behind[0] == p + value);
    assert((p + value).subrange(0, p.len() as int) =~= p);
}

pub(crate) proof fn lemma_none_begins_add(a: Seq<Seq<char>>, b: Seq<Seq<char>>, p: Seq<char>)
    requires
        none_begins(a, p),
        none_begins(b, p),
    ensures
        none_begins(a + b, p),
{
    assert forall|k: int| 0 <= k < (a + b).len() implies !text::occurs_at(
        #[trigger] (a + b)[k],
        p,
        0,
    ) by {
        if k < a.len() {
            assert((a + b)[k] == a[k]);
        } else {
            assert((a + b)[k] == b[k - a.len()]);
        }
    }
}

/// The key of a transport line that no line before the transport lines has.
pub open spec fn transport_key(p: Seq<char>) -> bool {
    &&& p.len() >= 4
    &&& p[0] == 'a'
    &&& p[1] == '='
    &&& p[2] == 'i' || p[2] == 'f' || p[2] == 's' && p[3] == 'e'
}

proof fn lemma_session_no_transport(com: Com, p: Seq<char>)
    requires
        transport_key(p),
    ensures
        none_begins(session_lines(com), p),
{
    reveal_strlit("v=0");
    reveal_strlit("o=");
    reveal_strlit("s=-");
    reveal_strlit("t=");
    reveal_strlit("a=group:");
    reveal_strlit("a=msid-semantic:");
    lemma_differs("v=0"@, p, 0);
    lemma_differs("o="@ + com.io@, p, 0);
    lemma_differs("s=-"@, p, 0);
    lemma_differs("t="@ + com.it@, p, 0);
    lemma_differs("a=group:"@ + com.ig@, p, 2);
    lemma_differs("a=msid-semantic:"@ + com.isc@, p, 2);
}

proof fn lemma_head_no_transport(kind: Medium, m: MLine, com: Com, p: Seq<char>)
    requires
        transport_key(p),
    ensures
        none_begins(head_lines(kind, m, com), p),
{
    reveal_strlit("m=");
    reveal_strlit("a=candidate:");
    reveal_strlit("a=msid:");
    assert(media_line(kind, m)[0] == 'm');
    lemma_differs(media_line(kind, m), p, 0);
    lemma_differs("a=candidate:"@ + com.ic@, p, 2);
    lemma_differs("a=msid:"@ + m.md@, p, 2);
}

proof fn lemma_ssrc_line_no_transport(
    ssrc: Seq<char>,
    key: Seq<char>,
    value: Seq<char>,
    p: Seq<char>,
)
    requires
        transport_key(p),
    ensures
        !text::occurs_at(ssrc_line(ssrc, key, value), p, 0),
{
    reveal_strlit("a=ssrc:");
    let l = ssrc_line(ssrc, key, value);
    assert(l[2] == 's' && l[3] == 's');
    if p[2] == 's' {
        lemma_differs(l, p, 3);
    } else {
        lemma_differs(l, p, 2);
    }
}

proof fn lemma_stream_no_transport(ssrc: Seq<char>, m: MLine, p: Seq<char>)
    requires
        transport_key(p),
    ensures
        none_begins(ssrc_lines(ssrc, m), p),
{
    let (stream, track) = msid_parts(m.md@);
    lemma_ssrc_line_no_transport(ssrc, " cname:"@, m.ce@, p);
    lemma_ssrc_line_no_transport(ssrc, " msid:"@, m.md@, p);
    lemma_ssrc_line_no_transport(ssrc, " mslabel:"@, stream, p);
    lemma_ssrc_line_no_transport(ssrc, " label:"@, track, p);
}

/// The first line that begins with a transport key is the first such transport line.
proof fn lemma_to_transport(
    kind: Medium,
    m: MLine,
    ssrc: Seq<char>,
    com: Com,
    mid: u8,
    rest: Seq<Seq<char>>,
    p: Seq<char>,
)
    requires
        transport_key(p),
    ensures
        text::first_beginning(
            session_lines(com) + media_lines(kind, m, ssrc, com, mid) + rest,
            p,
        ) == text::first_beginning(
            transport_lines(com, mid) + (codec_lines(kind, m) + feedback_lines(m) + rest),
            p,
        ),
{
    let s = session_lines(com);
    let h = head_lines(kind, m, com);
    let t = ssrc_lines(ssrc, m);
    let tail = transport_lines(com, mid) + (codec_lines(kind, m) + feedback_lines(m) + rest);
    lemma_session_no_transport(com, p);
    lemma_head_no_transport(kind, m, com, p);
    lemma_stream_no_transport(ssrc, m, p);
    lemma_none_begins_add(s, h, p);
    lemma_none_begins_add(s + h, t, p);
    lemma_pass_over(s + h + t, tail, p);
    lemma_regroup(
        s,
        h,
        t,
        transport_lines(com, mid),
        codec_lines(kind, m),
        feedback_lines(m),
        rest,
    );
}

proof fn lemma_regroup(
    s: Seq<Seq<char>>,
    h: Seq<Seq<char>>,
    t: Seq<Seq<char>>,
    n: Seq<Seq<char>>,
    c: Seq<Seq<char>>,
    f: Seq<Seq<char>>,
    rest: Seq<Seq<char>>,
)
    ensures
        s + (h + t + n + c + f) + rest == s + h + t + (n + (c + f + rest)),
{
    assert(s + (h + t + n + c + f) + rest =~= s + h + t + (n + (c + f + rest)));
}

/// The transport line at position `j` is found by its key, where no earlier one has the key.
proof fn lemma_transport_found(
    com: Com,
    mid: u8,
    rest: Seq<Seq<char>>,
    p: Seq<char>,
    value: Seq<char>,
    j: int,
)
    requires
        0 <= j < 7,
        transport_lines(com, mid)[j] == p + value,
        forall|k: int| 0 <= k < j ==> !text::occurs_at(#[trigger] transport_lines(com, mid)[k], p, 0),
    ensures
        text::first_beginning(transport_lines(com, mid) + rest, p) == Some(p + value),
{
    let n = transport_lines(com, mid);
    assert(n + rest =~= n.take(j) + (n.skip(j) + rest));
    assert forall|k: int| 0 <= k < n.take(j).len() implies !text::occurs_at(
        #[trigger] n.take(j)[k],
        p,
        0,
    ) by {
        assert(n.take(j)[k] == n[k]);
    }
    lemma_pass_over(n.take(j), n.skip(j) + rest, p);
    assert((n.skip(j) + rest)[0] == p + value);
    assert((p + value).subrange(0, p.len() as int) =~= p);
}

/// The values of the transport lines are found by their keys.
proof fn lemma_transport_values(com: Com, mid: u8, rest: Seq<Seq<char>>)
    ensures
        transport_key("a=ice-ufrag:"@),
        transport_key("a=ice-pwd:"@),
        transport_key("a=fingerprint:"@),
        transport_key("a=setup:"@),
        text::first_beginning(transport_lines(com, mid) + rest, "a=ice-ufrag:"@) == Some(
            "a=ice-ufrag:"@ + com.u@,
        ),
        text::first_beginning(transport_lines(com, mid) + rest, "a=ice-pwd:"@) == Some(
            "a=ice-pwd:"@ + com.p@,
        ),
        text::first_beginning(transport_lines(com, mid) + rest, "a=fingerprint:"@) == Some(
            "a=fingerprint:"@ + com.ft@,
        ),
        text::first_beginning(transport_lines(com, mid) + rest, "a=setup:"@) == Some(
            "a=setup:"@ + com.s@,
        ),
{
    reveal_strlit("a=rtcp:");
    reveal_strlit("a=ice-ufrag:");
    reveal_strlit("a=ice-pwd:");
    reveal_strlit("a=ice-options:");
    reveal_strlit("a=fingerprint:");
    reveal_strlit("a=setup:");
    let rtcp = "a=rtcp:"@ + com.r@;
    let ufrag = "a=ice-ufrag:"@ + com.u@;
    let pwd = "a=ice-pwd:"@ + com.p@;
    let options = "a=ice-options:"@ + com.o@;
    let fingerprint = "a=fingerprint:"@ + com.ft@;
    lemma_differs(rtcp, "a=ice-ufrag:"@, 2);
    lemma_transport_found(com, mid, rest, "a=ice-ufrag:"@, com.u@, 1);
    lemma_differs(rtcp, "a=ice-pwd:"@, 2);
    lemma_differs(ufrag, "a=ice-pwd:"@, 6);
    lemma_transport_found(com, mid, rest, "a=ice-pwd:"@, com.p@, 2);
    lemma_differs(rtcp, "a=fingerprint:"@, 2);
    lemma_differs(ufrag, "a=fingerprint:"@, 2);
    lemma_differs(pwd, "a=fingerprint:"@, 2);
    lemma_differs(options, "a=fingerprint:"@, 2);
    lemma_transport_found(com, mid, rest, "a=fingerprint:"@, com.ft@, 4);
    lemma_differs(rtcp, "a=setup:"@, 2);
    lemma_differs(ufrag, "a=setup:"@, 2);
    lemma_differs(pwd, "a=setup:"@, 2);
    lemma_differs(options, "a=setup:"@, 2);
    lemma_differs(fingerprint, "a=setup:"@, 2);
    lemma_transport_found(com, mid, rest, "a=setup:"@, com.s@, 5);
}

/// What stands behind the key of a line is the value that was written.
proof fn lemma_attr_value(s: Seq<char>, p: Seq<char>, value: Seq<char>)
    requires
        line_of(s, p) == Some(p + value),
    ensures
        attr_of(s, p) == Some(text::trimmed(value)),
{
    assert((p + value).skip(p.len() as int) =~= value);
}

/// The origin is found by its key.
proof fn lemma_origin_found(com: Com, rest: Seq<Seq<char>>)
    ensures
        text::first_beginning(session_lines(com) + rest, "o="@) == Some("o="@ + com.io@),
{
    let p = "o="@;
    reveal_strlit("v=0");
    reveal_strlit("o=");
    lemma_differs("v=0"@, p, 0);
    let lines = session_lines(com) + rest;
    let behind = lines.skip(2);
    assert(lines =~= seq!["v=0"@] + (seq![p + com.io@] + behind));
    lemma_found(seq!["v=0"@], p, com.io@, behind);
}

/// Reading the origin and the transport of the description that is written for an answer, as
/// those of a local description are read, gives back what the answer holds, but for white space
/// around it, where no text of the answer holds a line feed.
pub proof fn law_answer_transport(
    a: Answer,
    audio_ssrc: Seq<char>,
    video_ssrc: Seq<char>,
    audio_mid: u8,
    video_mid: u8,
)
    requires
        com_on_lines(a.com),
        medium_on_lines(a.audio, audio_ssrc),
        medium_on_lines(a.video, video_ssrc),
    ensures
        ({
            let s = answer_text(a, audio_ssrc, video_ssrc, audio_mid, video_mid);
            &&& attr_of(s, "o="@) == Some(text::trimmed(a.com.io@))
            &&& attr_of(s, "a=ice-ufrag:"@) == Some(text::trimmed(a.com.u@))
            &&& attr_of(s, "a=ice-pwd:"@) == Some(text::trimmed(a.com.p@))
            &&& attr_of(s, "a=fingerprint:"@) == Some(text::trimmed(a.com.ft@))
            &&& attr_of(s, "a=setup:"@) == Some(text::trimmed(a.com.s@))
        }),
{
    let lines = answer_lines(a, audio_ssrc, video_ssrc, audio_mid, video_mid);
    let s = text::crlf_text(lines);
    let audio = media_lines(Medium::Audio, a.audio, audio_ssrc, a.com, audio_mid);
    let video = media_lines(Medium::Video, a.video, video_ssrc, a.com, video_mid);
    law_answer_lines(a, audio_ssrc, video_ssrc, audio_mid, video_mid);
    let audio_first = audio_mid < video_mid;
    let kind = if audio_first {
        Medium::Audio
    } else {
        Medium::Video
    };
    let m = if audio_first {
        a.audio
    } else {
        a.video
    };
    let ssrc = if audio_first {
        audio_ssrc
    } else {
        video_ssrc
    };
    let mid = if audio_first {
        audio_mid
    } else {
        video_mid
    };
    let rest = if audio_first {
        video
    } else {
        audio
    };
    let behind = codec_lines(kind, m) + feedback_lines(m) + rest;
    assert(lines == session_lines(a.com) + media_lines(kind, m, ssrc, a.com, mid) + rest);
    let sections = media_lines(kind, m, ssrc, a.com, mid) + rest;
    assert(lines =~= session_lines(a.com) + sections);
    lemma_origin_found(a.com, sections);
    lemma_attr_value(s, "o="@, a.com.io@);
    lemma_transport_values(a.com, mid, behind);
    lemma_to_transport(kind, m, ssrc, a.com, mid, rest, "a=ice-ufrag:"@);
    lemma_to_transport(kind, m, ssrc, a.com, mid, rest, "a=ice-pwd:"@);
    lemma_to_transport(kind, m, ssrc, a.com, mid, rest, "a=fingerprint:"@);
    lemma_to_transport(kind, m, ssrc, a.com, mid, rest, "a=setup:"@);
    lemma_attr_value(s, "a=ice-ufrag:"@, a.com.u@);
    lemma_attr_value(s, "a=ice-pwd:"@, a.com.p@);
    lemma_attr_value(s, "a=fingerprint:"@, a.com.ft@);
    lemma_attr_value(s, "a=setup:"@, a.com.s@);
}

/// No line before the number of a section is taken for it.
proof fn lemma_none_is_mid(kind: Medium, m: MLine, ssrc: Seq<char>, com: Com, mid: u8)
    ensures
        none_begins(head_lines(kind, m, com) + ssrc_lines(ssrc, m), "a=mid:"@),
        none_begins(transport_lines(com, mid).take(6), "a=mid:"@),
{
    let p = "a=mid:"@;
    reveal_strlit("a=mid:");
    reveal_strlit("m=");
    reveal_strlit("a=candidate:");
    reveal_strlit("a=msid:");
    reveal_strlit("a=ssrc:");
    reveal_strlit("a=rtcp:");
    reveal_strlit("a=ice-ufrag:");
    reveal_strlit("a=ice-pwd:");
    reveal_strlit("a=ice-options:");
    reveal_strlit("a=fingerprint:");
    reveal_strlit("a=setup:");
    assert(media_line(kind, m)[0] == 'm');
    lemma_differs(media_line(kind, m), p, 0);
    lemma_differs("a=candidate:"@ + com.ic@, p, 2);
    lemma_differs("a=msid:"@ + m.md@, p, 3);
    let (stream, track) = msid_parts(m.md@);
    lemma_differs(ssrc_line(ssrc, " cname:"@, m.ce@), p, 2);
    lemma_differs(ssrc_line(ssrc, " msid:"@, m.md@), p, 2);
    lemma_differs(ssrc_line(ssrc, " mslabel:"@, stream), p, 2);
    lemma_differs(ssrc_line(ssrc, " label:"@, track), p, 2);
    lemma_none_begins_add(head_lines(kind, m, com), ssrc_lines(ssrc, m), p);
    lemma_differs("a=rtcp:"@ + com.r@, p, 2);
    lemma_differs("a=ice-ufrag:"@ + com.u@, p, 2);
    lemma_differs("a=ice-pwd:"@ + com.p@, p, 2);
    lemma_differs("a=ice-options:"@ + com.o@, p, 2);
    lemma_differs("a=fingerprint:"@ + com.ft@, p, 2);
    lemma_differs("a=setup:"@ + com.s@, p, 2);
}

/// The seventh line of the third of five groups stands between what is before and behind it.
proof fn lemma_around_seventh(
    h: Seq<Seq<char>>,
    t: Seq<Seq<char>>,
    n: Seq<Seq<char>>,
    c: Seq<Seq<char>>,
    f: Seq<Seq<char>>,
)
    requires
        n.len() == 7,
    ensures
        h + t + n + c + f == h + t + n.take(6) + (seq![n[6]] + (c + f)),
{
    assert(n =~= n.take(6) + seq![n[6]]);
    assert(h + t + (n.take(6) + seq![n[6]]) + c + f =~= h + t + n.take(6) + (seq![n[6]] + (c + f)));
}

/// A numeral has no white space around it.
proof fn lemma_decimal_trimmed(n: nat)
    ensures
        text::trimmed(text::decimal(n)) == text::decimal(n),
{
    text::lemma_digits_of_decimal(n);
    let d = text::decimal(n);
    assert(text::digit(d[0]));
    assert(text::digit(d[d.len() - 1]));
}

/// The number that a section is written with is the one that is read from it, where no text of
/// the section holds a line feed.
pub proof fn law_section_number(
    kind: Medium,
    m: MLine,
    ssrc: Seq<char>,
    com: Com,
    mid: u8,
    absent: u8,
)
    requires
        com_on_lines(com),
        medium_on_lines(m, ssrc),
    ensures
        mid_in(section_text(kind, m, ssrc, com, mid), absent) == mid,
{
    let p = "a=mid:"@;
    let value = text::decimal(mid as nat);
    let lines = media_lines(kind, m, ssrc, com, mid);
    let s = text::crlf_text(lines);
    let front = head_lines(kind, m, com) + ssrc_lines(ssrc, m);
    let n = transport_lines(com, mid);
    let tail = codec_lines(kind, m) + feedback_lines(m);
    lemma_media_on_lines(kind, m, ssrc, com, mid);
    text::law_lines_of_text(lines);
    lemma_none_is_mid(kind, m, ssrc, com, mid);
    lemma_none_begins_add(front, n.take(6), p);
    lemma_around_seventh(
        head_lines(kind, m, com),
        ssrc_lines(ssrc, m),
        n,
        codec_lines(kind, m),
        feedback_lines(m),
    );
    assert(n[6] == p + value);
    lemma_found(front + n.take(6), p, value, tail);
    lemma_attr_value(s, p, value);
    lemma_decimal_trimmed(mid as nat);
    text::lemma_u8_of_decimal(mid);
}

/// The JSON text of a compact description is what it was framed with.
pub proof fn law_framed(payload: Seq<char>)
    ensures
        payload_of(compact_prefix() + payload) == Some(payload),
{
    let t = compact_prefix() + payload;
    assert(t.subrange(0, compact_prefix().len() as int) =~= compact_prefix());
    assert(t.skip(compact_prefix().len() as int) =~= payload);
}

/// A media section adds the same text whatever stands before it: one that begins with `m=`, the
/// medium and a space, and ends with a carriage return and a line feed.
pub proof fn law_section_appended(
    before: Seq<Seq<char>>,
    kind: Medium,
    m: MLine,
    com: Com,
    mid: u8,
)
    ensures
        ({
            let section = media_lines(kind, m, ssrc_text(m.sc), com, mid);
            let t = section_text(kind, m, ssrc_text(m.sc), com, mid);
            let head = "m="@ + kind.name_text() + " "@;
            &&& text::crlf_text(before + section) == text::crlf_text(before) + t
            &&& head.is_prefix_of(t)
            &&& seq!['\r', '\n'].is_suffix_of(t)
        }),
{
    let section = media_lines(kind, m, ssrc_text(m.sc), com, mid);
    let t = text::crlf_text(section);
    let head = "m="@ + kind.name_text() + " "@;
    text::law_text_of_lines_added(before, section);
    let first = media_line(kind, m);
    assert(section[0] == first);
    assert(section =~= seq![first] + section.skip(1));
    text::law_text_of_lines_added(seq![first], section.skip(1));
    assert(text::crlf_text(seq![first].drop_last()) =~= Seq::empty());
    assert(text::crlf_text(seq![first]) =~= first + seq!['\r', '\n']);
    assert(head =~= first.take(head.len() as int));
    assert(head =~= t.take(head.len() as int));
    assert(t =~= text::crlf_text(section.drop_last()) + section.last() + seq!['\r', '\n']);
    assert(seq!['\r', '\n'] =~= t.skip(t.len() - 2));
}

} // verus!
