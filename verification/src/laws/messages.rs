//! Laws on what is said of errors, how the muxer is run, and the numbers and times that both sides
//! go by.

use vstd::prelude::*;
use vstd::string::*;

use crate::auth;
use crate::call;
use crate::call::AnswerError;
use crate::sdp;
use crate::sdp::SdpError;
use crate::stream;
use crate::stream::muxer_arg_texts;
use crate::stream::StartError;
use crate::stream::StreamError;
use crate::ws;
use crate::ws::WsError;

verus! {

/// What is said where a message is not sent or not answered.
pub proof fn law_signaling_errors(e: WsError)
    ensures
        e.message_text() == match e {
            WsError::Reconnecting => "websocket is reconnecting"@,
            WsError::Sending => "sending on websocket"@,
            WsError::Closed => "websocket closed"@,
            WsError::TimedOut => "timed out waiting for reply"@,
        },
{
}

/// What is said where a camera does not answer an offer.
pub proof fn law_answer_errors(e: AnswerError)
    ensures
        e is MissingSdp ==> e.message_text() == "sdp answer missing WebrtcSdp"@,
        e is Closed ==> e.message_text() == "websocket closed"@,
        e is TimedOut ==> e.message_text() == "timed out waiting for sdp answer"@,
{
}

/// What is said where a description or a compact answer lacks something.
pub proof fn law_description_errors(e: SdpError)
    ensures
        e.message_text() == match e {
            SdpError::MissingAudio => "missing m=audio in offer"@,
            SdpError::MissingVideo => "missing m=video in offer"@,
            SdpError::MissingUfrag => "missing ice-ufrag"@,
            SdpError::MissingPassword => "missing ice-pwd"@,
            SdpError::MissingFingerprint => "missing fingerprint"@,
            SdpError::MissingSetup => "missing setup"@,
            SdpError::MissingOrigin => "missing o= line"@,
            SdpError::BadPrefix => "invalid compact answer prefix"@,
            SdpError::BadJson => "parsing compact answer json"@,
        },
{
}

/// What is said where a stream stops, or does not begin.
pub proof fn law_stream_errors(e: StreamError)
    ensures
        e.message_text() == match e {
            StreamError::NoMedia => "no media timeout"@,
            StreamError::VideoClosed => "video channel closed"@,
            StreamError::WriteFailed => "writing video to ffmpeg"@,
            StreamError::MuxerClosed => "ffmpeg closed output"@,
            StreamError::MuxerFailed => "reading muxed video"@,
            StreamError::AudioClosed => "audio channel closed"@,
            StreamError::SwitchFailed => "keepalive switch failed"@,
        },
        StartError::Switch.context_text() is None,
        StartError::Muxer.context_text() == Some("spawning ffmpeg muxer"@),
{
}

/// The option stands at a position, and its value behind it.
pub open spec fn option_at(
    args: Seq<Seq<char>>,
    k: int,
    option: Seq<char>,
    value: Seq<char>,
) -> bool {
    0 <= k && k + 1 < args.len() && args[k] == option && args[k + 1] == value
}

/// The muxer copies HEVC video from its input into MPEG-TS on its output: what is read is said
/// before the input, what is written behind it, and the output comes last. It says nothing but
/// errors, and keeps nothing back.
pub proof fn law_muxer_arguments()
    ensures
        muxer_arg_texts().len() == 24,
        muxer_arg_texts()[0] == "-hide_banner"@,
        option_at(muxer_arg_texts(), 1, "-loglevel"@, "error"@),
        option_at(muxer_arg_texts(), 3, "-fflags"@, "nobuffer"@),
        option_at(muxer_arg_texts(), 5, "-flags"@, "low_delay"@),
        option_at(muxer_arg_texts(), 7, "-f"@, "hevc"@),
        option_at(muxer_arg_texts(), 9, "-i"@, "pipe:0"@),
        option_at(muxer_arg_texts(), 11, "-c:v"@, "copy"@),
        option_at(muxer_arg_texts(), 13, "-f"@, "mpegts"@),
        option_at(muxer_arg_texts(), 15, "-mpegts_flags"@, "resend_headers"@),
        option_at(muxer_arg_texts(), 17, "-flush_packets"@, "1"@),
        option_at(muxer_arg_texts(), 19, "-muxdelay"@, "0"@),
        option_at(muxer_arg_texts(), 21, "-muxpreload"@, "0"@),
        muxer_arg_texts().last() == "pipe:1"@,
{
}

/// The times, in seconds but for the one that a camera takes to apply a change; and the payload
/// types, clock rates and feedback that this side offers.
pub proof fn law_agreed_numbers()
    ensures
        ws::PING_SECS == 20,
        ws::REPLY_SECS == 10,
        call::ANSWER_SECS == 15,
        stream::SWITCH_SECS == 25,
        stream::MEDIA_SECS == 20,
        auth::APPLY_MILLIS == 600,
        sdp::VIDEO_PT == 127,
        sdp::VIDEO_CLOCK_RATE == 90000,
        sdp::AUDIO_PT == 97,
        sdp::AUDIO_CLOCK_RATE == 16000,
        sdp::VIDEO_RTX_PT == 123,
        sdp::VIDEO_RTX_RED_PT == 122,
        sdp::VIDEO_RED_PT == 126,
        sdp::VIDEO_FEC_PT == 125,
        sdp::AUDIO_ALT_8K_PT == 96,
        sdp::VIDEO_FB == 35,
        sdp::VIDEO_FBC == 22,
        // The feedback that is offered: transport-cc, ccm fir and nack, by their bits.
        sdp::VIDEO_FBC == 2 + 4 + 16,
{
}

} // verus!
