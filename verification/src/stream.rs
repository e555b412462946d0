//! A running stream: what each event leads to, and how the muxer is run.

use bytes::Bytes;
use vstd::prelude::*;
use vstd::string::*;

use crate::h265::bytes_of;
use crate::h265::bytes_slice;
use crate::h265::contents;
use crate::h265::depacketized;
use crate::h265::fits_with;
use crate::h265::Depacketizer;
use crate::text;

verus! {

/// How often a stream is kept alive, in seconds.
pub const SWITCH_SECS: u64 = 25;

/// How long a video packet is awaited, in seconds.
pub const MEDIA_SECS: u64 = 20;

/// Why a stream stops.
#[derive(Clone, Copy, PartialEq, Eq, Debug, Structural)]
pub enum StreamError {
    NoMedia,
    VideoClosed,
    WriteFailed,
    MuxerClosed,
    MuxerFailed,
    AudioClosed,
    SwitchFailed,
}

impl StreamError {
    /// The message of the error.
    pub open spec fn message_text(self) -> Seq<char> {
        match self {
            StreamError::NoMedia => "no media timeout"@,
            StreamError::VideoClosed => "video channel closed"@,
            StreamError::WriteFailed => "writing video to ffmpeg"@,
            StreamError::MuxerClosed => "ffmpeg closed output"@,
            StreamError::MuxerFailed => "reading muxed video"@,
            StreamError::AudioClosed => "audio channel closed"@,
            StreamError::SwitchFailed => "keepalive switch failed"@,
        }
    }

    /// The message of the error.
    pub fn message(&self) -> (r: String)
        ensures
            r@ == self.message_text(),
    {
        let m: &str = match self {
            StreamError::NoMedia => "no media timeout",
            StreamError::VideoClosed => "video channel closed",
            StreamError::WriteFailed => "writing video to ffmpeg",
            StreamError::MuxerClosed => "ffmpeg closed output",
            StreamError::MuxerFailed => "reading muxed video",
            StreamError::AudioClosed => "audio channel closed",
            StreamError::SwitchFailed => "keepalive switch failed",
        };
        m.to_owned()
    }
}

/// What happens in a running stream.
pub enum StreamEvent {
    /// No video packet came for a while.
    NoMedia,
    /// No video packet will come any more.
    VideoClosed,
    /// A video packet came.
    Packet(Bytes),
    /// A NAL unit could not be written to the muxer.
    WriteFailed,
    /// The muxer gave a piece of the video stream.
    Muxed(Bytes),
    /// The muxer has ended.
    MuxerClosed,
    /// The muxer could not be read.
    MuxerFailed,
    /// An audio frame came.
    Audio(Bytes),
    /// No audio frame will come any more.
    AudioClosed,
    /// It is time to keep the stream alive.
    KeepaliveDue,
    /// The message that keeps the stream alive could not be sent.
    SwitchFailed,
}

/// What to do in a running stream.
pub enum StreamAction {
    /// Write these NAL units to the muxer, in order, up to the first that fails.
    Write(Vec<Bytes>),
    /// Give this to those who watch.
    PublishVideo(Bytes),
    /// Give this to those who listen.
    PublishAudio(Bytes),
    /// Send the message that keeps the stream alive.
    KeepAlive,
    Stop(StreamError),
}

/// The event leads to the action, where `pending` is what was pending in the depacketizer.
pub open spec fn leads_to(
    pending: Option<Seq<u8>>,
    event: StreamEvent,
    action: StreamAction,
) -> bool {
    match event {
        StreamEvent::NoMedia => action == StreamAction::Stop(StreamError::NoMedia),
        StreamEvent::VideoClosed => action == StreamAction::Stop(StreamError::VideoClosed),
        StreamEvent::Packet(p) => action matches StreamAction::Write(units) && contents(units@)
            == depacketized(pending, bytes_of(p)).1,
        StreamEvent::WriteFailed => action == StreamAction::Stop(StreamError::WriteFailed),
        StreamEvent::Muxed(b) => action == StreamAction::PublishVideo(b),
        StreamEvent::MuxerClosed => action == StreamAction::Stop(StreamError::MuxerClosed),
        StreamEvent::MuxerFailed => action == StreamAction::Stop(StreamError::MuxerFailed),
        StreamEvent::Audio(b) => action == StreamAction::PublishAudio(b),
        StreamEvent::AudioClosed => action == StreamAction::Stop(StreamError::AudioClosed),
        StreamEvent::KeepaliveDue => action == StreamAction::KeepAlive,
        StreamEvent::SwitchFailed => action == StreamAction::Stop(StreamError::SwitchFailed),
    }
}

/// What is pending after the event.
pub open spec fn pending_after(pending: Option<Seq<u8>>, event: StreamEvent) -> Option<Seq<u8>> {
    match event {
        StreamEvent::Packet(p) => depacketized(pending, bytes_of(p)).0,
        _ => pending,
    }
}

/// Why a stream does not begin.
#[derive(Clone, Copy, PartialEq, Eq, Debug, Structural)]
pub enum StartError {
    /// The message that turns the stream on could not be sent.
    Switch,
    /// The muxer could not be started.
    Muxer,
}

impl StartError {
    /// What is said beside the reason; nothing where the reason says all.
    pub open spec fn context_text(self) -> Option<Seq<char>> {
        match self {
            StartError::Switch => None,
            StartError::Muxer => Some("spawning ffmpeg muxer"@),
        }
    }

    /// What is said beside the reason; nothing where the reason says all.
    pub fn context(&self) -> (r: Option<String>)
        ensures
            match r {
                Some(t) => self.context_text() == Some(t@),
                None => self.context_text() is None,
            },
    {
        match self {
            StartError::Switch => None,
            StartError::Muxer => Some("spawning ffmpeg muxer".to_owned()),
        }
    }
}

/// A stream that is to be turned on.
pub struct Starting(());

/// A stream that was turned on, and whose muxer is to be started.
pub struct Switched(());

impl Starting {
    /// A stream begins with the message that turns it on, which is the one that keeps it alive.
    pub fn first() -> (r: (Starting, StreamAction))
        ensures
            r.1 == StreamAction::KeepAlive,
    {
        (Starting(()), StreamAction::KeepAlive)
    }

    /// Takes whether that message was sent. The muxer is started only then; otherwise the run is
    /// over.
    pub fn switched(self, sent: bool) -> (r: Result<Switched, StartError>)
        ensures
            match r {
                Ok(_) => sent,
                Err(e) => !sent && e == StartError::Switch,
            },
    {
        if sent {
            Ok(Switched(()))
        } else {
            Err(StartError::Switch)
        }
    }
}

impl Switched {
    /// Takes whether the muxer was started. Packets are taken only then, and none is pending;
    /// otherwise the run is over.
    pub fn muxer_started(self, started: bool) -> (r: Result<Stream, StartError>)
        ensures
            match r {
                Ok(stream) => started && stream.pending() is None,
                Err(e) => !started && e == StartError::Muxer,
            },
    {
        if started {
            Ok(Stream { depacketizer: Depacketizer::default() })
        } else {
            Err(StartError::Muxer)
        }
    }
}

/// A running stream.
pub struct Stream {
    depacketizer: Depacketizer,
}

impl Stream {
    /// The bytes of the NAL unit of which only a part has arrived.
    pub closed spec fn pending(self) -> Option<Seq<u8>> {
        self.depacketizer.pending()
    }

    /// The event can be taken: a packet fits with what is pending into a buffer.
    pub open spec fn takes(self, event: StreamEvent) -> bool {
        match event {
            StreamEvent::Packet(p) => fits_with(self.pending(), bytes_of(p).len() as int),
            _ => true,
        }
    }

    /// Whether the event can be taken: a packet fits with what is pending into a buffer.
    pub fn can_take(&self, event: &StreamEvent) -> (r: bool)
        ensures
            r == self.takes(*event),
    {
        match event {
            StreamEvent::Packet(p) => self.depacketizer.has_room(bytes_slice(p).len()),
            _ => true,
        }
    }

    /// Takes an event, and gives what to do.
    pub fn step(&mut self, event: StreamEvent) -> (r: StreamAction)
        requires
            old(self).takes(event),
        ensures
            leads_to(old(self).pending(), event, r),
            final(self).pending() == pending_after(old(self).pending(), event),
    {
        match event {
            StreamEvent::NoMedia => StreamAction::Stop(StreamError::NoMedia),
            StreamEvent::VideoClosed => StreamAction::Stop(StreamError::VideoClosed),
            StreamEvent::Packet(p) => StreamAction::Write(
                self.depacketizer.push(bytes_slice(&p)),
            ),
            StreamEvent::WriteFailed => StreamAction::Stop(StreamError::WriteFailed),
            StreamEvent::Muxed(b) => StreamAction::PublishVideo(b),
            StreamEvent::MuxerClosed => StreamAction::Stop(StreamError::MuxerClosed),
            StreamEvent::MuxerFailed => StreamAction::Stop(StreamError::MuxerFailed),
            StreamEvent::Audio(b) => StreamAction::PublishAudio(b),
            StreamEvent::AudioClosed => StreamAction::Stop(StreamError::AudioClosed),
            StreamEvent::KeepaliveDue => StreamAction::KeepAlive,
            StreamEvent::SwitchFailed => StreamAction::Stop(StreamError::SwitchFailed),
        }
    }
}

// ---------------------------------------------------------------------------
// The muxer
// ---------------------------------------------------------------------------

/// The program that is run: the one that is configured, or `ffmpeg`.
pub fn muxer_program(configured: Option<String>) -> (r: String)
    ensures
        r@ == (match configured {
            Some(p) => p@,
            None => "ffmpeg"@,
        }),
{
    match configured {
        Some(p) => p,
        None => "ffmpeg".to_owned(),
    }
}

/// The arguments of the muxer, which reads HEVC from its input and writes MPEG-TS to its output.
pub open spec fn muxer_arg_texts() -> Seq<Seq<char>> {
    seq![
        "-hide_banner"@,
        "-loglevel"@,
        "error"@,
        "-fflags"@,
        "nobuffer"@,
        "-flags"@,
        "low_delay"@,
        "-f"@,
        "hevc"@,
        "-i"@,
        "pipe:0"@,
        "-c:v"@,
        "copy"@,
        "-f"@,
        "mpegts"@,
        "-mpegts_flags"@,
        "resend_headers"@,
        "-flush_packets"@,
        "1"@,
        "-muxdelay"@,
        "0"@,
        "-muxpreload"@,
        "0"@,
        "pipe:1"@,
    ]
}

/// The arguments of the muxer, which reads HEVC from its input and writes MPEG-TS to its output.
pub fn muxer_args() -> (r: Vec<String>)
    ensures
        text::texts(r@) == muxer_arg_texts(),
{
    let mut r: Vec<String> = Vec::new();
    text::push_text(&mut r, "-hide_banner".to_owned());
    text::push_text(&mut r, "-loglevel".to_owned());
    text::push_text(&mut r, "error".to_owned());
    text::push_text(&mut r, "-fflags".to_owned());
    text::push_text(&mut r, "nobuffer".to_owned());
    text::push_text(&mut r, "-flags".to_owned());
    text::push_text(&mut r, "low_delay".to_owned());
    text::push_text(&mut r, "-f".to_owned());
    text::push_text(&mut r, "hevc".to_owned());
    text::push_text(&mut r, "-i".to_owned());
    text::push_text(&mut r, "pipe:0".to_owned());
    text::push_text(&mut r, "-c:v".to_owned());
    text::push_text(&mut r, "copy".to_owned());
    text::push_text(&mut r, "-f".to_owned());
    text::push_text(&mut r, "mpegts".to_owned());
    text::push_text(&mut r, "-mpegts_flags".to_owned());
    text::push_text(&mut r, "resend_headers".to_owned());
    text::push_text(&mut r, "-flush_packets".to_owned());
    text::push_text(&mut r, "1".to_owned());
    text::push_text(&mut r, "-muxdelay".to_owned());
    text::push_text(&mut r, "0".to_owned());
    text::push_text(&mut r, "-muxpreload".to_owned());
    text::push_text(&mut r, "0".to_owned());
    text::push_text(&mut r, "pipe:1".to_owned());
    assert(text::texts(r@) =~= muxer_arg_texts());
    r
}

/// What `n` bytes read from the muxer into a buffer mean: the bytes, or the end where there are
/// none.
pub fn muxed_chunk(buf: Vec<u8>, n: usize) -> (r: Option<Vec<u8>>)
    requires
        n <= buf@.len(),
    ensures
        match r {
            Some(b) => n > 0 && b@ == buf@.take(n as int),
            None => n == 0,
        },
{
    if n == 0 {
        return None;
    }
    let mut buf = buf;
    buf.truncate(n);
    Some(buf)
}

} // verus!
