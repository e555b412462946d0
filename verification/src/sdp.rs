//! Session descriptions, and their compact form.

use vstd::prelude::*;
use vstd::string::*;

use crate::text;

pub mod answer;
pub mod laws;
pub mod offer;
pub mod read_back;

pub use crate::sdp::answer::decode_answer;
pub use crate::sdp::offer::encode_offer;

verus! {

pub const VIDEO_PT: u8 = 127;

pub const VIDEO_CLOCK_RATE: u32 = 90000;

pub const AUDIO_PT: u8 = 97;

pub const AUDIO_CLOCK_RATE: u32 = 16000;

pub const VIDEO_RTX_PT: u8 = 123;

pub const VIDEO_RTX_RED_PT: u8 = 122;

pub const VIDEO_RED_PT: u8 = 126;

pub const VIDEO_FEC_PT: u8 = 125;

pub const AUDIO_ALT_8K_PT: u8 = 96;

pub const VIDEO_FB: u8 = 35;

pub const VIDEO_FBC: u8 = 22;

/// What a compact description begins with.
pub open spec fn compact_prefix() -> Seq<char> {
    "00\r\n"@
}

/// Why an offer cannot be made, or an answer not be read.
#[derive(Clone, Copy, PartialEq, Eq, Debug, Structural)]
pub enum SdpError {
    MissingAudio,
    MissingVideo,
    MissingUfrag,
    MissingPassword,
    MissingFingerprint,
    MissingSetup,
    MissingOrigin,
    BadPrefix,
    BadJson,
}

impl SdpError {
    /// The message of the error.
    pub open spec fn message_text(self) -> Seq<char> {
        match self {
            SdpError::MissingAudio => "missing m=audio in offer"@,
            SdpError::MissingVideo => "missing m=video in offer"@,
            SdpError::MissingUfrag => "missing ice-ufrag"@,
            SdpError::MissingPassword => "missing ice-pwd"@,
            SdpError::MissingFingerprint => "missing fingerprint"@,
            SdpError::MissingSetup => "missing setup"@,
            SdpError::MissingOrigin => "missing o= line"@,
            SdpError::BadPrefix => "invalid compact answer prefix"@,
            SdpError::BadJson => "parsing compact answer json"@,
        }
    }

    /// The message of the error.
    pub fn message(&self) -> (r: String)
        ensures
            r@ == self.message_text(),
    {
        let m: &str = match self {
            SdpError::MissingAudio => "missing m=audio in offer",
            SdpError::MissingVideo => "missing m=video in offer",
            SdpError::MissingUfrag => "missing ice-ufrag",
            SdpError::MissingPassword => "missing ice-pwd",
            SdpError::MissingFingerprint => "missing fingerprint",
            SdpError::MissingSetup => "missing setup",
            SdpError::MissingOrigin => "missing o= line",
            SdpError::BadPrefix => "invalid compact answer prefix",
            SdpError::BadJson => "parsing compact answer json",
        };
        m.to_owned()
    }
}

// ---------------------------------------------------------------------------
// Reading a description
// ---------------------------------------------------------------------------

/// The first line that begins with `prefix`.
pub open spec fn line_of(sdp: Seq<char>, prefix: Seq<char>) -> Option<Seq<char>> {
    text::first_beginning(text::line_seq(sdp), prefix)
}

/// The first line that begins with `prefix`.
pub fn line<'a>(sdp: &'a str, prefix: &str) -> (r: Option<&'a str>)
    ensures
        match r {
            Some(l) => line_of(sdp@, prefix@) == Some(l@),
            None => line_of(sdp@, prefix@) is None,
        },
{
    let s = text::chars_of(sdp);
    let p = text::chars_of(prefix);
    match text::find_line_beginning(s.as_slice(), p.as_slice()) {
        Some((a, b)) => Some(sdp.substring_char(a, b)),
        None => None,
    }
}

/// What stands behind `prefix` in the first line that begins with it, without white space around
/// it.
pub open spec fn attr_of(sdp: Seq<char>, prefix: Seq<char>) -> Option<Seq<char>> {
    match line_of(sdp, prefix) {
        Some(l) => Some(text::trimmed(l.skip(prefix.len() as int))),
        None => None,
    }
}

/// What stands behind `prefix` in the first line that begins with it, without white space around
/// it.
pub fn attr<'a>(sdp: &'a str, prefix: &str) -> (r: Option<&'a str>)
    ensures
        match r {
            Some(v) => attr_of(sdp@, prefix@) == Some(v@),
            None => attr_of(sdp@, prefix@) is None,
        },
{
    let s = text::chars_of(sdp);
    let p = text::chars_of(prefix);
    match text::find_line_beginning(s.as_slice(), p.as_slice()) {
        Some((a, b)) => {
            let (from, to) = text::trim_range(s.as_slice(), a + p.len(), b);
            assert(s@.subrange(a + p@.len(), b as int) =~= s@.subrange(a as int, b as int).skip(
                p@.len() as int,
            ));
            Some(sdp.substring_char(from, to))
        },
        None => None,
    }
}

/// How many digits a text begins with.
pub open spec fn leading_digits(s: Seq<char>) -> int
    decreases s.len(),
{
    if s.len() > 0 && text::digit(s[0]) {
        1 + leading_digits(s.skip(1))
    } else {
        0
    }
}

/// The number that the first `a=ssrc:` line of a block begins with, where something follows it.
pub open spec fn ssrc_in(block: Seq<char>) -> Option<Seq<char>> {
    match attr_of(block, "a=ssrc:"@) {
        Some(rest) => if leading_digits(rest) < rest.len() {
            Some(rest.take(leading_digits(rest)))
        } else {
            None
        },
        None => None,
    }
}

/// The number that the first `a=ssrc:` line of a block begins with, where something follows it.
pub fn local_ssrc(block: &str) -> (r: Option<&str>)
    ensures
        match r {
            Some(n) => ssrc_in(block@) == Some(n@),
            None => ssrc_in(block@) is None,
        },
{
    let rest = match attr(block, "a=ssrc:") {
        Some(rest) => rest,
        None => {
            return None;
        },
    };
    let s = text::chars_of(rest);
    let mut i: usize = 0;
    assert(s@.skip(0) =~= s@);
    while i < s.len() && text::is_digit(s[i])
        invariant
            i <= s.len(),
            leading_digits(s@) == i + leading_digits(s@.skip(i as int)),
        decreases s.len() - i,
    {
        assert(s@.skip(i as int).skip(1) =~= s@.skip(i + 1));
        i += 1;
    }
    if i == s.len() {
        return None;
    }
    let r = rest.substring_char(0, i);
    assert(r@ =~= rest@.take(i as int));
    Some(r)
}

/// What stands behind ` cname:` in the first line of a block in which that stands, without white
/// space around it.
pub open spec fn cname_in(block: Seq<char>) -> Option<Seq<char>> {
    match text::first_holding(text::line_seq(block), " cname:"@) {
        Some(l) => match text::parted(l, " cname:"@) {
            Some((_, name)) => Some(text::trimmed(name)),
            None => None,
        },
        None => None,
    }
}

/// What stands behind ` cname:` in the first line of a block in which that stands, without white
/// space around it.
pub fn cname_of(block: &str) -> (r: Option<&str>)
    ensures
        match r {
            Some(n) => cname_in(block@) == Some(n@),
            None => cname_in(block@) is None,
        },
{
    let s = text::chars_of(block);
    let p = text::chars_of(" cname:");
    match text::find_line_holding(s.as_slice(), p.as_slice()) {
        Some((a, b, k)) => {
            let (from, to) = text::trim_range(s.as_slice(), k + p.len(), b);
            assert(s@.subrange(k + p@.len(), b as int) =~= s@.subrange(a as int, b as int).skip(
                k - a + p@.len(),
            ));
            Some(block.substring_char(from, to))
        },
        None => None,
    }
}

/// The part of a description from the first `prefix` on, up to where the next line that begins
/// with `m=` would begin.
pub open spec fn block_of(sdp: Seq<char>, prefix: Seq<char>) -> Option<Seq<char>> {
    match text::first_occurrence(sdp, prefix) {
        Some(start) => {
            let rest = sdp.skip(start);
            match text::first_occurrence(rest.skip(1), "\r\nm="@) {
                Some(i) => Some(rest.take(i + 1)),
                None => Some(rest),
            }
        },
        None => None,
    }
}

/// Where `prefix` stands in the description, an ASCII character stands there too. An offset of
/// one byte into what follows is then an offset of one character.
pub open spec fn ascii_at_first(sdp: Seq<char>, prefix: Seq<char>) -> bool {
    match text::first_occurrence(sdp, prefix) {
        Some(start) => start < sdp.len() && (sdp[start] as u32) < 128,
        None => true,
    }
}

/// The part of a description from the first `prefix` on, up to the next `m=` line.
pub fn m_block<'a>(sdp: &'a str, prefix: &str) -> (r: Option<&'a str>)
    requires
        ascii_at_first(sdp@, prefix@),
    ensures
        match r {
            Some(b) => block_of(sdp@, prefix@) == Some(b@),
            None => block_of(sdp@, prefix@) is None,
        },
{
    let s = text::chars_of(sdp);
    let p = text::chars_of(prefix);
    let start: usize = match text::find_from(s.as_slice(), p.as_slice(), 0) {
        Some(start) => start,
        None => {
            return None;
        },
    };
    let next = text::chars_of("\r\nm=");
    let ghost rest = sdp@.skip(start as int);
    let behind = vstd::slice::slice_subrange(s.as_slice(), start + 1, s.len());
    assert(behind@ =~= rest.skip(1));
    match text::find_from(behind, next.as_slice(), 0) {
        Some(i) => {
            let r = sdp.substring_char(start, start + 1 + i);
            assert(r@ =~= rest.take(i + 1));
            Some(r)
        },
        None => {
            let r = sdp.substring_char(start, s.len());
            assert(r@ =~= rest);
            Some(r)
        },
    }
}

} // verus!
