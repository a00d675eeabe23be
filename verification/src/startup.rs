//! What the client goes by when it starts, and what it says then.

use crate::audio::AudioCapturer;
use crate::config::StreamSettings;
use crate::signal::SignalError;
use crate::text;
use vstd::prelude::*;

verus! {

/// The file that holds the settings, unless the environment names another.
pub fn config_path(named: Option<String>) -> (path: String)
    ensures
        path@ == match named {
            Some(named) => named@,
            None => "viewpoint.yaml"@,
        },
{
    match named {
        Some(named) => named,
        None => "viewpoint.yaml".to_owned(),
    }
}

/// The operator's token, which the environment has to hold.
pub fn operator_token(held: Option<String>) -> (token: Result<String, String>)
    ensures
        match held {
            Some(held) => token == Ok::<String, String>(held),
            None => token matches Err(reason) && reason@
                == "set VIEWPOINT_JWT_SECRET to the same operator token as the server"@,
        },
{
    match held {
        Some(held) => Ok(held),
        None => Err(
            "set VIEWPOINT_JWT_SECRET to the same operator token as the server".to_owned(),
        ),
    }
}

/// The line that tells where viewers open the link: the first one, or one that takes the place of
/// another.
pub fn link_line(url: &str, renewed: bool) -> (line: String)
    ensures
        line@ == if renewed {
            "[INFO] link expired, new link: "@ + url@
        } else {
            "[INFO] open "@ + url@
        },
{
    let mut line = (if renewed {
        "[INFO] link expired, new link: "
    } else {
        "[INFO] open "
    }).to_owned();
    line.append(url);
    line
}

/// The line that tells what is streamed.
pub open spec fn banner_line(stream: StreamSettings) -> Seq<char> {
    "[INFO] Viewpoint client: monitor "@ + text::decimal(stream.monitor as nat) + " "@
        + text::decimal(stream.width as nat) + "x"@ + text::decimal(stream.height as nat) + "@"@
        + text::decimal(stream.fps as nat) + " "@ + text::decimal(stream.bitrate_kbps as nat)
        + "kbps "@ + stream.codec@
}

/// The line that tells what is streamed.
pub fn banner(stream: &StreamSettings) -> (line: String)
    ensures
        line@ == banner_line(*stream),
        line@ == "[INFO] Viewpoint client: monitor "@ + text::decimal(stream.monitor as nat) + " "@
            + text::decimal(stream.width as nat) + "x"@ + text::decimal(stream.height as nat) + "@"@
            + text::decimal(stream.fps as nat) + " "@ + text::decimal(stream.bitrate_kbps as nat)
            + "kbps "@ + stream.codec@,
{
    let mut line = "[INFO] Viewpoint client: monitor ".to_owned();
    text::push_decimal(&mut line, stream.monitor as u64);
    line.append(" ");
    text::push_decimal(&mut line, stream.width as u64);
    line.append("x");
    text::push_decimal(&mut line, stream.height as u64);
    line.append("@");
    text::push_decimal(&mut line, stream.fps as u64);
    line.append(" ");
    text::push_decimal(&mut line, stream.bitrate_kbps as u64);
    line.append("kbps ");
    line.append(stream.codec.as_str());
    line
}

/// What comes of starting to capture sound: what captures it, if that was started, and the line
/// to report.
pub fn open_audio(started: Result<AudioCapturer, SignalError>) -> (result: (
    Option<AudioCapturer>,
    String,
))
    ensures
        match started {
            Ok(capturer) => {
                &&& result.0 == Some(capturer)
                &&& result.1@ == "[INFO] audio loopback on"@
            },
            Err(error) => {
                &&& result.0 is None
                &&& result.1@ == "[WARN] audio off: "@ + error.text()
            },
        },
{
    match started {
        Ok(capturer) => (Some(capturer), "[INFO] audio loopback on".to_owned()),
        Err(error) => (None, error.after("[WARN] audio off: ")),
    }
}

} // verus!
