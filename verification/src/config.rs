//! The settings of the client.

use crate::text;
use vstd::prelude::*;

verus! {

/// Settings that cannot be used.
#[derive(Debug)]
pub struct ConfigError {
    pub detail: String,
}

impl ConfigError {
    /// The text that the error is shown as.
    pub fn message(&self) -> (message: String)
        ensures
            message@ == "config: "@ + self.detail@,
    {
        let mut message = "config: ".to_owned();
        message.append(self.detail.as_str());
        message
    }
}

#[derive(Debug, Clone)]
pub struct Settings {
    pub server: ServerSettings,
    pub webrtc: WebRtcSettings,
    pub stream: StreamSettings,
}

/// Where the server is: for viewers and for the operator.
#[derive(Debug, Clone)]
pub struct ServerSettings {
    pub public_url: String,
    pub control_url: String,
}

#[derive(Debug, Clone)]
pub struct WebRtcSettings {
    pub stun_urls: Vec<String>,
}

/// What is streamed, and how.
#[derive(Debug, Clone)]
pub struct StreamSettings {
    pub monitor: u32,
    pub width: u32,
    pub height: u32,
    pub fps: u32,
    pub bitrate_kbps: u32,
    pub codec: String,
    pub audio_enabled: bool,
}

/// What came of reading the settings from a file.
pub enum Loaded {
    /// There is no such file.
    Missing,
    /// The file could not be read, for this reason.
    Unreadable(String),
    /// The file does not hold settings, for this reason.
    Malformed(String),
    /// The settings that the file holds.
    Parsed(Settings),
}

/// The number nearest to `n` that is neither below `low` nor above `high`.
pub open spec fn limited(n: u32, low: u32, high: u32) -> u32 {
    if n < low {
        low
    } else if n > high {
        high
    } else {
        n
    }
}

fn limit(n: u32, low: u32, high: u32) -> (m: u32)
    ensures
        m == limited(n, low, high),
{
    if n < low {
        low
    } else if n > high {
        high
    } else {
        n
    }
}

/// Whether the client can stream with a codec of this name.
pub open spec fn known_codec(codec: Seq<char>) -> bool {
    codec == "h264"@ || codec == "vp8"@
}

/// The settings in the file `path`, brought into safe ranges, if they can be read and used;
/// otherwise the reason that they cannot.
pub fn load(path: &str, loaded: Loaded) -> (result: Result<Settings, String>)
    ensures
        match loaded {
            Loaded::Missing => result matches Err(text) && text@ == "config "@ + path@
                + " not found: copy viewpoint.example.yaml to "@ + path@ + " and retry"@,
            Loaded::Unreadable(source) => result matches Err(text) && text@ == "read "@ + path@
                + ": "@ + source@,
            Loaded::Malformed(source) => result matches Err(text) && text@ == "parse "@ + path@
                + ": "@ + source@,
            Loaded::Parsed(settings) => {
                &&& result is Ok <==> settings.valid()
                &&& result matches Ok(used) ==> used == settings.clamped() && used.valid()
                    && used.stream.safe()
                &&& result matches Err(text) ==> text@ == "config: "@ + settings.complaint()
            },
        },
{
    match loaded {
        Loaded::Missing => {
            let mut text = "config ".to_owned();
            text.append(path);
            text.append(" not found: copy viewpoint.example.yaml to ");
            text.append(path);
            text.append(" and retry");
            Err(text)
        },
        Loaded::Unreadable(source) => {
            let mut text = "read ".to_owned();
            text.append(path);
            text.append(": ");
            text.append(source.as_str());
            Err(text)
        },
        Loaded::Malformed(source) => {
            let mut text = "parse ".to_owned();
            text.append(path);
            text.append(": ");
            text.append(source.as_str());
            Err(text)
        },
        Loaded::Parsed(parsed) => {
            let mut settings = parsed;
            settings.stream.clamp_to_safe_ranges();
            match settings.validate() {
                Ok(_) => Ok(settings),
                Err(error) => Err(error.message()),
            }
        },
    }
}

impl Settings {
    /// Whether the settings can be used: both addresses are given, and the codec is known.
    pub open spec fn valid(&self) -> bool {
        &&& self.server.public_url@.len() > 0
        &&& self.server.control_url@.len() > 0
        &&& known_codec(self.stream.codec@)
    }

    /// What is wrong with settings that cannot be used.
    pub open spec fn complaint(&self) -> Seq<char> {
        if self.server.public_url@.len() == 0 {
            "server.public_url is empty"@
        } else if self.server.control_url@.len() == 0 {
            "server.control_url is empty"@
        } else {
            "stream.codec must be h264 or vp8, got "@ + self.stream.codec@
        }
    }

    /// The same settings, with those of the stream in safe ranges.
    pub open spec fn clamped(self) -> Settings {
        Settings { stream: self.stream.clamped(), ..self }
    }

    pub fn control_url(&self) -> (url: String)
        ensures
            url@ == self.server.control_url@,
    {
        self.server.control_url.clone()
    }

    pub fn public_url(&self) -> (url: String)
        ensures
            url@ == self.server.public_url@,
    {
        self.server.public_url.clone()
    }

    /// Whether the settings can be used, and if not, why.
    pub fn validate(&self) -> (result: Result<(), ConfigError>)
        ensures
            result is Ok <==> self.valid(),
            result matches Err(error) ==> error.detail@ == self.complaint(),
    {
        if self.server.public_url.as_str().is_empty() {
            return Err(ConfigError { detail: "server.public_url is empty".to_owned() });
        }
        if self.server.control_url.as_str().is_empty() {
            return Err(ConfigError { detail: "server.control_url is empty".to_owned() });
        }
        let codec = self.stream.codec.as_str();
        if !text::same_text(codec, "h264") && !text::same_text(codec, "vp8") {
            let mut detail = "stream.codec must be h264 or vp8, got ".to_owned();
            detail.append(codec);
            return Err(ConfigError { detail });
        }
        Ok(())
    }
}

impl StreamSettings {
    /// Whether the settings lie in the ranges in which streaming works.
    pub open spec fn safe(&self) -> bool {
        &&& 1 <= self.monitor <= 4
        &&& 15 <= self.fps <= 120
        &&& 500 <= self.bitrate_kbps <= 50000
        &&& self.width > 0
        &&& self.height > 0
    }

    /// The nearest safe settings. Where no size is given, it is the default one.
    pub open spec fn clamped(self) -> StreamSettings {
        StreamSettings {
            monitor: limited(self.monitor, 1, 4),
            fps: limited(self.fps, 15, 120),
            bitrate_kbps: limited(self.bitrate_kbps, 500, 50000),
            width: if self.width == 0 {
                1920
            } else {
                self.width
            },
            height: if self.height == 0 {
                1080
            } else {
                self.height
            },
            ..self
        }
    }

    /// Brings the settings into safe ranges.
    pub fn clamp_to_safe_ranges(&mut self)
        ensures
            *final(self) == old(self).clamped(),
            final(self).safe(),
    {
        self.monitor = limit(self.monitor, 1, 4);
        self.fps = limit(self.fps, 15, 120);
        self.bitrate_kbps = limit(self.bitrate_kbps, 500, 50000);
        if self.width == 0 {
            self.width = default_width();
        }
        if self.height == 0 {
            self.height = default_height();
        }
    }
}

/// Bringing settings into safe ranges makes them safe, leaves safe settings alone, and so has
/// no effect the second time.
pub proof fn clamping_is_stable(stream: StreamSettings)
    ensures
        stream.clamped().safe(),
        stream.safe() ==> stream.clamped() == stream,
        stream.clamped().clamped() == stream.clamped(),
{
}

/// Bringing settings into safe ranges does not decide whether they can be used.
pub proof fn clamping_keeps_validity(settings: Settings)
    ensures
        settings.clamped().valid() == settings.valid(),
        settings.clamped().complaint() == settings.complaint(),
{
}

impl Default for ServerSettings {
    fn default() -> (settings: Self)
        ensures
            settings.public_url@ == "http://localhost:8080"@,
            settings.control_url@ == "http://127.0.0.1:8080"@,
    {
        ServerSettings { public_url: default_public_url(), control_url: default_control_url() }
    }
}

impl Default for WebRtcSettings {
    fn default() -> (settings: Self)
        ensures
            settings.stun_urls@.len() == 1,
            settings.stun_urls@[0]@ == "stun:stun.l.google.com:19302"@,
    {
        WebRtcSettings { stun_urls: default_stun_urls() }
    }
}

impl Default for StreamSettings {
    fn default() -> (settings: Self)
        ensures
            settings.monitor == 1,
            settings.width == 1920,
            settings.height == 1080,
            settings.fps == 30,
            settings.bitrate_kbps == 6000,
            settings.codec@ == "h264"@,
            settings.audio_enabled,
            settings.safe(),
    {
        StreamSettings {
            monitor: default_monitor(),
            width: default_width(),
            height: default_height(),
            fps: default_fps(),
            bitrate_kbps: default_bitrate(),
            codec: default_codec(),
            audio_enabled: default_audio_enabled(),
        }
    }
}

pub fn default_public_url() -> (url: String)
    ensures
        url@ == "http://localhost:8080"@,
{
    "http://localhost:8080".to_owned()
}

pub fn default_control_url() -> (url: String)
    ensures
        url@ == "http://127.0.0.1:8080"@,
{
    "http://127.0.0.1:8080".to_owned()
}

pub fn default_monitor() -> (n: u32)
    ensures
        n == 1,
{
    1
}

pub fn default_width() -> (n: u32)
    ensures
        n == 1920,
{
    1920
}

pub fn default_height() -> (n: u32)
    ensures
        n == 1080,
{
    1080
}

pub fn default_fps() -> (n: u32)
    ensures
        n == 30,
{
    30
}

pub fn default_bitrate() -> (n: u32)
    ensures
        n == 6000,
{
    6000
}

pub fn default_codec() -> (codec: String)
    ensures
        codec@ == "h264"@,
{
    "h264".to_owned()
}

pub fn default_audio_enabled() -> (b: bool)
    ensures
        b,
{
    true
}

pub fn default_stun_urls() -> (urls: Vec<String>)
    ensures
        urls@.len() == 1,
        urls@[0]@ == "stun:stun.l.google.com:19302"@,
{
    let mut urls: Vec<String> = Vec::new();
    urls.push("stun:stun.l.google.com:19302".to_owned());
    urls
}

/// A limited number lies in the range, and no number of the range is nearer to what it was.
pub proof fn limits_are_nearest(n: u32, low: u32, high: u32, other: u32)
    requires
        low <= high,
        low <= other <= high,
    ensures
        low <= limited(n, low, high) <= high,
        low <= n <= high ==> limited(n, low, high) == n,
        n <= other ==> limited(n, low, high) <= other,
        n >= other ==> limited(n, low, high) >= other,
{
}

/// Each setting that lies in its range is kept, each that does not is moved to the end of the range
/// that it is past, and what has no range is kept.
pub proof fn settings_in_their_ranges_are_kept(stream: StreamSettings)
    ensures
        1 <= stream.monitor <= 4 ==> stream.clamped().monitor == stream.monitor,
        stream.monitor == 0 ==> stream.clamped().monitor == 1,
        stream.monitor > 4 ==> stream.clamped().monitor == 4,
        15 <= stream.fps <= 120 ==> stream.clamped().fps == stream.fps,
        stream.fps < 15 ==> stream.clamped().fps == 15,
        stream.fps > 120 ==> stream.clamped().fps == 120,
        500 <= stream.bitrate_kbps <= 50000 ==> stream.clamped().bitrate_kbps
            == stream.bitrate_kbps,
        stream.bitrate_kbps < 500 ==> stream.clamped().bitrate_kbps == 500,
        stream.bitrate_kbps > 50000 ==> stream.clamped().bitrate_kbps == 50000,
        stream.width > 0 ==> stream.clamped().width == stream.width,
        stream.width == 0 ==> stream.clamped().width == 1920,
        stream.height > 0 ==> stream.clamped().height == stream.height,
        stream.height == 0 ==> stream.clamped().height == 1080,
        stream.clamped().codec == stream.codec,
        stream.clamped().audio_enabled == stream.audio_enabled,
        stream.safe() ==> 1 <= stream.monitor <= 4 && 15 <= stream.fps <= 120 && 500
            <= stream.bitrate_kbps <= 50000 && stream.width > 0 && stream.height > 0,
{
}

/// Settings can be used exactly if both addresses are given and the codec is one of two. Where they
/// cannot, what is missing is named, the addresses first, or else the codec that there is.
pub proof fn settings_can_be_used_or_say_why(settings: Settings)
    ensures
        settings.valid() <==> settings.server.public_url@.len() > 0
            && settings.server.control_url@.len() > 0 && (settings.stream.codec@ == "h264"@
            || settings.stream.codec@ == "vp8"@),
        settings.server.public_url@.len() == 0 ==> settings.complaint()
            == "server.public_url is empty"@,
        settings.server.public_url@.len() > 0 && settings.server.control_url@.len() == 0
            ==> settings.complaint() == "server.control_url is empty"@,
        settings.server.public_url@.len() > 0 && settings.server.control_url@.len() > 0
            ==> settings.complaint() == "stream.codec must be h264 or vp8, got "@
            + settings.stream.codec@,
        settings.clamped().server == settings.server,
        settings.clamped().webrtc == settings.webrtc,
        settings.clamped().stream == settings.stream.clamped(),
{
}

} // verus!
