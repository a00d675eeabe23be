//! The connection to one viewer: how it is set up, what is sent over it, and what is heard.

use crate::audio::SAMPLES_PER_PACKET;
use crate::config::Settings;
use crate::encode;
use crate::encode::Packet;
use crate::signal::{IceConfig, SignalError};
use crate::text;
use bytes::Bytes;
use rtc::peer_connection::sdp::RTCSessionDescription;
use vstd::prelude::*;

verus! {

/// The rate of the clock that video is stamped by, in hertz.
pub const VIDEO_CLOCK_RATE: u32 = 90000;

/// The number by which packets of video are told from others.
pub const VIDEO_PAYLOAD_TYPE: u8 = 102;

/// The number of events that wait until they are asked for.
pub const EVENT_CAPACITY: usize = 16;

/// The name of the channel on which viewers ask for something.
pub const CONTROL_LABEL: &'static str = "viewpoint-control";

/// Where the client listens: on every address, at any port.
pub const HOST_BIND: &'static str = "0.0.0.0:0";

/// How long the search for ways to the viewer may take, in milliseconds.
pub const GATHER_TIMEOUT: u64 = 10000;

/// How long the connection may take to come about, in milliseconds.
pub const CONNECT_TIMEOUT: u64 = 30000;

/// How long the viewer may take to answer, in milliseconds.
pub const ANSWER_WAIT: u64 = 120000;

/// How long the sound in a packet lasts, in milliseconds.
pub const AUDIO_PACKET_MILLIS: u64 = 20;

/// What happens to the connection to a viewer.
#[derive(Clone, Copy, PartialEq, Eq, Debug, Structural)]
pub enum SessionEvent {
    Gathered,
    Connected,
    Disconnected,
    Failed,
}

/// How far the search for ways to the viewer has come.
#[derive(Clone, Copy, PartialEq, Eq, Debug, Structural)]
pub enum GatheringState {
    Unspecified,
    New,
    Gathering,
    Complete,
}

/// The state of the connection as a whole.
#[derive(Clone, Copy, PartialEq, Eq, Debug, Structural)]
pub enum ConnectionState {
    Unspecified,
    New,
    Connecting,
    Connected,
    Disconnected,
    Failed,
    Closed,
}

/// The state of the way to the viewer.
#[derive(Clone, Copy, PartialEq, Eq, Debug, Structural)]
pub enum IceState {
    Unspecified,
    New,
    Checking,
    Connected,
    Completed,
    Disconnected,
    Failed,
    Closed,
}

/// The event that a change of the search is, if it is one: its end.
pub fn on_ice_gathering_state_change(state: GatheringState) -> (event: Option<SessionEvent>)
    ensures
        event == if state == GatheringState::Complete {
            Some(SessionEvent::Gathered)
        } else {
            None
        },
{
    if state == GatheringState::Complete {
        Some(SessionEvent::Gathered)
    } else {
        None
    }
}

/// The event that a change of the connection is, if it is one. A connection that is closed has
/// failed.
pub fn on_connection_state_change(state: ConnectionState) -> (event: Option<SessionEvent>)
    ensures
        event == match state {
            ConnectionState::Connected => Some(SessionEvent::Connected),
            ConnectionState::Failed | ConnectionState::Closed => Some(SessionEvent::Failed),
            ConnectionState::Disconnected => Some(SessionEvent::Disconnected),
            _ => None,
        },
{
    match state {
        ConnectionState::Connected => Some(SessionEvent::Connected),
        ConnectionState::Failed | ConnectionState::Closed => Some(SessionEvent::Failed),
        ConnectionState::Disconnected => Some(SessionEvent::Disconnected),
        _ => None,
    }
}

/// The event that a change of the way to the viewer is, if it is one. A way that is closed has
/// failed.
pub fn on_ice_connection_state_change(state: IceState) -> (event: Option<SessionEvent>)
    ensures
        event == match state {
            IceState::Connected | IceState::Completed => Some(SessionEvent::Connected),
            IceState::Failed | IceState::Closed => Some(SessionEvent::Failed),
            IceState::Disconnected => Some(SessionEvent::Disconnected),
            _ => None,
        },
{
    match state {
        IceState::Connected | IceState::Completed => Some(SessionEvent::Connected),
        IceState::Failed | IceState::Closed => Some(SessionEvent::Failed),
        IceState::Disconnected => Some(SessionEvent::Disconnected),
        _ => None,
    }
}

/// What a viewer asks for.
#[derive(Clone, Copy, PartialEq, Eq, Debug, Structural)]
pub enum Command {
    Pause,
    Resume,
    Bye,
}

/// What a message from a viewer asks for, if it asks for anything: it is a word, which white
/// space may surround.
pub open spec fn command_of(message: Seq<u8>) -> Option<Command> {
    if !vstd::utf8::valid_utf8(message) {
        None
    } else {
        let word = text::trimmed(vstd::utf8::decode_utf8(message));
        if word == "pause"@ {
            Some(Command::Pause)
        } else if word == "resume"@ {
            Some(Command::Resume)
        } else if word == "bye"@ {
            Some(Command::Bye)
        } else {
            None
        }
    }
}

/// A message asks for something exactly if it is one of three words, whatever white space is
/// before and after the word. What is no text asks for nothing.
pub proof fn one_word_commands(
    message: Seq<u8>,
    before: Seq<char>,
    word: Seq<char>,
    after: Seq<char>,
)
    requires
        vstd::utf8::valid_utf8(message) ==> vstd::utf8::decode_utf8(message) == before + word
            + after,
        forall|i: int| 0 <= i < before.len() ==> text::is_space(#[trigger] before[i]),
        forall|i: int| 0 <= i < after.len() ==> text::is_space(#[trigger] after[i]),
        word.len() > 0 ==> !text::is_space(word[0]) && !text::is_space(word.last()),
    ensures
        command_of(message) == Some(Command::Pause) <==> vstd::utf8::valid_utf8(message) && word
            == "pause"@,
        command_of(message) == Some(Command::Resume) <==> vstd::utf8::valid_utf8(message) && word
            == "resume"@,
        command_of(message) == Some(Command::Bye) <==> vstd::utf8::valid_utf8(message) && word
            == "bye"@,
{
    text::padding_is_cut_off(before, word, after);
    reveal_strlit("pause");
    reveal_strlit("resume");
    reveal_strlit("bye");
    assert("pause"@.len() == 5 && "resume"@.len() == 6 && "bye"@.len() == 3);
}

/// What a message from a viewer asks for, if it asks for anything.
pub fn read_command(message: Vec<u8>) -> (command: Option<Command>)
    ensures
        command == command_of(message@),
{
    match text::decode_text(message) {
        None => None,
        Some(decoded) => {
            let word = text::trim(decoded.as_str());
            if text::same_text(word, "pause") {
                Some(Command::Pause)
            } else if text::same_text(word, "resume") {
                Some(Command::Resume)
            } else if text::same_text(word, "bye") {
                Some(Command::Bye)
            } else {
                None
            }
        },
    }
}

/// What happens on the channel on which a viewer is heard.
pub enum ChannelEvent {
    Message(Vec<u8>),
    /// The channel is closed, or gone.
    Closed,
    Other,
}

/// What a viewer has asked for so far.
#[derive(Clone, Copy, PartialEq, Eq, Debug, Structural)]
pub struct ControlState {
    pub paused: bool,
    pub left: bool,
}

impl ControlState {
    /// The viewer has asked for nothing.
    pub fn new() -> (state: Self)
        ensures
            state == (ControlState { paused: false, left: false }),
    {
        ControlState { paused: false, left: false }
    }

    /// The state after a viewer asked for something.
    pub open spec fn after(self, command: Option<Command>) -> ControlState {
        match command {
            Some(Command::Pause) => ControlState { paused: true, ..self },
            Some(Command::Resume) => ControlState { paused: false, ..self },
            Some(Command::Bye) => ControlState { left: true, ..self },
            None => self,
        }
    }

    /// Takes in what happens on the channel, and tells whether there is more to hear: not after
    /// the viewer left or the channel was closed.
    pub fn hear(&mut self, event: ChannelEvent) -> (listening: bool)
        ensures
            match event {
                ChannelEvent::Message(message) => {
                    &&& *final(self) == old(self).after(command_of(message@))
                    &&& listening == (command_of(message@) != Some(Command::Bye))
                },
                ChannelEvent::Closed => *final(self) == *old(self) && !listening,
                ChannelEvent::Other => *final(self) == *old(self) && listening,
            },
    {
        match event {
            ChannelEvent::Message(message) => match read_command(message) {
                Some(Command::Pause) => {
                    self.paused = true;
                    true
                },
                Some(Command::Resume) => {
                    self.paused = false;
                    true
                },
                Some(Command::Bye) => {
                    self.left = true;
                    false
                },
                None => true,
            },
            ChannelEvent::Closed => false,
            ChannelEvent::Other => true,
        }
    }
}

/// Whoever has left stays gone, whatever is heard after that, and whether anything is to be sent
/// is for the last word on that alone to say.
pub proof fn leaving_is_final(state: ControlState, command: Option<Command>)
    ensures
        state.left ==> state.after(command).left,
        state.after(command).left ==> state.left || command == Some(Command::Bye),
        command == Some(Command::Bye) ==> state.after(command).left,
        command == Some(Command::Pause) ==> state.after(command).paused,
        command == Some(Command::Resume) ==> !state.after(command).paused,
        command is None || command == Some(Command::Bye) ==> state.after(command).paused
            == state.paused,
{
}

/// What a viewer has asked for after several commands.
pub open spec fn heard(state: ControlState, commands: Seq<Option<Command>>) -> ControlState
    decreases commands.len(),
{
    if commands.len() == 0 {
        state
    } else {
        heard(state, commands.drop_last()).after(commands.last())
    }
}

/// Whoever said once that they leave has left, and whoever did not has not. Whether anything is to
/// be sent depends on what came last of pausing and going on, whatever came before.
pub proof fn the_last_word_counts(state: ControlState, commands: Seq<Option<Command>>, at: int)
    requires
        !state.left,
        0 <= at < commands.len(),
    ensures
        heard(state, commands).left <==> commands.contains(Some(Command::Bye)),
        (commands[at] == Some(Command::Pause) && forall|i: int|
            at < i < commands.len() ==> #[trigger] commands[i] != Some(Command::Resume)) ==> heard(
            state,
            commands,
        ).paused,
        (commands[at] == Some(Command::Resume) && forall|i: int|
            at < i < commands.len() ==> #[trigger] commands[i] != Some(Command::Pause)) ==> !heard(
            state,
            commands,
        ).paused,
    decreases commands.len(),
{
    let before = commands.drop_last();
    let end = commands.len() - 1;
    assert(commands.contains(Some(Command::Bye)) <==> before.contains(Some(Command::Bye))
        || commands[end] == Some(Command::Bye)) by {
        if commands.contains(Some(Command::Bye)) {
            let i = choose|i: int| 0 <= i < commands.len() && commands[i] == Some(Command::Bye);
            if i < end {
                assert(before[i] == Some(Command::Bye));
            }
        }
        if before.contains(Some(Command::Bye)) {
            let i = choose|i: int| 0 <= i < before.len() && before[i] == Some(Command::Bye);
            assert(commands[i] == Some(Command::Bye));
        }
    }
    if before.len() > 0 {
        let earlier = if at < end {
            at
        } else {
            0
        };
        the_last_word_counts(state, before, earlier);
        assert(forall|i: int| 0 <= i < end ==> #[trigger] before[i] == commands[i]);
    }
}

/// A server through which a connection may be found.
pub struct IceServer {
    pub urls: Vec<String>,
    pub username: String,
    pub credential: String,
}

impl IceServer {
    /// Whether the server is used without a name and a password.
    pub open spec fn anonymous(&self) -> bool {
        self.username@.len() == 0 && self.credential@.len() == 0
    }
}

/// Whether the signalling server names servers that tell the client its own address.
pub open spec fn offers_stun(live: Result<IceConfig, SignalError>) -> bool {
    live matches Ok(config) && config.stun_urls@.len() > 0
}

/// Whether the signalling server names a server that relays, with all that it takes to use it.
pub open spec fn offers_turn(live: Result<IceConfig, SignalError>) -> bool {
    &&& live matches Ok(config)
    &&& config.turn_url@.len() > 0
    &&& config.turn_username@.len() > 0
    &&& config.turn_password@.len() > 0
}

/// A server that relays is of use only with its address, a name and a password, and one that tells
/// an address is of use by itself. A server that cannot be asked names neither.
pub proof fn relays_need_name_and_password(config: IceConfig, error: SignalError, server: IceServer)
    ensures
        offers_turn(Ok(config)) <==> config.turn_url@.len() > 0 && config.turn_username@.len() > 0
            && config.turn_password@.len() > 0,
        offers_stun(Ok(config)) <==> config.stun_urls@.len() > 0,
        !offers_turn(Err(error)),
        !offers_stun(Err(error)),
        server.anonymous() <==> server.username@.len() == 0 && server.credential@.len() == 0,
{
}

/// The servers to connect through: those that the signalling server names, or if it names none,
/// those of the settings.
pub fn resolve_ice_servers(settings: &Settings, live: Result<IceConfig, SignalError>) -> (servers:
    Vec<IceServer>)
    ensures
        offers_stun(live) ==> {
            &&& servers@.len() >= 1
            &&& servers@[0].urls == live->Ok_0.stun_urls
            &&& servers@[0].anonymous()
        },
        offers_turn(live) ==> {
            &&& servers@.len() >= 1
            &&& servers@.last().urls@ == seq![live->Ok_0.turn_url]
            &&& servers@.last().username == live->Ok_0.turn_username
            &&& servers@.last().credential == live->Ok_0.turn_password
        },
        servers@.len() == if offers_stun(live) && offers_turn(live) {
            2int
        } else {
            1int
        },
        !offers_stun(live) && !offers_turn(live) ==> {
            &&& servers@[0].urls@ == settings.webrtc.stun_urls@
            &&& servers@[0].anonymous()
        },
        live matches Ok(config) ==> (config.stun_urls@.len() > 0 ==> servers@[0].urls
            == config.stun_urls && servers@[0].username@.len() == 0
            && servers@[0].credential@.len() == 0),
        live matches Ok(config) ==> (config.turn_url@.len() > 0 && config.turn_username@.len() > 0
            && config.turn_password@.len() > 0 ==> servers@.last().urls@ == seq![config.turn_url]
            && servers@.last().username == config.turn_username && servers@.last().credential
            == config.turn_password),
        (live matches Ok(config) ==> config.stun_urls@.len() == 0 && (config.turn_url@.len() == 0
            || config.turn_username@.len() == 0 || config.turn_password@.len() == 0))
            ==> servers@.len() == 1 && servers@[0].urls@ == settings.webrtc.stun_urls@
            && servers@[0].username@.len() == 0 && servers@[0].credential@.len() == 0,
{
    let mut servers: Vec<IceServer> = Vec::new();
    if let Ok(config) = live {
        let relayed = !config.turn_url.as_str().is_empty()
            && !config.turn_username.as_str().is_empty()
            && !config.turn_password.as_str().is_empty();
        if config.stun_urls.len() > 0 {
            servers.push(
                IceServer {
                    urls: config.stun_urls,
                    username: String::new(),
                    credential: String::new(),
                },
            );
        }
        if relayed {
            let mut urls: Vec<String> = Vec::new();
            urls.push(config.turn_url);
            assert(urls@ =~= seq![config.turn_url]);
            servers.push(
                IceServer {
                    urls,
                    username: config.turn_username,
                    credential: config.turn_password,
                },
            );
        }
        if servers.len() > 0 {
            return servers;
        }
    }
    let urls = settings.webrtc.stun_urls.clone();
    assert(urls@ =~= settings.webrtc.stun_urls@);
    servers.push(IceServer { urls, username: String::new(), credential: String::new() });
    servers
}

/// How sound or pictures are represented on the way to a viewer.
pub struct CodecParameters {
    pub mime_type: String,
    pub clock_rate: u32,
    pub channels: u16,
    pub sdp_fmtp_line: String,
    pub payload_type: u8,
}

pub fn build_video_codec() -> (codec: CodecParameters)
    ensures
        codec.mime_type@ == "video/H264"@,
        codec.clock_rate == VIDEO_CLOCK_RATE,
        codec.channels == 0,
        codec.sdp_fmtp_line@
            == "level-asymmetry-allowed=1;packetization-mode=1;profile-level-id=42e01f"@,
        codec.payload_type == VIDEO_PAYLOAD_TYPE,
{
    CodecParameters {
        mime_type: "video/H264".to_owned(),
        clock_rate: VIDEO_CLOCK_RATE,
        channels: 0,
        sdp_fmtp_line: "level-asymmetry-allowed=1;packetization-mode=1;profile-level-id=42e01f".to_owned(),
        payload_type: VIDEO_PAYLOAD_TYPE,
    }
}

pub fn build_audio_codec() -> (codec: CodecParameters)
    ensures
        codec.mime_type@ == "audio/PCMU"@,
        codec.clock_rate == 8000,
        codec.channels == 1,
        codec.sdp_fmtp_line@.len() == 0,
        codec.payload_type == 0,
{
    CodecParameters {
        mime_type: "audio/PCMU".to_owned(),
        clock_rate: 8000,
        channels: 1,
        sdp_fmtp_line: String::new(),
        payload_type: 0,
    }
}

/// A track of sound or pictures: by which names it goes, the number that its packets carry, and
/// how it is represented.
pub struct TrackPlan {
    pub stream_id: String,
    pub track_id: String,
    pub label: String,
    pub ssrc: u32,
    pub codec: CodecParameters,
}

/// A number that no other track is likely to carry, through `rand::random`. Nothing is said of
/// it.
#[verifier::external_body]
fn random_ssrc() -> (ssrc: u32) {
    rand::random::<u32>()
}

/// The track of pictures whose packets carry `ssrc`.
pub fn video_track(ssrc: u32, codec: CodecParameters) -> (track: TrackPlan)
    ensures
        track.stream_id@ == "viewpoint-stream"@,
        track.track_id@ == "viewpoint-video"@,
        track.label@ == "viewpoint video"@,
        track.ssrc == ssrc,
        track.codec == codec,
{
    TrackPlan {
        stream_id: "viewpoint-stream".to_owned(),
        track_id: "viewpoint-video".to_owned(),
        label: "viewpoint video".to_owned(),
        ssrc,
        codec,
    }
}

/// The track of sound whose packets carry `ssrc`.
pub fn audio_track(ssrc: u32, codec: CodecParameters) -> (track: TrackPlan)
    ensures
        track.stream_id@ == "viewpoint-audio-stream"@,
        track.track_id@ == "viewpoint-audio"@,
        track.label@ == "viewpoint audio"@,
        track.ssrc == ssrc,
        track.codec == codec,
{
    TrackPlan {
        stream_id: "viewpoint-audio-stream".to_owned(),
        track_id: "viewpoint-audio".to_owned(),
        label: "viewpoint audio".to_owned(),
        ssrc,
        codec,
    }
}

/// A track of pictures. The number that its packets carry is left to chance.
pub fn build_video_track(codec: CodecParameters) -> (track: TrackPlan)
    ensures
        track.stream_id@ == "viewpoint-stream"@,
        track.track_id@ == "viewpoint-video"@,
        track.label@ == "viewpoint video"@,
        track.codec == codec,
{
    let ssrc: u32 = random_ssrc();
    video_track(ssrc, codec)
}

/// A track of sound. The number that its packets carry is left to chance.
pub fn build_audio_track() -> (track: TrackPlan)
    ensures
        track.stream_id@ == "viewpoint-audio-stream"@,
        track.track_id@ == "viewpoint-audio"@,
        track.label@ == "viewpoint audio"@,
        track.codec.mime_type@ == "audio/PCMU"@,
        track.codec.clock_rate == 8000,
        track.codec.channels == 1,
        track.codec.sdp_fmtp_line@.len() == 0,
        track.codec.payload_type == 0,
{
    let ssrc: u32 = random_ssrc();
    audio_track(ssrc, build_audio_codec())
}

/// What to do while waiting for an event.
pub enum Wait {
    /// The event came.
    Ready,
    /// Wait on.
    Keep,
    /// The event will not come.
    Fail(SignalError),
}

/// What to do on an event, or on the end of events, while waiting for `want`.
pub fn wait_for_event(received: Option<SessionEvent>, want: SessionEvent) -> (wait: Wait)
    ensures
        match received {
            None => {
                &&& wait matches Wait::Fail(error)
                &&& error.status is None
                &&& error.text() == "viewer connection lost"@
            },
            Some(event) => if event == want {
                wait is Ready
            } else if event == SessionEvent::Failed {
                &&& wait matches Wait::Fail(error)
                &&& error.status is None
                &&& error.text() == "viewer connection failed"@
            } else {
                wait is Keep
            },
        },
{
    match received {
        None => Wait::Fail(SignalError::failed("viewer connection lost".to_owned())),
        Some(event) => {
            if event == want {
                Wait::Ready
            } else if event == SessionEvent::Failed {
                Wait::Fail(SignalError::failed("viewer connection failed".to_owned()))
            } else {
                Wait::Keep
            }
        },
    }
}

/// What waiting for the end of the search came to, if it did not take too long.
pub fn wait_gathering(waited: Option<Result<(), SignalError>>) -> (result: Result<(), SignalError>)
    ensures
        match waited {
            Some(outcome) => result == outcome,
            None => {
                &&& result matches Err(error)
                &&& error.status is None
                &&& error.text() == "ice gathering timed out"@
            },
        },
{
    match waited {
        Some(outcome) => outcome,
        None => Err(SignalError::failed("ice gathering timed out".to_owned())),
    }
}

/// What waiting for the connection came to, if it did not take too long.
pub fn wait_connected(waited: Option<Result<(), SignalError>>) -> (result: Result<(), SignalError>)
    ensures
        match waited {
            Some(outcome) => result == outcome,
            None => {
                &&& result matches Err(error)
                &&& error.status is None
                &&& error.text() == "viewer never connected in time"@
            },
        },
{
    match waited {
        Some(outcome) => outcome,
        None => Err(SignalError::failed("viewer never connected in time".to_owned())),
    }
}

/// A description of an end of a connection.
#[verifier::external_type_specification]
#[verifier::external_body]
pub struct ExSessionDescription(RTCSessionDescription);

/// The reason that a description cannot be read.
#[verifier::external_type_specification]
#[verifier::external_body]
pub struct ExDescriptionError(rtc::shared::error::Error);

/// Whether a text describes an end of a connection, and if not, why.
pub uninterp spec fn answer_reading(sdp: Seq<char>) -> Result<(), Seq<char>>;

/// The text of a description.
pub uninterp spec fn description_text(description: RTCSessionDescription) -> Seq<char>;

/// What the reason that a description cannot be read is shown as.
pub uninterp spec fn fault_words(error: rtc::shared::error::Error) -> Seq<char>;

/// Reads a viewer's description, through
/// `rtc::peer_connection::sdp::RTCSessionDescription::answer`: it can be read exactly if it is
/// well-formed, and what was read keeps the text. Which texts are well-formed, and for which
/// reason others are not, is left to the name.
#[verifier::external_body]
fn parse_answer(sdp: String) -> (result: Result<RTCSessionDescription, rtc::shared::error::Error>)
    ensures
        result is Ok <==> answer_reading(sdp@) is Ok,
        result matches Ok(description) ==> description_text(description) == sdp@,
        result matches Err(error) ==> answer_reading(sdp@)->Err_0 == fault_words(error),
{
    RTCSessionDescription::answer(sdp)
}

/// What the reason is shown as, through the `Display` of `rtc::shared::error::Error`. What it
/// says is left to the name.
#[verifier::external_body]
fn description_error_text(error: &rtc::shared::error::Error) -> (text: String)
    ensures
        text@ == fault_words(*error),
{
    error.to_string()
}

/// The viewer's description, or the reason that it cannot be read.
pub fn read_answer(sdp: String) -> (result: Result<RTCSessionDescription, String>)
    ensures
        result is Ok <==> answer_reading(sdp@) is Ok,
        result matches Ok(description) ==> description_text(description) == sdp@,
        result matches Err(reason) ==> answer_reading(sdp@)->Err_0 == reason@,
{
    match parse_answer(sdp) {
        Ok(description) => Ok(description),
        Err(error) => Err(description_error_text(&error)),
    }
}

/// A step on the way to a connection.
#[derive(Clone, Copy, PartialEq, Eq, Debug, Structural)]
pub enum ConnectStep {
    /// Find out the servers to connect through.
    ResolveIce,
    /// Tell the connection how pictures are represented.
    RegisterVideoCodec,
    /// Tell the connection how sound is represented.
    RegisterAudioCodec,
    /// Set up what watches over the packets.
    RegisterInterceptors,
    /// Make the connection's own end.
    BuildPeer,
    /// Make the track of pictures.
    BuildVideoTrack,
    /// Add the track of pictures.
    AddVideoTrack,
    /// Make the track of sound.
    BuildAudioTrack,
    /// Add the track of sound.
    AddAudioTrack,
    /// Open the channel on which the viewer is heard.
    OpenControl,
    /// Describe what is on offer.
    CreateOffer,
    /// Start the search for ways to the viewer.
    SetOffer,
    /// Wait for the end of the search.
    AwaitGathering,
    /// Read the description, with the ways that were found.
    ReadOffer,
    /// Hand the description to the viewer.
    PublishOffer,
    /// Wait for the viewer's own description.
    AwaitAnswer,
    /// Read the viewer's description.
    ReadAnswer,
    /// Connect to the viewer.
    SetAnswer,
    /// Wait for the connection.
    AwaitConnection,
    /// There is a connection.
    Connected,
}

/// Why a step failed.
pub enum StepFailure {
    /// For this reason.
    Reason(String),
    /// There was no description to read.
    NoOffer,
    /// The exchange with the server or with the viewer failed.
    Exchange(SignalError),
}

impl ConnectStep {
    /// The name that a failure of the step is reported under, if it is.
    pub open spec fn name(self) -> Option<Seq<char>> {
        match self {
            ConnectStep::ResolveIce => None,
            ConnectStep::RegisterVideoCodec => Some("register codec"@),
            ConnectStep::RegisterAudioCodec => Some("register audio codec"@),
            ConnectStep::RegisterInterceptors => Some("register interceptors"@),
            ConnectStep::BuildPeer => Some("build peer"@),
            ConnectStep::BuildVideoTrack => Some("build track"@),
            ConnectStep::AddVideoTrack => Some("add track"@),
            ConnectStep::BuildAudioTrack => Some("build audio track"@),
            ConnectStep::AddAudioTrack => Some("add audio track"@),
            ConnectStep::OpenControl => None,
            ConnectStep::CreateOffer => Some("create offer"@),
            ConnectStep::SetOffer => Some("set local offer"@),
            ConnectStep::AwaitGathering => None,
            ConnectStep::ReadOffer => None,
            ConnectStep::PublishOffer => None,
            ConnectStep::AwaitAnswer => None,
            ConnectStep::ReadAnswer => Some("read answer"@),
            ConnectStep::SetAnswer => Some("set remote answer"@),
            ConnectStep::AwaitConnection => None,
            ConnectStep::Connected => None,
        }
    }

    fn label(self) -> (label: Option<&'static str>)
        ensures
            label is Some == self.name() is Some,
            label matches Some(text) ==> self.name() == Some(text@),
    {
        match self {
            ConnectStep::ResolveIce => None,
            ConnectStep::RegisterVideoCodec => Some("register codec"),
            ConnectStep::RegisterAudioCodec => Some("register audio codec"),
            ConnectStep::RegisterInterceptors => Some("register interceptors"),
            ConnectStep::BuildPeer => Some("build peer"),
            ConnectStep::BuildVideoTrack => Some("build track"),
            ConnectStep::AddVideoTrack => Some("add track"),
            ConnectStep::BuildAudioTrack => Some("build audio track"),
            ConnectStep::AddAudioTrack => Some("add audio track"),
            ConnectStep::OpenControl => None,
            ConnectStep::CreateOffer => Some("create offer"),
            ConnectStep::SetOffer => Some("set local offer"),
            ConnectStep::AwaitGathering => None,
            ConnectStep::ReadOffer => None,
            ConnectStep::PublishOffer => None,
            ConnectStep::AwaitAnswer => None,
            ConnectStep::ReadAnswer => Some("read answer"),
            ConnectStep::SetAnswer => Some("set remote answer"),
            ConnectStep::AwaitConnection => None,
            ConnectStep::Connected => None,
        }
    }

    /// The number of steps before this one.
    pub open spec fn position(self) -> int {
        match self {
            ConnectStep::ResolveIce => 0,
            ConnectStep::RegisterVideoCodec => 1,
            ConnectStep::RegisterAudioCodec => 2,
            ConnectStep::RegisterInterceptors => 3,
            ConnectStep::BuildPeer => 4,
            ConnectStep::BuildVideoTrack => 5,
            ConnectStep::AddVideoTrack => 6,
            ConnectStep::BuildAudioTrack => 7,
            ConnectStep::AddAudioTrack => 8,
            ConnectStep::OpenControl => 9,
            ConnectStep::CreateOffer => 10,
            ConnectStep::SetOffer => 11,
            ConnectStep::AwaitGathering => 12,
            ConnectStep::ReadOffer => 13,
            ConnectStep::PublishOffer => 14,
            ConnectStep::AwaitAnswer => 15,
            ConnectStep::ReadAnswer => 16,
            ConnectStep::SetAnswer => 17,
            ConnectStep::AwaitConnection => 18,
            ConnectStep::Connected => 19,
        }
    }

    /// The step that follows.
    pub open spec fn successor(self) -> ConnectStep {
        match self {
            ConnectStep::ResolveIce => ConnectStep::RegisterVideoCodec,
            ConnectStep::RegisterVideoCodec => ConnectStep::RegisterAudioCodec,
            ConnectStep::RegisterAudioCodec => ConnectStep::RegisterInterceptors,
            ConnectStep::RegisterInterceptors => ConnectStep::BuildPeer,
            ConnectStep::BuildPeer => ConnectStep::BuildVideoTrack,
            ConnectStep::BuildVideoTrack => ConnectStep::AddVideoTrack,
            ConnectStep::AddVideoTrack => ConnectStep::BuildAudioTrack,
            ConnectStep::BuildAudioTrack => ConnectStep::AddAudioTrack,
            ConnectStep::AddAudioTrack => ConnectStep::OpenControl,
            ConnectStep::OpenControl => ConnectStep::CreateOffer,
            ConnectStep::CreateOffer => ConnectStep::SetOffer,
            ConnectStep::SetOffer => ConnectStep::AwaitGathering,
            ConnectStep::AwaitGathering => ConnectStep::ReadOffer,
            ConnectStep::ReadOffer => ConnectStep::PublishOffer,
            ConnectStep::PublishOffer => ConnectStep::AwaitAnswer,
            ConnectStep::AwaitAnswer => ConnectStep::ReadAnswer,
            ConnectStep::ReadAnswer => ConnectStep::SetAnswer,
            ConnectStep::SetAnswer => ConnectStep::AwaitConnection,
            ConnectStep::AwaitConnection => ConnectStep::Connected,
            ConnectStep::Connected => ConnectStep::Connected,
        }
    }

    fn following(self) -> (step: ConnectStep)
        ensures
            step == self.successor(),
    {
        match self {
            ConnectStep::ResolveIce => ConnectStep::RegisterVideoCodec,
            ConnectStep::RegisterVideoCodec => ConnectStep::RegisterAudioCodec,
            ConnectStep::RegisterAudioCodec => ConnectStep::RegisterInterceptors,
            ConnectStep::RegisterInterceptors => ConnectStep::BuildPeer,
            ConnectStep::BuildPeer => ConnectStep::BuildVideoTrack,
            ConnectStep::BuildVideoTrack => ConnectStep::AddVideoTrack,
            ConnectStep::AddVideoTrack => ConnectStep::BuildAudioTrack,
            ConnectStep::BuildAudioTrack => ConnectStep::AddAudioTrack,
            ConnectStep::AddAudioTrack => ConnectStep::OpenControl,
            ConnectStep::OpenControl => ConnectStep::CreateOffer,
            ConnectStep::CreateOffer => ConnectStep::SetOffer,
            ConnectStep::SetOffer => ConnectStep::AwaitGathering,
            ConnectStep::AwaitGathering => ConnectStep::ReadOffer,
            ConnectStep::ReadOffer => ConnectStep::PublishOffer,
            ConnectStep::PublishOffer => ConnectStep::AwaitAnswer,
            ConnectStep::AwaitAnswer => ConnectStep::ReadAnswer,
            ConnectStep::ReadAnswer => ConnectStep::SetAnswer,
            ConnectStep::SetAnswer => ConnectStep::AwaitConnection,
            ConnectStep::AwaitConnection => ConnectStep::Connected,
            ConnectStep::Connected => ConnectStep::Connected,
        }
    }

    /// What comes after the step: the next one, or the error that ends the attempt.
    pub fn performed(self, outcome: Result<(), StepFailure>) -> (result: Result<
        ConnectStep,
        SignalError,
    >)
        ensures
            match outcome {
                Ok(_) => result == Ok::<ConnectStep, SignalError>(self.successor()),
                Err(StepFailure::Reason(source)) => {
                    &&& result matches Err(error)
                    &&& error.status is None
                    &&& error.text() == match self.name() {
                        Some(name) => name + ": "@ + source@,
                        None => source@,
                    }
                },
                Err(StepFailure::NoOffer) => {
                    &&& result matches Err(error)
                    &&& error.status is None
                    &&& error.text() == "missing local offer after gathering"@
                },
                Err(StepFailure::Exchange(error)) => result == Err::<ConnectStep, SignalError>(
                    error,
                ),
            },
    {
        match outcome {
            Ok(_) => Ok(self.following()),
            Err(StepFailure::Reason(source)) => match self.label() {
                Some(label) => {
                    let mut detail = label.to_owned();
                    detail.append(": ");
                    detail.append(source.as_str());
                    Err(SignalError::failed(detail))
                },
                None => Err(SignalError::failed(source)),
            },
            Err(StepFailure::NoOffer) => Err(
                SignalError::from("missing local offer after gathering"),
            ),
            Err(StepFailure::Exchange(error)) => Err(error),
        }
    }
}

/// The steps follow each other without a gap and without a way back, so that none is taken before
/// all that precede it have succeeded.
pub proof fn connect_steps_in_order(step: ConnectStep)
    ensures
        0 <= step.position() <= ConnectStep::Connected.position(),
        step != ConnectStep::Connected ==> step.successor().position() == step.position() + 1,
        step.position() == ConnectStep::Connected.position() ==> step == ConnectStep::Connected,
        step.position() == 0 ==> step == ConnectStep::ResolveIce,
{
}

/// Nothing is done before what it needs: the connection is made when it is known through which
/// servers and how sound and pictures are represented, tracks are added when they are made, an
/// offer is described when everything on offer is there, handed out when the search has ended, and
/// the viewer's answer is read when it is there and taken up when it was read.
pub proof fn nothing_is_done_too_early()
    ensures
        ConnectStep::ResolveIce.position() < ConnectStep::RegisterVideoCodec.position()
            < ConnectStep::RegisterAudioCodec.position()
            < ConnectStep::RegisterInterceptors.position() < ConnectStep::BuildPeer.position(),
        ConnectStep::BuildPeer.position() < ConnectStep::BuildVideoTrack.position()
            < ConnectStep::AddVideoTrack.position() < ConnectStep::BuildAudioTrack.position()
            < ConnectStep::AddAudioTrack.position() < ConnectStep::OpenControl.position()
            < ConnectStep::CreateOffer.position(),
        ConnectStep::CreateOffer.position() < ConnectStep::SetOffer.position()
            < ConnectStep::AwaitGathering.position() < ConnectStep::ReadOffer.position()
            < ConnectStep::PublishOffer.position() < ConnectStep::AwaitAnswer.position(),
        ConnectStep::AwaitAnswer.position() < ConnectStep::ReadAnswer.position()
            < ConnectStep::SetAnswer.position() < ConnectStep::AwaitConnection.position()
            < ConnectStep::Connected.position(),
        ConnectStep::Connected.successor() == ConnectStep::Connected,
{
}

/// Sound or pictures to be sent: the number that the packets carry, how they are represented,
/// the bytes, for how many milliseconds they last, and the stamp.
pub struct Sample {
    pub ssrc: u32,
    pub payload_type: u8,
    pub data: Bytes,
    pub duration: u64,
    pub packet_timestamp: u32,
}

/// The client's end of a connection.
pub struct Publisher {
    /// What the viewer has asked for.
    pub control: ControlState,
    /// What has happened since it was last asked for.
    pub events: Vec<SessionEvent>,
    /// The stamp of the last pictures, and what is added to it for the next.
    pub rtp_clock: u32,
    pub rtp_step: u32,
    /// The stamp of the last sound.
    pub audio_clock: u32,
    /// For how many milliseconds a picture lasts.
    pub frame_interval: u64,
}

/// The number of pictures per second that stamps are reckoned by.
pub open spec fn effective_fps(fps: u32) -> int {
    if fps < 1 {
        1
    } else {
        fps as int
    }
}

/// Pictures that each last as long as reckoned fill a second, but for less than what would give
/// every one of them one unit more. Where none are asked for, it is as if one was.
pub proof fn pictures_fill_a_second(units: int, fps: u32)
    requires
        units >= 0,
    ensures
        fps >= 1 ==> (units / effective_fps(fps)) * fps <= units,
        fps >= 1 ==> units < (units / effective_fps(fps) + 1) * fps,
        fps == 0 ==> units / effective_fps(fps) == units,
{
    if fps >= 1 {
        let each = units / effective_fps(fps);
        vstd::arithmetic::div_mod::lemma_fundamental_div_mod(units, fps as int);
        assert(each * fps == fps * each) by (nonlinear_arith);
        assert((each + 1) * fps == fps * each + fps) by (nonlinear_arith);
    } else {
        vstd::arithmetic::div_mod::lemma_div_basics(units);
    }
}

/// For how many milliseconds a picture lasts.
pub fn frame_millis(fps: u32) -> (millis: u64)
    ensures
        millis == 1000int / effective_fps(fps),
        fps >= 1 ==> millis * fps <= 1000 < (millis + 1) * fps,
        fps == 0 ==> millis == 1000,
{
    proof {
        pictures_fill_a_second(1000, fps);
    }
    if fps < 1 {
        1000
    } else {
        1000 / fps as u64
    }
}

/// A stamp that was moved on, which starts over where it would grow too large.
pub open spec fn advanced(clock: int, step: int) -> int {
    (clock + step) % 0x1_0000_0000
}

/// A stamp that was moved on `count` times.
pub open spec fn advanced_often(clock: int, step: int, count: nat) -> int
    decreases count,
{
    if count == 0 {
        clock
    } else {
        advanced(advanced_often(clock, step, (count - 1) as nat), step)
    }
}

/// Stamps lie evenly: how far one has moved on is the number of moves times the step.
pub proof fn stamps_lie_evenly(clock: int, step: int, count: nat)
    requires
        0 <= clock < 0x1_0000_0000,
    ensures
        advanced_often(clock, step, count) == (clock + count * step) % 0x1_0000_0000,
    decreases count,
{
    if count == 0 {
        assert(0 * step == 0);
    } else {
        let before = (count - 1) as nat;
        stamps_lie_evenly(clock, step, before);
        assert(count * step == before * step + step) by (nonlinear_arith)
            requires
                count == before + 1,
        ;
    }
}

/// How pictures go out, with the bytes `content`: what is to be sent, and what that leaves of
/// the client's end, given how packets are represented, if the connection can tell, and the
/// numbers that they may carry. The first of each is taken.
pub open spec fn shows(
    before: Publisher,
    after: Publisher,
    content: Seq<u8>,
    payload_types: Result<Vec<u8>, String>,
    ssrcs: Seq<u32>,
    result: Result<Sample, SignalError>,
) -> bool {
    let clock = if result is Ok {
        advanced(before.rtp_clock as int, before.rtp_step as int)
    } else {
        before.rtp_clock as int
    };
    &&& match payload_types {
        Err(source) => {
            &&& result matches Err(error)
            &&& error.status is None
            &&& error.text() == "read sender: "@ + source@
        },
        Ok(types) => if types@.len() == 0 {
            &&& result matches Err(error)
            &&& error.status is None
            &&& error.text() == "sender has no negotiated codec"@
        } else if ssrcs.len() == 0 {
            &&& result matches Err(error)
            &&& error.status is None
            &&& error.text() == "track has no ssrc"@
        } else {
            &&& result matches Ok(sample)
            &&& sample.ssrc == ssrcs[0]
            &&& sample.payload_type == types@[0]
            &&& encode::payload(sample.data) == content
            &&& sample.duration == before.frame_interval
            &&& sample.packet_timestamp == clock
        },
    }
    &&& after == (Publisher { rtp_clock: clock as u32, ..before })
}

/// How sound goes out, with the bytes `content`: what is to be sent, and what that leaves of the
/// client's end, given the numbers that packets may carry, of which the first is taken.
pub open spec fn sounds(
    before: Publisher,
    after: Publisher,
    content: Seq<u8>,
    ssrcs: Seq<u32>,
    result: Result<Sample, SignalError>,
) -> bool {
    let clock = if result is Ok {
        advanced(before.audio_clock as int, SAMPLES_PER_PACKET as int)
    } else {
        before.audio_clock as int
    };
    &&& if ssrcs.len() == 0 {
        &&& result matches Err(error)
        &&& error.status is None
        &&& error.text() == "audio track has no ssrc"@
    } else {
        &&& result matches Ok(sample)
        &&& sample.ssrc == ssrcs[0]
        &&& sample.payload_type == 0
        &&& encode::payload(sample.data) == content
        &&& sample.duration == AUDIO_PACKET_MILLIS
        &&& sample.packet_timestamp == clock
    }
    &&& after == (Publisher { audio_clock: clock as u32, ..before })
}

/// Pictures can be sent exactly if it is known how they are represented and which number they
/// carry, and if not, it is said which of these is not known. What is sent carries the first of each and the bytes that there were, lasts as long as a
/// picture, and its stamp is that of the last pictures and one step more. Nothing else changes,
/// and where nothing can be sent, nothing does.
pub proof fn every_picture_is_a_step_later(
    before: Publisher,
    after: Publisher,
    content: Seq<u8>,
    payload_types: Result<Vec<u8>, String>,
    ssrcs: Seq<u32>,
    result: Result<Sample, SignalError>,
)
    requires
        shows(before, after, content, payload_types, ssrcs, result),
    ensures
        result is Ok <==> (payload_types matches Ok(types) && types@.len() > 0) && ssrcs.len() > 0,
        result is Err ==> after == before,
        result matches Err(error) ==> {
            &&& error.status is None
            &&& payload_types matches Err(source) ==> error.detail@ == "read sender: "@ + source@
            &&& payload_types is Ok && payload_types->Ok_0@.len() == 0 ==> error.detail@
                == "sender has no negotiated codec"@
            &&& payload_types is Ok && payload_types->Ok_0@.len() > 0 ==> error.detail@
                == "track has no ssrc"@
        },
        result matches Ok(sample) ==> {
            &&& sample.ssrc == ssrcs[0]
            &&& sample.payload_type == payload_types->Ok_0@[0]
            &&& encode::payload(sample.data) == content
            &&& sample.duration == before.frame_interval
            &&& sample.packet_timestamp == after.rtp_clock
        },
        result is Ok && before.rtp_clock + before.rtp_step <= u32::MAX ==> after.rtp_clock
            == before.rtp_clock + before.rtp_step,
        result is Ok && before.rtp_clock + before.rtp_step > u32::MAX ==> after.rtp_clock
            == before.rtp_clock + before.rtp_step - 0x1_0000_0000,
        after.rtp_step == before.rtp_step,
        after.frame_interval == before.frame_interval,
        after.audio_clock == before.audio_clock,
        after.control == before.control,
        after.events == before.events,
{
}

/// Sound can be sent exactly if it is known which number it carries. What is sent carries the
/// first of those and the bytes that there were, lasts for twenty milliseconds, and its stamp is
/// that of the last sound and as many more as there are samples in that time. Nothing else
/// changes, and where nothing can be sent, nothing does.
pub proof fn every_sound_is_a_packet_later(
    before: Publisher,
    after: Publisher,
    content: Seq<u8>,
    ssrcs: Seq<u32>,
    result: Result<Sample, SignalError>,
)
    requires
        sounds(before, after, content, ssrcs, result),
    ensures
        result is Ok <==> ssrcs.len() > 0,
        result is Err ==> after == before,
        result matches Err(error) ==> error.status is None && error.detail@
            == "audio track has no ssrc"@,
        result matches Ok(sample) ==> {
            &&& sample.ssrc == ssrcs[0]
            &&& sample.payload_type == 0
            &&& encode::payload(sample.data) == content
            &&& sample.duration == 20
            &&& sample.packet_timestamp == after.audio_clock
        },
        result is Ok && before.audio_clock + 160 <= u32::MAX ==> after.audio_clock
            == before.audio_clock + 160,
        result is Ok && before.audio_clock + 160 > u32::MAX ==> after.audio_clock
            == before.audio_clock + 160 - 0x1_0000_0000,
        after.rtp_clock == before.rtp_clock,
        after.rtp_step == before.rtp_step,
        after.frame_interval == before.frame_interval,
        after.control == before.control,
        after.events == before.events,
{
}

/// The search for ways to a viewer may take ten seconds, the viewer's answer two minutes and the
/// connection half a minute, all in milliseconds. Sixteen events may wait to be asked for, stamps of
/// pictures count ninety thousand in a second, and the channel and the client's own end are found
/// where viewers look for them.
pub proof fn waiting_has_an_end()
    ensures
        GATHER_TIMEOUT == 10 * 1000,
        ANSWER_WAIT == 2 * 60 * 1000,
        CONNECT_TIMEOUT == 30 * 1000,
        EVENT_CAPACITY == 16,
        VIDEO_CLOCK_RATE == 90 * 1000,
        CONTROL_LABEL@ == "viewpoint-control"@,
        HOST_BIND@ == "0.0.0.0:0"@,
{
}

impl Publisher {
    /// The client's end of a new connection, for the pictures that settings ask for.
    pub fn connect(settings: &Settings) -> (publisher: Self)
        ensures
            publisher.control == (ControlState { paused: false, left: false }),
            publisher.events@.len() == 0,
            publisher.rtp_clock == 0,
            publisher.rtp_step == 90000int / effective_fps(settings.stream.fps),
            publisher.audio_clock == 0,
            publisher.frame_interval == 1000int / effective_fps(settings.stream.fps),
            settings.stream.fps >= 1 ==> publisher.rtp_step * settings.stream.fps <= 90000
                < (publisher.rtp_step + 1) * settings.stream.fps,
            settings.stream.fps >= 1 ==> publisher.frame_interval * settings.stream.fps <= 1000
                < (publisher.frame_interval + 1) * settings.stream.fps,
    {
        proof {
            pictures_fill_a_second(90000, settings.stream.fps);
            pictures_fill_a_second(1000, settings.stream.fps);
        }
        let fps: u32 = if settings.stream.fps < 1 {
            1
        } else {
            settings.stream.fps
        };
        Publisher {
            control: ControlState::new(),
            events: Vec::new(),
            rtp_clock: 0,
            rtp_step: VIDEO_CLOCK_RATE / fps,
            audio_clock: 0,
            frame_interval: frame_millis(fps),
        }
    }

    /// Whether the viewer wants nothing to be sent for now.
    pub fn is_paused(&self) -> (b: bool)
        ensures
            b == self.control.paused,
    {
        self.control.paused
    }

    /// Whether the viewer said that it is gone.
    pub fn is_left(&self) -> (b: bool)
        ensures
            b == self.control.left,
    {
        self.control.left
    }

    /// Takes in what happened to the connection, unless too much waits to be asked for: what
    /// happened before is kept.
    pub fn deliver(&mut self, event: SessionEvent)
        ensures
            final(self).events@ == if old(self).events@.len() < EVENT_CAPACITY {
                old(self).events@.push(event)
            } else {
                old(self).events@
            },
            *final(self) == (Publisher { events: final(self).events, ..*old(self) }),
    {
        if self.events.len() < EVENT_CAPACITY {
            self.events.push(event);
        }
    }

    /// The last of what has happened since this was last asked.
    pub fn latest_event(&mut self) -> (event: Option<SessionEvent>)
        ensures
            event == if old(self).events@.len() == 0 {
                None
            } else {
                Some(old(self).events@.last())
            },
            final(self).events@.len() == 0,
            *final(self) == (Publisher { events: final(self).events, ..*old(self) }),
    {
        let event = self.events.pop();
        self.events.clear();
        event
    }

    /// A packet of video as it is to be sent, given how packets of video are represented, if the
    /// connection can tell, and the numbers that they may carry. The first of each is taken.
    pub fn publish(
        &mut self,
        packet: Packet,
        payload_types: &Result<Vec<u8>, String>,
        ssrcs: &Vec<u32>,
    ) -> (result: Result<Sample, SignalError>)
        ensures
            shows(
                *old(self),
                *final(self),
                encode::payload(packet.bytes),
                *payload_types,
                ssrcs@,
                result,
            ),
    {
        let types = match payload_types {
            Err(source) => {
                let mut detail = "read sender: ".to_owned();
                detail.append(source.as_str());
                return Err(SignalError::failed(detail));
            },
            Ok(types) => types,
        };
        if types.len() == 0 {
            return Err(SignalError::from("sender has no negotiated codec"));
        }
        if ssrcs.len() == 0 {
            return Err(SignalError::from("track has no ssrc"));
        }
        self.rtp_clock = self.rtp_clock.wrapping_add(self.rtp_step);
        Ok(
            Sample {
                ssrc: ssrcs[0],
                payload_type: types[0],
                data: packet.bytes,
                duration: self.frame_interval,
                packet_timestamp: self.rtp_clock,
            },
        )
    }

    /// A packet of sound as it is to be sent, given the numbers that such packets may carry, of
    /// which the first is taken.
    pub fn publish_audio(&mut self, bytes: Bytes, ssrcs: &Vec<u32>) -> (result: Result<
        Sample,
        SignalError,
    >)
        ensures
            sounds(*old(self), *final(self), encode::payload(bytes), ssrcs@, result),
    {
        if ssrcs.len() == 0 {
            return Err(SignalError::from("audio track has no ssrc"));
        }
        self.audio_clock = self.audio_clock.wrapping_add(SAMPLES_PER_PACKET as u32);
        Ok(
            Sample {
                ssrc: ssrcs[0],
                payload_type: 0,
                data: bytes,
                duration: AUDIO_PACKET_MILLIS,
                packet_timestamp: self.audio_clock,
            },
        )
    }

    /// What sending came to. `audio` tells sound from pictures.
    pub fn sent(audio: bool, outcome: Result<(), String>) -> (result: Result<(), SignalError>)
        ensures
            match outcome {
                Ok(_) => result is Ok,
                Err(source) => {
                    &&& result matches Err(error)
                    &&& error.status is None
                    &&& error.text() == if audio {
                        "send audio: "@ + source@
                    } else {
                        "send packet: "@ + source@
                    }
                },
            },
    {
        match outcome {
            Ok(_) => Ok(()),
            Err(source) => {
                let mut detail = (if audio {
                    "send audio: "
                } else {
                    "send packet: "
                }).to_owned();
                detail.append(source.as_str());
                Err(SignalError::failed(detail))
            },
        }
    }
}

} // verus!
