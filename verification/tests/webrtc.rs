use bytes::Bytes;
use viewpoint::config::{ServerSettings, Settings, StreamSettings, WebRtcSettings};
use viewpoint::encode::Packet;
use viewpoint::signal::{IceConfig, SignalError};
use viewpoint::webrtc::{
    audio_track, build_audio_codec, build_audio_track, build_video_codec, build_video_track,
    frame_millis, on_connection_state_change, on_ice_connection_state_change,
    on_ice_gathering_state_change, read_answer, read_command, resolve_ice_servers, video_track,
    wait_connected, wait_for_event, wait_gathering, ChannelEvent, Command, ConnectStep,
    ConnectionState, ControlState, GatheringState, IceState, Publisher, SessionEvent, StepFailure,
    Wait, EVENT_CAPACITY,
};

fn settings() -> Settings {
    Settings {
        server: ServerSettings::default(),
        webrtc: WebRtcSettings::default(),
        stream: StreamSettings::default(),
    }
}

#[test]
fn states_become_events() {
    assert_eq!(
        on_ice_gathering_state_change(GatheringState::Complete),
        Some(SessionEvent::Gathered)
    );
    assert_eq!(on_ice_gathering_state_change(GatheringState::Gathering), None);
    assert_eq!(
        on_connection_state_change(ConnectionState::Connected),
        Some(SessionEvent::Connected)
    );
    assert_eq!(on_connection_state_change(ConnectionState::Closed), Some(SessionEvent::Failed));
    assert_eq!(on_connection_state_change(ConnectionState::Failed), Some(SessionEvent::Failed));
    assert_eq!(
        on_connection_state_change(ConnectionState::Disconnected),
        Some(SessionEvent::Disconnected)
    );
    assert_eq!(on_connection_state_change(ConnectionState::Connecting), None);
    assert_eq!(on_ice_connection_state_change(IceState::Completed), Some(SessionEvent::Connected));
    assert_eq!(on_ice_connection_state_change(IceState::Connected), Some(SessionEvent::Connected));
    assert_eq!(on_ice_connection_state_change(IceState::Closed), Some(SessionEvent::Failed));
    assert_eq!(
        on_ice_connection_state_change(IceState::Disconnected),
        Some(SessionEvent::Disconnected)
    );
    assert_eq!(on_ice_connection_state_change(IceState::Checking), None);
}

#[test]
fn commands_are_words() {
    assert_eq!(read_command(b"pause".to_vec()), Some(Command::Pause));
    assert_eq!(read_command(b" resume\r\n".to_vec()), Some(Command::Resume));
    assert_eq!(read_command("\u{a0}bye\u{3000}".as_bytes().to_vec()), Some(Command::Bye));
    assert_eq!(read_command(b"Pause".to_vec()), None);
    assert_eq!(read_command(b"pause now".to_vec()), None);
    assert_eq!(read_command(vec![]), None);
    assert_eq!(read_command(vec![0xff, 0xfe]), None);
}

#[test]
fn viewers_pause_resume_and_leave() {
    let mut state = ControlState::new();
    assert!(state.hear(ChannelEvent::Message(b"pause".to_vec())));
    assert_eq!(state, ControlState { paused: true, left: false });
    assert!(state.hear(ChannelEvent::Other));
    assert!(state.hear(ChannelEvent::Message(b"nonsense".to_vec())));
    assert_eq!(state, ControlState { paused: true, left: false });
    assert!(state.hear(ChannelEvent::Message(b"resume".to_vec())));
    assert_eq!(state, ControlState { paused: false, left: false });
    assert!(!state.hear(ChannelEvent::Closed));
    assert!(!state.hear(ChannelEvent::Message(b"bye".to_vec())));
    assert_eq!(state, ControlState { paused: false, left: true });
    assert!(state.hear(ChannelEvent::Message(b"pause".to_vec())));
    assert_eq!(state, ControlState { paused: true, left: true });
}

fn ice(stun: Vec<String>, turn: &str, user: &str, password: &str) -> IceConfig {
    IceConfig {
        stun_urls: stun,
        turn_url: turn.to_owned(),
        turn_username: user.to_owned(),
        turn_password: password.to_owned(),
    }
}

#[test]
fn named_servers_come_before_those_of_the_settings() {
    let stun = vec!["stun:a".to_owned(), "stun:b".to_owned()];
    let servers = resolve_ice_servers(&settings(), Ok(ice(stun.clone(), "turn:c", "u", "p")));
    assert_eq!(servers.len(), 2);
    assert_eq!(servers[0].urls, stun);
    assert_eq!((servers[0].username.as_str(), servers[0].credential.as_str()), ("", ""));
    assert_eq!(servers[1].urls, vec!["turn:c".to_owned()]);
    assert_eq!((servers[1].username.as_str(), servers[1].credential.as_str()), ("u", "p"));
    let servers = resolve_ice_servers(&settings(), Ok(ice(vec![], "turn:c", "u", "p")));
    assert_eq!(servers.len(), 1);
    assert_eq!(servers[0].urls, vec!["turn:c".to_owned()]);
    let servers = resolve_ice_servers(&settings(), Ok(ice(vec![], "turn:c", "u", "")));
    assert_eq!(servers.len(), 1);
    assert_eq!(servers[0].urls, vec!["stun:stun.l.google.com:19302".to_owned()]);
    let servers = resolve_ice_servers(&settings(), Err(SignalError::from("no server")));
    assert_eq!(servers.len(), 1);
    assert_eq!(servers[0].urls, vec!["stun:stun.l.google.com:19302".to_owned()]);
}

#[test]
fn tracks_carry_their_codecs() {
    let codec = build_video_codec();
    assert_eq!(codec.mime_type, rtc::peer_connection::configuration::media_engine::MIME_TYPE_H264);
    assert_eq!((codec.clock_rate, codec.channels, codec.payload_type), (90000, 0, 102));
    let track = video_track(7, codec);
    assert_eq!(track.ssrc, 7);
    assert_eq!(
        (track.stream_id.as_str(), track.track_id.as_str(), track.label.as_str()),
        ("viewpoint-stream", "viewpoint-video", "viewpoint video")
    );
    let track = audio_track(8, build_audio_codec());
    assert_eq!(track.ssrc, 8);
    assert_eq!(track.codec.mime_type, "audio/PCMU");
    let one = build_video_track(build_video_codec()).ssrc;
    assert!((0..8).any(|_| build_video_track(build_video_codec()).ssrc != one));
    let track = build_audio_track();
    assert_eq!(
        (track.stream_id.as_str(), track.track_id.as_str(), track.label.as_str()),
        ("viewpoint-audio-stream", "viewpoint-audio", "viewpoint audio")
    );
    assert_eq!((track.codec.clock_rate, track.codec.channels, track.codec.payload_type), (8000, 1, 0));
}

#[test]
fn waiting_ends_with_the_event_or_a_failure() {
    let want = SessionEvent::Gathered;
    assert!(matches!(wait_for_event(Some(SessionEvent::Gathered), want), Wait::Ready));
    assert!(matches!(wait_for_event(Some(SessionEvent::Connected), want), Wait::Keep));
    assert!(matches!(wait_for_event(Some(SessionEvent::Disconnected), want), Wait::Keep));
    match wait_for_event(Some(SessionEvent::Failed), want) {
        Wait::Fail(error) => assert_eq!(error.message(), "viewer connection failed"),
        _ => panic!("went on"),
    }
    match wait_for_event(None, want) {
        Wait::Fail(error) => assert_eq!(error.message(), "viewer connection lost"),
        _ => panic!("went on"),
    }
    assert!(wait_gathering(Some(Ok(()))).is_ok());
    match wait_gathering(None) {
        Err(error) => assert_eq!(error.message(), "ice gathering timed out"),
        Ok(_) => panic!("gathered"),
    }
    assert!(wait_connected(Some(Ok(()))).is_ok());
    match wait_connected(None) {
        Err(error) => assert_eq!(error.message(), "viewer never connected in time"),
        Ok(_) => panic!("connected"),
    }
    assert!(wait_connected(Some(Err(SignalError::from("x")))).is_err());
}

#[test]
fn answers_are_read_as_they_were_written() {
    let sdp = "v=0\r\no=- 0 0 IN IP4 127.0.0.1\r\ns=-\r\nt=0 0\r\n".to_owned();
    match read_answer(sdp.clone()) {
        Ok(description) => assert_eq!(description.sdp, sdp),
        Err(text) => panic!("{}", text),
    }
    match read_answer("hello".to_owned()) {
        Err(text) => assert!(!text.is_empty() && text != "hello"),
        Ok(_) => panic!("read"),
    }
}

#[test]
fn connections_are_made_step_by_step() {
    let mut step = ConnectStep::ResolveIce;
    let mut count = 0;
    while step != ConnectStep::Connected {
        step = match step.performed(Ok(())) {
            Ok(step) => step,
            Err(error) => panic!("{}", error.message()),
        };
        count += 1;
    }
    assert_eq!(count, 19);
}

#[test]
fn failed_steps_are_named() {
    let named = vec![
        (ConnectStep::RegisterVideoCodec, "register codec: e"),
        (ConnectStep::RegisterAudioCodec, "register audio codec: e"),
        (ConnectStep::RegisterInterceptors, "register interceptors: e"),
        (ConnectStep::BuildPeer, "build peer: e"),
        (ConnectStep::BuildVideoTrack, "build track: e"),
        (ConnectStep::AddVideoTrack, "add track: e"),
        (ConnectStep::BuildAudioTrack, "build audio track: e"),
        (ConnectStep::AddAudioTrack, "add audio track: e"),
        (ConnectStep::CreateOffer, "create offer: e"),
        (ConnectStep::SetOffer, "set local offer: e"),
        (ConnectStep::ReadAnswer, "read answer: e"),
        (ConnectStep::SetAnswer, "set remote answer: e"),
    ];
    for (step, expected) in named {
        match step.performed(Err(StepFailure::Reason("e".to_owned()))) {
            Err(error) => assert_eq!(error.message(), expected),
            Ok(_) => panic!("went on"),
        }
    }
    match ConnectStep::ReadOffer.performed(Err(StepFailure::NoOffer)) {
        Err(error) => assert_eq!(error.message(), "missing local offer after gathering"),
        Ok(_) => panic!("went on"),
    }
    let refusal = SignalError::refused(404, "publish offer");
    match ConnectStep::PublishOffer.performed(Err(StepFailure::Exchange(refusal))) {
        Err(error) => assert!(error.not_found()),
        Ok(_) => panic!("went on"),
    }
}

#[test]
fn the_latest_event_is_the_last_that_waits() {
    let mut publisher = Publisher::connect(&settings());
    assert_eq!(publisher.latest_event(), None);
    publisher.deliver(SessionEvent::Disconnected);
    publisher.deliver(SessionEvent::Connected);
    assert_eq!(publisher.latest_event(), Some(SessionEvent::Connected));
    assert_eq!(publisher.latest_event(), None);
    for _ in 0..EVENT_CAPACITY {
        publisher.deliver(SessionEvent::Connected);
    }
    publisher.deliver(SessionEvent::Failed);
    assert_eq!(publisher.latest_event(), Some(SessionEvent::Connected));
}

#[test]
fn pictures_are_stamped_evenly() {
    let mut publisher = Publisher::connect(&settings());
    assert!(!publisher.is_paused());
    assert!(!publisher.is_left());
    for count in 1..=3u32 {
        let packet = Packet { bytes: Bytes::from(vec![1, 2, 3]) };
        match publisher.publish(packet, &Ok(vec![102, 103]), &vec![5, 6]) {
            Ok(sample) => {
                assert_eq!((sample.ssrc, sample.payload_type), (5, 102));
                assert_eq!(sample.packet_timestamp, 3000 * count);
                assert_eq!(sample.duration, 33);
                assert_eq!(&sample.data[..], &[1, 2, 3]);
            }
            Err(error) => panic!("{}", error.message()),
        }
    }
    publisher.rtp_clock = u32::MAX;
    let packet = Packet { bytes: Bytes::from(vec![1]) };
    match publisher.publish(packet, &Ok(vec![102]), &vec![5]) {
        Ok(sample) => assert_eq!(sample.packet_timestamp, 2999),
        Err(error) => panic!("{}", error.message()),
    }
}

#[test]
fn sound_is_stamped_by_its_samples() {
    let mut publisher = Publisher::connect(&settings());
    for count in 1..=3u32 {
        match publisher.publish_audio(Bytes::from(vec![9]), &vec![4]) {
            Ok(sample) => {
                assert_eq!((sample.ssrc, sample.payload_type), (4, 0));
                assert_eq!(sample.packet_timestamp, 160 * count);
                assert_eq!(sample.duration, 20);
            }
            Err(error) => panic!("{}", error.message()),
        }
    }
    assert_eq!(publisher.rtp_clock, 0);
}

#[test]
fn what_cannot_be_sent_is_not_stamped() {
    let mut publisher = Publisher::connect(&settings());
    let packet = || Packet { bytes: Bytes::from(vec![1]) };
    match publisher.publish(packet(), &Err("closed".to_owned()), &vec![5]) {
        Err(error) => assert_eq!(error.message(), "read sender: closed"),
        Ok(_) => panic!("sent"),
    }
    match publisher.publish(packet(), &Ok(vec![]), &vec![5]) {
        Err(error) => assert_eq!(error.message(), "sender has no negotiated codec"),
        Ok(_) => panic!("sent"),
    }
    match publisher.publish(packet(), &Ok(vec![102]), &vec![]) {
        Err(error) => assert_eq!(error.message(), "track has no ssrc"),
        Ok(_) => panic!("sent"),
    }
    match publisher.publish_audio(Bytes::from(vec![9]), &vec![]) {
        Err(error) => assert_eq!(error.message(), "audio track has no ssrc"),
        Ok(_) => panic!("sent"),
    }
    assert_eq!((publisher.rtp_clock, publisher.audio_clock), (0, 0));
    assert!(Publisher::sent(false, Ok(())).is_ok());
    match Publisher::sent(false, Err("e".to_owned())) {
        Err(error) => assert_eq!(error.message(), "send packet: e"),
        Ok(_) => panic!("sent"),
    }
    match Publisher::sent(true, Err("e".to_owned())) {
        Err(error) => assert_eq!(error.message(), "send audio: e"),
        Ok(_) => panic!("sent"),
    }
}

#[test]
fn frames_last_as_long_as_the_rate_says() {
    assert_eq!(frame_millis(30), 33);
    assert_eq!(frame_millis(60), 16);
    assert_eq!(frame_millis(0), 1000);
    let mut slow = settings();
    slow.stream.fps = 0;
    let publisher = Publisher::connect(&slow);
    assert_eq!((publisher.rtp_step, publisher.frame_interval), (90000, 1000));
}
