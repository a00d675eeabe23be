use bytes::Bytes;
use viewpoint::audio::{AudioCapturer, AudioPacket, LoopbackStart};
use viewpoint::config::{ServerSettings, Settings, StreamSettings, WebRtcSettings};
use viewpoint::encode::Packet;
use viewpoint::host::{
    on_audio, on_sent, Admission, AudioStep, HandshakeOutcome, Host, MediaKind, SenderState,
    SessionStep, VideoStep, CAP_WARN_COOLDOWN,
};
use viewpoint::signal::SignalError;
use viewpoint::startup::{banner, config_path, link_line, open_audio, operator_token};
use viewpoint::viewer::{can_shorten, short_id, News, Notice, MAX_VIEWERS, RECOVER_GRACE};
use viewpoint::webrtc::{ChannelEvent, Publisher, SessionEvent};

fn settings() -> Settings {
    Settings {
        server: ServerSettings::default(),
        webrtc: WebRtcSettings::default(),
        stream: StreamSettings::default(),
    }
}

fn names(list: &[&str]) -> Vec<String> {
    list.iter().map(|name| (*name).to_owned()).collect()
}

fn connect(host: &mut Host, session: &str) -> Admission {
    let publisher = Publisher::connect(&settings());
    host.on_outcome(HandshakeOutcome::of(session.to_owned(), Ok(publisher), Ok(2)))
}

fn watched_by(sessions: &[&str]) -> Host {
    let mut host = Host::new("link".to_owned());
    for session in sessions {
        assert!(matches!(connect(&mut host, session), Admission::Watching(_)));
    }
    host
}

fn asked_for(step: SessionStep) -> Vec<String> {
    match step {
        SessionStep::Greet(requests, _) => {
            requests.into_iter().map(|request| request.session_id).collect()
        }
        _ => panic!("not greeted"),
    }
}

fn watching(host: &Host) -> Vec<String> {
    (0..host.viewer_count()).map(|index| host.viewer(index).session.clone()).collect()
}

#[test]
fn new_sessions_are_asked_for_once() {
    let mut host = watched_by(&["a"]);
    match host.on_poll(Ok(names(&["a", "b", "c", "b"])), 0) {
        SessionStep::Greet(requests, None) => {
            assert_eq!(requests.len(), 2);
            assert_eq!(requests[0].session_id, "b");
            assert_eq!(requests[1].session_id, "c");
            assert_eq!(requests[0].link_id, "link");
        }
        _ => panic!("not greeted"),
    }
    assert!(asked_for(host.on_poll(Ok(names(&["a", "b", "c"])), 1)).is_empty());
    assert_eq!(asked_for(host.on_poll(Ok(names(&["d", "c"])), 2)), names(&["d"]));
}

#[test]
fn failed_handshakes_are_offered_again() {
    let mut host = Host::new("link".to_owned());
    assert_eq!(asked_for(host.on_poll(Ok(names(&["abcdefghij"])), 0)), names(&["abcdefghij"]));
    let failed = HandshakeOutcome::of(
        "abcdefghij".to_owned(),
        Err(SignalError::from("no answer")),
        Err(SignalError::from("unused")),
    );
    match host.on_outcome(failed) {
        Admission::Refused(notice) => {
            assert!(notice.is_warning());
            assert_eq!(
                notice.line(),
                "[WARN] handshake for abcdefgh failed: no answer; will re-offer"
            );
        }
        _ => panic!("admitted"),
    }
    assert_eq!(host.viewer_count(), 0);
    assert_eq!(asked_for(host.on_poll(Ok(names(&["abcdefghij"])), 1)), names(&["abcdefghij"]));
}

#[test]
fn whoever_watches_is_not_connected_twice() {
    let mut host = Host::new("link".to_owned());
    match connect(&mut host, "one") {
        Admission::Watching(notice) => {
            assert!(!notice.is_warning());
            assert_eq!(notice.line(), "[INFO] viewer one connected (1 total)");
        }
        _ => panic!("not admitted"),
    }
    assert_eq!(host.viewer(0).leave_baseline, 2);
    assert!(!host.viewer(0).paused);
    assert!(matches!(connect(&mut host, "one"), Admission::Superfluous));
    assert_eq!(host.viewer_count(), 1);
    let unknown = HandshakeOutcome::of(
        "two".to_owned(),
        Ok(Publisher::connect(&settings())),
        Err(SignalError::from("no count")),
    );
    match host.on_outcome(unknown) {
        Admission::Watching(notice) => {
            assert_eq!(notice.line(), "[INFO] viewer two connected (2 total)");
        }
        _ => panic!("not admitted"),
    }
    assert_eq!(host.viewer(1).leave_baseline, 0);
}

#[test]
fn full_hosts_ask_nobody_and_warn_now_and_then() {
    let sessions = ["a", "b", "c", "d", "e", "f", "g", "h"];
    assert_eq!(sessions.len(), MAX_VIEWERS);
    let mut host = watched_by(&sessions);
    let listed = || Ok(names(&["a", "late-viewer", "later"]));
    match host.on_poll(listed(), 5) {
        SessionStep::Greet(requests, Some(notice)) => {
            assert!(requests.is_empty());
            assert!(notice.is_warning());
            assert_eq!(notice.line(), "[WARN] at 8 viewers, ignoring late-vie");
        }
        _ => panic!("no warning"),
    }
    assert!(matches!(
        host.on_poll(listed(), 4 + CAP_WARN_COOLDOWN),
        SessionStep::Greet(_, None)
    ));
    assert!(matches!(
        host.on_poll(listed(), 5 + CAP_WARN_COOLDOWN),
        SessionStep::Greet(_, Some(_))
    ));
    assert!(host.remove_viewer("c").is_some());
    assert_eq!(asked_for(host.on_poll(listed(), 6)), names(&["late-viewer", "later"]));
}

#[test]
fn expired_links_are_renewed() {
    let mut host = watched_by(&["a", "b"]);
    let _ = host.on_poll(Ok(names(&["c"])), 0);
    let missing = SignalError::refused(404, "list sessions");
    assert!(matches!(host.on_poll(Err(missing), 1), SessionStep::Renew));
    assert_eq!(host.viewer_count(), 2);
    host.renew_link("next".to_owned());
    assert_eq!(host.link_id(), "next");
    assert_eq!(host.viewer_count(), 0);
    assert_eq!(asked_for(host.on_poll(Ok(names(&["c"])), 2)), names(&["c"]));
    match host.on_poll(Err(SignalError::from("list sessions: down")), 3) {
        SessionStep::Warn(line) => {
            assert_eq!(line, "[WARN] session poll failed: list sessions: down");
        }
        _ => panic!("no warning"),
    }
}

#[test]
fn viewers_out_of_reach_have_time_to_come_back() {
    let mut host = watched_by(&["a"]);
    host.publisher(0).deliver(SessionEvent::Disconnected);
    let (gone, notices) = host.drain_viewer_events(100);
    assert!(gone.is_empty() && notices.is_empty());
    assert_eq!(host.viewer(0).grace_until, Some(100 + RECOVER_GRACE));
    host.publisher(0).deliver(SessionEvent::Disconnected);
    let (gone, _) = host.drain_viewer_events(200);
    assert!(gone.is_empty());
    assert_eq!(host.viewer(0).grace_until, Some(100 + RECOVER_GRACE));
    host.publisher(0).deliver(SessionEvent::Connected);
    let (gone, notices) = host.drain_viewer_events(100 + RECOVER_GRACE);
    assert!(gone.is_empty());
    assert_eq!(notices.len(), 1);
    assert_eq!(notices[0].line(), "[INFO] viewer a reconnected");
    assert_eq!(host.viewer(0).grace_until, None);
    host.publisher(0).deliver(SessionEvent::Disconnected);
    let _ = host.drain_viewer_events(1000);
    let (gone, _) = host.drain_viewer_events(999 + RECOVER_GRACE);
    assert!(gone.is_empty());
    let (gone, _) = host.drain_viewer_events(1000 + RECOVER_GRACE);
    assert_eq!(gone, names(&["a"]));
}

#[test]
fn viewers_who_leave_or_fail_are_given_up() {
    let mut host = watched_by(&["a", "b", "c"]);
    let _ = host.publisher(0).control.hear(ChannelEvent::Message(b"bye".to_vec()));
    host.publisher(1).deliver(SessionEvent::Failed);
    let (gone, notices) = host.drain_viewer_events(0);
    assert_eq!(gone, names(&["a", "b"]));
    assert!(notices.is_empty());
    let farewells = host.remove_viewers(&gone);
    assert_eq!(farewells.len(), 2);
    assert_eq!(farewells[0].line(), "[INFO] viewer a left (2 left)");
    assert_eq!(farewells[1].line(), "[INFO] viewer b left (1 left)");
    assert_eq!(watching(&host), names(&["c"]));
    assert!(host.remove_viewer("a").is_none());
}

#[test]
fn viewers_are_named_once_for_each_reason() {
    let mut host = watched_by(&["a"]);
    host.publisher(0).deliver(SessionEvent::Disconnected);
    let _ = host.drain_viewer_events(0);
    host.publisher(0).deliver(SessionEvent::Failed);
    let (gone, _) = host.drain_viewer_events(RECOVER_GRACE);
    assert_eq!(gone, names(&["a", "a"]));
    let farewells = host.remove_viewers(&gone);
    assert_eq!(farewells.len(), 1);
    assert_eq!(farewells[0].line(), "[INFO] viewer a left (0 left)");
}

#[test]
fn pauses_are_told_once() {
    let mut host = watched_by(&["a"]);
    let _ = host.publisher(0).control.hear(ChannelEvent::Message(b"pause".to_vec()));
    let (_, notices) = host.drain_viewer_events(0);
    assert_eq!(notices.len(), 1);
    assert_eq!(notices[0].line(), "[INFO] viewer a paused");
    assert!(host.viewer(0).paused);
    let (_, notices) = host.drain_viewer_events(1);
    assert!(notices.is_empty());
    let _ = host.publisher(0).control.hear(ChannelEvent::Message(b"resume".to_vec()));
    let (_, notices) = host.drain_viewer_events(2);
    assert_eq!(notices[0].line(), "[INFO] viewer a resumed");
}

#[test]
fn viewers_who_left_the_page_are_found() {
    let host = watched_by(&["a", "b", "c", "d"]);
    let counts = vec![
        Ok(2),
        Ok(3),
        Err(SignalError::refused(404, "leave count")),
        Err(SignalError::from("leave count: down")),
    ];
    assert_eq!(host.departed(&counts), names(&["b", "c"]));
}

#[test]
fn everybody_who_listens_gets_the_same_bytes() {
    let mut host = watched_by(&["a", "b", "c", "d"]);
    let _ = host.publisher(1).control.hear(ChannelEvent::Message(b"pause".to_vec()));
    let _ = host.drain_viewer_events(0);
    let sender = |ssrc: u32| SenderState { payload_types: Ok(vec![102]), ssrcs: vec![ssrc] };
    let closed = SenderState { payload_types: Err("closed".to_owned()), ssrcs: vec![9] };
    let senders = vec![sender(1), sender(2), sender(3), closed];
    let media = MediaKind::Video(Packet { bytes: Bytes::from(vec![5, 6, 7]) });
    let deliveries = host.fan_out(&media, &senders);
    assert_eq!(deliveries.len(), 4);
    match &deliveries[0] {
        Some(Ok(sample)) => {
            assert_eq!(sample.ssrc, 1);
            assert_eq!(sample.packet_timestamp, 3000);
            assert_eq!(&sample.data[..], &[5, 6, 7]);
        }
        _ => panic!("not sent"),
    }
    assert!(deliveries[1].is_none());
    match &deliveries[2] {
        Some(Ok(sample)) => {
            assert_eq!(sample.ssrc, 3);
            assert_eq!(&sample.data[..], &[5, 6, 7]);
        }
        _ => panic!("not sent"),
    }
    match &deliveries[3] {
        Some(Err(error)) => assert_eq!(error.message(), "read sender: closed"),
        _ => panic!("sent"),
    }
    assert_eq!(host.viewer(1).publisher.rtp_clock, 0);
    let sound = MediaKind::sound(AudioPacket { bytes: vec![255; 160] });
    match &host.fan_out(&sound, &senders)[3] {
        Some(Ok(sample)) => {
            assert_eq!((sample.ssrc, sample.payload_type), (9, 0));
            assert_eq!(sample.data.len(), 160);
            assert_eq!(sample.packet_timestamp, 160);
        }
        _ => panic!("not sent"),
    };
}

#[test]
fn progress_is_reported_every_three_hundred_packets() {
    let mut host = watched_by(&["a", "b"]);
    for count in 1..=600u64 {
        let packet = Packet { bytes: Bytes::from(vec![1]) };
        match host.on_video(Ok(Ok(Some(packet)))) {
            VideoStep::Send(MediaKind::Video(packet), line) => {
                assert_eq!(packet.bytes.len(), 1);
                match count {
                    300 => assert_eq!(
                        line,
                        Some("[INFO] streaming: 300 frames to 2 viewers".to_owned())
                    ),
                    600 => assert_eq!(
                        line,
                        Some("[INFO] streaming: 600 frames to 2 viewers".to_owned())
                    ),
                    _ => assert_eq!(line, None),
                }
            }
            _ => panic!("not sent"),
        }
        assert_eq!(host.packet_count(), count);
    }
}

#[test]
fn pictures_that_fail_are_tried_again_or_end_the_stream() {
    let mut host = watched_by(&["a"]);
    match host.on_video(Err(SignalError::from("capture thread stopped"))) {
        VideoStep::Retry(line, pause) => {
            assert_eq!(line, "[WARN] capture failed: capture thread stopped; retrying");
            assert_eq!(pause, 1000);
        }
        _ => panic!("went on"),
    }
    assert!(matches!(host.on_video(Ok(Ok(None))), VideoStep::Skip));
    match host.on_video(Ok(Err("encode frame: e".to_owned()))) {
        VideoStep::Stop(reason) => assert_eq!(reason, "encode frame: e"),
        _ => panic!("went on"),
    }
    assert_eq!(host.packet_count(), 0);
}

#[test]
fn sound_is_sent_when_there_is_some() {
    assert!(matches!(on_audio(Ok(None)), AudioStep::Skip));
    match on_audio(Ok(Some(AudioPacket { bytes: vec![1, 2] }))) {
        AudioStep::Send(MediaKind::Audio(bytes)) => assert_eq!(&bytes[..], &[1, 2]),
        _ => panic!("not sent"),
    }
    match on_audio(Err(SignalError::from("x"))) {
        AudioStep::Warn(line) => assert_eq!(line, "[WARN] audio capture failed: x"),
        _ => panic!("no warning"),
    }
    assert_eq!(on_sent(Ok(())), None);
    assert_eq!(
        on_sent(Err(SignalError::from("send packet: e"))),
        Some("[WARN] send failed: send packet: e".to_owned())
    );
    let (capturer, line) = open_audio(AudioCapturer::try_new(LoopbackStart::Started));
    assert!(capturer.is_some());
    assert_eq!(line, "[INFO] audio loopback on");
    let (capturer, line) = open_audio(Err(SignalError::from("x")));
    assert!(capturer.is_none());
    assert_eq!(line, "[WARN] audio off: x");
}

#[test]
fn sessions_are_shown_in_short() {
    assert_eq!(short_id("abcdefghijkl"), "abcdefgh");
    assert_eq!(short_id("abc"), "abc");
    assert_eq!(short_id(""), "");
    assert_eq!(short_id("abcdefg\u{e9}".get(0..7).unwrap_or("")), "abcdefg");
    assert!(can_shorten("\u{e9}\u{e9}\u{e9}\u{e9}x"));
    assert_eq!(short_id("\u{e9}\u{e9}\u{e9}\u{e9}x"), "\u{e9}\u{e9}\u{e9}\u{e9}");
    assert!(!can_shorten("abcdefg\u{e9}"));
    let notice = Notice { session: "0123456789".to_owned(), news: News::Resumed };
    assert_eq!(notice.line(), "[INFO] viewer 01234567 resumed");
}

#[test]
fn programs_start_by_their_environment() {
    assert_eq!(config_path(None), "viewpoint.yaml");
    assert_eq!(config_path(Some("x.yaml".to_owned())), "x.yaml");
    assert_eq!(operator_token(Some("t".to_owned())), Ok("t".to_owned()));
    assert_eq!(
        operator_token(None),
        Err("set VIEWPOINT_JWT_SECRET to the same operator token as the server".to_owned())
    );
    assert_eq!(link_line("http://x/v/1", false), "[INFO] open http://x/v/1");
    assert_eq!(link_line("http://x/v/2", true), "[INFO] link expired, new link: http://x/v/2");
    assert_eq!(
        banner(&StreamSettings::default()),
        "[INFO] Viewpoint client: monitor 1 1920x1080@30 6000kbps h264"
    );
}
