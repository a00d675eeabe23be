use viewpoint::config::{load, Loaded, ServerSettings, Settings, StreamSettings, WebRtcSettings};

fn usable() -> Settings {
    Settings {
        server: ServerSettings::default(),
        webrtc: WebRtcSettings::default(),
        stream: StreamSettings::default(),
    }
}

#[test]
fn defaults_are_safe() {
    let stream = StreamSettings::default();
    assert_eq!(stream.monitor, 1);
    assert_eq!((stream.width, stream.height), (1920, 1080));
    assert_eq!(stream.fps, 30);
    assert_eq!(stream.bitrate_kbps, 6000);
    assert_eq!(stream.codec, "h264");
    assert!(stream.audio_enabled);
}

#[test]
fn clamp_keeps_ranges() {
    let mut stream = StreamSettings {
        monitor: 9,
        fps: 200,
        bitrate_kbps: 100,
        width: 0,
        height: 0,
        ..StreamSettings::default()
    };
    stream.clamp_to_safe_ranges();
    assert_eq!(stream.monitor, 4);
    assert_eq!(stream.fps, 120);
    assert_eq!(stream.bitrate_kbps, 500);
    assert_eq!((stream.width, stream.height), (1920, 1080));
}

#[test]
fn load_rejects_missing_file() {
    assert!(load("definitely-not-a-config.yaml", Loaded::Missing).is_err());
}

#[test]
fn missing_files_are_named() {
    match load("a.yaml", Loaded::Missing) {
        Err(text) => assert_eq!(
            text,
            "config a.yaml not found: copy viewpoint.example.yaml to a.yaml and retry"
        ),
        Ok(_) => panic!("loaded"),
    }
    match load("a.yaml", Loaded::Unreadable("denied".to_owned())) {
        Err(text) => assert_eq!(text, "read a.yaml: denied"),
        Ok(_) => panic!("loaded"),
    }
    match load("a.yaml", Loaded::Malformed("line 3".to_owned())) {
        Err(text) => assert_eq!(text, "parse a.yaml: line 3"),
        Ok(_) => panic!("loaded"),
    }
}

#[test]
fn parsed_settings_are_clamped_and_validated() {
    let mut settings = usable();
    settings.server.public_url = "http://example:8080".to_owned();
    settings.stream.fps = 1;
    match load("a.yaml", Loaded::Parsed(settings)) {
        Ok(used) => {
            assert_eq!(used.server.public_url, "http://example:8080");
            assert_eq!(used.public_url(), "http://example:8080");
            assert_eq!(used.control_url(), "http://127.0.0.1:8080");
            assert_eq!(used.stream.fps, 15);
            assert_eq!(used.webrtc.stun_urls, vec!["stun:stun.l.google.com:19302".to_owned()]);
        }
        Err(text) => panic!("{}", text),
    }
}

#[test]
fn unusable_settings_are_refused() {
    let mut settings = usable();
    settings.server.public_url = String::new();
    match load("a.yaml", Loaded::Parsed(settings)) {
        Err(text) => assert_eq!(text, "config: server.public_url is empty"),
        Ok(_) => panic!("loaded"),
    }
    let mut settings = usable();
    settings.server.control_url = String::new();
    match load("a.yaml", Loaded::Parsed(settings)) {
        Err(text) => assert_eq!(text, "config: server.control_url is empty"),
        Ok(_) => panic!("loaded"),
    }
    let mut settings = usable();
    settings.stream.codec = "av1".to_owned();
    match load("a.yaml", Loaded::Parsed(settings)) {
        Err(text) => assert_eq!(text, "config: stream.codec must be h264 or vp8, got av1"),
        Ok(_) => panic!("loaded"),
    }
    let mut settings = usable();
    settings.stream.codec = "vp8".to_owned();
    assert!(settings.validate().is_ok());
    assert!(load("a.yaml", Loaded::Parsed(settings)).is_ok());
}

#[test]
fn clamping_twice_changes_nothing_more() {
    let mut stream = StreamSettings {
        monitor: 0,
        fps: 3,
        bitrate_kbps: 90000,
        width: 640,
        ..StreamSettings::default()
    };
    stream.clamp_to_safe_ranges();
    let once = (stream.monitor, stream.fps, stream.bitrate_kbps, stream.width, stream.height);
    assert_eq!(once, (1, 15, 50000, 640, 1080));
    stream.clamp_to_safe_ranges();
    let twice = (stream.monitor, stream.fps, stream.bitrate_kbps, stream.width, stream.height);
    assert_eq!(once, twice);
}
