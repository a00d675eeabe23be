use openh264::formats::{RgbaSliceU8, YUVBuffer, YUVSource};
use viewpoint::capture::Frame;
use viewpoint::config::StreamSettings;
use viewpoint::encode::{scale_to_target, Encoded, Encoder};
use viewpoint::h264::{Effort, Usage};
use viewpoint::trace::{inventory, DebugTrace, Roundtrip};

fn solid_frame(width: u32, height: u32, pixel: [u8; 4]) -> Frame {
    Frame {
        width,
        height,
        pixels: vec![pixel[0], pixel[1], pixel[2], pixel[3]]
            .repeat(width as usize * height as usize),
    }
}

fn small_stream() -> StreamSettings {
    StreamSettings { width: 64, height: 48, bitrate_kbps: 500, ..StreamSettings::default() }
}

fn opened(stream: &StreamSettings) -> Encoder {
    match Encoder::from_stream(stream) {
        Ok(encoder) => encoder,
        Err(text) => panic!("{}", text),
    }
}

#[test]
fn scale_identity_keeps_pixels() {
    let frame = solid_frame(2, 2, [10, 20, 30, 255]);
    let scaled = scale_to_target(frame, 2, 2);
    assert_eq!((scaled.width, scaled.height), (2, 2));
    assert_eq!(scaled.pixels.len(), 2 * 2 * 4);
    assert!(scaled.pixels.chunks_exact(4).all(|pixel| pixel == [10, 20, 30, 255]));
}

#[test]
fn scale_down_samples_top_left() {
    let mut pixels = Vec::new();
    for row in 0..4u8 {
        for column in 0..4u8 {
            pixels.extend_from_slice(&[row * 4 + column, 0, 0, 255]);
        }
    }
    let frame = Frame { width: 4, height: 4, pixels };
    let scaled = scale_to_target(frame, 2, 2);
    assert_eq!((scaled.width, scaled.height), (2, 2));
    let reds: Vec<u8> = scaled.pixels.chunks_exact(4).map(|pixel| pixel[0]).collect();
    assert_eq!(reds, vec![0, 2, 8, 10]);
}

#[test]
fn scale_empty_frame_passes_through() {
    let frame = Frame { width: 0, height: 0, pixels: Vec::new() };
    let scaled = scale_to_target(frame, 1920, 1080);
    assert_eq!((scaled.width, scaled.height), (0, 0));
}

#[test]
fn scaling_up_repeats_pixels() {
    let frame = Frame { width: 2, height: 1, pixels: vec![1, 2, 3, 4, 5, 6, 7, 8] };
    let scaled = scale_to_target(frame, 4, 2);
    assert_eq!((scaled.width, scaled.height), (4, 2));
    let row = vec![1, 2, 3, 4, 1, 2, 3, 4, 5, 6, 7, 8, 5, 6, 7, 8];
    assert_eq!(scaled.pixels, row.repeat(2));
}

#[test]
fn scaling_up_and_back_keeps_pixels() {
    let pixels: Vec<u8> = (0..5 * 3 * 4).map(|at| (at * 7) as u8).collect();
    for factor in 1..=4u32 {
        let frame = Frame { width: 5, height: 3, pixels: pixels.clone() };
        let large = scale_to_target(frame, 5 * factor, 3 * factor);
        assert_eq!(large.pixels.len(), pixels.len() * (factor * factor) as usize);
        let back = scale_to_target(large, 5, 3);
        assert_eq!((back.width, back.height), (5, 3));
        assert_eq!(back.pixels, pixels);
    }
}

#[test]
fn streams_that_cannot_be_encoded_are_refused() {
    let stream = StreamSettings { codec: "vp8".to_owned(), ..small_stream() };
    match Encoder::from_stream(&stream) {
        Err(text) => assert_eq!(
            text,
            "stream.codec vp8 not supported in this build, set codec to h264"
        ),
        Ok(_) => panic!("opened"),
    }
    let stream = StreamSettings { width: 0, ..small_stream() };
    match Encoder::from_stream(&stream) {
        Err(text) => assert_eq!(text, "stream.width and stream.height must be >= 1"),
        Ok(_) => panic!("opened"),
    }
    match Encoder::plan(&small_stream()) {
        Ok(plan) => {
            assert_eq!((plan.bit_rate, plan.frame_rate, plan.intra_period), (500000, 30, 60));
            assert_eq!((plan.usage, plan.effort), (Usage::Screen, Effort::Low));
            match Encoder::adopt(plan, Err("no memory".to_owned())) {
                Err(text) => assert_eq!(text, "start encoder: no memory"),
                Ok(_) => panic!("opened"),
            }
        }
        Err(text) => panic!("{}", text),
    }
}

#[test]
fn encoders_accept_frames_that_can_be_scaled() {
    let encoder = opened(&small_stream());
    assert!(encoder.accepts(&solid_frame(64, 48, [1, 2, 3, 255])));
    assert!(encoder.accepts(&solid_frame(37, 11, [1, 2, 3, 255])));
    let short = Frame { width: 64, height: 48, pixels: vec![0; 10] };
    assert!(!encoder.accepts(&short));
    let short = Frame { width: 100, height: 100, pixels: vec![0; 10] };
    assert!(!encoder.accepts(&short));
    let odd = opened(&StreamSettings { width: 63, ..small_stream() });
    assert!(!odd.accepts(&solid_frame(64, 48, [1, 2, 3, 255])));
}

#[test]
fn first_packets_begin_with_a_start_code() {
    let mut encoder = opened(&small_stream());
    let mut trace = DebugTrace::new();
    let frame = solid_frame(128, 96, [200, 30, 30, 255]);
    let encoded = match encoder.encode_frame(frame, &mut trace, false) {
        Ok(encoded) => encoded,
        Err(text) => panic!("{}", text),
    };
    assert!(encoded.line.is_none());
    assert!(matches!(encoded.found, Roundtrip::Idle));
    assert!(trace.logged);
    match encoded.packet {
        Some(packet) => {
            assert!(packet.bytes.len() > 16);
            assert_eq!(&packet.bytes[0..4], &[0, 0, 0, 1]);
            assert_eq!(packet.bytes[4] & 0x1f, 7);
            let copy = packet.clone();
            assert_eq!(copy.bytes, packet.bytes);
        }
        None => panic!("no packet"),
    }
}

#[test]
fn packets_join_the_units_of_all_layers() {
    let mut trace = DebugTrace::new();
    let layers = vec![vec![vec![1, 2], vec![3]], vec![], vec![vec![], vec![4, 5]]];
    match Encoded::of(&layers, &mut trace, false).packet {
        Some(packet) => assert_eq!(&packet.bytes[..], &[1, 2, 3, 4, 5]),
        None => panic!("no packet"),
    }
}

#[test]
fn what_is_not_a_packet_is_not_looked_at() {
    let mut trace = DebugTrace::new();
    for layers in [vec![], vec![vec![vec![]]]] {
        let encoded = Encoded::of(&layers, &mut trace, true);
        assert!(encoded.packet.is_none() && encoded.line.is_none());
        assert!(matches!(encoded.found, Roundtrip::Idle));
    }
    assert!(!trace.logged && trace.tries == 0);
    let encoded = Encoded::of(&vec![vec![vec![0, 0, 0, 1, 9]]], &mut trace, true);
    assert_eq!(
        encoded.line,
        Some("[INFO] first packet layers=1 L0(nals=1 [t=9 len=5]) total=5".to_owned())
    );
    assert_eq!(trace.tries, 1);
}

#[test]
fn pictures_are_converted_by_the_stated_weights() {
    for (width, height) in [(2usize, 2usize), (6, 4), (64, 2), (82, 6)] {
        let pixels: Vec<u8> = (0..width * height * 4).map(|at| (at * at * 31 + at * 7) as u8).collect();
        let mut buffer = YUVBuffer::new(width, height);
        buffer.read_rgba8(RgbaSliceU8::new(&pixels, (width, height)));
        let byte = |x: usize, y: usize, channel: usize| {
            i32::from(pixels[(y * width + x) * 4 + channel])
        };
        for y in 0..height {
            for x in 0..width {
                let sum = 66 * byte(x, y, 0) + 129 * byte(x, y, 1) + 25 * byte(x, y, 2);
                assert_eq!(i32::from(buffer.y()[y * width + x]), sum / 256 + 16);
            }
        }
        for y in 0..height / 2 {
            for x in 0..width / 2 {
                let mean = |channel: usize| {
                    let upper = byte(2 * x, 2 * y, channel) + byte(2 * x + 1, 2 * y, channel);
                    let lower = byte(2 * x, 2 * y + 1, channel) + byte(2 * x + 1, 2 * y + 1, channel);
                    (upper + lower + 2) / 4
                };
                let blue = -38 * mean(0) - 74 * mean(1) + 112 * mean(2);
                let red = 112 * mean(0) - 94 * mean(1) - 18 * mean(2);
                let at = y * (width / 2) + x;
                assert_eq!(i32::from(buffer.u()[at]), blue.div_euclid(256) + 128);
                assert_eq!(i32::from(buffer.v()[at]), red.div_euclid(256) + 128);
            }
        }
    }
}

#[test]
fn packets_decode_to_a_picture_of_the_size_of_the_stream() {
    let mut encoder = opened(&small_stream());
    let mut trace = DebugTrace::new();
    let mut found = false;
    for count in 0..30u8 {
        let frame = solid_frame(64, 48, [count, 100, 200, 255]);
        let encoded = match encoder.encode_frame(frame, &mut trace, true) {
            Ok(encoded) => encoded,
            Err(text) => panic!("{}", text),
        };
        let (line, result) = (encoded.line, encoded.found);
        let packet = match encoded.packet {
            Some(packet) => packet,
            None => continue,
        };
        if count == 0 {
            let total = format!(" total={}", packet.bytes.len());
            match line {
                Some(line) => {
                    assert!(line.starts_with("[INFO] first packet layers="));
                    assert!(line.ends_with(total.as_str()));
                }
                None => panic!("no line"),
            }
        } else {
            assert!(line.is_none());
        }
        match result {
            Roundtrip::Picture(picture) => {
                assert_eq!((picture.width, picture.height), (64, 48));
                assert_eq!(picture.pixels.len(), 64 * 48 * 4);
                for pixel in picture.pixels.chunks_exact(4) {
                    assert!((pixel[0] as i32 - count as i32).abs() < 16);
                    assert!((pixel[1] as i32 - 100).abs() < 16);
                    assert!((pixel[2] as i32 - 200).abs() < 16);
                    assert_eq!(pixel[3], 255);
                }
                found = true;
                break;
            }
            Roundtrip::Waiting => {}
            other => panic!("{:?}", other.report()),
        }
    }
    assert!(found);
    assert!(trace.done);
    assert!(matches!(trace.roundtrip(&[0, 0, 0, 1], true), Roundtrip::Idle));
    let (line, result) = trace.save_debug_roundtrip(&vec![vec![vec![1]]], &[1], true);
    assert!(line.is_none());
    assert!(matches!(result, Roundtrip::Idle));
}

#[test]
fn nothing_is_decoded_where_reports_are_not_wanted() {
    let mut trace = DebugTrace::new();
    let (line, result) = trace.save_debug_roundtrip(&vec![vec![vec![1]]], &[1], false);
    assert!(line.is_none());
    assert!(matches!(result, Roundtrip::Idle));
    assert!(trace.logged && trace.decoder.is_none());
    let (line, _) = trace.save_debug_roundtrip(&vec![vec![vec![1]]], &[], true);
    assert!(line.is_none());
}

#[test]
fn searches_end_after_too_many_packets() {
    let mut trace = DebugTrace { logged: true, done: false, tries: 121, decoder: None };
    let result = trace.roundtrip(&[1, 2, 3], true);
    assert!(matches!(result, Roundtrip::GaveUp));
    assert_eq!(
        result.report(),
        Some("[WARN] roundtrip: no picture in first 120 packets".to_owned())
    );
    assert!(trace.done);
    let mut unwanted = DebugTrace::new();
    assert!(matches!(unwanted.roundtrip(&[1, 2, 3], false), Roundtrip::Idle));
    assert_eq!(unwanted.tries, 0);
}

#[test]
fn inventories_tell_kinds_and_lengths() {
    let layers = vec![
        vec![vec![0, 0, 0, 1, 0x67, 9], vec![0, 0, 0, 1, 0x68]],
        vec![vec![0, 0, 1]],
    ];
    assert_eq!(
        inventory(&layers, 14),
        "[INFO] first packet layers=2 L0(nals=2 [t=7 len=6] [t=8 len=5]) L1(nals=1 [t=255 len=3]) \
         total=14"
    );
}

#[test]
fn roundtrips_are_reported() {
    assert_eq!(
        Roundtrip::NoDecoder("e".to_owned()).report(),
        Some("[WARN] roundtrip decoder: e".to_owned())
    );
    assert_eq!(
        Roundtrip::Failed("e".to_owned()).report(),
        Some("[WARN] roundtrip decode failed: e".to_owned())
    );
    assert_eq!(Roundtrip::Waiting.report(), None);
    assert_eq!(Roundtrip::saved(Ok(())), "[INFO] roundtrip saved to viewpoint-roundtrip.bmp");
    assert_eq!(
        Roundtrip::saved(Err("x".to_owned())),
        "[WARN] roundtrip snapshot failed: x"
    );
}
