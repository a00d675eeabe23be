use std::collections::VecDeque;

use viewpoint::audio::{
    downsample_plan, linear_to_mulaw, loopback_polled, loopback_stopped, raw_samples,
    AudioCapturer, LoopbackAction, LoopbackStart, LoopbackStep, LoopbackStream, RawSamples, SampleKind, QUEUED_CHUNKS,
    SAMPLES_PER_PACKET,
};

#[test]
fn mulaw_known_vectors() {
    assert_eq!(linear_to_mulaw(0), 0xFF);
    assert_eq!(linear_to_mulaw(32767), 0x80);
    assert_eq!(linear_to_mulaw(-32768), 0x00);
}

#[test]
fn mulaw_symmetry() {
    assert_eq!(linear_to_mulaw(1000) ^ 0x80, linear_to_mulaw(-1000));
}

#[test]
fn mulaw_is_symmetric_everywhere() {
    for sample in 1..=32767i16 {
        assert_eq!(linear_to_mulaw(sample) ^ 0x80, linear_to_mulaw(-sample));
    }
}

#[test]
fn mulaw_codes_fall_as_sound_grows_louder() {
    for sample in 0..32767i16 {
        assert!(linear_to_mulaw(sample) >= linear_to_mulaw(sample + 1));
    }
    assert!(linear_to_mulaw(100) > linear_to_mulaw(10000));
}

#[test]
fn capturer_needs_a_running_loopback() {
    let capturer = AudioCapturer::try_new(LoopbackStart::Started);
    assert!(matches!(capturer, Ok(capturer) if capturer.pending.is_empty()));
    match AudioCapturer::try_new(LoopbackStart::Failed("no device".to_owned())) {
        Err(error) => assert_eq!(error.message(), "start audio loopback: no device"),
        Ok(_) => panic!("started without a device"),
    }
    match AudioCapturer::try_new(LoopbackStart::NotCompiled) {
        Err(error) => assert_eq!(
            error.message(),
            "audio capture not compiled in (rebuild with --features audio)"
        ),
        Ok(_) => panic!("started without sound"),
    }
}

#[test]
fn packets_take_the_oldest_samples() {
    let mut capturer = AudioCapturer { pending: VecDeque::new() };
    assert!(capturer.lacks_samples());
    assert!(matches!(capturer.next_packet(), Ok(None)));
    let first: Vec<i16> = (0..100).collect();
    let second: Vec<i16> = (100..170).collect();
    capturer.drain_stream(&vec![first, second]);
    assert!(!capturer.lacks_samples());
    match capturer.next_packet() {
        Ok(Some(packet)) => {
            assert_eq!(packet.bytes.len(), SAMPLES_PER_PACKET);
            for (i, byte) in packet.bytes.iter().enumerate() {
                assert_eq!(*byte, linear_to_mulaw(i as i16));
            }
        }
        _ => panic!("no packet"),
    }
    assert_eq!(capturer.pending.len(), 10);
    assert_eq!(capturer.pending[0], 160);
    assert!(capturer.lacks_samples());
}

#[test]
fn streams_keep_the_newest_chunks() {
    let mut stream: LoopbackStream<u32> = match LoopbackStream::start(Ok(())) {
        Ok(stream) => stream,
        Err(_) => panic!("not started"),
    };
    stream.capture(7, 0);
    assert!(stream.drain().is_empty());
    for chunk in 0..100u32 {
        stream.capture(chunk, 1);
    }
    let chunks = stream.drain();
    assert_eq!(chunks.len(), QUEUED_CHUNKS);
    assert_eq!(chunks[0], 36);
    assert_eq!(chunks[63], 99);
    assert!(stream.drain().is_empty());
    match LoopbackStream::<u32>::start(Err("out of threads".to_owned())) {
        Err(text) => assert_eq!(text, "spawn audio thread: out of threads"),
        Ok(_) => panic!("started"),
    }
}

#[test]
fn loopback_is_set_up_step_by_step() {
    let mut step = LoopbackStep::InitCom;
    let mut count = 1;
    loop {
        match step.performed(Ok(())) {
            LoopbackAction::Perform(next) => step = next,
            LoopbackAction::Poll => break,
            _ => panic!("unexpected action"),
        }
        count += 1;
    }
    assert_eq!(step, LoopbackStep::StartStream);
    assert_eq!(count, 9);
    assert!(matches!(LoopbackStep::ReadDevice.performed(Ok(())), LoopbackAction::Poll));
}

#[test]
fn loopback_failures_name_the_step() {
    let named = vec![
        (LoopbackStep::InitCom, "init com: e"),
        (LoopbackStep::OpenEnumerator, "enumerator: e"),
        (LoopbackStep::FindDevice, "default render device: e"),
        (LoopbackStep::OpenClient, "audio client: e"),
        (LoopbackStep::ReadMixFormat, "mix format: e"),
        (LoopbackStep::ReadSampleFormat, "sample format: e"),
        (LoopbackStep::InitClient, "init loopback: e"),
        (LoopbackStep::OpenCapture, "capture client: e"),
        (LoopbackStep::StartStream, "start stream: e"),
        (LoopbackStep::ReadDevice, "read device: e"),
    ];
    for (step, expected) in named {
        match step.performed(Err("e".to_owned())) {
            LoopbackAction::Stop(text) => assert_eq!(text, expected),
            _ => panic!("went on"),
        }
    }
}

#[test]
fn packets_are_read_once_they_have_frames() {
    assert!(matches!(
        loopback_polled(Ok(Some(480))),
        LoopbackAction::Perform(LoopbackStep::ReadDevice)
    ));
    assert!(matches!(loopback_polled(Ok(Some(0))), LoopbackAction::Pause(5)));
    assert!(matches!(loopback_polled(Ok(None)), LoopbackAction::Pause(5)));
    match loopback_polled(Err("gone".to_owned())) {
        LoopbackAction::Stop(text) => assert_eq!(text, "packet size: gone"),
        _ => panic!("went on"),
    }
    assert_eq!(loopback_stopped("gone"), "[WARN] audio loopback stopped: gone");
}

#[test]
fn samples_are_read_by_their_representation() {
    let float: Vec<u8> = vec![0.5f32, -1.0].iter().flat_map(|x: &f32| x.to_le_bytes()).collect();
    match raw_samples(&float, SampleKind::Float, 32) {
        RawSamples::Float32(words) => {
            assert_eq!(words, vec![0.5f32.to_bits(), (-1.0f32).to_bits()]);
        }
        _ => panic!("wrong representation"),
    }
    match raw_samples(&[0xff, 0x7f, 0x00, 0x80, 0x01], SampleKind::Int, 16) {
        RawSamples::Int16(words) => assert_eq!(words, vec![32767, -32768]),
        _ => panic!("wrong representation"),
    }
    match raw_samples(&[0xfe, 0xff, 0xff, 0xff, 1, 0, 0, 0, 9], SampleKind::Int, 32) {
        RawSamples::Int32(words) => assert_eq!(words, vec![-2, 1]),
        _ => panic!("wrong representation"),
    }
    assert!(matches!(raw_samples(&[1, 2, 3], SampleKind::Int, 24), RawSamples::Unsupported));
    assert!(matches!(raw_samples(&[1, 2], SampleKind::Float, 64), RawSamples::Unsupported));
}

#[test]
fn sound_is_thinned_out_to_the_rate_of_packets() {
    assert_eq!(downsample_plan(4, 1, 8000), vec![0, 1, 2, 3]);
    assert_eq!(downsample_plan(2, 2, 8000), vec![0]);
    let starts = downsample_plan(96, 1, 48000);
    assert_eq!(starts.len(), 16);
    assert_eq!(starts[15], 90);
    assert_eq!(downsample_plan(9, 2, 16000), vec![0, 4]);
    assert_eq!(downsample_plan(3, 1, 4000), vec![0, 1, 2]);
    assert!(downsample_plan(0, 1, 8000).is_empty());
    assert!(downsample_plan(1, 0, 8000).is_empty());
    assert!(downsample_plan(1, 1, 0).is_empty());
    assert!(downsample_plan(1, 2, 8000).is_empty());
}
