use viewpoint::capture::{
    bitmap, capture_monitor, capture_step, find_monitor, monitor_index, written, CaptureStep,
    DesktopCapturer, Frame, Snapshot,
};

#[test]
fn bitmaps_hold_rows_from_the_bottom_up() {
    let frame = Frame {
        width: 2,
        height: 2,
        pixels: vec![1, 2, 3, 255, 4, 5, 6, 255, 7, 8, 9, 255, 10, 11, 12, 255],
    };
    let data = match bitmap(&frame) {
        Ok(data) => data,
        Err(text) => panic!("{}", text),
    };
    assert_eq!(data.len(), 54 + 2 * 8);
    assert_eq!(&data[0..2], b"BM");
    assert_eq!(&data[2..6], &70u32.to_le_bytes());
    assert_eq!(&data[6..10], &[0, 0, 0, 0]);
    assert_eq!(&data[10..14], &54u32.to_le_bytes());
    assert_eq!(&data[14..18], &40u32.to_le_bytes());
    assert_eq!(&data[18..22], &2u32.to_le_bytes());
    assert_eq!(&data[22..26], &2u32.to_le_bytes());
    assert_eq!(&data[26..28], &1u16.to_le_bytes());
    assert_eq!(&data[28..30], &24u16.to_le_bytes());
    assert!(data[30..54].iter().all(|byte| *byte == 0));
    assert_eq!(&data[54..62], &[9, 8, 7, 12, 11, 10, 0, 0]);
    assert_eq!(&data[62..70], &[3, 2, 1, 6, 5, 4, 0, 0]);
}

#[test]
fn bitmaps_hold_every_pixel() {
    let width = 5usize;
    let height = 3usize;
    let pixels: Vec<u8> = (0..width * height * 4).map(|at| at as u8).collect();
    let frame = Frame { width: 5, height: 3, pixels: pixels.clone() };
    let data = bitmap(&frame).unwrap_or_default();
    for y in 0..height {
        for x in 0..width {
            for channel in 0..3 {
                assert_eq!(
                    data[54 + (height - 1 - y) * 16 + 3 * x + 2 - channel],
                    pixels[(y * width + x) * 4 + channel]
                );
            }
        }
    }
}

#[test]
fn frames_of_the_wrong_size_have_no_bitmap() {
    let empty = Frame { width: 0, height: 2, pixels: Vec::new() };
    assert_eq!(bitmap(&empty), Err("bad frame dimensions".to_owned()));
    let short = Frame { width: 1, height: 2, pixels: vec![0; 7] };
    assert_eq!(bitmap(&short), Err("bad frame dimensions".to_owned()));
}

#[test]
fn failed_writes_name_the_file() {
    assert_eq!(written("a.bmp", Ok(())), Ok(()));
    assert_eq!(
        written("a.bmp", Err("disk full".to_owned())),
        Err("write a.bmp: disk full".to_owned())
    );
}

#[test]
fn only_the_first_picture_is_saved() {
    let mut snapshot = Snapshot::new();
    assert!(snapshot.wants(true));
    assert!(!snapshot.wants(true));
    let mut unwanted = Snapshot::new();
    assert!(!unwanted.wants(false));
    assert!(!unwanted.wants(true));
    assert_eq!(Snapshot::report(Ok(())), "[INFO] snapshot saved to viewpoint-snapshot.bmp");
    assert_eq!(Snapshot::report(Err("x".to_owned())), "[WARN] snapshot failed: x");
}

#[test]
fn monitors_are_counted_from_one() {
    assert_eq!(monitor_index(0), 0);
    assert_eq!(monitor_index(1), 0);
    assert_eq!(monitor_index(4), 3);
    assert_eq!(find_monitor(1, Ok(2)), Ok(()));
    assert_eq!(find_monitor(2, Ok(2)), Err("monitor 3 not found".to_owned()));
    assert_eq!(find_monitor(0, Err("none".to_owned())), Err("list monitors: none".to_owned()));
    match capture_monitor(1, Err("busy".to_owned())) {
        Err(text) => assert_eq!(text, "grab frame 2: busy"),
        Ok(_) => panic!("captured"),
    }
    let frame = Frame { width: 1, height: 1, pixels: vec![1, 2, 3, 4] };
    match capture_monitor(1, Ok(frame)) {
        Ok(frame) => assert_eq!(frame.pixels, vec![1, 2, 3, 4]),
        Err(text) => panic!("{}", text),
    }
}

#[test]
fn capturing_waits_after_a_failure() {
    assert_eq!(capture_step(false, true), CaptureStep::Again);
    assert_eq!(capture_step(true, true), CaptureStep::Pause(1000));
    assert_eq!(capture_step(true, false), CaptureStep::Stop);
    assert_eq!(capture_step(false, false), CaptureStep::Stop);
}

#[test]
fn frames_come_from_the_thread() {
    let (capturer, line) = DesktopCapturer::for_monitor(Ok(()));
    assert!(line.is_none());
    let frame = Frame { width: 1, height: 1, pixels: vec![9, 9, 9, 9] };
    assert!(matches!(capturer.next_frame(Some(Ok(frame))), Ok(frame) if frame.width == 1));
    match capturer.next_frame(Some(Err("grab".to_owned()))) {
        Err(error) => assert_eq!(error.message(), "grab"),
        Ok(_) => panic!("captured"),
    }
    match capturer.next_frame(None) {
        Err(error) => assert_eq!(error.message(), "capture thread stopped"),
        Ok(_) => panic!("captured"),
    }
    let (stopped, line) = DesktopCapturer::for_monitor(Err("no threads".to_owned()));
    assert_eq!(line, Some("[ERROR] capture thread failed to start: no threads".to_owned()));
    match stopped.next_frame(None) {
        Err(error) => assert_eq!(error.message(), "capture thread failed to start"),
        Ok(_) => panic!("captured"),
    }
}
