//! Pictures of the desktop.

use crate::signal::SignalError;
use crate::text;
use vstd::prelude::*;

verus! {

/// The number of bytes before the pixels of a bitmap file.
pub const BITMAP_HEADER: usize = 54;

/// How long the capturing thread waits after a failure, in milliseconds.
pub const RETRY_PAUSE: u64 = 1000;

/// A picture: rows from top to bottom, in each row pixels from left to right, of each pixel four
/// bytes, which are red, green, blue and opacity.
pub struct Frame {
    pub width: u32,
    pub height: u32,
    pub pixels: Vec<u8>,
}

impl Frame {
    /// Whether there are as many bytes as the size of the picture asks for.
    pub open spec fn well_formed(&self) -> bool {
        self.pixels@.len() == self.width * self.height * 4
    }

    /// The channel `channel` of the pixel in column `x` of row `y`.
    pub open spec fn channel(&self, x: int, y: int, channel: int) -> u8 {
        self.pixels@[(y * self.width + x) * 4 + channel]
    }

    /// Whether there is a bitmap of the picture: it has pixels, as many as its size asks for, and
    /// the bitmap can be held in memory.
    pub open spec fn drawable(&self) -> bool {
        &&& self.width > 0
        &&& self.height > 0
        &&& self.well_formed()
        &&& bitmap_len(self.width as int, self.height as int) <= usize::MAX
    }
}

/// The number of bytes that a row of a bitmap takes: three for each pixel, rounded up to a
/// multiple of four.
pub open spec fn bitmap_stride(width: int) -> int {
    (width * 3 + 3) / 4 * 4
}

/// The number of bytes that a bitmap takes.
pub open spec fn bitmap_len(width: int, height: int) -> int {
    BITMAP_HEADER + bitmap_stride(width) * height
}

/// Byte `i` of the four bytes of a number, lowest byte first.
pub open spec fn le_byte(n: int, i: int) -> u8 {
    (if i == 0 {
        n % 256
    } else if i == 1 {
        n / 256 % 256
    } else if i == 2 {
        n / 65536 % 256
    } else {
        n / 16777216 % 256
    }) as u8
}

/// Byte `at` of the header of a bitmap: the letters BM, the size of the file, where the pixels
/// begin, the size of the rest of the header, width and height, and that there is one plane
/// with 24 bits for each pixel. The other bytes are zero.
pub open spec fn bitmap_header(width: int, height: int, at: int) -> u8 {
    if at == 0 {
        0x42
    } else if at == 1 {
        0x4d
    } else if 2 <= at < 6 {
        le_byte(bitmap_len(width, height) % 0x1_0000_0000, at - 2)
    } else if 10 <= at < 14 {
        le_byte(54, at - 10)
    } else if 14 <= at < 18 {
        le_byte(40, at - 14)
    } else if 18 <= at < 22 {
        le_byte(width, at - 18)
    } else if 22 <= at < 26 {
        le_byte(height, at - 22)
    } else if at == 26 {
        1
    } else if at == 28 {
        24
    } else {
        0
    }
}

/// Byte `column` of row `row` of the pixels of a bitmap. Rows go from bottom to top, of each
/// pixel blue comes first and red last, and a row ends in zeros.
pub open spec fn bitmap_pixel(frame: Frame, row: int, column: int) -> u8 {
    if column < frame.width * 3 {
        frame.channel(column / 3, frame.height - 1 - row, 2 - column % 3)
    } else {
        0
    }
}

/// Byte `at` of the bitmap of a picture.
pub open spec fn bitmap_byte(frame: Frame, at: int) -> u8 {
    if at < BITMAP_HEADER {
        bitmap_header(frame.width as int, frame.height as int, at)
    } else {
        let stride = bitmap_stride(frame.width as int);
        bitmap_pixel(frame, (at - BITMAP_HEADER) / stride, (at - BITMAP_HEADER) % stride)
    }
}

/// Appends the four bytes of a number, lowest byte first.
fn push_le(data: &mut Vec<u8>, n: u32)
    ensures
        final(data)@ == old(data)@ + seq![
            le_byte(n as int, 0),
            le_byte(n as int, 1),
            le_byte(n as int, 2),
            le_byte(n as int, 3),
        ],
{
    data.push((n % 256) as u8);
    data.push((n / 256 % 256) as u8);
    data.push((n / 65536 % 256) as u8);
    data.push((n / 16777216 % 256) as u8);
    assert(data@ =~= old(data)@ + seq![
        le_byte(n as int, 0),
        le_byte(n as int, 1),
        le_byte(n as int, 2),
        le_byte(n as int, 3),
    ]);
}

/// The header of a bitmap of `size` bytes.
fn header(width: u32, height: u32, size: usize) -> (data: Vec<u8>)
    requires
        size == bitmap_len(width as int, height as int),
    ensures
        data@ == Seq::new(
            BITMAP_HEADER as nat,
            |at: int| bitmap_header(width as int, height as int, at),
        ),
{
    let mut data: Vec<u8> = Vec::new();
    data.push(0x42);
    data.push(0x4d);
    push_le(&mut data, (size as u64 % 0x1_0000_0000) as u32);
    push_le(&mut data, 0);
    push_le(&mut data, 54);
    push_le(&mut data, 40);
    push_le(&mut data, width);
    push_le(&mut data, height);
    data.push(1);
    data.push(0);
    data.push(24);
    data.push(0);
    push_le(&mut data, 0);
    push_le(&mut data, 0);
    push_le(&mut data, 0);
    push_le(&mut data, 0);
    push_le(&mut data, 0);
    push_le(&mut data, 0);
    assert(data@ =~= Seq::new(
        BITMAP_HEADER as nat,
        |at: int| bitmap_header(width as int, height as int, at),
    ));
    data
}

/// The byte `column` of row `row` stands where the rows before it end.
proof fn bitmap_position(frame: Frame, row: int, column: int)
    requires
        0 <= row,
        0 <= column < bitmap_stride(frame.width as int),
    ensures
        bitmap_byte(frame, BITMAP_HEADER + row * bitmap_stride(frame.width as int) + column)
            == bitmap_pixel(frame, row, column),
{
    let stride = bitmap_stride(frame.width as int);
    assert(0 <= row * stride) by (nonlinear_arith)
        requires
            0 <= row,
            0 <= stride,
    ;
    vstd::arithmetic::div_mod::lemma_fundamental_div_mod_converse(
        row * stride + column,
        stride,
        row,
        column,
    );
}

/// Where a pixel stands in a picture, and that it stands within it.
proof fn pixel_position(width: int, height: int, x: int, y: int)
    requires
        0 <= x < width,
        0 <= y < height,
    ensures
        0 <= y * width,
        y * width + x < width * height,
        (y * width + x) * 4 + 4 <= width * height * 4,
{
    assert(0 <= y * width && y * width + x < width * height) by (nonlinear_arith)
        requires
            0 <= x < width,
            0 <= y < height,
    ;
}

/// Appends row `row` of the pixels of a bitmap.
fn push_row(data: &mut Vec<u8>, frame: &Frame, row: u32)
    requires
        frame.drawable(),
        row < frame.height,
    ensures
        final(data)@ == old(data)@ + Seq::new(
            bitmap_stride(frame.width as int) as nat,
            |column: int| bitmap_pixel(*frame, row as int, column),
        ),
{
    let width: usize = frame.width as usize;
    let y: usize = (frame.height - 1 - row) as usize;
    let size: usize = frame.pixels.len();
    let ghost stride = bitmap_stride(frame.width as int);
    proof {
        pixel_position(frame.width as int, frame.height as int, 0, y as int);
        assert(stride <= stride * frame.height) by (nonlinear_arith)
            requires
                0 <= stride,
                1 <= frame.height,
        ;
    }
    let start: usize = y * width;
    let mut x: usize = 0;
    while x < width
        invariant
            frame.drawable(),
            size == frame.pixels@.len(),
            row < frame.height,
            x <= width,
            width == frame.width,
            y == frame.height - 1 - row,
            start == y * width,
            data@.len() == old(data)@.len() + 3 * x,
            data@.take(old(data)@.len() as int) == old(data)@,
            forall|column: int|
                0 <= column < 3 * x ==> #[trigger] data@[old(data)@.len() + column]
                    == bitmap_pixel(*frame, row as int, column),
        decreases width - x,
    {
        proof {
            pixel_position(frame.width as int, frame.height as int, x as int, y as int);
        }
        let at: usize = (start + x) * 4;
        data.push(frame.pixels[at + 2]);
        data.push(frame.pixels[at + 1]);
        data.push(frame.pixels[at]);
        assert(data@.take(old(data)@.len() as int) =~= old(data)@);
        x = x + 1;
    }
    let mut filled: usize = 3 * width;
    while filled % 4 != 0
        invariant
            width == frame.width,
            stride == bitmap_stride(frame.width as int) <= usize::MAX,
            3 * width <= filled <= stride,
            frame.drawable(),
            data@.len() == old(data)@.len() + filled,
            data@.take(old(data)@.len() as int) == old(data)@,
            forall|column: int|
                0 <= column < filled ==> #[trigger] data@[old(data)@.len() + column]
                    == bitmap_pixel(*frame, row as int, column),
        decreases bitmap_stride(frame.width as int) - filled,
    {
        data.push(0);
        assert(data@.take(old(data)@.len() as int) =~= old(data)@);
        filled = filled + 1;
    }
    assert(data@ =~= old(data)@ + Seq::new(
        bitmap_stride(frame.width as int) as nat,
        |column: int| bitmap_pixel(*frame, row as int, column),
    )) by {
        assert forall|i: int| 0 <= i < data@.len() implies data@[i] == (old(data)@ + Seq::new(
            bitmap_stride(frame.width as int) as nat,
            |column: int| bitmap_pixel(*frame, row as int, column),
        ))[i] by {
            if i < old(data)@.len() {
                assert(data@.take(old(data)@.len() as int)[i] == old(data)@[i]);
            } else {
                let column = i - old(data)@.len();
                assert(data@[old(data)@.len() + column] == bitmap_pixel(
                    *frame,
                    row as int,
                    column,
                ));
            }
        }
    }
}

/// The bitmap of a picture, if there is one.
pub fn bitmap(frame: &Frame) -> (result: Result<Vec<u8>, String>)
    ensures
        result is Ok <==> frame.drawable(),
        result matches Ok(data) ==> {
            &&& data@.len() == bitmap_len(frame.width as int, frame.height as int)
            &&& forall|at: int|
                0 <= at < data@.len() ==> #[trigger] data@[at] == bitmap_byte(*frame, at)
        },
        result matches Err(text) ==> text@ == "bad frame dimensions"@,
{
    let width: u128 = frame.width as u128;
    let height: u128 = frame.height as u128;
    assert(width * height <= 0xffff_ffff * 0xffff_ffff) by (nonlinear_arith)
        requires
            width <= 0xffff_ffff,
            height <= 0xffff_ffff,
    ;
    if width == 0 || height == 0 || frame.pixels.len() as u128 != width * height * 4 {
        return Err("bad frame dimensions".to_owned());
    }
    let stride: u128 = (width * 3 + 3) / 4 * 4;
    assert(0 <= stride * height <= 0x4_0000_0000 * 0xffff_ffff) by (nonlinear_arith)
        requires
            0 <= stride <= 0x4_0000_0000,
            0 <= height <= 0xffff_ffff,
    ;
    let size: u128 = BITMAP_HEADER as u128 + stride * height;
    if size > usize::MAX as u128 {
        return Err("bad frame dimensions".to_owned());
    }
    let mut data: Vec<u8> = header(frame.width, frame.height, size as usize);
    let mut row: u32 = 0;
    assert(0 * stride == 0);
    while row < frame.height
        invariant
            frame.drawable(),
            row <= frame.height,
            stride == bitmap_stride(frame.width as int),
            data@.len() == BITMAP_HEADER + row * stride,
            forall|at: int|
                0 <= at < data@.len() ==> #[trigger] data@[at] == bitmap_byte(*frame, at),
        decreases frame.height - row,
    {
        let ghost before = data@;
        push_row(&mut data, frame, row);
        assert((row + 1) * stride == row * stride + stride) by (nonlinear_arith);
        assert forall|at: int| 0 <= at < data@.len() implies #[trigger] data@[at] == bitmap_byte(
            *frame,
            at,
        ) by {
            if at < before.len() {
                assert(data@[at] == before[at]);
            } else {
                bitmap_position(*frame, row as int, at - before.len());
            }
        }
        row = row + 1;
    }
    assert(row * stride == stride * height) by (nonlinear_arith)
        requires
            row == height,
    ;
    Ok(data)
}

/// A bitmap holds the colours of every pixel of its picture.
pub proof fn bitmap_holds_every_pixel(frame: Frame, x: int, y: int, channel: int)
    requires
        0 <= x < frame.width,
        0 <= y < frame.height,
        0 <= channel < 3,
    ensures
        bitmap_byte(
            frame,
            BITMAP_HEADER + (frame.height - 1 - y) * bitmap_stride(frame.width as int) + 3 * x + 2
                - channel,
        ) == frame.channel(x, y, channel),
{
    bitmap_position(frame, frame.height - 1 - y, 3 * x + 2 - channel);
}

/// What came of writing a bitmap to the file `path`.
pub fn written(path: &str, outcome: Result<(), String>) -> (result: Result<(), String>)
    ensures
        match outcome {
            Ok(_) => result is Ok,
            Err(source) => result matches Err(text) && text@ == "write "@ + path@ + ": "@ + source@,
        },
{
    match outcome {
        Ok(_) => Ok(()),
        Err(source) => {
            let mut text = "write ".to_owned();
            text.append(path);
            text.append(": ");
            text.append(source.as_str());
            Err(text)
        },
    }
}

/// Remembers whether the first picture has been seen.
pub struct Snapshot {
    pub taken: bool,
}

impl Snapshot {
    /// No picture has been seen.
    pub fn new() -> (snapshot: Self)
        ensures
            !snapshot.taken,
    {
        Snapshot { taken: false }
    }

    /// Whether the picture at hand is to be saved: if it is the first, and pictures are wanted.
    pub fn wants(&mut self, debug: bool) -> (save: bool)
        ensures
            save == (!old(self).taken && debug),
            final(self).taken,
    {
        if self.taken {
            return false;
        }
        self.taken = true;
        debug
    }

    /// The line that reports what came of saving the picture.
    pub fn report(outcome: Result<(), String>) -> (line: String)
        ensures
            match outcome {
                Ok(_) => line@ == "[INFO] snapshot saved to viewpoint-snapshot.bmp"@,
                Err(source) => line@ == "[WARN] snapshot failed: "@ + source@,
            },
    {
        match outcome {
            Ok(_) => "[INFO] snapshot saved to viewpoint-snapshot.bmp".to_owned(),
            Err(source) => {
                let mut line = "[WARN] snapshot failed: ".to_owned();
                line.append(source.as_str());
                line
            },
        }
    }
}

/// The place of a monitor in the list of monitors, by its number, which counts from one. The
/// number zero stands for the first monitor too.
pub fn monitor_index(monitor: u32) -> (index: usize)
    ensures
        index == if monitor == 0 {
            0
        } else {
            monitor - 1
        },
{
    monitor.saturating_sub(1) as usize
}

/// Whether the monitor at `index` is among those that were listed, of which there are so many.
pub fn find_monitor(index: usize, listed: Result<usize, String>) -> (result: Result<(), String>)
    requires
        index < usize::MAX,
    ensures
        match listed {
            Err(source) => result matches Err(text) && text@ == "list monitors: "@ + source@,
            Ok(count) => {
                &&& result is Ok <==> index < count
                &&& result matches Err(text) ==> text@ == "monitor "@ + text::decimal(
                    (index + 1) as nat,
                ) + " not found"@
            },
        },
{
    match listed {
        Err(source) => {
            let mut text = "list monitors: ".to_owned();
            text.append(source.as_str());
            Err(text)
        },
        Ok(count) => {
            if index < count {
                return Ok(());
            }
            let mut text = "monitor ".to_owned();
            text::push_decimal(&mut text, (index + 1) as u64);
            text.append(" not found");
            Err(text)
        },
    }
}

/// What came of taking a picture of the monitor at `index`.
pub fn capture_monitor(index: usize, shot: Result<Frame, String>) -> (result: Result<Frame, String>)
    requires
        index < usize::MAX,
    ensures
        match shot {
            Ok(frame) => result == Ok::<Frame, String>(frame),
            Err(source) => result matches Err(text) && text@ == "grab frame "@ + text::decimal(
                (index + 1) as nat,
            ) + ": "@ + source@,
        },
{
    match shot {
        Ok(frame) => Ok(frame),
        Err(source) => {
            let mut text = "grab frame ".to_owned();
            text::push_decimal(&mut text, (index + 1) as u64);
            text.append(": ");
            text.append(source.as_str());
            Err(text)
        },
    }
}

/// What the capturing thread does once it has handed a picture, or the reason that there is
/// none, to whoever asked for it.
#[derive(Debug, Clone, Copy, PartialEq, Eq, Structural)]
pub enum CaptureStep {
    /// Nobody takes pictures any more.
    Stop,
    /// Wait for so many milliseconds, then take the next picture.
    Pause(u64),
    /// Take the next picture.
    Again,
}

/// What the capturing thread does next: it stops when what it took was not delivered, and it
/// waits after a failure.
pub fn capture_step(failed: bool, delivered: bool) -> (step: CaptureStep)
    ensures
        step == if !delivered {
            CaptureStep::Stop
        } else if failed {
            CaptureStep::Pause(RETRY_PAUSE)
        } else {
            CaptureStep::Again
        },
{
    if !delivered {
        CaptureStep::Stop
    } else if failed {
        CaptureStep::Pause(RETRY_PAUSE)
    } else {
        CaptureStep::Again
    }
}

/// The receiving end of the pictures that the capturing thread takes.
pub struct DesktopCapturer {
    pub started: bool,
}

impl DesktopCapturer {
    /// The receiving end, and the line to report where the thread could not be started.
    pub fn for_monitor(spawned: Result<(), String>) -> (result: (Self, Option<String>))
        ensures
            match spawned {
                Ok(_) => result.0.started && result.1 is None,
                Err(source) => {
                    &&& !result.0.started
                    &&& result.1 matches Some(line)
                    &&& line@ == "[ERROR] capture thread failed to start: "@ + source@
                },
            },
    {
        match spawned {
            Ok(_) => (DesktopCapturer { started: true }, None),
            Err(source) => {
                let mut line = "[ERROR] capture thread failed to start: ".to_owned();
                line.append(source.as_str());
                (DesktopCapturer { started: false }, Some(line))
            },
        }
    }

    /// The next picture, out of what was received: nothing, if the thread is gone.
    pub fn next_frame(&self, received: Option<Result<Frame, String>>) -> (result: Result<
        Frame,
        SignalError,
    >)
        ensures
            !self.started ==> {
                &&& result matches Err(error)
                &&& error.status is None
                &&& error.text() == "capture thread failed to start"@
            },
            self.started ==> match received {
                None => {
                    &&& result matches Err(error)
                    &&& error.status is None
                    &&& error.text() == "capture thread stopped"@
                },
                Some(Err(reason)) => result == Err::<Frame, SignalError>(
                    SignalError { status: None, detail: reason },
                ),
                Some(Ok(frame)) => result == Ok::<Frame, SignalError>(frame),
            },
    {
        if !self.started {
            return Err(SignalError::from("capture thread failed to start"));
        }
        match received {
            None => Err(SignalError::from("capture thread stopped")),
            Some(Err(reason)) => Err(SignalError::failed(reason)),
            Some(Ok(frame)) => Ok(frame),
        }
    }
}

/// The pixels of a picture are its channels: of each pixel in turn, from left to right and from top
/// to bottom, the four of them in a row.
pub proof fn pixels_are_channels_in_a_row(frame: Frame, at: int)
    requires
        frame.well_formed(),
        0 <= at < frame.pixels@.len(),
    ensures
        frame.pixels@.len() == 4 * frame.width * frame.height,
        0 <= at / 4 % frame.width as int,
        0 <= at / 4 / frame.width as int,
        frame.channel(at / 4 % frame.width as int, at / 4 / frame.width as int, at % 4)
            == frame.pixels@[at],
{
    let width = frame.width as int;
    let n = at / 4;
    assert(width > 0 && 4 * width * frame.height == width * frame.height * 4) by (nonlinear_arith)
        requires
            0 <= width,
            0 < width * frame.height * 4,
    ;
    vstd::arithmetic::div_mod::lemma_fundamental_div_mod(n, width);
    vstd::arithmetic::div_mod::lemma_mod_bound(n, width);
    vstd::arithmetic::div_mod::lemma_div_pos_is_pos(n, width);
    assert((n / width) * width == width * (n / width)) by (nonlinear_arith);
}

/// A row of a bitmap has room for three bytes of every pixel, takes up whole words, and no more of
/// them than it needs.
pub proof fn rows_are_whole_words(width: int)
    requires
        0 <= width,
    ensures
        3 * width <= bitmap_stride(width) < 3 * width + 4,
        bitmap_stride(width) % 4 == 0,
{
}

/// The four bytes of a number make up the number, the lowest first.
pub proof fn bytes_make_up_the_number(n: int)
    requires
        0 <= n < 0x1_0000_0000,
    ensures
        n == le_byte(n, 0) + 0x100 * le_byte(n, 1) + 0x1_0000 * le_byte(n, 2) + 0x100_0000
            * le_byte(n, 3),
{
    assert(n == 0x100 * (n / 0x100) + n % 0x100);
    assert(n / 0x100 == 0x100 * (n / 0x1_0000) + n / 0x100 % 0x100);
    assert(n / 0x1_0000 == 0x100 * (n / 0x100_0000) + n / 0x1_0000 % 0x100);
    assert(n / 0x100_0000 % 0x100 == n / 0x100_0000);
}

/// The header of a bitmap can be read back: it begins with the letters that tell a bitmap, and says
/// how large the file is, as far as four bytes can tell, where the pixels begin, how large the
/// picture is, and that there is one plane of three bytes for each pixel. All else is zero.
pub proof fn headers_read_back(width: u32, height: u32, header: Seq<u8>)
    requires
        header == Seq::new(
            BITMAP_HEADER as nat,
            |at: int| bitmap_header(width as int, height as int, at),
        ),
    ensures
        header.len() == 54,
        header[0] == 'B' as u8,
        header[1] == 'M' as u8,
        crate::audio::word(header, 2) == (54 + bitmap_stride(width as int) * height)
            % 0x1_0000_0000,
        crate::audio::word(header, 6) == 0,
        crate::audio::word(header, 10) == header.len(),
        crate::audio::word(header, 14) == header.len() - 14,
        crate::audio::word(header, 18) == width,
        crate::audio::word(header, 22) == height,
        crate::audio::half_word(header, 26) == 1,
        crate::audio::half_word(header, 28) == 3 * 8,
        forall|at: int| 30 <= at < 54 ==> #[trigger] header[at] == 0,
{
    let size = bitmap_len(width as int, height as int);
    assert(0 <= bitmap_stride(width as int) * height) by (nonlinear_arith)
        requires
            0 <= bitmap_stride(width as int),
            0 <= height,
    ;
    bytes_make_up_the_number(size % 0x1_0000_0000);
    bytes_make_up_the_number(width as int);
    bytes_make_up_the_number(height as int);
}

/// What a row of a bitmap holds after its pixels is zero, and what comes after the header is rows.
pub proof fn rows_end_in_zeros(frame: Frame, row: int, column: int)
    requires
        0 <= row < frame.height,
        3 * frame.width <= column < bitmap_stride(frame.width as int),
    ensures
        bitmap_byte(frame, 54 + row * bitmap_stride(frame.width as int) + column) == 0,
        bitmap_len(frame.width as int, frame.height as int) == 54 + bitmap_stride(
            frame.width as int,
        ) * frame.height,
{
    bitmap_position(frame, row, column);
}

/// There is a bitmap of every picture that has pixels, as many as its size asks for, and takes up
/// no more memory than there is, and of no other.
pub proof fn whole_pictures_can_be_drawn(frame: Frame)
    ensures
        frame.drawable() <==> frame.width > 0 && frame.height > 0 && frame.pixels@.len() == 4
            * frame.width * frame.height && 54 + bitmap_stride(frame.width as int) * frame.height
            <= usize::MAX,
        frame.width > 0 && frame.height > 0 && frame.pixels@.len() == 4 * frame.width * frame.height
            && 54 + (3 * frame.width + 3) * frame.height <= usize::MAX ==> frame.drawable(),
{
    let stride = bitmap_stride(frame.width as int);
    assert(4 * frame.width * frame.height == frame.width * frame.height * 4) by (nonlinear_arith);
    assert(stride * frame.height <= (3 * frame.width + 3) * frame.height) by (nonlinear_arith)
        requires
            stride <= 3 * frame.width + 3,
            0 <= frame.height,
    ;
}

} // verus!
