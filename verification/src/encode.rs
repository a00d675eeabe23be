//! From pictures to packets of encoded video.

use crate::capture::Frame;
use crate::config::StreamSettings;
use crate::h264;
use crate::h264::{Effort, Usage};
use crate::text;
use crate::trace;
use crate::trace::{DebugTrace, Roundtrip};
use bytes::Bytes;
use openh264::encoder::Encoder as PictureEncoder;
use vstd::prelude::*;

verus! {

/// The row or column out of `source` many that stands for the one at `at` out of `target` many.
pub open spec fn sampled(at: int, source: int, target: int) -> int {
    at * source / target
}

/// Whether scaling a picture to a size leaves it as it is: it has that size already, or it has
/// no pixels to take.
pub open spec fn keeps_size(frame: Frame, width: u32, height: u32) -> bool {
    ||| frame.width == width && frame.height == height
    ||| frame.width == 0
    ||| frame.height == 0
}

/// Whether a picture can be scaled to a size: the result can be held in memory, and the last
/// pixel that is taken from the picture, as every other, is there.
pub open spec fn scalable(frame: Frame, width: u32, height: u32) -> bool {
    keeps_size(frame, width, height) || {
        &&& width * height * 4 <= isize::MAX
        &&& width > 0 && height > 0 ==> (sampled(height - 1, frame.height as int, height as int)
            * frame.width + sampled(width - 1, frame.width as int, width as int)) * 4 + 4
            <= frame.pixels@.len()
    }
}

/// Byte `at` of a picture scaled to a size.
pub open spec fn scaled_byte(frame: Frame, width: int, height: int, at: int) -> u8 {
    frame.channel(
        sampled(at / 4 % width, frame.width as int, width),
        sampled(at / 4 / width, frame.height as int, height),
        at % 4,
    )
}

/// The bytes of a picture scaled to a size.
pub open spec fn scaled_pixels(frame: Frame, width: u32, height: u32) -> Seq<u8> {
    if keeps_size(frame, width, height) {
        frame.pixels@
    } else {
        Seq::new(
            (width * height * 4) as nat,
            |at: int| scaled_byte(frame, width as int, height as int, at),
        )
    }
}

/// Rows and columns are taken from within the picture, and later ones from no earlier place.
pub proof fn sampling_stays_inside(a: int, b: int, source: int, target: int)
    requires
        0 <= a <= b < target,
        0 < source,
    ensures
        0 <= sampled(a, source, target) <= sampled(b, source, target) < source,
{
    assert(0 <= a * source <= b * source <= source * target - source) by (nonlinear_arith)
        requires
            0 <= a <= b < target,
            0 < source,
    ;
    vstd::arithmetic::div_mod::lemma_div_is_ordered(a * source, b * source, target);
    vstd::arithmetic::div_mod::lemma_div_pos_is_pos(a * source, target);
    assert(b * source / target < source) by (nonlinear_arith)
        requires
            0 <= b * source < source * target,
            0 < target,
    ;
}

/// A picture that is as large as it says can be scaled to any size that fits in memory.
pub proof fn well_formed_frames_scale(frame: Frame, width: u32, height: u32)
    requires
        frame.well_formed(),
        width * height * 4 <= isize::MAX,
    ensures
        scalable(frame, width, height),
{
    if !keeps_size(frame, width, height) && width > 0 && height > 0 {
        let x = sampled(width - 1, frame.width as int, width as int);
        let y = sampled(height - 1, frame.height as int, height as int);
        sampling_stays_inside(width - 1, width - 1, frame.width as int, width as int);
        sampling_stays_inside(height - 1, height - 1, frame.height as int, height as int);
        assert((y * frame.width + x) * 4 + 4 <= frame.width * frame.height * 4) by (nonlinear_arith)
            requires
                0 <= x < frame.width,
                0 <= y < frame.height,
        ;
    }
}

/// A pixel of a scaled picture is taken from a place that is there.
proof fn sample_is_there(frame: Frame, width: u32, height: u32, x: int, y: int)
    requires
        scalable(frame, width, height),
        !keeps_size(frame, width, height),
        0 <= x < width,
        0 <= y < height,
    ensures
        0 <= sampled(x, frame.width as int, width as int) < frame.width,
        0 <= sampled(y, frame.height as int, height as int) < frame.height,
        0 <= sampled(y, frame.height as int, height as int) * frame.width,
        (sampled(y, frame.height as int, height as int) * frame.width + sampled(
            x,
            frame.width as int,
            width as int,
        )) * 4 + 4 <= frame.pixels@.len(),
{
    let w = frame.width as int;
    let sx = sampled(x, w, width as int);
    let sy = sampled(y, frame.height as int, height as int);
    let mx = sampled(width - 1, w, width as int);
    let my = sampled(height - 1, frame.height as int, height as int);
    sampling_stays_inside(x, width - 1, w, width as int);
    sampling_stays_inside(y, height - 1, frame.height as int, height as int);
    assert(0 <= sy * w <= my * w) by (nonlinear_arith)
        requires
            0 <= sy <= my,
            0 <= w,
    ;
}

/// The pixel in column `x` of row `y` takes the four bytes after those of the pixels before it.
proof fn scaled_position(width: int, x: int, y: int, channel: int)
    requires
        0 <= x < width,
        0 <= y,
        0 <= channel < 4,
    ensures
        ((y * width + x) * 4 + channel) / 4 % width == x,
        ((y * width + x) * 4 + channel) / 4 / width == y,
        ((y * width + x) * 4 + channel) % 4 == channel,
        0 <= y * width,
{
    assert(0 <= y * width) by (nonlinear_arith)
        requires
            0 <= y,
            0 <= width,
    ;
    vstd::arithmetic::div_mod::lemma_fundamental_div_mod_converse(y * width + x, width, y, x);
}

/// Scales a picture to a size by taking the nearest pixel above and to the left.
pub fn scale_to_target(frame: Frame, target_width: u32, target_height: u32) -> (scaled: Frame)
    requires
        scalable(frame, target_width, target_height),
    ensures
        scaled.pixels@ == scaled_pixels(frame, target_width, target_height),
        keeps_size(frame, target_width, target_height) ==> scaled == frame,
        !keeps_size(frame, target_width, target_height) ==> {
            &&& scaled.width == target_width
            &&& scaled.height == target_height
            &&& scaled.well_formed()
            &&& forall|x: int, y: int, channel: int|
                0 <= x < target_width && 0 <= y < target_height && 0 <= channel < 4
                    ==> #[trigger] scaled.channel(x, y, channel) == frame.channel(
                    sampled(x, frame.width as int, target_width as int),
                    sampled(y, frame.height as int, target_height as int),
                    channel,
                )
        },
{
    if frame.width == target_width && frame.height == target_height {
        return frame;
    }
    if frame.width == 0 || frame.height == 0 {
        return frame;
    }
    let ghost tw = target_width as int;
    let ghost th = target_height as int;
    let mut pixels: Vec<u8> = Vec::with_capacity(
        target_width as usize * target_height as usize * 4,
    );
    let mut y: u32 = 0;
    assert(0 * tw == 0);
    while y < target_height
        invariant
            scalable(frame, target_width, target_height),
            !keeps_size(frame, target_width, target_height),
            tw == target_width,
            th == target_height,
            y <= target_height,
            pixels@.len() == y * tw * 4,
            forall|at: int|
                0 <= at < pixels@.len() ==> #[trigger] pixels@[at] == scaled_byte(
                    frame,
                    tw,
                    th,
                    at,
                ),
        decreases target_height - y,
    {
        assert(0 <= y * frame.height <= 0xffff_ffff * 0xffff_ffff) by (nonlinear_arith)
            requires
                0 <= y <= 0xffff_ffff,
                0 <= frame.height <= 0xffff_ffff,
        ;
        let source_y: u64 = y as u64 * frame.height as u64 / target_height as u64;
        let mut x: u32 = 0;
        while x < target_width
            invariant
                scalable(frame, target_width, target_height),
                !keeps_size(frame, target_width, target_height),
                tw == target_width,
                th == target_height,
                y < target_height,
                source_y == sampled(y as int, frame.height as int, th),
                x <= target_width,
                pixels@.len() == (y * tw + x) * 4,
                forall|at: int|
                    0 <= at < pixels@.len() ==> #[trigger] pixels@[at] == scaled_byte(
                        frame,
                        tw,
                        th,
                        at,
                    ),
            decreases target_width - x,
        {
            assert(0 <= x * frame.width <= 0xffff_ffff * 0xffff_ffff) by (nonlinear_arith)
                requires
                    0 <= x <= 0xffff_ffff,
                    0 <= frame.width <= 0xffff_ffff,
            ;
            let source_x: u64 = x as u64 * frame.width as u64 / target_width as u64;
            let size: usize = frame.pixels.len();
            proof {
                sample_is_there(frame, target_width, target_height, x as int, y as int);
                scaled_position(tw, x as int, y as int, 0);
                scaled_position(tw, x as int, y as int, 1);
                scaled_position(tw, x as int, y as int, 2);
                scaled_position(tw, x as int, y as int, 3);
            }
            let source: usize = (source_y as usize * frame.width as usize + source_x as usize) * 4;
            pixels.push(frame.pixels[source]);
            pixels.push(frame.pixels[source + 1]);
            pixels.push(frame.pixels[source + 2]);
            pixels.push(frame.pixels[source + 3]);
            x = x + 1;
        }
        assert((y + 1) * tw == y * tw + tw) by (nonlinear_arith);
        y = y + 1;
    }
    assert(y * tw == tw * th) by (nonlinear_arith)
        requires
            y == th,
    ;
    let scaled = Frame { width: target_width, height: target_height, pixels };
    assert(scaled.pixels@ =~= scaled_pixels(frame, target_width, target_height));
    assert forall|x: int, y: int, channel: int|
        0 <= x < tw && 0 <= y < th && 0 <= channel < 4 implies #[trigger] scaled.channel(
        x,
        y,
        channel,
    ) == frame.channel(
        sampled(x, frame.width as int, tw),
        sampled(y, frame.height as int, th),
        channel,
    ) by {
        scaled_position(tw, x, y, channel);
        assert((y * tw + x) * 4 + 4 <= tw * th * 4) by (nonlinear_arith)
            requires
                0 <= x < tw,
                0 <= y < th,
        ;
        assert(scaled.pixels@[(y * tw + x) * 4 + channel] == scaled_byte(
            frame,
            tw,
            th,
            (y * tw + x) * 4 + channel,
        ));
    }
    scaled
}

/// Scaling a picture up by a whole factor and back down again gives the picture back.
pub proof fn scaling_back_undoes_scaling_up(
    frame: Frame,
    large: Frame,
    width: u32,
    height: u32,
    factor: int,
)
    requires
        frame.well_formed(),
        frame.width > 0,
        frame.height > 0,
        factor >= 1,
        width == factor * frame.width,
        height == factor * frame.height,
        width * height * 4 <= isize::MAX,
        large.width == width,
        large.height == height,
        large.pixels@ == scaled_pixels(frame, width, height),
    ensures
        scalable(frame, width, height),
        scalable(large, frame.width, frame.height),
        keeps_size(large, frame.width, frame.height) ==> large.width == frame.width && large.height
            == frame.height,
        scaled_pixels(large, frame.width, frame.height) == frame.pixels@,
{
    let w = frame.width as int;
    let h = frame.height as int;
    well_formed_frames_scale(frame, width, height);
    assert(w <= factor * w && h <= factor * h) by (nonlinear_arith)
        requires
            factor >= 1,
            w >= 0,
            h >= 0,
    ;
    assert(0 <= w * h <= width * height) by (nonlinear_arith)
        requires
            0 <= w <= width,
            0 <= h <= height,
    ;
    well_formed_frames_scale(large, frame.width, frame.height);
    if factor == 1 {
        assert(factor * w == w && factor * h == h);
    } else {
        assert(factor * w > w) by (nonlinear_arith)
            requires
                factor > 1,
                w > 0,
        ;
        let back = scaled_pixels(large, frame.width, frame.height);
        assert forall|at: int| 0 <= at < back.len() implies back[at] == frame.pixels@[at] by {
            let x = at / 4 % w;
            let y = at / 4 / w;
            let c = at % 4;
            assert(0 <= y < h && at / 4 == y * w + x) by (nonlinear_arith)
                requires
                    0 <= at < w * h * 4,
                    w > 0,
                    x == at / 4 % w,
                    y == at / 4 / w,
            ;
            sampled_there_and_back(x, w, factor);
            sampled_there_and_back(y, h, factor);
            let position = (y * factor * width + x * factor) * 4 + c;
            assert(0 <= x * factor < width && 0 <= y * factor < height) by (nonlinear_arith)
                requires
                    0 <= x < w,
                    0 <= y < h,
                    factor > 0,
                    width == factor * w,
                    height == factor * h,
            ;
            scaled_position(width as int, x * factor, y * factor, c);
            assert((y * factor * width + x * factor) * 4 + 4 <= width * height * 4)
                by (nonlinear_arith)
                requires
                    0 <= x * factor < width,
                    0 <= y * factor < height,
            ;
            assert(large.pixels@[position] == scaled_byte(
                frame,
                width as int,
                height as int,
                position,
            ));
        }
        assert(back =~= frame.pixels@);
    }
}

/// The row or column that stands for one of a larger picture stands for it there too.
proof fn sampled_there_and_back(at: int, size: int, factor: int)
    requires
        0 <= at < size,
        factor >= 1,
    ensures
        sampled(at, factor * size, size) == at * factor,
        sampled(at * factor, size, factor * size) == at,
{
    assert(at * (factor * size) == size * (at * factor)) by (nonlinear_arith);
    vstd::arithmetic::div_mod::lemma_div_multiples_vanish(at * factor, size);
    assert(at * factor * size == (factor * size) * at) by (nonlinear_arith);
    assert(factor * size > 0) by (nonlinear_arith)
        requires
            factor >= 1,
            size > 0,
    ;
    vstd::arithmetic::div_mod::lemma_div_multiples_vanish(at, factor * size);
}

/// The bytes of a shared buffer.
#[verifier::external_type_specification]
#[verifier::external_body]
pub struct ExBytes(bytes::Bytes);

/// The bytes that a shared buffer holds.
pub uninterp spec fn payload(bytes: Bytes) -> Seq<u8>;

/// Makes a shared buffer of a vector, through the `From<Vec<u8>>` of `bytes::Bytes`: it holds the
/// same bytes.
#[verifier::external_body]
pub(crate) fn share(bytes: Vec<u8>) -> (shared: Bytes)
    ensures
        payload(shared) == bytes@,
{
    Bytes::from(bytes)
}

/// Copies of a shared buffer, through the `Clone` of `bytes::Bytes`, hold the same bytes.
pub assume_specification[ <Bytes as Clone>::clone ](bytes: &Bytes) -> (copy: Bytes)
    ensures
        payload(copy) == payload(*bytes),
;

/// A packet of encoded video.
pub struct Packet {
    pub bytes: Bytes,
}

impl Clone for Packet {
    fn clone(&self) -> (copy: Self)
        ensures
            payload(copy.bytes) == payload(self.bytes),
    {
        Packet { bytes: self.bytes.clone() }
    }
}

/// The bytes of several units, one after the other.
pub open spec fn joined_units(units: Seq<Seq<u8>>) -> Seq<u8>
    decreases units.len(),
{
    if units.len() == 0 {
        Seq::empty()
    } else {
        joined_units(units.drop_last()) + units.last()
    }
}

/// The bytes of the units of several layers, one after the other.
pub open spec fn joined_layers(layers: Seq<Seq<Seq<u8>>>) -> Seq<u8>
    decreases layers.len(),
{
    if layers.len() == 0 {
        Seq::empty()
    } else {
        joined_layers(layers.drop_last()) + joined_units(layers.last())
    }
}

/// The bytes of the units of all layers.
fn join(layers: &Vec<Vec<Vec<u8>>>) -> (data: Vec<u8>)
    ensures
        data@ == joined_layers(layers.deep_view()),
{
    let mut data: Vec<u8> = Vec::new();
    let ghost all = layers.deep_view();
    let mut i: usize = 0;
    assert(data@ =~= joined_layers(all.take(0)));
    while i < layers.len()
        invariant
            all == layers.deep_view(),
            all.len() == layers@.len(),
            i <= layers@.len(),
            data@ == joined_layers(all.take(i as int)),
        decreases layers@.len() - i,
    {
        let layer = &layers[i];
        let ghost before = data@;
        let ghost units = layer.deep_view();
        assert(units == all[i as int]);
        let mut j: usize = 0;
        assert(data@ =~= before + joined_units(units.take(0)));
        while j < layer.len()
            invariant
                units == layer.deep_view(),
                units.len() == layer@.len(),
                j <= layer@.len(),
                data@ == before + joined_units(units.take(j as int)),
            decreases layer@.len() - j,
        {
            let unit = &layer[j];
            assert(unit@ =~= units[j as int]);
            data.extend_from_slice(unit.as_slice());
            j = j + 1;
            assert(units.take(j as int).drop_last() =~= units.take(j - 1));
            assert(data@ =~= before + joined_units(units.take(j as int)));
        }
        assert(units.take(j as int) =~= units);
        i = i + 1;
        assert(all.take(i as int).drop_last() =~= all.take(i - 1));
        assert(data@ =~= joined_layers(all.take(i as int)));
    }
    assert(all.take(i as int) =~= all);
    data
}

/// What an encoder is made with: the bits per second, the pictures per second, the number of
/// pictures from one that is encoded on its own to the next, what the pictures show, how
/// thoroughly they are encoded, and their size.
pub struct EncoderPlan {
    pub bit_rate: u32,
    pub frame_rate: u32,
    pub intra_period: u32,
    pub usage: Usage,
    pub effort: Effort,
    pub width: u32,
    pub height: u32,
}

/// The encoder that settings ask for, if it can be had.
pub struct Encoder {
    inner: PictureEncoder,
    target_width: u32,
    target_height: u32,
}

/// What there is to say against encoding with settings, if anything.
pub open spec fn objection(stream: StreamSettings) -> Option<Seq<char>> {
    if stream.codec@ != "h264"@ {
        Some(
            "stream.codec "@ + stream.codec@
                + " not supported in this build, set codec to h264"@,
        )
    } else if stream.width == 0 || stream.height == 0 {
        Some("stream.width and stream.height must be >= 1"@)
    } else {
        None
    }
}

/// The number of pictures from one that is encoded on its own to the next: those of two
/// seconds.
pub open spec fn intra_period(fps: u32) -> int {
    2 * if fps < 1 {
        1
    } else {
        fps as int
    }
}

/// What the codec's encoder for a stream is asked for with.
pub open spec fn setup(stream: StreamSettings) -> (u32, u32, u32, Usage, Effort) {
    (
        (stream.bitrate_kbps * 1000) as u32,
        stream.fps,
        intra_period(stream.fps) as u32,
        Usage::Screen,
        Effort::Low,
    )
}

impl Encoder {
    /// The codec's own encoder.
    pub closed spec fn codec(&self) -> PictureEncoder {
        self.inner
    }

    /// The width to which pictures are scaled.
    pub closed spec fn width(&self) -> u32 {
        self.target_width
    }

    /// The height to which pictures are scaled.
    pub closed spec fn height(&self) -> u32 {
        self.target_height
    }

    /// Whether a picture can be encoded: it can be scaled, and once it is, it is as large as it
    /// says, of even width and height, and of rows that can be held in memory.
    pub open spec fn takes(&self, frame: Frame) -> bool {
        &&& scalable(frame, self.width(), self.height())
        &&& if keeps_size(frame, self.width(), self.height()) {
            &&& frame.well_formed()
            &&& frame.width % 2 == 0
            &&& frame.height % 2 == 0
            &&& frame.width * 4 <= usize::MAX
        } else {
            &&& self.width() % 2 == 0
            &&& self.height() % 2 == 0
            &&& self.width() * 4 <= usize::MAX
        }
    }

    /// What the codec's encoder is handed for a picture.
    pub open spec fn prepared(&self, frame: Frame) -> (usize, usize, Seq<u8>) {
        let kept = keeps_size(frame, self.width(), self.height());
        let width = (if kept {
            frame.width
        } else {
            self.width()
        }) as usize;
        let height = (if kept {
            frame.height
        } else {
            self.height()
        }) as usize;
        let pixels = scaled_pixels(frame, self.width(), self.height());
        (width, height, h264::planes(pixels, width, height))
    }

    /// What the encoder for a stream is made with, or what there is to say against it.
    pub fn plan(stream: &StreamSettings) -> (result: Result<EncoderPlan, String>)
        requires
            objection(*stream) is None ==> stream.bitrate_kbps * 1000 <= u32::MAX && intra_period(
                stream.fps,
            ) <= u32::MAX,
        ensures
            match objection(*stream) {
                Some(reason) => result matches Err(text) && text@ == reason,
                None => result == Ok::<EncoderPlan, String>(
                    EncoderPlan {
                        bit_rate: (stream.bitrate_kbps * 1000) as u32,
                        frame_rate: stream.fps,
                        intra_period: intra_period(stream.fps) as u32,
                        usage: Usage::Screen,
                        effort: Effort::Low,
                        width: stream.width,
                        height: stream.height,
                    },
                ),
            },
    {
        if !text::same_text(stream.codec.as_str(), "h264") {
            let mut reason = "stream.codec ".to_owned();
            reason.append(stream.codec.as_str());
            reason.append(" not supported in this build, set codec to h264");
            return Err(reason);
        }
        if stream.width == 0 || stream.height == 0 {
            return Err("stream.width and stream.height must be >= 1".to_owned());
        }
        let fps: u32 = if stream.fps < 1 {
            1
        } else {
            stream.fps
        };
        Ok(
            EncoderPlan {
                bit_rate: stream.bitrate_kbps * 1000,
                frame_rate: stream.fps,
                intra_period: fps * 2,
                usage: Usage::Screen,
                effort: Effort::Low,
                width: stream.width,
                height: stream.height,
            },
        )
    }

    /// The encoder around what opening the codec's encoder gave: that encoder, or the reason
    /// that there is none.
    pub fn adopt(
        plan: EncoderPlan,
        opened: Result<PictureEncoder, String>,
    ) -> (result: Result<Self, String>)
        ensures
            match opened {
                Ok(inner) => {
                    &&& result matches Ok(encoder)
                    &&& encoder.codec() == inner
                    &&& encoder.width() == plan.width
                    &&& encoder.height() == plan.height
                },
                Err(source) => result matches Err(text) && text@ == "start encoder: "@ + source@,
            },
    {
        match opened {
            Ok(inner) => Ok(
                Encoder { inner, target_width: plan.width, target_height: plan.height },
            ),
            Err(source) => {
                let mut text = "start encoder: ".to_owned();
                text.append(source.as_str());
                Err(text)
            },
        }
    }

    /// The encoder that settings ask for. Where there is nothing to say against them, whether
    /// it can be had is for the codec to say.
    pub fn from_stream(stream: &StreamSettings) -> (result: Result<Self, String>)
        requires
            objection(*stream) is None ==> stream.bitrate_kbps * 1000 <= u32::MAX && intra_period(
                stream.fps,
            ) <= u32::MAX,
        ensures
            objection(*stream) matches Some(reason) ==> result matches Err(text) && text@ == reason,
            objection(*stream) is None ==> match result {
                Ok(encoder) => {
                    &&& encoder.width() == stream.width
                    &&& encoder.height() == stream.height
                    &&& h264::encoder_setup(encoder.codec()) == setup(*stream)
                    &&& h264::encoder_inputs(encoder.codec()) == Seq::<
                        (usize, usize, Seq<u8>),
                    >::empty()
                },
                Err(text) => exists|error: openh264::Error|
                    h264::encoder_refusal(error, setup(*stream)) && text@ == "start encoder: "@
                        + #[trigger] h264::error_words(error),
            },
    {
        match Self::plan(stream) {
            Err(reason) => Err(reason),
            Ok(plan) => {
                let opened = match h264::open_encoder(
                    plan.bit_rate,
                    plan.frame_rate,
                    plan.intra_period,
                    plan.usage,
                    plan.effort,
                ) {
                    Ok(inner) => Ok(inner),
                    Err(error) => Err(h264::error_text(&error)),
                };
                Self::adopt(plan, opened)
            },
        }
    }

    /// Whether a picture can be encoded.
    pub fn accepts(&self, frame: &Frame) -> (b: bool)
        ensures
            b == self.takes(*frame),
    {
        let width: u128 = self.target_width as u128;
        let height: u128 = self.target_height as u128;
        let frame_width: u128 = frame.width as u128;
        let frame_height: u128 = frame.height as u128;
        let size: u128 = frame.pixels.len() as u128;
        if (frame_width == width && frame_height == height) || frame_width == 0 || frame_height
            == 0 {
            assert(frame_width * frame_height <= 0xffff_ffff * 0xffff_ffff) by (nonlinear_arith)
                requires
                    frame_width <= 0xffff_ffff,
                    frame_height <= 0xffff_ffff,
            ;
            return size == frame_width * frame_height * 4 && frame_width % 2 == 0 && frame_height
                % 2 == 0 && frame_width * 4 <= usize::MAX as u128;
        }
        assert(width * height <= 0xffff_ffff * 0xffff_ffff) by (nonlinear_arith)
            requires
                width <= 0xffff_ffff,
                height <= 0xffff_ffff,
        ;
        if width * height * 4 > isize::MAX as u128 || width % 2 != 0 || height % 2 != 0 || width * 4
            > usize::MAX as u128 {
            return false;
        }
        if width == 0 || height == 0 {
            return true;
        }
        proof {
            sampling_stays_inside(height - 1, height - 1, frame_height as int, height as int);
            sampling_stays_inside(width - 1, width - 1, frame_width as int, width as int);
        }
        assert((height - 1) * frame_height <= 0xffff_ffff * 0xffff_ffff) by (nonlinear_arith)
            requires
                1 <= height <= 0xffff_ffff,
                frame_height <= 0xffff_ffff,
        ;
        assert((width - 1) * frame_width <= 0xffff_ffff * 0xffff_ffff) by (nonlinear_arith)
            requires
                1 <= width <= 0xffff_ffff,
                frame_width <= 0xffff_ffff,
        ;
        let row: u128 = (height - 1) * frame_height / height;
        let column: u128 = (width - 1) * frame_width / width;
        assert(row * frame_width <= 0xffff_ffff * 0xffff_ffff) by (nonlinear_arith)
            requires
                row <= 0xffff_ffff,
                frame_width <= 0xffff_ffff,
        ;
        (row * frame_width + column) * 4 + 4 <= size
    }

    /// Encodes a picture, scaled to the size of the stream: what the codec put out for it, or
    /// the reason that it put out nothing.
    pub fn encode_layers(&mut self, frame: Frame) -> (result: Result<Vec<Vec<Vec<u8>>>, String>)
        requires
            old(self).takes(frame),
        ensures
            final(self).width() == old(self).width(),
            final(self).height() == old(self).height(),
            h264::encoder_setup(final(self).codec()) == h264::encoder_setup(old(self).codec()),
            h264::encoder_inputs(final(self).codec()) == h264::encoder_inputs(
                old(self).codec(),
            ).push(old(self).prepared(frame)),
            match h264::encoder_output(final(self).codec()) {
                Ok(units) => result matches Ok(layers) && layers.deep_view() == units,
                Err(words) => result matches Err(text) && text@ == "encode frame: "@ + words,
            },
    {
        let scaled = scale_to_target(frame, self.target_width, self.target_height);
        let picture = h264::convert(&scaled.pixels, scaled.width as usize, scaled.height as usize);
        match h264::encode(&mut self.inner, &picture) {
            Ok(stream) => Self::collect(&stream),
            Err(error) => {
                let source = h264::error_text(&error);
                let mut text = "encode frame: ".to_owned();
                text.append(source.as_str());
                Err(text)
            },
        }
    }

    /// Copies what the codec put out.
    fn collect(stream: &openh264::encoder::EncodedBitStream<'_>) -> (result: Result<
        Vec<Vec<Vec<u8>>>,
        String,
    >)
        ensures
            result matches Ok(layers) && layers.deep_view() == h264::stream_layers(*stream),
    {
        let ghost all = h264::stream_layers(*stream);
        let count: usize = h264::layer_count(stream);
        let mut layers: Vec<Vec<Vec<u8>>> = Vec::new();
        while layers.len() < count
            invariant
                all == h264::stream_layers(*stream),
                count == all.len(),
                layers@.len() <= count,
                forall|i: int|
                    0 <= i < layers@.len() ==> (#[trigger] layers@[i]).deep_view() == all[i],
            decreases count - layers@.len(),
        {
            let layer = match h264::layer_at(stream, layers.len()) {
                Some(layer) => layer,
                None => {
                    return Err("missing layer".to_owned());
                },
            };
            let ghost expected = h264::layer_units(layer);
            let size: usize = h264::unit_count(&layer);
            let mut units: Vec<Vec<u8>> = Vec::new();
            while units.len() < size
                invariant
                    expected == h264::layer_units(layer),
                    size == expected.len(),
                    units@.len() <= size,
                    forall|j: int|
                        0 <= j < units@.len() ==> (#[trigger] units@[j]).deep_view()
                            == expected[j],
                decreases size - units@.len(),
            {
                let unit = match h264::unit_at(&layer, units.len()) {
                    Some(unit) => unit,
                    None => {
                        return Err("missing nal".to_owned());
                    },
                };
                let mut bytes: Vec<u8> = Vec::new();
                bytes.extend_from_slice(unit);
                assert(bytes.deep_view() =~= unit@);
                units.push(bytes);
            }
            assert(units.deep_view() =~= expected);
            layers.push(units);
        }
        assert(layers.deep_view() =~= all);
        Ok(layers)
    }

    /// Encodes a picture, scaled to the size of the stream: the packet of what the codec put out
    /// for it, if it put out anything, and what there is to report on the packet for those who
    /// search for faults. What is not a packet is not looked at.
    pub fn encode_frame(&mut self, frame: Frame, trace: &mut DebugTrace, debug: bool) -> (result:
        Result<Encoded, String>)
        requires
            old(self).takes(frame),
        ensures
            final(self).width() == old(self).width(),
            final(self).height() == old(self).height(),
            h264::encoder_setup(final(self).codec()) == h264::encoder_setup(old(self).codec()),
            h264::encoder_inputs(final(self).codec()) == h264::encoder_inputs(
                old(self).codec(),
            ).push(old(self).prepared(frame)),
            match h264::encoder_output(final(self).codec()) {
                Ok(layers) => {
                    &&& result matches Ok(encoded)
                    &&& reports(*old(trace), *final(trace), layers, debug, encoded)
                },
                Err(words) => {
                    &&& result matches Err(text)
                    &&& text@ == "encode frame: "@ + words
                    &&& *final(trace) == *old(trace)
                },
            },
    {
        match self.encode_layers(frame) {
            Ok(layers) => Ok(Encoded::of(&layers, trace, debug)),
            Err(text) => Err(text),
        }
    }
}

/// A picture that was encoded: its packet, if there is one, the line to report on the packet, if
/// there is one, and what came of decoding the packet again.
pub struct Encoded {
    pub packet: Option<Packet>,
    pub line: Option<String>,
    pub found: Roundtrip,
}

/// Whether this is what becomes of what the codec put out for a picture, and what that leaves of
/// the look at packets.
pub open spec fn reports(
    before: DebugTrace,
    after: DebugTrace,
    layers: Seq<Seq<Seq<u8>>>,
    debug: bool,
    encoded: Encoded,
) -> bool {
    let bytes = joined_layers(layers);
    if bytes.len() == 0 {
        &&& encoded.packet is None
        &&& encoded.line is None
        &&& encoded.found is Idle
        &&& after == before
    } else {
        &&& encoded.packet matches Some(packet)
        &&& payload(packet.bytes) == bytes
        &&& trace::watches(before, after, layers, bytes, debug, encoded.line, encoded.found)
    }
}

impl Encoded {
    /// What becomes of what the codec put out for a picture.
    pub fn of(layers: &Vec<Vec<Vec<u8>>>, trace: &mut DebugTrace, debug: bool) -> (encoded: Self)
        ensures
            reports(*old(trace), *final(trace), layers.deep_view(), debug, encoded),
    {
        let data = join(layers);
        if data.len() == 0 {
            return Encoded { packet: None, line: None, found: Roundtrip::Idle };
        }
        let (line, found) = trace.save_debug_roundtrip(layers, data.as_slice(), debug);
        Encoded { packet: Some(Packet { bytes: share(data) }), line, found }
    }
}

/// Every pixel of a scaled picture is one of the picture: that in the row and the column in which
/// its upper left corner lies when the two are laid over each other.
pub proof fn scaling_takes_the_pixel_underneath(
    frame: Frame,
    width: u32,
    height: u32,
    x: int,
    y: int,
    channel: int,
) -> (from: (int, int))
    requires
        frame.width > 0,
        frame.height > 0,
        0 <= x < width,
        0 <= y < height,
        0 <= channel < 4,
    ensures
        0 <= from.0 < frame.width,
        0 <= from.1 < frame.height,
        from.0 * width <= x * frame.width < (from.0 + 1) * width,
        from.1 * height <= y * frame.height < (from.1 + 1) * height,
        scaled_pixels(frame, width, height)[(y * width + x) * 4 + channel] == frame.pixels@[(from.1
            * frame.width + from.0) * 4 + channel],
{
    let column = sampled(x, frame.width as int, width as int);
    let row = sampled(y, frame.height as int, height as int);
    sampling_stays_inside(x, x, frame.width as int, width as int);
    sampling_stays_inside(y, y, frame.height as int, height as int);
    sampled_lies_underneath(x, frame.width as int, width as int);
    sampled_lies_underneath(y, frame.height as int, height as int);
    if frame.width == width && frame.height == height {
        vstd::arithmetic::div_mod::lemma_div_multiples_vanish(x, width as int);
        vstd::arithmetic::div_mod::lemma_div_multiples_vanish(y, height as int);
        assert(x * width == width * x && y * height == height * y) by (nonlinear_arith);
    } else {
        scaled_position(width as int, x, y, channel);
        assert((y * width + x) * 4 + 4 <= width * height * 4) by (nonlinear_arith)
            requires
                0 <= x < width,
                0 <= y < height,
        ;
    }
    (column, row)
}

/// The row or column that stands for another lies underneath where that one begins.
proof fn sampled_lies_underneath(at: int, source: int, target: int)
    requires
        0 <= at < target,
        0 < source,
    ensures
        sampled(at, source, target) * target <= at * source,
        at * source < (sampled(at, source, target) + 1) * target,
{
    let found = at * source / target;
    vstd::arithmetic::div_mod::lemma_fundamental_div_mod(at * source, target);
    vstd::arithmetic::div_mod::lemma_mod_bound(at * source, target);
    assert(found * target == target * found) by (nonlinear_arith);
    assert((found + 1) * target == target * found + target) by (nonlinear_arith);
}

/// A picture that has a size already is left as it is, and so is one without pixels. Any other has
/// as many bytes as the size asks for.
pub proof fn scaled_pictures_have_their_size(frame: Frame, width: u32, height: u32)
    ensures
        frame.width == width && frame.height == height ==> scaled_pixels(frame, width, height)
            == frame.pixels@,
        frame.width == 0 || frame.height == 0 ==> scaled_pixels(frame, width, height)
            == frame.pixels@,
        frame.width > 0 && frame.height > 0 && !(frame.width == width && frame.height == height)
            ==> scaled_pixels(frame, width, height).len() == width * height * 4,
        keeps_size(frame, width, height) <==> (frame.width == width && frame.height == height)
            || frame.width == 0 || frame.height == 0,
{
    assert(0 <= width * height) by (nonlinear_arith);
}

/// A picture with all its pixels, or more, can be scaled to any size that fits in memory. One that
/// is left as it is always can.
pub proof fn whole_pictures_scale(frame: Frame, width: u32, height: u32)
    ensures
        frame.pixels@.len() >= frame.width * frame.height * 4 && width * height * 4 <= isize::MAX
            ==> scalable(frame, width, height),
        frame.width == width && frame.height == height ==> scalable(frame, width, height),
        frame.width == 0 || frame.height == 0 ==> scalable(frame, width, height),
        scalable(frame, width, height) && frame.width > 0 && frame.height > 0 && !(frame.width
            == width && frame.height == height) ==> width * height * 4 <= isize::MAX,
{
    if frame.pixels@.len() >= frame.width * frame.height * 4 && !keeps_size(frame, width, height)
        && width > 0 && height > 0 {
        let x = sampled(width - 1, frame.width as int, width as int);
        let y = sampled(height - 1, frame.height as int, height as int);
        sampling_stays_inside(width - 1, width - 1, frame.width as int, width as int);
        sampling_stays_inside(height - 1, height - 1, frame.height as int, height as int);
        assert((y * frame.width + x) * 4 + 4 <= frame.width * frame.height * 4) by (nonlinear_arith)
            requires
                0 <= x < frame.width,
                0 <= y < frame.height,
        ;
    }
}

/// The bytes of some units and then of others are those of all of them in a row, and those of one
/// unit are its own.
pub proof fn units_are_joined_in_a_row(
    first: Seq<Seq<u8>>,
    second: Seq<Seq<u8>>,
    one: Seq<u8>,
)
    ensures
        joined_units(first + second) == joined_units(first) + joined_units(second),
        joined_units(seq![one]) == one,
    decreases second.len(),
{
    let alone = seq![one];
    assert(alone.drop_last() =~= Seq::empty());
    assert(joined_units(alone.drop_last()) =~= Seq::empty());
    assert(joined_units(alone) =~= one);
    if second.len() == 0 {
        assert(first + second =~= first);
        assert(joined_units(first) + joined_units(second) =~= joined_units(first));
    } else {
        units_are_joined_in_a_row(first, second.drop_last(), one);
        assert((first + second).drop_last() =~= first + second.drop_last());
        assert(joined_units(first + second) =~= joined_units(first) + joined_units(second));
    }
}

/// The bytes of some layers and then of others are those of all of them in a row, and those of one
/// layer are those of its units.
pub proof fn layers_are_joined_in_a_row(
    first: Seq<Seq<Seq<u8>>>,
    second: Seq<Seq<Seq<u8>>>,
    one: Seq<Seq<u8>>,
)
    ensures
        joined_layers(first + second) == joined_layers(first) + joined_layers(second),
        joined_layers(seq![one]) == joined_units(one),
    decreases second.len(),
{
    let alone = seq![one];
    assert(alone.drop_last() =~= Seq::empty());
    assert(joined_layers(alone.drop_last()) =~= Seq::empty());
    assert(joined_layers(alone) =~= joined_units(one));
    if second.len() == 0 {
        assert(first + second =~= first);
        assert(joined_layers(first) + joined_layers(second) =~= joined_layers(first));
    } else {
        layers_are_joined_in_a_row(first, second.drop_last(), one);
        assert((first + second).drop_last() =~= first + second.drop_last());
        assert(joined_layers(first + second) =~= joined_layers(first) + joined_layers(second));
    }
}

/// There is a packet as soon as any unit of any layer has a byte, and it holds the bytes of all of
/// them. Where there is none, nothing is reported and nothing is looked at.
pub proof fn any_byte_makes_a_packet(
    before: DebugTrace,
    after: DebugTrace,
    layers: Seq<Seq<Seq<u8>>>,
    debug: bool,
    encoded: Encoded,
    i: int,
    j: int,
)
    requires
        reports(before, after, layers, debug, encoded),
        0 <= i < layers.len(),
        0 <= j < layers[i].len(),
    ensures
        layers[i][j].len() > 0 ==> encoded.packet is Some,
        encoded.packet matches Some(packet) ==> payload(packet.bytes) == joined_layers(layers)
            && payload(packet.bytes).len() > 0,
        encoded.packet is None ==> encoded.line is None && encoded.found is Idle && after == before,
{
    let units = layers[i];
    assert(layers =~= layers.take(i) + seq![units] + layers.skip(i + 1));
    layers_are_joined_in_a_row(layers.take(i) + seq![units], layers.skip(i + 1), units);
    layers_are_joined_in_a_row(layers.take(i), seq![units], units);
    assert(units =~= units.take(j) + seq![units[j]] + units.skip(j + 1));
    units_are_joined_in_a_row(units.take(j) + seq![units[j]], units.skip(j + 1), units[j]);
    units_are_joined_in_a_row(units.take(j), seq![units[j]], units[j]);
}

/// There is nothing to say against settings with the one codec that is built in and a size. What is
/// said against another codec names it.
pub proof fn one_codec_is_built_in(stream: StreamSettings)
    ensures
        objection(stream) is None <==> stream.codec@ == "h264"@ && stream.width > 0 && stream.height
            > 0,
        stream.codec@ != "h264"@ ==> objection(stream) == Some(
            "stream.codec "@ + stream.codec@ + " not supported in this build, set codec to h264"@,
        ),
        stream.codec@ == "h264"@ && (stream.width == 0 || stream.height == 0) ==> objection(stream)
            == Some("stream.width and stream.height must be >= 1"@),
{
}

/// An encoder is asked for with a thousand bits for each kilobit, the pictures per second that are
/// wanted, a picture on its own every two seconds, for screens, and for little effort.
pub proof fn encoders_are_asked_for_as_wanted(stream: StreamSettings)
    requires
        stream.bitrate_kbps * 1000 <= u32::MAX,
        2 * stream.fps <= u32::MAX,
    ensures
        setup(stream).0 == 1000 * stream.bitrate_kbps,
        setup(stream).1 == stream.fps,
        stream.fps >= 1 ==> setup(stream).2 == 2 * stream.fps,
        stream.fps == 0 ==> setup(stream).2 == 2,
        setup(stream).3 == Usage::Screen,
        setup(stream).4 == Effort::Low,
        intra_period(stream.fps) == if stream.fps == 0 {
            2int
        } else {
            stream.fps + stream.fps
        },
{
}

/// A whole picture is taken by an encoder of even width and height that fits in memory, whatever
/// its own size is. One of the size of the encoder is taken if that is even.
pub proof fn whole_pictures_are_taken(encoder: Encoder, frame: Frame)
    requires
        frame.well_formed(),
        frame.width > 0,
        frame.height > 0,
        encoder.width() % 2 == 0,
        encoder.height() % 2 == 0,
        encoder.height() > 0,
        encoder.width() * encoder.height() * 4 <= isize::MAX,
    ensures
        encoder.takes(frame),
        encoder.prepared(frame).0 == encoder.width(),
        encoder.prepared(frame).1 == encoder.height(),
        encoder.prepared(frame).2 == h264::planes(
            scaled_pixels(frame, encoder.width(), encoder.height()),
            encoder.width() as usize,
            encoder.height() as usize,
        ),
{
    well_formed_frames_scale(frame, encoder.width(), encoder.height());
    assert(encoder.width() * 4 <= encoder.width() * encoder.height() * 4) by (nonlinear_arith)
        requires
            encoder.height() >= 1,
            encoder.width() >= 0,
    ;
}

/// What is taken can be encoded: there are as many bytes as the size that is encoded asks for, and
/// that size is even.
pub proof fn what_is_taken_is_even(encoder: Encoder, frame: Frame)
    requires
        encoder.takes(frame),
    ensures
        encoder.prepared(frame).0 % 2 == 0,
        encoder.prepared(frame).1 % 2 == 0,
        scaled_pixels(frame, encoder.width(), encoder.height()).len() == encoder.prepared(frame).0
            * encoder.prepared(frame).1 * 4,
        frame.width == 0 || frame.height == 0 ==> encoder.prepared(frame).0 == frame.width
            && encoder.prepared(frame).1 == frame.height,
{
    assert(0 <= encoder.width() * encoder.height()) by (nonlinear_arith);
}

/// A picture of which every pixel is there that scaling takes can be scaled to a size that fits in
/// memory.
pub proof fn pictures_scale_with_the_pixels_taken(frame: Frame, width: u32, height: u32)
    requires
        width * height * 4 <= isize::MAX,
        forall|x: int, y: int|
            0 <= x < width && 0 <= y < height ==> (#[trigger] sampled(
                y,
                frame.height as int,
                height as int,
            ) * frame.width + #[trigger] sampled(x, frame.width as int, width as int)) * 4 + 4
                <= frame.pixels@.len(),
    ensures
        scalable(frame, width, height),
{
    if width > 0 && height > 0 {
        let x = sampled(width - 1, frame.width as int, width as int);
        let y = sampled(height - 1, frame.height as int, height as int);
    }
}

} // verus!
