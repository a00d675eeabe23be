//! The H.264 codec, which is that of the crate `openh264`.

use openh264::decoder::{DecodedYUV, Decoder};
use openh264::encoder::{
    BitRate, Complexity, EncodedBitStream, Encoder as PictureEncoder, EncoderConfig, FrameRate,
    IntraFramePeriod, Layer, UsageType,
};
use openh264::formats::YUVBuffer;
use vstd::prelude::*;

verus! {

/// An encoder, of which nothing but the names below is known.
#[verifier::external_type_specification]
#[verifier::external_body]
pub struct ExEncoder(PictureEncoder);

/// What an encoder puts out for one picture: layers of units.
#[verifier::external_type_specification]
#[verifier::external_body]
pub struct ExEncodedBitStream<'a>(openh264::encoder::EncodedBitStream<'a>);

/// A layer of units.
#[verifier::external_type_specification]
#[verifier::external_body]
pub struct ExLayer<'a>(openh264::encoder::Layer<'a>);

/// A picture in the colour space that an encoder takes.
#[verifier::external_type_specification]
#[verifier::external_body]
pub struct ExYUVBuffer(openh264::formats::YUVBuffer);

/// A failure of the codec.
#[verifier::external_type_specification]
#[verifier::external_body]
pub struct ExError(openh264::Error);

/// What pictures show, all of which are to be seen at once.
#[derive(Debug, Clone, Copy, PartialEq, Eq, Structural)]
pub enum Usage {
    Camera,
    Screen,
}

/// How thoroughly pictures are encoded.
#[derive(Debug, Clone, Copy, PartialEq, Eq, Structural)]
pub enum Effort {
    Low,
    Medium,
    High,
}

/// What was asked for when an encoder was made: the bits per second, the pictures per second, the
/// number of pictures from one that is encoded on its own to the next, what the pictures show, and
/// how thoroughly they are encoded. The codec itself may round a number of pictures per second
/// that is large.
pub uninterp spec fn encoder_setup(encoder: PictureEncoder) -> (u32, u32, u32, Usage, Effort);

/// The pictures that an encoder was handed: of each its width, its height and its planes.
pub uninterp spec fn encoder_inputs(encoder: PictureEncoder) -> Seq<(usize, usize, Seq<u8>)>;

/// What came of the last picture that an encoder was handed: the bytes of each unit of each layer,
/// or what the reason that there are none is shown as.
pub uninterp spec fn encoder_output(encoder: PictureEncoder) -> Result<
    Seq<Seq<Seq<u8>>>,
    Seq<char>,
>;

/// The bytes of each unit of each layer.
pub uninterp spec fn stream_layers(stream: EncodedBitStream<'_>) -> Seq<Seq<Seq<u8>>>;

/// The bytes of each unit.
pub uninterp spec fn layer_units(layer: Layer<'_>) -> Seq<Seq<u8>>;

/// The width, the height and the planes of a picture.
pub uninterp spec fn buffer_picture(buffer: YUVBuffer) -> (usize, usize, Seq<u8>);

/// The brightness of the pixel at `at`.
pub open spec fn brightness(pixels: Seq<u8>, at: int) -> u8 {
    ((66 * pixels[4 * at] + 129 * pixels[4 * at + 1] + 25 * pixels[4 * at + 2]) / 256 + 16) as u8
}

/// The mean of a channel over a block of two by two pixels, rounded. Blocks are counted row by
/// row.
pub open spec fn block_mean(pixels: Seq<u8>, width: int, block: int, channel: int) -> int {
    let x = 2 * (block % (width / 2));
    let y = 2 * (block / (width / 2));
    let at = (y * width + x) * 4 + channel;
    (pixels[at] + pixels[at + 4] + pixels[at + 4 * width] + pixels[at + 4 * width + 4] + 2) / 4
}

/// A difference in colour of a block of two by two pixels, by the weights of red, green and blue.
pub open spec fn difference(
    pixels: Seq<u8>,
    width: int,
    block: int,
    red: int,
    green: int,
    blue: int,
) -> u8 {
    ((red * block_mean(pixels, width, block, 0) + green * block_mean(pixels, width, block, 1) + blue
        * block_mean(pixels, width, block, 2)) / 256 + 128) as u8
}

/// The planes of a picture that is given by its pixels: the brightness of each pixel, and then of
/// each block of two by two pixels how far it is blue, and how far it is red.
pub open spec fn planes(pixels: Seq<u8>, width: usize, height: usize) -> Seq<u8> {
    let size = width * height;
    let blocks = size / 4;
    Seq::new(
        (size + 2 * blocks) as nat,
        |at: int|
            if at < size {
                brightness(pixels, at)
            } else if at < size + blocks {
                difference(pixels, width as int, at - size, -38, -74, 112)
            } else {
                difference(pixels, width as int, at - size - blocks, 112, -94, -18)
            },
    )
}

/// Whether this is a reason for which an encoder could not be opened that was asked for with such
/// a setup.
pub uninterp spec fn encoder_refusal(
    error: openh264::Error,
    setup: (u32, u32, u32, Usage, Effort),
) -> bool;

/// Opens an encoder, through `openh264::encoder::Encoder::with_api_config`. It was handed no
/// picture yet. Whether it can be opened is for the codec to say.
#[verifier::external_body]
pub(crate) fn open_encoder(
    bit_rate: u32,
    frame_rate: u32,
    intra_period: u32,
    usage: Usage,
    effort: Effort,
) -> (result: Result<PictureEncoder, openh264::Error>)
    ensures
        result matches Ok(encoder) ==> {
            &&& encoder_setup(encoder) == (bit_rate, frame_rate, intra_period, usage, effort)
            &&& encoder_inputs(encoder) == Seq::<(usize, usize, Seq<u8>)>::empty()
        },
        result matches Err(error) ==> encoder_refusal(
            error,
            (bit_rate, frame_rate, intra_period, usage, effort),
        ),
{
    let usage = match usage {
        Usage::Camera => UsageType::CameraVideoRealTime,
        Usage::Screen => UsageType::ScreenContentRealTime,
    };
    let effort = match effort {
        Effort::Low => Complexity::Low,
        Effort::Medium => Complexity::Medium,
        Effort::High => Complexity::High,
    };
    let config = EncoderConfig::new().usage_type(usage).complexity(effort)
        .bitrate(BitRate::from_bps(bit_rate))
        .max_frame_rate(FrameRate::from_hz(frame_rate as _))
        .intra_frame_period(IntraFramePeriod::from_num_frames(intra_period));
    PictureEncoder::with_api_config(openh264::OpenH264API::from_source(), config)
}

/// Converts pixels of red, green, blue and opacity, through
/// `openh264::formats::YUVBuffer::read_rgba8`, which computes the planes in integers. It takes
/// pictures of even width and height, whose rows can be held in memory.
#[verifier::external_body]
pub(crate) fn convert(pixels: &Vec<u8>, width: usize, height: usize) -> (buffer: YUVBuffer)
    requires
        pixels@.len() == width * height * 4,
        width * 4 <= usize::MAX,
        width % 2 == 0,
        height % 2 == 0,
    ensures
        buffer_picture(buffer) == (width, height, planes(pixels@, width, height)),
{
    let mut buffer = YUVBuffer::new(width, height);
    buffer.read_rgba8(openh264::formats::RgbaSliceU8::new(pixels, (width, height)));
    buffer
}

/// Hands a picture to an encoder, through `openh264::encoder::Encoder::encode`. The encoder
/// keeps what it was made with. What it puts out, if it encodes the picture, is for the
/// codec to say.
#[verifier::external_body]
pub(crate) fn encode<'a>(encoder: &'a mut PictureEncoder, picture: &YUVBuffer) -> (result: Result<
    EncodedBitStream<'a>,
    openh264::Error,
>)
    ensures
        encoder_setup(*final(encoder)) == encoder_setup(*old(encoder)),
        encoder_inputs(*final(encoder)) == encoder_inputs(*old(encoder)).push(
            buffer_picture(*picture),
        ),
        result is Ok <==> encoder_output(*final(encoder)) is Ok,
        result matches Ok(stream) ==> encoder_output(*final(encoder))->Ok_0 == stream_layers(
            stream,
        ),
        result matches Err(error) ==> encoder_output(*final(encoder))->Err_0 == error_words(error),
{
    encoder.encode(picture)
}

/// The number of layers, through `openh264::encoder::EncodedBitStream::num_layers`.
#[verifier::external_body]
pub(crate) fn layer_count(stream: &EncodedBitStream<'_>) -> (count: usize)
    ensures
        count == stream_layers(*stream).len(),
{
    stream.num_layers()
}

/// The layer at `index`, if there are so many, through
/// `openh264::encoder::EncodedBitStream::layer`.
#[verifier::external_body]
pub(crate) fn layer_at<'a>(stream: &EncodedBitStream<'a>, index: usize) -> (layer: Option<Layer<'a>>)
    ensures
        layer is Some <==> index < stream_layers(*stream).len(),
        layer matches Some(l) ==> layer_units(l) == stream_layers(*stream)[index as int],
{
    stream.layer(index)
}

/// The number of units, through `openh264::encoder::Layer::nal_count`.
#[verifier::external_body]
pub(crate) fn unit_count(layer: &Layer<'_>) -> (count: usize)
    ensures
        count == layer_units(*layer).len(),
{
    layer.nal_count()
}

/// The bytes of the unit at `index`, if there are so many, through
/// `openh264::encoder::Layer::nal_unit`.
#[verifier::external_body]
pub(crate) fn unit_at<'b>(layer: &'b Layer<'_>, index: usize) -> (unit: Option<&'b [u8]>)
    ensures
        unit is Some <==> index < layer_units(*layer).len(),
        unit matches Some(u) ==> u@ == layer_units(*layer)[index as int],
{
    layer.nal_unit(index)
}

/// What a failure of the codec is shown as.
pub uninterp spec fn error_words(error: openh264::Error) -> Seq<char>;

/// What a failure is shown as, through the `Display` of `openh264::Error`. What it says is left
/// to the name.
#[verifier::external_body]
pub(crate) fn error_text(error: &openh264::Error) -> (text: String)
    ensures
        text@ == error_words(*error),
{
    error.to_string()
}

/// A decoder, of which nothing but the names below is known.
#[verifier::external_type_specification]
#[verifier::external_body]
pub struct ExDecoder(openh264::decoder::Decoder);

/// A picture that a decoder puts out.
#[verifier::external_type_specification]
#[verifier::external_body]
pub struct ExDecodedYUV<'a>(openh264::decoder::DecodedYUV<'a>);

/// The packets that a decoder was handed.
pub uninterp spec fn decoder_inputs(decoder: Decoder) -> Seq<Seq<u8>>;

/// What came of the last packet that a decoder was handed: a picture, if there is one, with its
/// width, its height, and of each pixel, row by row, the brightness and the two differences in
/// colour; or what the reason that the packet could not be decoded is shown as.
pub uninterp spec fn decoder_output(decoder: Decoder) -> Result<
    Option<(usize, usize, Seq<(u8, u8, u8)>)>,
    Seq<char>,
>;

/// The width and the height of a decoded picture, and of each pixel, row by row, the brightness
/// and the two differences in colour.
pub uninterp spec fn decoded_picture(picture: DecodedYUV<'_>) -> (
    usize,
    usize,
    Seq<(u8, u8, u8)>,
);

/// Whether a byte is that of a colour, which is given in 65536ths, but for one step of rounding.
/// Colours below 0 and above 255 cannot be told from these.
pub open spec fn rounds(byte: u8, colour: int) -> bool {
    let whole = colour / 65536;
    let limited = if whole < 0 {
        0
    } else if whole > 255 {
        255
    } else {
        whole
    };
    limited - 1 <= byte <= limited + 1
}

/// Whether four bytes, which are red, green, blue and opacity, are those of a pixel: as ITU-R
/// BT.601 has it for brightness between 16 and 235, and opaque.
pub open spec fn depicts(pixel: (u8, u8, u8), red: u8, green: u8, blue: u8, opacity: u8) -> bool {
    let y = (pixel.0 - 16) * 76309;
    let u = pixel.1 - 128;
    let v = pixel.2 - 128;
    &&& rounds(red, y + v * 104597)
    &&& rounds(green, y - u * 25675 - v * 53279)
    &&& rounds(blue, y + u * 132201)
    &&& opacity == 255
}

/// Whether bytes, of each pixel four, are those of pixels.
pub open spec fn renders(pixels: Seq<(u8, u8, u8)>, bytes: Seq<u8>) -> bool {
    forall|i: int|
        0 <= i < bytes.len() / 4 ==> depicts(
            #[trigger] pixels[i],
            bytes[4 * i],
            bytes[4 * i + 1],
            bytes[4 * i + 2],
            bytes[4 * i + 3],
        )
}

/// Whether this is a reason for which a decoder could not be opened.
pub uninterp spec fn decoder_refusal(error: openh264::Error) -> bool;

/// Opens a decoder, through `openh264::decoder::Decoder::new`. It was handed no packet yet.
/// Whether it can be opened is for the codec to say.
#[verifier::external_body]
pub(crate) fn open_decoder() -> (result: Result<Decoder, openh264::Error>)
    ensures
        result matches Ok(decoder) ==> decoder_inputs(decoder) == Seq::<Seq<u8>>::empty(),
        result matches Err(error) ==> decoder_refusal(error),
{
    Decoder::new()
}

/// Hands a packet to a decoder, through `openh264::decoder::Decoder::decode`. The decoder is told
/// the number of bytes modulo 2^32, and takes no more than it is told. Whether there is a picture
/// then is for the codec to say.
#[verifier::external_body]
pub(crate) fn decode<'a>(decoder: &'a mut Decoder, packet: &[u8]) -> (result: Result<
    Option<DecodedYUV<'a>>,
    openh264::Error,
>)
    ensures
        decoder_inputs(*final(decoder)) == decoder_inputs(*old(decoder)).push(packet@),
        result is Ok <==> decoder_output(*final(decoder)) is Ok,
        result matches Ok(None) ==> decoder_output(*final(decoder))->Ok_0 is None,
        result matches Ok(Some(picture)) ==> decoder_output(*final(decoder))->Ok_0 == Some(
            decoded_picture(picture),
        ),
        result matches Err(error) ==> decoder_output(*final(decoder))->Err_0 == error_words(error),
{
    decoder.decode(packet)
}

/// The width and the height of a picture, through the `YUVSource::dimensions` of
/// `openh264::decoder::DecodedYUV`.
#[verifier::external_body]
pub(crate) fn picture_size(picture: &DecodedYUV<'_>) -> (size: (usize, usize))
    ensures
        size.0 == decoded_picture(*picture).0,
        size.1 == decoded_picture(*picture).1,
{
    openh264::formats::YUVSource::dimensions(picture)
}

/// Writes the pixels of a picture, through `openh264::decoder::DecodedYUV::write_rgba8`: every
/// byte is written, every pixel is opaque, and every colour is that of the pixel but for one step
/// of rounding. Which way a colour is rounded differs from machine to machine and is not said.
#[verifier::external_body]
pub(crate) fn write_pixels(picture: &DecodedYUV<'_>, target: &mut Vec<u8>)
    requires
        old(target)@.len() == decoded_picture(*picture).0 * decoded_picture(*picture).1 * 4,
    ensures
        final(target)@.len() == old(target)@.len(),
        renders(decoded_picture(*picture).2, final(target)@),
{
    picture.write_rgba8(target)
}

/// A pixel is the darkest if it is black, the brightest if it is white, and at least as bright as
/// another if none of its colours is darker.
pub proof fn brightness_follows_the_colours(pixels: Seq<u8>, at: int, other: int)
    ensures
        16 <= brightness(pixels, at) <= 235,
        pixels[4 * at] == 0 && pixels[4 * at + 1] == 0 && pixels[4 * at + 2] == 0 ==> brightness(
            pixels,
            at,
        ) == 16,
        pixels[4 * at] == 255 && pixels[4 * at + 1] == 255 && pixels[4 * at + 2] == 255
            ==> brightness(pixels, at) == 235,
        pixels[4 * at] <= pixels[4 * other] && pixels[4 * at + 1] <= pixels[4 * other + 1]
            && pixels[4 * at + 2] <= pixels[4 * other + 2] ==> brightness(pixels, at)
            <= brightness(pixels, other),
{
}

/// A block of grey is neither blue nor red, however bright it is.
pub proof fn grey_has_no_colour(pixels: Seq<u8>, width: int, block: int)
    requires
        block_mean(pixels, width, block, 0) == block_mean(pixels, width, block, 1) == block_mean(
            pixels,
            width,
            block,
            2,
        ),
    ensures
        difference(pixels, width, block, -38, -74, 112) == 128,
        difference(pixels, width, block, 112, -94, -18) == 128,
{
    let mean = block_mean(pixels, width, block, 0);
    assert(-38 * mean + -74 * mean + 112 * mean == 0);
    assert(112 * mean + -94 * mean + -18 * mean == 0);
}

/// A decoded picture is opaque, and where a pixel has no colour, it is grey, but for rounding: black
/// where it is darkest and white where it is brightest.
pub proof fn grey_is_shown_as_grey(pixels: Seq<(u8, u8, u8)>, bytes: Seq<u8>, i: int)
    requires
        renders(pixels, bytes),
        0 <= i < bytes.len() / 4,
    ensures
        bytes[4 * i + 3] == 255,
        pixels[i].1 == 128 && pixels[i].2 == 128 ==> {
            &&& bytes[4 * i] - 2 <= bytes[4 * i + 1] <= bytes[4 * i] + 2
            &&& bytes[4 * i] - 2 <= bytes[4 * i + 2] <= bytes[4 * i] + 2
            &&& pixels[i].0 <= 16 ==> bytes[4 * i] <= 1
            &&& pixels[i].0 >= 235 ==> bytes[4 * i] >= 253
        },
{
    let pixel = pixels[i];
}

} // verus!
