//! A look at what was encoded, for those who search for faults: what the first packet holds, and
//! whether the packets can be decoded to a picture again.

use crate::capture::Frame;
use crate::h264;
use crate::text;
use openh264::decoder::Decoder;
use vstd::prelude::*;

verus! {

/// The number of packets, less one, that are decoded in search of a picture.
pub const TRIES: u32 = 120;

/// What is known of the packets seen so far.
pub struct DebugTrace {
    /// Whether a packet was seen.
    pub logged: bool,
    /// Whether the search for a picture is over.
    pub done: bool,
    /// The number of packets that the search has come by.
    pub tries: u32,
    /// What packets are decoded with, once there was one.
    pub decoder: Option<Decoder>,
}

/// What came of decoding a packet.
pub enum Roundtrip {
    /// There is no search for a picture.
    Idle,
    /// The search is over without a picture.
    GaveUp,
    /// There is no decoder, for this reason.
    NoDecoder(String),
    /// The packet could not be decoded, for this reason.
    Failed(String),
    /// The picture takes more memory than there is.
    Oversized,
    /// There is no picture yet.
    Waiting,
    /// The picture.
    Picture(Frame),
}

/// The kind of a unit, which its fifth byte tells. Where there is none, it is 255.
pub open spec fn unit_kind(unit: Seq<u8>) -> int {
    if unit.len() > 4 {
        (unit[4] % 32) as int
    } else {
        255
    }
}

/// The kinds and lengths of units.
pub open spec fn units_text(units: Seq<Seq<u8>>) -> Seq<char>
    decreases units.len(),
{
    if units.len() == 0 {
        Seq::empty()
    } else {
        units_text(units.drop_last()) + " [t="@ + text::decimal(unit_kind(units.last()) as nat)
            + " len="@ + text::decimal(units.last().len()) + "]"@
    }
}

/// The places of layers, and what units they hold.
pub open spec fn layers_text(layers: Seq<Seq<Seq<u8>>>) -> Seq<char>
    decreases layers.len(),
{
    if layers.len() == 0 {
        Seq::empty()
    } else {
        layers_text(layers.drop_last()) + " L"@ + text::decimal((layers.len() - 1) as nat)
            + "(nals="@ + text::decimal(layers.last().len()) + units_text(layers.last()) + ")"@
    }
}

/// The line that tells what a packet of `total` bytes holds.
pub open spec fn inventory_line(layers: Seq<Seq<Seq<u8>>>, total: nat) -> Seq<char> {
    "[INFO] first packet layers="@ + text::decimal(layers.len()) + layers_text(layers) + " total="@
        + text::decimal(total)
}

/// Appends the kinds and lengths of units.
fn push_units(line: &mut String, units: &Vec<Vec<u8>>)
    ensures
        final(line)@ == old(line)@ + units_text(units.deep_view()),
{
    let ghost all = units.deep_view();
    let mut i: usize = 0;
    assert(line@ =~= old(line)@ + units_text(all.take(0)));
    while i < units.len()
        invariant
            all == units.deep_view(),
            all.len() == units@.len(),
            i <= units@.len(),
            line@ == old(line)@ + units_text(all.take(i as int)),
        decreases units@.len() - i,
    {
        let unit = &units[i];
        assert(unit@ =~= all[i as int]);
        let kind: u8 = if unit.len() > 4 {
            unit[4] % 32
        } else {
            255
        };
        line.append(" [t=");
        text::push_decimal(line, kind as u64);
        line.append(" len=");
        text::push_decimal(line, unit.len() as u64);
        line.append("]");
        i = i + 1;
        assert(all.take(i as int).drop_last() =~= all.take(i - 1));
        assert(all.take(i as int).last() == unit@);
        assert(line@ =~= old(line)@ + units_text(all.take(i as int)));
    }
    assert(all.take(i as int) =~= all);
}

/// The line that tells what a packet of `total` bytes holds.
pub fn inventory(layers: &Vec<Vec<Vec<u8>>>, total: usize) -> (line: String)
    ensures
        line@ == inventory_line(layers.deep_view(), total as nat),
{
    let ghost all = layers.deep_view();
    let mut line = "[INFO] first packet layers=".to_owned();
    text::push_decimal(&mut line, layers.len() as u64);
    let ghost start = line@;
    let mut i: usize = 0;
    assert(line@ =~= start + layers_text(all.take(0)));
    while i < layers.len()
        invariant
            all == layers.deep_view(),
            all.len() == layers@.len(),
            i <= layers@.len(),
            line@ == start + layers_text(all.take(i as int)),
        decreases layers@.len() - i,
    {
        let layer = &layers[i];
        assert(layer.deep_view() == all[i as int]);
        line.append(" L");
        text::push_decimal(&mut line, i as u64);
        line.append("(nals=");
        text::push_decimal(&mut line, layer.len() as u64);
        push_units(&mut line, layer);
        line.append(")");
        i = i + 1;
        assert(all.take(i as int).drop_last() =~= all.take(i - 1));
        assert(all.take(i as int).last() == layer.deep_view());
        assert(line@ =~= start + layers_text(all.take(i as int)));
    }
    assert(all.take(i as int) =~= all);
    line.append(" total=");
    text::push_decimal(&mut line, total as u64);
    assert(line@ =~= inventory_line(all, total as nat));
    line
}

/// Whether this is what came of decoding a packet, with the decoder as it is then.
pub open spec fn decodes(decoder: Decoder, result: Roundtrip) -> bool {
    match result {
        Roundtrip::Failed(source) => {
            &&& h264::decoder_output(decoder) matches Err(words)
            &&& source@ == words
        },
        Roundtrip::Waiting => h264::decoder_output(decoder) matches Ok(None),
        Roundtrip::Oversized => {
            &&& h264::decoder_output(decoder) matches Ok(Some((width, height, _)))
            &&& too_large(width, height)
        },
        Roundtrip::Picture(frame) => {
            &&& h264::decoder_output(decoder) matches Ok(Some((width, height, pixels)))
            &&& frame.width == width
            &&& frame.height == height
            &&& !too_large(width, height)
            &&& frame.well_formed()
            &&& h264::renders(pixels, frame.pixels@)
        },
        _ => false,
    }
}

/// Whether a picture takes more memory than there is.
pub open spec fn too_large(width: usize, height: usize) -> bool {
    ||| width > i32::MAX
    ||| height > i32::MAX
    ||| width * height * 4 > isize::MAX
}

/// How a packet is decoded in search of a picture, if reports are wanted and the search is not
/// over. It is over once it has come by a picture or a failure, or by too many packets.
pub open spec fn searches(
    before: DebugTrace,
    after: DebugTrace,
    packet: Seq<u8>,
    debug: bool,
    result: Roundtrip,
) -> bool {
    &&& before.bounded() ==> after.bounded()
    &&& before.done || !debug ==> {
        &&& result is Idle
        &&& after == (DebugTrace { logged: after.logged, ..before })
    }
    &&& !before.done && debug ==> {
        &&& after.tries == (before.tries + 1) % 0x1_0000_0000
        &&& after.done == !(result is Waiting)
        &&& result is GaveUp <==> before.tries > TRIES
        &&& result is GaveUp ==> after.decoder == before.decoder
        &&& result !is Idle
        &&& result matches Roundtrip::NoDecoder(source) ==> {
            &&& before.decoder is None
            &&& after.decoder is None
            &&& exists|error: openh264::Error|
                h264::decoder_refusal(error) && source@ == #[trigger] h264::error_words(error)
        }
        &&& !(result is GaveUp || result is NoDecoder) ==> after.decoder is Some && after.decoded()
            == before.decoded().push(packet) && decodes(after.decoder->Some_0, result)
    }
}

/// How a packet is looked at: the line that is reported on it, and how it is decoded.
pub open spec fn watches(
    before: DebugTrace,
    after: DebugTrace,
    layers: Seq<Seq<Seq<u8>>>,
    packet: Seq<u8>,
    debug: bool,
    line: Option<String>,
    result: Roundtrip,
) -> bool {
    &&& after.logged
    &&& line is Some <==> !before.logged && debug
    &&& line matches Some(shown) ==> shown@ == inventory_line(layers, packet.len())
    &&& searches(before, after, packet, debug, result)
}

/// A packet that was looked at: what it holds, whether reports were wanted, and what came of it.
pub ghost struct Look {
    pub layers: Seq<Seq<Seq<u8>>>,
    pub packet: Seq<u8>,
    pub debug: bool,
    pub line: Option<String>,
    pub result: Roundtrip,
}

/// Whether packets were looked at one after the other, and what was known before each and after
/// the last.
pub open spec fn follows(traces: Seq<DebugTrace>, looks: Seq<Look>) -> bool {
    &&& traces.len() == looks.len() + 1
    &&& forall|i: int|
        0 <= i < looks.len() ==> watches(
            traces[i],
            traces[i + 1],
            #[trigger] looks[i].layers,
            looks[i].packet,
            looks[i].debug,
            looks[i].line,
            looks[i].result,
        )
}

/// Where reports are not wanted, nothing is reported and nothing is decoded.
pub proof fn unwanted_packets_are_left_alone(traces: Seq<DebugTrace>, looks: Seq<Look>, i: int)
    requires
        follows(traces, looks),
        0 <= i < looks.len(),
        !looks[i].debug,
    ensures
        looks[i].line is None,
        looks[i].result is Idle,
        traces[i + 1].decoded() == traces[i].decoded(),
{
    let layers = looks[i].layers;
}

/// The first packet alone is reported on. Once a packet has come to anything but that there is no
/// picture yet, no later packet is decoded or comes to anything, so that over all packets there
/// is at most one picture.
pub proof fn searches_end_once(traces: Seq<DebugTrace>, looks: Seq<Look>, i: int, j: int)
    requires
        follows(traces, looks),
        0 <= i < j < looks.len(),
    ensures
        looks[j].line is None,
        !(looks[i].result is Idle || looks[i].result is Waiting) ==> {
            &&& looks[j].result is Idle
            &&& traces[j + 1].decoded() == traces[i + 1].decoded()
        },
    decreases j,
{
    let before = looks[i].layers;
    let after = looks[j].layers;
    let between = looks[j - 1].layers;
    if i < j - 1 {
        searches_end_once(traces, looks, i, j - 1);
        if !(looks[i].result is Idle || looks[i].result is Waiting) {
            finished_stays_finished(traces, looks, i + 1, j);
        }
    }
}

/// A search that is over stays over.
proof fn finished_stays_finished(traces: Seq<DebugTrace>, looks: Seq<Look>, i: int, j: int)
    requires
        follows(traces, looks),
        0 <= i <= j <= looks.len(),
        traces[i].done,
    ensures
        traces[j].done,
    decreases j,
{
    if i < j {
        finished_stays_finished(traces, looks, i, j - 1);
        let last = looks[j - 1].layers;
    }
}

impl DebugTrace {
    /// No packet was seen.
    pub fn new() -> (trace: Self)
        ensures
            !trace.logged,
            !trace.done,
            trace.tries == 0,
            trace.decoder is None,
            trace.bounded(),
    {
        DebugTrace { logged: false, done: false, tries: 0, decoder: None }
    }

    /// The search for a picture is over by the time that it has come by so many packets.
    pub open spec fn bounded(&self) -> bool {
        &&& self.tries <= TRIES + 2
        &&& self.tries == TRIES + 2 ==> self.done
    }

    /// The packets that were decoded.
    pub open spec fn decoded(&self) -> Seq<Seq<u8>> {
        match self.decoder {
            Some(decoder) => h264::decoder_inputs(decoder),
            None => Seq::empty(),
        }
    }

    /// The line to report on a packet of `total` bytes, if it is the first, and reports are
    /// wanted.
    pub fn first_packet(&mut self, layers: &Vec<Vec<Vec<u8>>>, total: usize, debug: bool) -> (line:
        Option<String>)
        ensures
            line is Some <==> !old(self).logged && debug,
            line matches Some(l) ==> l@ == inventory_line(layers.deep_view(), total as nat),
            *final(self) == (DebugTrace { logged: true, ..*old(self) }),
    {
        let first = !self.logged;
        self.logged = true;
        if first && debug {
            Some(inventory(layers, total))
        } else {
            None
        }
    }

    /// Looks at a packet: the line to report on it, if it is the first, and what came of decoding
    /// it, both if reports are wanted.
    pub fn save_debug_roundtrip(
        &mut self,
        layers: &Vec<Vec<Vec<u8>>>,
        packet: &[u8],
        debug: bool,
    ) -> (result: (Option<String>, Roundtrip))
        ensures
            watches(
                *old(self),
                *final(self),
                layers.deep_view(),
                packet@,
                debug,
                result.0,
                result.1,
            ),
    {
        let line = self.first_packet(layers, packet.len(), debug);
        let found = self.roundtrip(packet, debug);
        (line, found)
    }

    /// Decodes a packet in search of a picture, if reports are wanted and the search is not
    /// over. It is over once it has come by a picture or a failure, or by too many packets.
    pub fn roundtrip(&mut self, packet: &[u8], debug: bool) -> (result: Roundtrip)
        ensures
            final(self).logged == old(self).logged,
            searches(*old(self), *final(self), packet@, debug, result),
    {
        if self.done || !debug {
            return Roundtrip::Idle;
        }
        let before: u32 = self.tries;
        self.tries = self.tries.wrapping_add(1);
        if before > TRIES {
            self.done = true;
            return Roundtrip::GaveUp;
        }
        let mut decoder = match self.decoder.take() {
            Some(decoder) => decoder,
            None => match h264::open_decoder() {
                Ok(decoder) => decoder,
                Err(error) => {
                    self.done = true;
                    return Roundtrip::NoDecoder(h264::error_text(&error));
                },
            },
        };
        let result = Self::decode(&mut decoder, packet);
        self.decoder = Some(decoder);
        self.done = match result {
            Roundtrip::Waiting => false,
            _ => true,
        };
        result
    }

    /// Decodes a packet.
    fn decode(decoder: &mut Decoder, packet: &[u8]) -> (result: Roundtrip)
        ensures
            h264::decoder_inputs(*final(decoder)) == h264::decoder_inputs(*old(decoder)).push(
                packet@,
            ),
            decodes(*final(decoder), result),
    {
        match h264::decode(decoder, packet) {
            Err(error) => Roundtrip::Failed(h264::error_text(&error)),
            Ok(None) => Roundtrip::Waiting,
            Ok(Some(picture)) => {
                let (width, height) = h264::picture_size(&picture);
                if width > 0x7fff_ffff || height > 0x7fff_ffff {
                    return Roundtrip::Oversized;
                }
                assert(width * height <= 0x7fff_ffff * 0x7fff_ffff) by (nonlinear_arith)
                    requires
                        width <= 0x7fff_ffff,
                        height <= 0x7fff_ffff,
                ;
                let size: u128 = width as u128 * height as u128 * 4;
                if size > isize::MAX as u128 {
                    return Roundtrip::Oversized;
                }
                let mut pixels: Vec<u8> = vec![0u8; size as usize];
                h264::write_pixels(&picture, &mut pixels);
                Roundtrip::Picture(Frame { width: width as u32, height: height as u32, pixels })
            },
        }
    }
}

impl Roundtrip {
    /// The line to report, where there is more to tell than a picture does.
    pub fn report(&self) -> (line: Option<String>)
        ensures
            match self {
                Roundtrip::GaveUp => line matches Some(l) && l@
                    == "[WARN] roundtrip: no picture in first 120 packets"@,
                Roundtrip::NoDecoder(source) => line matches Some(l) && l@
                    == "[WARN] roundtrip decoder: "@ + source@,
                Roundtrip::Failed(source) => line matches Some(l) && l@
                    == "[WARN] roundtrip decode failed: "@ + source@,
                Roundtrip::Oversized => line matches Some(l) && l@
                    == "[WARN] roundtrip decode failed: picture too large"@,
                _ => line is None,
            },
    {
        match self {
            Roundtrip::GaveUp => Some(
                "[WARN] roundtrip: no picture in first 120 packets".to_owned(),
            ),
            Roundtrip::NoDecoder(source) => {
                let mut line = "[WARN] roundtrip decoder: ".to_owned();
                line.append(source.as_str());
                Some(line)
            },
            Roundtrip::Failed(source) => {
                let mut line = "[WARN] roundtrip decode failed: ".to_owned();
                line.append(source.as_str());
                Some(line)
            },
            Roundtrip::Oversized => Some(
                "[WARN] roundtrip decode failed: picture too large".to_owned(),
            ),
            _ => None,
        }
    }

    /// The line that reports what came of saving the picture.
    pub fn saved(outcome: Result<(), String>) -> (line: String)
        ensures
            match outcome {
                Ok(_) => line@ == "[INFO] roundtrip saved to viewpoint-roundtrip.bmp"@,
                Err(source) => line@ == "[WARN] roundtrip snapshot failed: "@ + source@,
            },
    {
        match outcome {
            Ok(_) => "[INFO] roundtrip saved to viewpoint-roundtrip.bmp".to_owned(),
            Err(source) => {
                let mut line = "[WARN] roundtrip snapshot failed: ".to_owned();
                line.append(source.as_str());
                line
            },
        }
    }
}

/// The kind of a unit is in the lowest five bits of its fifth byte.
pub proof fn kinds_are_five_bits(unit: Seq<u8>)
    ensures
        unit.len() > 4 ==> unit_kind(unit) == unit[4] & 0x1f,
        unit.len() <= 4 ==> unit_kind(unit) == 255,
{
    let byte = unit[4];
    assert(byte % 32 == byte & 0x1f) by (bit_vector);
}

/// What is told of some units and then of others is what is told of all of them in a row. Of one
/// unit, its kind and its length are told.
pub proof fn units_are_told_in_a_row(first: Seq<Seq<u8>>, second: Seq<Seq<u8>>, one: Seq<u8>)
    ensures
        units_text(first + second) == units_text(first) + units_text(second),
        units_text(seq![one]) == " [t="@ + text::decimal(unit_kind(one) as nat) + " len="@
            + text::decimal(one.len()) + "]"@,
    decreases second.len(),
{
    let alone = seq![one];
    assert(alone.drop_last() =~= Seq::empty());
    assert(units_text(alone.drop_last()) =~= Seq::empty());
    assert(units_text(alone) =~= " [t="@ + text::decimal(unit_kind(one) as nat) + " len="@
        + text::decimal(one.len()) + "]"@);
    if second.len() == 0 {
        assert(first + second =~= first);
        assert(units_text(first) + units_text(second) =~= units_text(first));
    } else {
        units_are_told_in_a_row(first, second.drop_last(), one);
        assert((first + second).drop_last() =~= first + second.drop_last());
        assert(units_text(first + second) =~= units_text(first) + units_text(second));
    }
}

/// What is told of a layer comes after what is told of those before it, and is how many those are,
/// how many units it holds, and what is told of them. A line tells how many layers there are, what
/// is told of them, and how many bytes they hold.
pub proof fn layers_are_told_in_a_row(
    layers: Seq<Seq<Seq<u8>>>,
    more: Seq<Seq<Seq<u8>>>,
    one: Seq<Seq<u8>>,
    total: nat,
)
    ensures
        layers_text(layers).is_prefix_of(layers_text(layers + more)),
        layers_text(layers.push(one)) == layers_text(layers) + (" L"@ + text::decimal(layers.len())
            + "(nals="@ + text::decimal(one.len()) + units_text(one) + ")"@),
        inventory_line(layers, total) == ("[INFO] first packet layers="@ + text::decimal(
            layers.len(),
        )) + layers_text(layers) + (" total="@ + text::decimal(total)),
    decreases more.len(),
{
    assert(layers.push(one).drop_last() =~= layers);
    assert(layers_text(layers.push(one)) =~= layers_text(layers) + (" L"@ + text::decimal(
        layers.len(),
    ) + "(nals="@ + text::decimal(one.len()) + units_text(one) + ")"@));
    assert(inventory_line(layers, total) =~= ("[INFO] first packet layers="@ + text::decimal(
        layers.len(),
    )) + layers_text(layers) + (" total="@ + text::decimal(total)));
    if more.len() == 0 {
        assert(layers + more =~= layers);
    } else {
        layers_are_told_in_a_row(layers, more.drop_last(), one, total);
        let before = layers_text(layers + more.drop_last());
        let all = layers_text(layers + more);
        let size = layers_text(layers).len() as int;
        assert((layers + more).drop_last() =~= layers + more.drop_last());
        assert(before.take(size) =~= all.take(size));
    }
}

/// A packet that is wanted is decoded, while the search has come by no more than 120 before and is
/// not over. Only where there is no decoder it is not, and that ends the search, as does anything
/// but that there is no picture yet.
pub proof fn wanted_packets_are_decoded(
    before: DebugTrace,
    after: DebugTrace,
    packet: Seq<u8>,
    result: Roundtrip,
)
    requires
        searches(before, after, packet, true, result),
        !before.done,
        before.tries <= 120,
    ensures
        result is NoDecoder || after.decoded() == before.decoded().push(packet),
        result is NoDecoder ==> before.decoder is None && after.decoded() == before.decoded(),
        result matches Roundtrip::NoDecoder(source) ==> exists|error: openh264::Error|
            h264::decoder_refusal(error) && source@ == #[trigger] h264::error_words(error),
        result !is Idle && result !is GaveUp,
        after.done <==> result !is Waiting,
        after.tries == before.tries + 1,
{
}

/// A search that has come by more than 120 packets and is not over is given up with the next, which
/// is not decoded.
pub proof fn long_searches_are_given_up(
    before: DebugTrace,
    after: DebugTrace,
    packet: Seq<u8>,
    result: Roundtrip,
)
    requires
        searches(before, after, packet, true, result),
        !before.done,
        before.tries > 120,
    ensures
        result is GaveUp,
        after.done,
        after.decoded() == before.decoded(),
{
}

/// Over any number of packets, no more than 121 are decoded.
pub proof fn few_packets_are_decoded(traces: Seq<DebugTrace>, looks: Seq<Look>, i: int)
    requires
        follows(traces, looks),
        0 <= i < traces.len(),
        traces[0].tries == 0,
        traces[0].decoder is None,
    ensures
        traces[i].decoded().len() <= 121,
        traces[i].decoded().len() <= traces[i].tries,
        traces[i].tries <= 122,
        traces[i].tries == 122 ==> traces[i].done,
    decreases i,
{
    if i > 0 {
        few_packets_are_decoded(traces, looks, i - 1);
        let last = looks[i - 1].layers;
    }
}

/// The picture that comes of a packet is the one that the decoder put out, pixel by pixel, and as
/// large as it says.
pub proof fn pictures_are_those_that_were_decoded(decoder: Decoder, frame: Frame)
    requires
        decodes(decoder, Roundtrip::Picture(frame)),
    ensures
        h264::decoder_output(decoder) is Ok,
        h264::decoder_output(decoder)->Ok_0 matches Some((width, height, pixels)) && frame.width
            == width && frame.height == height && h264::renders(pixels, frame.pixels@),
        frame.pixels@.len() == frame.width * frame.height * 4,
        frame.pixels@.len() <= isize::MAX,
{
}

/// Pictures of up to sixteen thousand pixels each way take no more memory than there is. What is not
/// too large can be held in memory.
pub proof fn ordinary_pictures_are_not_too_large(width: usize, height: usize)
    ensures
        width <= 16000 && height <= 16000 ==> !too_large(width, height),
        !too_large(width, height) <==> width * height * 4 <= isize::MAX && width <= i32::MAX
            && height <= i32::MAX,
{
    if width <= 16000 && height <= 16000 {
        assert(width * height <= 16000 * 16000) by (nonlinear_arith)
            requires
                width <= 16000,
                height <= 16000,
        ;
    }
}

/// The first packet is reported on where reports are wanted, and what is reported is what it holds.
/// Whether or not they are, the next packet is not the first any more.
pub proof fn the_first_packet_is_reported_on(
    before: DebugTrace,
    after: DebugTrace,
    layers: Seq<Seq<Seq<u8>>>,
    packet: Seq<u8>,
    debug: bool,
    line: Option<String>,
    result: Roundtrip,
)
    requires
        watches(before, after, layers, packet, debug, line, result),
    ensures
        !before.logged && debug ==> line is Some,
        before.logged || !debug ==> line is None,
        line matches Some(shown) ==> shown@ == inventory_line(layers, packet.len()),
        after.logged,
{
}

/// A search that is over, or that is not wanted, stays as it is.
pub proof fn searches_wait_or_rest(
    before: DebugTrace,
    after: DebugTrace,
    packet: Seq<u8>,
    debug: bool,
    result: Roundtrip,
)
    requires
        searches(before, after, packet, debug, result),
        before.done || !debug,
    ensures
        result is Idle,
        after.done == before.done,
        after.tries == before.tries,
        after.decoder == before.decoder,
{
}

/// What comes of a packet is what the decoder makes of it: a failure where it failed, in its words,
/// nothing yet where it put out nothing, and else the picture, unless that is too large for memory.
pub proof fn results_are_those_of_the_decoder(decoder: Decoder, result: Roundtrip)
    requires
        decodes(decoder, result),
    ensures
        match h264::decoder_output(decoder) {
            Err(words) => result matches Roundtrip::Failed(source) && source@ == words,
            Ok(None) => result is Waiting,
            Ok(Some((width, height, _))) => if width * height * 4 <= isize::MAX && width
                <= i32::MAX && height <= i32::MAX {
                result is Picture
            } else {
                result is Oversized
            },
        },
{
}

} // verus!
