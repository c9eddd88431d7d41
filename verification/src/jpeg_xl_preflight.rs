//! Inspects the JPEG XL payload of a DNG block before it is decoded.

use vstd::prelude::*;
use vstd::string::*;

use crate::dng_block::DngBlockContext;
use crate::error::{is_decode_error, settles_as, ImageError, ImageResult};
use crate::jpeg_xl::{
    header_outcome, summarize_jpeg_xl_header, JpegXlExtraChannel, JpegXlFrameLayout,
    JpegXlHeaderDimensions, JpegXlImageHeader, JpegXlImageHeaderView,
};
use crate::text::{contains, decimal, ends_with, lemma_ends_with, matches_at, usize_text};

verus! {

/// How many bytes of a codestream are inspected for the first keyframe header.
pub const JPEG_XL_PREFLIGHT_MAX_CODESTREAM_BYTES: usize = 16_777_216;

/// How many bytes the decoder is fed at a time.
pub const JPEG_XL_PREFLIGHT_CHUNK_BYTES: usize = 65_536;

/// The most that the decoder may allocate for headers.
pub const JPEG_XL_PREFLIGHT_MAX_TRACKED_ALLOC_BYTES: usize = 33_554_432;

// ---------------------------------------------------------------------------
// The container
// ---------------------------------------------------------------------------

/// `jxl_bitstream::ContainerParser`: nothing inside it is looked at.
#[verifier::external_type_specification]
#[verifier::external_body]
pub struct ExContainerParser(jxl_bitstream::ContainerParser);

/// `jxl_bitstream::container::ParseEvents`: nothing inside it is looked at.
#[verifier::external_type_specification]
#[verifier::external_body]
pub struct ExParseEvents<'inner, 'buf>(jxl_bitstream::container::ParseEvents<'inner, 'buf>);

/// `jxl_bitstream::ParseEvent`: nothing inside it is looked at.
#[verifier::external_type_specification]
#[verifier::external_body]
pub struct ExParseEvent<'buf>(jxl_bitstream::ParseEvent<'buf>);

/// `jxl_bitstream::Error`: nothing inside it is looked at.
#[verifier::external_type_specification]
#[verifier::external_body]
pub struct ExBitstreamError(jxl_bitstream::Error);

/// What the parser comes upon in a payload.
pub enum ContainerEvent<'a> {
    /// The payload does not begin as a JPEG XL does.
    InvalidSignature,
    /// A piece of the codestream.
    Codestream(&'a [u8]),
    /// Anything else that can be read.
    Other,
    /// The container cannot be read on; the text says why.
    Trouble(String),
}

/// What the parser comes upon in a payload, as a mathematical value.
pub enum ContainerPart {
    InvalidSignature,
    Codestream(Seq<u8>),
    Other,
    Trouble(Seq<char>),
}

impl<'a> View for ContainerEvent<'a> {
    type V = ContainerPart;

    open spec fn view(&self) -> ContainerPart {
        match self {
            ContainerEvent::InvalidSignature => ContainerPart::InvalidSignature,
            ContainerEvent::Codestream(bytes) => ContainerPart::Codestream(bytes@),
            ContainerEvent::Other => ContainerPart::Other,
            ContainerEvent::Trouble(text) => ContainerPart::Trouble(text@),
        }
    }
}

/// What a new parser comes upon in a payload, in order.
pub uninterp spec fn container_parts(payload: Seq<u8>) -> Seq<ContainerPart>;

/// The payloads that a parser was given.
pub uninterp spec fn parser_payloads(parser: jxl_bitstream::ContainerParser) -> Seq<Seq<u8>>;

/// What an iterator has still to hand out.
pub uninterp spec fn parts_to_come(events: jxl_bitstream::container::ParseEvents<'_, '_>) -> Seq<
    ContainerPart,
>;

/// The box that every container begins with.
pub open spec fn signature_box() -> Seq<u8> {
    seq![
        0u8, 0u8, 0u8, 12u8, 0x4au8, 0x58u8, 0x4cu8, 0x20u8, 0x0du8, 0x0au8, 0x87u8, 0x0au8,
    ]
}

/// The number that bytes spell, the greatest first.
pub open spec fn big_endian(bytes: Seq<u8>) -> nat
    decreases bytes.len(),
{
    if bytes.len() == 0 {
        0
    } else {
        256 * big_endian(bytes.drop_last()) + bytes.last() as nat
    }
}

/// The length of the header of a box: its size and its type, and eight bytes
/// more where the size is given there.
pub open spec fn box_header_length(container_box: Seq<u8>) -> int {
    if big_endian(container_box.take(4)) == 1 {
        16
    } else {
        8
    }
}

/// The size that a box gives itself.
pub open spec fn box_size(container_box: Seq<u8>) -> nat {
    if big_endian(container_box.take(4)) == 1 {
        big_endian(container_box.subrange(8, 16))
    } else {
        big_endian(container_box.take(4))
    }
}

/// The four bytes that say what a box holds.
pub open spec fn box_type(container_box: Seq<u8>) -> Seq<u8> {
    container_box.subrange(4, 8)
}

/// What a box holds.
pub open spec fn box_content(container_box: Seq<u8>) -> Seq<u8> {
    container_box.skip(box_header_length(container_box))
}

/// `jxlc`, a box with the codestream.
pub open spec fn codestream_type() -> Seq<u8> {
    seq![0x6au8, 0x78u8, 0x6cu8, 0x63u8]
}

/// `jxlp`, a box with a part of the codestream.
pub open spec fn partial_codestream_type() -> Seq<u8> {
    seq![0x6au8, 0x78u8, 0x6cu8, 0x70u8]
}

/// `brob`, a box that is compressed. Its content begins with the type of what
/// is compressed.
pub open spec fn compressed_type() -> Seq<u8> {
    seq![0x62u8, 0x72u8, 0x6fu8, 0x62u8]
}

/// A type that a compressed box may give what it holds: not `brob`, not `jbrd`,
/// and none that begins with `jxl`.
pub open spec fn is_compressible_type(kind: Seq<u8>) -> bool {
    &&& kind != compressed_type()
    &&& kind != seq![0x6au8, 0x62u8, 0x72u8, 0x64u8]
    &&& kind.take(3) != seq![0x6au8, 0x78u8, 0x6cu8]
}

/// A whole box that holds no codestream. It may be compressed.
pub open spec fn is_metadata_box(container_box: Seq<u8>) -> bool {
    let content = box_content(container_box);
    &&& container_box.len() >= box_header_length(container_box)
    &&& container_box.len() == box_size(container_box)
    &&& box_type(container_box) != codestream_type()
    &&& box_type(container_box) != partial_codestream_type()
    &&& box_type(container_box) == compressed_type() ==> content.len() >= 4
        && is_compressible_type(content.take(4))
}

/// All of these are metadata boxes.
pub open spec fn are_metadata_boxes(boxes: Seq<Seq<u8>>) -> bool {
    forall|i: int| 0 <= i < boxes.len() ==> is_metadata_box(#[trigger] boxes[i])
}

/// A container with these boxes in front of the rest.
pub open spec fn container(boxes: Seq<Seq<u8>>, rest: Seq<u8>) -> Seq<u8> {
    signature_box() + boxes.flatten() + rest
}

/// The parts of a container that matter to the inspection.
pub open spec fn without_metadata(parts: Seq<ContainerPart>) -> Seq<ContainerPart>
    decreases parts.len(),
{
    if parts.len() == 0 {
        Seq::empty()
    } else if parts[0] is Other {
        without_metadata(parts.drop_first())
    } else {
        seq![parts[0]] + without_metadata(parts.drop_first())
    }
}

/// A parser, by `ContainerParser::new`.
///
/// Trusted: a new parser was given nothing yet.
#[verifier::external_body]
fn new_container_parser() -> (parser: jxl_bitstream::ContainerParser)
    ensures
        parser_payloads(parser) == Seq::<Seq<u8>>::empty(),
{
    jxl_bitstream::ContainerParser::new()
}

/// The parts of a payload, by `ContainerParser::feed_bytes`.
///
/// Trusted: what a new parser comes upon depends on the payload alone. Which
/// metadata boxes stand behind the signature box changes nothing but the
/// metadata that it comes upon.
#[verifier::external_body]
fn parse_container<'inner, 'buf>(
    parser: &'inner mut jxl_bitstream::ContainerParser,
    payload: &'buf [u8],
) -> (events: jxl_bitstream::container::ParseEvents<'inner, 'buf>)
    requires
        parser_payloads(*old(parser)).len() == 0,
    ensures
        parts_to_come(events) == container_parts(payload@),
        forall|boxes: Seq<Seq<u8>>, others: Seq<Seq<u8>>, rest: Seq<u8>|
            payload@ == #[trigger] container(boxes, rest) && are_metadata_boxes(boxes)
                && are_metadata_boxes(others) ==> without_metadata(parts_to_come(events))
                == without_metadata(container_parts(#[trigger] container(others, rest))),
{
    parser.feed_bytes(payload)
}

/// The next part of a payload, by the iterator `ParseEvents`.
///
/// Trusted: the iterator hands out its parts one by one, and ends behind the
/// last.
#[verifier::external_body]
fn next_container_event<'buf>(events: &mut jxl_bitstream::container::ParseEvents<'_, 'buf>) -> (r:
    Option<ContainerEvent<'buf>>)
    ensures
        match r {
            None => parts_to_come(*old(events)).len() == 0,
            Some(event) => {
                &&& parts_to_come(*old(events)).len() > 0
                &&& event@ == parts_to_come(*old(events))[0]
                &&& parts_to_come(*final(events)) == parts_to_come(*old(events)).drop_first()
            },
        },
{
    match events.next() {
        None => None,
        Some(Err(e)) => Some(ContainerEvent::Trouble(e.to_string())),
        Some(Ok(jxl_bitstream::ParseEvent::BitstreamKind(jxl_bitstream::BitstreamKind::Invalid)))
        => Some(ContainerEvent::InvalidSignature),
        Some(Ok(jxl_bitstream::ParseEvent::Codestream(bytes))) => Some(
            ContainerEvent::Codestream(bytes),
        ),
        Some(Ok(_)) => Some(ContainerEvent::Other),
    }
}

// ---------------------------------------------------------------------------
// The decoder
// ---------------------------------------------------------------------------

/// `jxl_oxide::UninitializedJxlImage`: nothing inside it is looked at.
#[verifier::external_type_specification]
#[verifier::external_body]
pub struct ExUninitializedJxlImage(jxl_oxide::UninitializedJxlImage);

/// `jxl_oxide::JxlImage`: nothing inside it is looked at.
#[verifier::external_type_specification]
#[verifier::external_body]
pub struct ExJxlImage(jxl_oxide::JxlImage);

/// The pieces of codestream that a decoder holds which has no image yet.
pub uninterp spec fn waiting_chunks(decoder: jxl_oxide::UninitializedJxlImage) -> Seq<Seq<u8>>;

/// The pieces of codestream that an image was decoded from so far.
pub uninterp spec fn image_chunks(image: jxl_oxide::JxlImage) -> Seq<Seq<u8>>;

/// Why a decoder that holds `chunks`, and has no image yet, refuses `bytes`.
pub uninterp spec fn waiting_feed_error(chunks: Seq<Seq<u8>>, bytes: Seq<u8>) -> Option<Seq<char>>;

/// Why an image that was decoded from `chunks` refuses `bytes`.
pub uninterp spec fn image_feed_error(chunks: Seq<Seq<u8>>, bytes: Seq<u8>) -> Option<Seq<char>>;

/// The index of the first keyframe of the image in `chunks`, once its header
/// is there.
pub uninterp spec fn first_keyframe(chunks: Seq<Seq<u8>>) -> Option<usize>;

/// The header of the image in `chunks`.
pub uninterp spec fn image_header(chunks: Seq<Seq<u8>>) -> JpegXlImageHeaderView;

/// The header of a frame of the image in `chunks`.
pub uninterp spec fn frame_header(chunks: Seq<Seq<u8>>, index: usize) -> Option<JpegXlFrameHeader>;

/// What a frame header says.
#[derive(Clone, Copy, Debug, PartialEq, Eq, Structural)]
pub struct JpegXlFrameHeader {
    pub is_normal: bool,
    pub is_progressive: bool,
    pub x0: i32,
    pub y0: i32,
    pub width: u32,
    pub height: u32,
}

/// A decoder, by `JxlImageBuilder::build_uninit`, that runs on the calling
/// thread and allocates within a limit.
///
/// Trusted: a new decoder holds nothing yet. What is named of decoders below
/// holds of those with this limit.
#[verifier::external_body]
fn new_jxl_decoder(limit: usize) -> (decoder: jxl_oxide::UninitializedJxlImage)
    requires
        limit == JPEG_XL_PREFLIGHT_MAX_TRACKED_ALLOC_BYTES,
    ensures
        waiting_chunks(decoder) == Seq::<Seq<u8>>::empty(),
{
    jxl_oxide::JxlImage::builder()
        .pool(jxl_oxide::JxlThreadPool::none())
        .alloc_tracker(jxl_oxide::AllocTracker::with_limit(limit))
        .build_uninit()
}

/// Feeds a decoder that has no image yet, by
/// `UninitializedJxlImage::feed_bytes`.
///
/// Trusted: whether it takes the bytes depends on what it holds and on the
/// bytes. Where it does, it holds them behind what it held.
#[verifier::external_body]
fn feed_waiting(decoder: jxl_oxide::UninitializedJxlImage, bytes: &[u8]) -> (r: Result<
    jxl_oxide::UninitializedJxlImage,
    String,
>)
    ensures
        match r {
            Ok(fed) => {
                &&& waiting_feed_error(waiting_chunks(decoder), bytes@) is None
                &&& waiting_chunks(fed) == waiting_chunks(decoder).push(bytes@)
            },
            Err(text) => waiting_feed_error(waiting_chunks(decoder), bytes@) == Some(text@),
        },
{
    let mut decoder = decoder;
    match decoder.feed_bytes(bytes) {
        Ok(_) => Ok(decoder),
        Err(e) => Err(e.to_string()),
    }
}

/// Feeds an image, by `JxlImage::feed_bytes`.
///
/// Trusted: whether it takes the bytes depends on what it was decoded from and
/// on the bytes.
#[verifier::external_body]
fn feed_image(image: jxl_oxide::JxlImage, bytes: &[u8]) -> (r: Result<jxl_oxide::JxlImage, String>)
    ensures
        match r {
            Ok(fed) => {
                &&& image_feed_error(image_chunks(image), bytes@) is None
                &&& image_chunks(fed) == image_chunks(image).push(bytes@)
            },
            Err(text) => image_feed_error(image_chunks(image), bytes@) == Some(text@),
        },
{
    let mut image = image;
    match image.feed_bytes(bytes) {
        Ok(_) => Ok(image),
        Err(e) => Err(e.to_string()),
    }
}

/// The index of the first keyframe, by `JxlImage::frame_by_keyframe`.
///
/// Trusted: it depends on what the image was decoded from.
#[verifier::external_body]
fn first_keyframe_index(image: &jxl_oxide::JxlImage) -> (r: Option<usize>)
    ensures
        r == first_keyframe(image_chunks(*image)),
{
    image.frame_by_keyframe(0).map(|frame| frame.index())
}

/// The image header, by `JxlImage::image_header`.
///
/// Trusted: it depends on what the image was decoded from. A header with more
/// than 256 extra channels is not read.
#[verifier::external_body]
fn read_image_header(image: &jxl_oxide::JxlImage) -> (r: JpegXlImageHeader)
    ensures
        r@ == image_header(image_chunks(*image)),
        r.extra_channels@.len() <= 256,
{
    let header = image.image_header();
    JpegXlImageHeader {
        canvas_width: header.size.width,
        canvas_height: header.size.height,
        orientation: header.metadata.orientation,
        grayscale: header.metadata.grayscale(),
        extra_channels: header.metadata.ec_info.iter().map(
            |c| JpegXlExtraChannel { is_black: c.is_black(), dim_shift: c.dim_shift },
        ).collect(),
    }
}

/// The header of a frame, by `JxlImage::frame`.
///
/// Trusted: it depends on what the image was decoded from and on the index.
/// Every frame up to the first keyframe has one.
#[verifier::external_body]
fn read_frame_header(image: &jxl_oxide::JxlImage, index: usize) -> (r: Option<JpegXlFrameHeader>)
    ensures
        r == frame_header(image_chunks(*image), index),
        first_keyframe(image_chunks(*image)) matches Some(first) ==> index <= first ==> r is Some,
{
    image.frame(index).map(|frame| JpegXlFrameHeader {
        is_normal: frame.header().frame_type.is_normal_frame(),
        is_progressive: frame.header().frame_type.is_progressive_frame(),
        x0: frame.header().x0,
        y0: frame.header().y0,
        width: frame.header().width,
        height: frame.header().height,
    })
}

/// What a decoder was fed, and whether it has an image.
pub struct DecoderState {
    pub has_image: bool,
    pub chunks: Seq<Seq<u8>>,
}

/// What comes of the attempt to make an image of the pieces `asked`: the
/// decoder behind it, or why they make none.
pub struct Answer {
    pub asked: Seq<Seq<u8>>,
    pub answer: Result<DecoderState, Seq<char>>,
}

/// What comes of feeding a decoder.
pub enum Fed {
    /// The decoder behind the bytes, and the answers not yet used.
    Taken(DecoderState, Seq<Answer>),
    /// Why the bytes are refused.
    Refused(Seq<char>),
    /// The next answer is missing, or is one to other pieces.
    Unanswered,
}

impl DecoderState {
    /// A new decoder.
    pub open spec fn initial() -> DecoderState {
        DecoderState { has_image: false, chunks: Seq::empty() }
    }

    /// Whether an image is attempted once `bytes` are fed.
    pub open spec fn attempts(self, bytes: Seq<u8>) -> bool {
        !self.has_image && waiting_feed_error(self.chunks, bytes) is None
    }

    /// The decoder behind `bytes`, or why it refuses them. An attempt to make
    /// an image goes as the next of the answers says.
    pub open spec fn fed(self, bytes: Seq<u8>, answers: Seq<Answer>) -> Fed {
        let chunks = self.chunks.push(bytes);
        if self.attempts(bytes) {
            if answers.len() == 0 || answers[0].asked != chunks {
                Fed::Unanswered
            } else {
                match answers[0].answer {
                    Ok(next) => Fed::Taken(next, answers.drop_first()),
                    Err(text) => Fed::Refused(text),
                }
            }
        } else if self.has_image {
            match image_feed_error(self.chunks, bytes) {
                Some(text) => Fed::Refused(text),
                None => Fed::Taken(DecoderState { has_image: true, chunks }, answers),
            }
        } else {
            Fed::Refused(waiting_feed_error(self.chunks, bytes).unwrap())
        }
    }

    pub open spec fn has_first_keyframe_header(self) -> bool {
        self.has_image && first_keyframe(self.chunks) is Some
    }
}

/// Reads a codestream up to the header of its first keyframe.
pub enum JpegXlPreflightDecoder {
    Waiting(jxl_oxide::UninitializedJxlImage),
    Image(jxl_oxide::JxlImage),
}

impl View for JpegXlPreflightDecoder {
    type V = DecoderState;

    open spec fn view(&self) -> DecoderState {
        match self {
            JpegXlPreflightDecoder::Waiting(decoder) => DecoderState {
                has_image: false,
                chunks: waiting_chunks(*decoder),
            },
            JpegXlPreflightDecoder::Image(image) => DecoderState {
                has_image: true,
                chunks: image_chunks(*image),
            },
        }
    }
}

/// An answer, as a mathematical value.
pub open spec fn answer_view(r: Result<JpegXlPreflightDecoder, String>) -> Result<
    DecoderState,
    Seq<char>,
> {
    match r {
        Ok(decoder) => Ok(decoder@),
        Err(text) => Err(text@),
    }
}

/// Whether `try_init` may give this answer.
pub open spec fn may_answer<
    F: Fn(jxl_oxide::UninitializedJxlImage) -> Result<JpegXlPreflightDecoder, String>,
>(try_init: F, answer: Answer) -> bool {
    exists|decoder: jxl_oxide::UninitializedJxlImage, r: Result<JpegXlPreflightDecoder, String>|
        {
            &&& waiting_chunks(decoder) == answer.asked
            &&& #[trigger] try_init.ensures((decoder,), r)
            &&& answer_view(r) == answer.answer
        }
}

/// Whether `try_init` may give these answers, each to what it was asked.
pub open spec fn may_answer_all<
    F: Fn(jxl_oxide::UninitializedJxlImage) -> Result<JpegXlPreflightDecoder, String>,
>(try_init: F, answers: Seq<Answer>) -> bool {
    forall|i: int| 0 <= i < answers.len() ==> may_answer(try_init, #[trigger] answers[i])
}

impl JpegXlPreflightDecoder {
    pub fn new() -> (decoder: Self)
        ensures
            decoder@ == DecoderState::initial(),
    {
        JpegXlPreflightDecoder::Waiting(new_jxl_decoder(JPEG_XL_PREFLIGHT_MAX_TRACKED_ALLOC_BYTES))
    }

    /// Takes in a piece of codestream, and makes an image as soon as there is
    /// enough of it: `try_init` says what comes of that.
    pub fn feed_codestream<
        F: Fn(jxl_oxide::UninitializedJxlImage) -> Result<JpegXlPreflightDecoder, String>,
    >(self, bytes: &[u8], try_init: &F) -> (r: Result<Self, String>)
        requires
            forall|decoder: jxl_oxide::UninitializedJxlImage| try_init.requires((decoder,)),
        ensures
            exists|answers: Seq<Answer>|
                {
                    &&& may_answer_all(*try_init, answers)
                    &&& answers.len() == (if self@.attempts(bytes@) {
                        1int
                    } else {
                        0int
                    })
                    &&& match #[trigger] self@.fed(bytes@, answers) {
                        Fed::Taken(state, _) => r matches Ok(decoder) && decoder@ == state,
                        Fed::Refused(text) => r matches Err(message) && message@ == text,
                        Fed::Unanswered => false,
                    }
                },
    {
        let ghost none = Seq::<Answer>::empty();
        match self {
            JpegXlPreflightDecoder::Image(image) => match feed_image(image, bytes) {
                Ok(image) => {
                    assert(self@.fed(bytes@, none) is Taken);
                    Ok(JpegXlPreflightDecoder::Image(image))
                },
                Err(text) => {
                    assert(self@.fed(bytes@, none) is Refused);
                    Err(text)
                },
            },
            JpegXlPreflightDecoder::Waiting(decoder) => match feed_waiting(decoder, bytes) {
                Ok(decoder) => {
                    let ghost asked = waiting_chunks(decoder);
                    let r = try_init(decoder);
                    proof {
                        let answer = Answer { asked, answer: answer_view(r) };
                        assert(may_answer(*try_init, answer));
                        assert(self@.fed(bytes@, seq![answer]) is Taken || r is Err);
                        assert(may_answer_all(*try_init, seq![answer]));
                    }
                    r
                },
                Err(text) => {
                    assert(self@.fed(bytes@, none) is Refused);
                    Err(text)
                },
            },
        }
    }

    pub fn has_first_keyframe_header(&self) -> (b: bool)
        ensures
            b == self@.has_first_keyframe_header(),
    {
        match self {
            JpegXlPreflightDecoder::Image(image) => first_keyframe_index(image).is_some(),
            JpegXlPreflightDecoder::Waiting(_) => false,
        }
    }

    /// The image, once the header of its first keyframe is there.
    pub fn into_image(self) -> (r: Option<jxl_oxide::JxlImage>)
        ensures
            match r {
                Some(image) => {
                    &&& self@.has_first_keyframe_header()
                    &&& image_chunks(image) == self@.chunks
                },
                None => !self@.has_first_keyframe_header(),
            },
    {
        match self {
            JpegXlPreflightDecoder::Image(image) => {
                if first_keyframe_index(&image).is_some() {
                    Some(image)
                } else {
                    None
                }
            },
            JpegXlPreflightDecoder::Waiting(_) => None,
        }
    }
}

// ---------------------------------------------------------------------------
// The inspection
// ---------------------------------------------------------------------------

/// How far the inspection of a payload has come.
pub enum Progress {
    /// More of the payload is wanted. So many bytes of codestream were fed, and
    /// these answers were not used yet.
    Going(DecoderState, int, Seq<Answer>),
    /// The header of the first keyframe is there, or no more is fed.
    Stopped(DecoderState),
    /// The payload is refused.
    Failed(Seq<char>),
    /// The next answer is missing, or is one to other pieces.
    Unanswered,
}

/// The length of the next piece that is fed of a codestream of `length` bytes.
pub open spec fn chunk_length(length: int, inspected: int) -> int {
    let budget = JPEG_XL_PREFLIGHT_MAX_CODESTREAM_BYTES - inspected;
    let most = if budget < JPEG_XL_PREFLIGHT_CHUNK_BYTES {
        budget
    } else {
        JPEG_XL_PREFLIGHT_CHUNK_BYTES as int
    };
    if length < most {
        length
    } else {
        most
    }
}

/// Feeds a codestream piece by piece, up to the header of the first keyframe
/// or the end of the budget.
pub open spec fn feed_stream(
    state: DecoderState,
    inspected: int,
    stream: Seq<u8>,
    answers: Seq<Answer>,
) -> Progress
    decreases stream.len(),
{
    let n = chunk_length(stream.len() as int, inspected);
    if stream.len() == 0 {
        Progress::Going(state, inspected, answers)
    } else if inspected >= JPEG_XL_PREFLIGHT_MAX_CODESTREAM_BYTES {
        Progress::Stopped(state)
    } else {
        match state.fed(stream.subrange(0, n), answers) {
            Fed::Unanswered => Progress::Unanswered,
            Fed::Refused(text) => Progress::Failed(text),
            Fed::Taken(next, left) => if next.has_first_keyframe_header() {
                Progress::Stopped(next)
            } else {
                feed_stream(next, inspected + n, stream.subrange(n, stream.len() as int), left)
            },
        }
    }
}

/// Feeds the codestream that the parts of a container hold.
pub open spec fn feed_parts(
    state: DecoderState,
    inspected: int,
    parts: Seq<ContainerPart>,
    answers: Seq<Answer>,
) -> Progress
    decreases parts.len(),
{
    if parts.len() == 0 {
        Progress::Stopped(state)
    } else {
        match parts[0] {
            ContainerPart::Trouble(text) => Progress::Failed(text),
            ContainerPart::InvalidSignature => Progress::Failed("invalid JPEG-XL signature"@),
            ContainerPart::Other => feed_parts(state, inspected, parts.drop_first(), answers),
            ContainerPart::Codestream(stream) => match feed_stream(
                state,
                inspected,
                stream,
                answers,
            ) {
                Progress::Going(next, fed, left) => feed_parts(
                    next,
                    fed,
                    parts.drop_first(),
                    left,
                ),
                other => other,
            },
        }
    }
}

/// Where a frame lies, by its header.
pub open spec fn frame_layout(header: JpegXlFrameHeader) -> JpegXlFrameLayout {
    JpegXlFrameLayout {
        is_reference_only: !header.is_normal && !header.is_progressive,
        x0: header.x0,
        y0: header.y0,
        width: header.width,
        height: header.height,
    }
}

/// The frames before the first keyframe.
pub open spec fn dependency_frames(chunks: Seq<Seq<u8>>, first: usize) -> Seq<JpegXlFrameLayout> {
    Seq::new(first as nat, |i: int| frame_layout(frame_header(chunks, i as usize).unwrap()))
}

pub open spec fn inspection_text(context: DngBlockContext<'_>, text: Seq<char>) -> Seq<char> {
    "failed to inspect JPEG-XL "@ + context.text() + ": "@ + text
}

pub open spec fn missing_keyframe_text() -> Seq<char> {
    "first keyframe header exceeds the "@ + decimal(JPEG_XL_PREFLIGHT_MAX_CODESTREAM_BYTES as nat)
        + "-byte codestream inspection budget or is truncated"@
}

/// How the inspection of a payload goes, with these answers to the attempts to
/// make an image.
pub open spec fn progress_on(payload: Seq<u8>, answers: Seq<Answer>) -> Progress {
    feed_parts(DecoderState::initial(), 0, container_parts(payload), answers)
}

/// What the inspection of a payload comes to, with these answers to the
/// attempts to make an image. There is nothing to say where one is missing.
pub open spec fn inspection(
    payload: Seq<u8>,
    context: DngBlockContext<'_>,
    answers: Seq<Answer>,
) -> Option<Result<JpegXlHeaderDimensions, Seq<char>>> {
    match progress_on(payload, answers) {
        Progress::Unanswered => None,
        Progress::Failed(text) => Some(Err(inspection_text(context, text))),
        Progress::Going(state, _, _) => Some(inspection_of(state, context)),
        Progress::Stopped(state) => Some(inspection_of(state, context)),
    }
}

/// Whether the inspection of a payload may come to `r`, where `try_init` gives
/// the answers.
pub open spec fn inspection_may_give<
    F: Fn(jxl_oxide::UninitializedJxlImage) -> Result<JpegXlPreflightDecoder, String>,
>(
    payload: Seq<u8>,
    context: DngBlockContext<'_>,
    try_init: F,
    r: ImageResult<JpegXlHeaderDimensions>,
) -> bool {
    exists|answers: Seq<Answer>|
        {
            &&& may_answer_all(try_init, answers)
            &&& #[trigger] inspection(payload, context, answers) matches Some(expected)
                && settles_as(r, expected)
        }
}

/// What the inspection comes to, given what the decoder was fed.
pub open spec fn inspection_of(state: DecoderState, context: DngBlockContext<'_>) -> Result<
    JpegXlHeaderDimensions,
    Seq<char>,
> {
    if state.has_first_keyframe_header() {
        header_outcome(
            image_header(state.chunks),
            dependency_frames(state.chunks, first_keyframe(state.chunks).unwrap()),
            context,
        )
    } else {
        Err(inspection_text(context, missing_keyframe_text()))
    }
}

fn inspection_error<T>(context: DngBlockContext<'_>, text: &str) -> (r: ImageResult<T>)
    ensures
        is_decode_error(r, inspection_text(context, text@)),
{
    let mut message = "failed to inspect JPEG-XL ".to_owned();
    message.append(context.write().as_str());
    message.append(": ");
    message.append(text);
    Err(ImageError::Decode(message))
}

fn missing_keyframe_error<T>(context: DngBlockContext<'_>) -> (r: ImageResult<T>)
    ensures
        is_decode_error(r, inspection_text(context, missing_keyframe_text())),
{
    let mut text = "first keyframe header exceeds the ".to_owned();
    text.append(usize_text(JPEG_XL_PREFLIGHT_MAX_CODESTREAM_BYTES).as_str());
    text.append("-byte codestream inspection budget or is truncated");
    inspection_error(context, text.as_str())
}

/// A decoder while a codestream is fed.
enum Feeding {
    Going(JpegXlPreflightDecoder, usize),
    Stopped(JpegXlPreflightDecoder),
    Failed(String),
}

impl Feeding {
    /// The progress, where `left` are the answers not yet used.
    spec fn progress(self, left: Seq<Answer>) -> Progress {
        match self {
            Feeding::Going(decoder, inspected) => Progress::Going(decoder@, inspected as int, left),
            Feeding::Stopped(decoder) => Progress::Stopped(decoder@),
            Feeding::Failed(text) => Progress::Failed(text@),
        }
    }
}

/// Feeding goes as `answers` say, whatever further answers stand behind them.
spec fn feeds_as(
    decoder: JpegXlPreflightDecoder,
    inspected: int,
    stream: Seq<u8>,
    answers: Seq<Answer>,
    r: Feeding,
) -> bool {
    forall|more: Seq<Answer>|
        #[trigger] feed_stream(decoder@, inspected, stream, answers + more) == r.progress(more)
}

/// Feeds a codestream to a decoder that was fed `inspected` bytes before.
fn feed_in_chunks<
    F: Fn(jxl_oxide::UninitializedJxlImage) -> Result<JpegXlPreflightDecoder, String>,
>(decoder: JpegXlPreflightDecoder, inspected: usize, stream: &[u8], try_init: &F) -> (r: (
    Feeding,
    Ghost<Seq<Answer>>,
))
    requires
        inspected <= JPEG_XL_PREFLIGHT_MAX_CODESTREAM_BYTES,
        forall|decoder: jxl_oxide::UninitializedJxlImage| try_init.requires((decoder,)),
    ensures
        may_answer_all(*try_init, r.1@),
        feeds_as(decoder, inspected as int, stream@, r.1@, r.0),
        r.0 matches Feeding::Going(_, fed) ==> fed <= JPEG_XL_PREFLIGHT_MAX_CODESTREAM_BYTES,
{
    let n: usize = stream.len();
    let mut state = decoder;
    let mut fed: usize = inspected;
    let mut at: usize = 0;
    let ghost mut answers = Seq::<Answer>::empty();
    proof {
        assert(stream@.subrange(0, n as int) == stream@);
        assert forall|more: Seq<Answer>| answers + more == more by {
            assert(answers + more =~= more);
        }
    }
    while at < n
        invariant
            n == stream@.len(),
            at <= n,
            fed <= JPEG_XL_PREFLIGHT_MAX_CODESTREAM_BYTES,
            forall|decoder: jxl_oxide::UninitializedJxlImage| try_init.requires((decoder,)),
            may_answer_all(*try_init, answers),
            forall|more: Seq<Answer>| #[trigger]
                feed_stream(decoder@, inspected as int, stream@, answers + more) == feed_stream(
                    state@,
                    fed as int,
                    stream@.subrange(at as int, n as int),
                    more,
                ),
        decreases n - at,
    {
        if fed == JPEG_XL_PREFLIGHT_MAX_CODESTREAM_BYTES {
            return (Feeding::Stopped(state), Ghost(answers));
        }
        let budget: usize = JPEG_XL_PREFLIGHT_MAX_CODESTREAM_BYTES - fed;
        let most: usize = if budget < JPEG_XL_PREFLIGHT_CHUNK_BYTES {
            budget
        } else {
            JPEG_XL_PREFLIGHT_CHUNK_BYTES
        };
        let length: usize = if n - at < most {
            n - at
        } else {
            most
        };
        let ghost before = state@;
        let ghost earlier = answers;
        let ghost rest = stream@.subrange(at as int, n as int);
        let piece = &stream[at..at + length];
        proof {
            assert(rest.subrange(0, length as int) == piece@);
            assert(rest.subrange(length as int, rest.len() as int) == stream@.subrange(
                at + length,
                n as int,
            ));
        }
        let outcome = state.feed_codestream(piece, try_init);
        proof {
            let given = choose|given: Seq<Answer>|
                {
                    &&& may_answer_all(*try_init, given)
                    &&& given.len() == (if before.attempts(piece@) {
                        1int
                    } else {
                        0int
                    })
                    &&& match #[trigger] before.fed(piece@, given) {
                        Fed::Taken(state, _) => outcome matches Ok(next) && next@ == state,
                        Fed::Refused(text) => outcome matches Err(message) && message@ == text,
                        Fed::Unanswered => false,
                    }
                };
            answers = earlier + given;
            assert forall|more: Seq<Answer>| #[trigger]
                feed_stream(decoder@, inspected as int, stream@, answers + more) == (match outcome {
                    Err(message) => Progress::Failed(message@),
                    Ok(next) => if next@.has_first_keyframe_header() {
                        Progress::Stopped(next@)
                    } else {
                        feed_stream(
                            next@,
                            fed + length,
                            stream@.subrange(at + length, n as int),
                            more,
                        )
                    },
                }) by {
                assert(answers + more =~= earlier + (given + more));
                assert(given.len() > 0 ==> (given + more).drop_first() =~= more);
                assert(given.len() == 0 ==> given + more =~= more);
            }
        }
        match outcome {
            Err(text) => {
                return (Feeding::Failed(text), Ghost(answers));
            },
            Ok(next) => {
                state = next;
            },
        }
        if state.has_first_keyframe_header() {
            return (Feeding::Stopped(state), Ghost(answers));
        }
        fed = fed + length;
        at = at + length;
    }
    (Feeding::Going(state, fed), Ghost(answers))
}
/// Which metadata boxes stand behind the signature box of `payload` changes
/// nothing but the metadata among its parts.
spec fn metadata_adds_nothing(payload: Seq<u8>) -> bool {
    forall|boxes: Seq<Seq<u8>>, others: Seq<Seq<u8>>, rest: Seq<u8>|
        payload == #[trigger] container(boxes, rest) && are_metadata_boxes(boxes)
            && are_metadata_boxes(others) ==> without_metadata(container_parts(payload))
            == without_metadata(container_parts(#[trigger] container(others, rest)))
}

/// Inspects a payload; see `inspect_jpeg_xl_header`.
fn inspect_payload<
    F: Fn(jxl_oxide::UninitializedJxlImage) -> Result<JpegXlPreflightDecoder, String>,
>(payload: &[u8], context: DngBlockContext<'_>, try_init: &F) -> (r: (
    ImageResult<JpegXlHeaderDimensions>,
    Ghost<Seq<Answer>>,
))
    requires
        forall|decoder: jxl_oxide::UninitializedJxlImage| try_init.requires((decoder,)),
    ensures
        may_answer_all(*try_init, r.1@),
        inspection(payload@, context, r.1@) matches Some(expected) && settles_as(r.0, expected),
        metadata_adds_nothing(payload@),
{
    let mut parser = new_container_parser();
    let mut decoder = JpegXlPreflightDecoder::new();
    let mut inspected: usize = 0;
    let mut events = parse_container(&mut parser, payload);
    let ghost mut answers = Seq::<Answer>::empty();
    proof {
        assert forall|more: Seq<Answer>| answers + more == more by {
            assert(answers + more =~= more);
        }
    }
    let mut stopped = false;
    while !stopped
        invariant
            forall|decoder: jxl_oxide::UninitializedJxlImage| try_init.requires((decoder,)),
            inspected <= JPEG_XL_PREFLIGHT_MAX_CODESTREAM_BYTES,
            metadata_adds_nothing(payload@),
            may_answer_all(*try_init, answers),
            forall|more: Seq<Answer>| #[trigger]
                progress_on(payload@, answers + more) == (if stopped {
                    Progress::Stopped(decoder@)
                } else {
                    feed_parts(decoder@, inspected as int, parts_to_come(events), more)
                }),
        decreases
                (if stopped {
                    0
                } else {
                    parts_to_come(events).len() + 1
                }),
    {
        let ghost none = Seq::<Answer>::empty();
        assert(answers + none =~= answers);
        match next_container_event(&mut events) {
            None => {
                stopped = true;
            },
            Some(ContainerEvent::Trouble(text)) => {
                return (inspection_error(context, text.as_str()), Ghost(answers));
            },
            Some(ContainerEvent::InvalidSignature) => {
                return (inspection_error(context, "invalid JPEG-XL signature"), Ghost(answers));
            },
            Some(ContainerEvent::Other) => {},
            Some(ContainerEvent::Codestream(stream)) => {
                let ghost earlier = answers;
                let ghost before = decoder;
                let (feeding, Ghost(given)) = feed_in_chunks(decoder, inspected, stream, try_init);
                proof {
                    answers = earlier + given;
                    assert forall|more: Seq<Answer>| #[trigger]
                        progress_on(payload@, answers + more) == (match feeding {
                            Feeding::Failed(text) => Progress::Failed(text@),
                            Feeding::Stopped(next) => Progress::Stopped(next@),
                            Feeding::Going(next, fed) => feed_parts(
                                next@,
                                fed as int,
                                parts_to_come(events),
                                more,
                            ),
                        }) by {
                        assert(answers + more =~= earlier + (given + more));
                        assert(feed_stream(before@, inspected as int, stream@, given + more)
                            == feeding.progress(more));
                    }
                    assert(answers + none =~= answers);
                }
                match feeding {
                    Feeding::Failed(text) => {
                        assert(progress_on(payload@, answers + none) is Failed);
                        return (inspection_error(context, text.as_str()), Ghost(answers));
                    },
                    Feeding::Going(next, fed) => {
                        decoder = next;
                        inspected = fed;
                    },
                    Feeding::Stopped(next) => {
                        decoder = next;
                        stopped = true;
                    },
                }
            },
        }
    }
    proof {
        let none = Seq::<Answer>::empty();
        assert(answers + none =~= answers);
        assert(progress_on(payload@, answers + none) == Progress::Stopped(decoder@));
    }
    let image = match decoder.into_image() {
        Some(image) => image,
        None => {
            return (missing_keyframe_error(context), Ghost(answers));
        },
    };
    match first_keyframe_index(&image) {
        None => (missing_keyframe_error(context), Ghost(answers)),
        Some(first) => {
            let frames = read_dependency_frames(&image, first);
            let header = read_image_header(&image);
            (summarize_jpeg_xl_header(&header, frames.as_slice(), context), Ghost(answers))
        },
    }
}

/// Finds what a JPEG XL payload takes when it is decoded, without decoding it:
/// its codestream is read up to the header of the first keyframe, and no
/// further than a budget. Which metadata boxes stand in front of the codestream
/// changes nothing.
///
/// `try_init` makes an image of what a decoder holds, by
/// `jxl_oxide::UninitializedJxlImage::try_init`.
pub fn inspect_jpeg_xl_header<
    F: Fn(jxl_oxide::UninitializedJxlImage) -> Result<JpegXlPreflightDecoder, String>,
>(payload: &[u8], context: DngBlockContext<'_>, try_init: &F) -> (r: ImageResult<
    JpegXlHeaderDimensions,
>)
    requires
        forall|decoder: jxl_oxide::UninitializedJxlImage| try_init.requires((decoder,)),
    ensures
        inspection_may_give(payload@, context, *try_init, r),
        forall|boxes: Seq<Seq<u8>>, others: Seq<Seq<u8>>, rest: Seq<u8>|
            payload@ == #[trigger] container(boxes, rest) && are_metadata_boxes(boxes)
                && are_metadata_boxes(others) ==> inspection_may_give(
                #[trigger] container(others, rest),
                context,
                *try_init,
                r,
            ),
{
    let (r, Ghost(answers)) = inspect_payload(payload, context, try_init);
    proof {
        assert forall|boxes: Seq<Seq<u8>>, others: Seq<Seq<u8>>, rest: Seq<u8>|
            payload@ == #[trigger] container(boxes, rest) && are_metadata_boxes(boxes)
                && are_metadata_boxes(others) implies inspection_may_give(
            #[trigger] container(others, rest),
            context,
            *try_init,
            r,
        ) by {
            let other = container(others, rest);
            let start = DecoderState::initial();
            lemma_metadata_is_skipped(start, 0, container_parts(payload@), answers);
            lemma_metadata_is_skipped(start, 0, container_parts(other), answers);
            assert(inspection(other, context, answers) == inspection(payload@, context, answers));
        }
    }
    r
}

/// Reads the frames before the first keyframe.
fn read_dependency_frames(image: &jxl_oxide::JxlImage, first: usize) -> (frames: Vec<
    JpegXlFrameLayout,
>)
    requires
        first_keyframe(image_chunks(*image)) == Some(first),
    ensures
        frames@ == dependency_frames(image_chunks(*image), first),
{
    let mut frames: Vec<JpegXlFrameLayout> = Vec::new();
    let mut index: usize = 0;
    while index < first
        invariant
            index <= first,
            first_keyframe(image_chunks(*image)) == Some(first),
            frames@ == dependency_frames(image_chunks(*image), first).subrange(0, index as int),
        decreases first - index,
    {
        let ghost all = dependency_frames(image_chunks(*image), first);
        if let Some(header) = read_frame_header(image, index) {
            frames.push(
                JpegXlFrameLayout {
                    is_reference_only: !header.is_normal && !header.is_progressive,
                    x0: header.x0,
                    y0: header.y0,
                    width: header.width,
                    height: header.height,
                },
            );
        }
        assert(all.subrange(0, index + 1) == all.subrange(0, index as int).push(all[index as int]));
        index = index + 1;
    }
    assert(frames@ == dependency_frames(image_chunks(*image), first));
    frames
}

// ---------------------------------------------------------------------------
// Laws
// ---------------------------------------------------------------------------

/// The bytes that a decoder was fed.
pub open spec fn fed_bytes(chunks: Seq<Seq<u8>>) -> int
    decreases chunks.len(),
{
    if chunks.len() == 0 {
        0
    } else {
        fed_bytes(chunks.drop_last()) + chunks.last().len()
    }
}

/// The decoder that an inspection ends with, if the payload is not refused on
/// the way.
pub open spec fn inspected_state(progress: Progress) -> Option<DecoderState> {
    match progress {
        Progress::Going(state, _, _) => Some(state),
        Progress::Stopped(state) => Some(state),
        _ => None,
    }
}

/// An attempt to make an image keeps the pieces that were fed.
pub open spec fn keeps_pieces(answers: Seq<Answer>) -> bool {
    forall|i: int|
        0 <= i < answers.len() ==> (#[trigger] answers[i].answer matches Ok(state) ==> state.chunks
            == answers[i].asked)
}

/// Whatever a payload holds, no more of its codestream is inspected than the
/// budget.
pub proof fn law_inspection_keeps_to_budget(payload: Seq<u8>, answers: Seq<Answer>)
    requires
        keeps_pieces(answers),
    ensures
        inspected_state(progress_on(payload, answers)) matches Some(state) ==> fed_bytes(
            state.chunks,
        ) <= JPEG_XL_PREFLIGHT_MAX_CODESTREAM_BYTES,
{
    lemma_parts_keep_to_budget(DecoderState::initial(), 0, container_parts(payload), answers);
}

proof fn lemma_parts_keep_to_budget(
    state: DecoderState,
    inspected: int,
    parts: Seq<ContainerPart>,
    answers: Seq<Answer>,
)
    requires
        keeps_pieces(answers),
        fed_bytes(state.chunks) == inspected <= JPEG_XL_PREFLIGHT_MAX_CODESTREAM_BYTES,
    ensures
        inspected_state(feed_parts(state, inspected, parts, answers)) matches Some(end)
            ==> fed_bytes(end.chunks) <= JPEG_XL_PREFLIGHT_MAX_CODESTREAM_BYTES,
    decreases parts.len(),
{
    if parts.len() > 0 {
        match parts[0] {
            ContainerPart::Codestream(stream) => {
                lemma_stream_keeps_to_budget(state, inspected, stream, answers);
                match feed_stream(state, inspected, stream, answers) {
                    Progress::Going(next, fed, left) => {
                        lemma_parts_keep_to_budget(next, fed, parts.drop_first(), left);
                    },
                    _ => {},
                }
            },
            ContainerPart::Other => {
                lemma_parts_keep_to_budget(state, inspected, parts.drop_first(), answers);
            },
            _ => {},
        }
    }
}

proof fn lemma_stream_keeps_to_budget(
    state: DecoderState,
    inspected: int,
    stream: Seq<u8>,
    answers: Seq<Answer>,
)
    requires
        keeps_pieces(answers),
        fed_bytes(state.chunks) == inspected <= JPEG_XL_PREFLIGHT_MAX_CODESTREAM_BYTES,
    ensures
        inspected_state(feed_stream(state, inspected, stream, answers)) matches Some(end)
            ==> fed_bytes(end.chunks) <= JPEG_XL_PREFLIGHT_MAX_CODESTREAM_BYTES,
        feed_stream(state, inspected, stream, answers) matches Progress::Going(end, fed, left) ==> {
            &&& fed_bytes(end.chunks) == fed
            &&& keeps_pieces(left)
        },
    decreases stream.len(),
{
    if stream.len() > 0 && inspected < JPEG_XL_PREFLIGHT_MAX_CODESTREAM_BYTES {
        let n = chunk_length(stream.len() as int, inspected);
        let piece = stream.subrange(0, n);
        match state.fed(piece, answers) {
            Fed::Taken(next, left) => {
                assert(next.chunks == state.chunks.push(piece));
                assert(next.chunks.drop_last() == state.chunks);
                assert(fed_bytes(next.chunks) == inspected + n);
                assert(keeps_pieces(left)) by {
                    assert forall|i: int| 0 <= i < left.len() implies (
                    #[trigger] left[i].answer matches Ok(state) ==> state.chunks
                        == left[i].asked) by {
                        if state.attempts(piece) {
                            assert(left[i] == answers[i + 1]);
                            assert(answers[i + 1].answer == left[i].answer);
                        }
                    }
                }
                lemma_stream_keeps_to_budget(
                    next,
                    inspected + n,
                    stream.subrange(n, stream.len() as int),
                    left,
                );
            },
            _ => {},
        }
    }
}

proof fn lemma_metadata_is_skipped(
    state: DecoderState,
    inspected: int,
    parts: Seq<ContainerPart>,
    answers: Seq<Answer>,
)
    ensures
        feed_parts(state, inspected, parts, answers) == feed_parts(
            state,
            inspected,
            without_metadata(parts),
            answers,
        ),
    decreases parts.len(),
{
    if parts.len() > 0 {
        let rest = parts.drop_first();
        assert((seq![parts[0]] + without_metadata(rest)).drop_first() =~= without_metadata(rest));
        match parts[0] {
            ContainerPart::Other => {
                lemma_metadata_is_skipped(state, inspected, rest, answers);
            },
            ContainerPart::Codestream(stream) => {
                match feed_stream(state, inspected, stream, answers) {
                    Progress::Going(next, fed, left) => {
                        lemma_metadata_is_skipped(next, fed, rest, left);
                    },
                    _ => {},
                }
            },
            _ => {},
        }
    }
}

/// Parts of the container that hold no codestream, such as metadata, do not
/// count toward the budget and change nothing, wherever they stand.
pub proof fn law_metadata_is_free(
    state: DecoderState,
    inspected: int,
    parts: Seq<ContainerPart>,
    at: int,
    answers: Seq<Answer>,
)
    requires
        0 <= at < parts.len(),
        parts[at] is Other,
    ensures
        feed_parts(state, inspected, parts, answers) == feed_parts(
            state,
            inspected,
            parts.remove(at),
            answers,
        ),
    decreases parts.len(),
{
    let less = parts.remove(at);
    if at == 0 {
        assert(less =~= parts.drop_first());
    } else {
        assert(less[0] == parts[0]);
        assert(less.drop_first() =~= parts.drop_first().remove(at - 1));
        match parts[0] {
            ContainerPart::Other => {
                law_metadata_is_free(state, inspected, parts.drop_first(), at - 1, answers);
            },
            ContainerPart::Codestream(stream) => {
                match feed_stream(state, inspected, stream, answers) {
                    Progress::Going(next, fed, left) => {
                        law_metadata_is_free(next, fed, parts.drop_first(), at - 1, left);
                    },
                    _ => {},
                }
            },
            _ => {},
        }
    }
}

/// The pieces, one behind the other.
pub open spec fn joined(pieces: Seq<Seq<u8>>) -> Seq<u8>
    decreases pieces.len(),
{
    if pieces.len() == 0 {
        Seq::empty()
    } else {
        joined(pieces.drop_last()) + pieces.last()
    }
}

/// The codestream that parts of a container hold, up to what cannot be read.
pub open spec fn codestream_in(parts: Seq<ContainerPart>) -> Seq<u8>
    decreases parts.len(),
{
    if parts.len() == 0 {
        Seq::empty()
    } else {
        match parts[0] {
            ContainerPart::Codestream(bytes) => bytes + codestream_in(parts.drop_first()),
            ContainerPart::Other => codestream_in(parts.drop_first()),
            _ => Seq::empty(),
        }
    }
}

/// What is fed to the decoder is the codestream of the container, from its first
/// byte on, none left out and in order. It ends at the header of the first
/// keyframe, at the budget of 16 MiB, or with the codestream, and no sooner.
pub proof fn law_codestream_is_fed_in_order(payload: Seq<u8>, answers: Seq<Answer>)
    requires
        keeps_pieces(answers),
    ensures
        inspected_state(progress_on(payload, answers)) matches Some(state) ==> {
            let stream = codestream_in(container_parts(payload));
            let fed = joined(state.chunks);
            &&& fed.len() <= 16_777_216
            &&& fed.len() <= stream.len() && fed == stream.take(fed.len() as int)
            &&& state.has_first_keyframe_header() || fed.len() == 16_777_216 || fed == stream
        },
{
    let start = DecoderState::initial();
    let parts = container_parts(payload);
    lemma_parts_are_fed(start, 0, parts, answers);
    assert(joined(start.chunks) =~= Seq::empty());
    assert(joined(start.chunks) + codestream_in(parts) =~= codestream_in(parts));
}

/// Pieces of at most 64 KiB are fed, none of them empty, and none beyond the
/// budget. The decoder that they are fed to has 32 MiB for headers.
pub proof fn law_pieces_are_small(length: int, inspected: int)
    requires
        0 < length,
        0 <= inspected < 16_777_216,
    ensures
        0 < chunk_length(length, inspected) <= 65_536,
        chunk_length(length, inspected) <= length,
        inspected + chunk_length(length, inspected) <= 16_777_216,
        JPEG_XL_PREFLIGHT_MAX_TRACKED_ALLOC_BYTES == 32 * 1024 * 1024,
{
}

/// The decoder behind `state` was fed `more` beside what `state` was fed, from
/// the beginning of `stream` on.
spec fn was_fed(state: DecoderState, end: DecoderState, stream: Seq<u8>, more: int) -> bool {
    0 <= more <= stream.len() && joined(end.chunks) == joined(state.chunks) + stream.take(more)
}

proof fn lemma_parts_are_fed(
    state: DecoderState,
    inspected: int,
    parts: Seq<ContainerPart>,
    answers: Seq<Answer>,
)
    requires
        keeps_pieces(answers),
        joined(state.chunks).len() == inspected <= JPEG_XL_PREFLIGHT_MAX_CODESTREAM_BYTES,
    ensures
        inspected_state(feed_parts(state, inspected, parts, answers)) matches Some(end) ==> {
            let whole = joined(state.chunks) + codestream_in(parts);
            let fed = joined(end.chunks);
            &&& fed.len() <= JPEG_XL_PREFLIGHT_MAX_CODESTREAM_BYTES
            &&& fed.len() <= whole.len()
            &&& fed == whole.take(fed.len() as int)
            &&& end.has_first_keyframe_header() || fed.len()
                == JPEG_XL_PREFLIGHT_MAX_CODESTREAM_BYTES || fed == whole
        },
    decreases parts.len(),
{
    let whole = joined(state.chunks) + codestream_in(parts);
    if parts.len() == 0 {
        assert(whole =~= joined(state.chunks));
        assert(whole.take(whole.len() as int) =~= whole);
    } else {
        let rest = parts.drop_first();
        match parts[0] {
            ContainerPart::Other => {
                lemma_parts_are_fed(state, inspected, rest, answers);
            },
            ContainerPart::Codestream(stream) => {
                lemma_stream_is_fed(state, inspected, stream, answers);
                match feed_stream(state, inspected, stream, answers) {
                    Progress::Going(next, fed, left) => {
                        assert(stream.take(stream.len() as int) =~= stream);
                        assert(joined(next.chunks) == joined(state.chunks) + stream);
                        lemma_parts_are_fed(next, fed, rest, left);
                        assert(joined(next.chunks) + codestream_in(rest) =~= whole);
                    },
                    Progress::Stopped(end) => {
                        let more = joined(end.chunks).len() - inspected;
                        assert(joined(end.chunks) == joined(state.chunks) + stream.take(more));
                        assert(joined(end.chunks) =~= whole.take(joined(end.chunks).len() as int));
                    },
                    _ => {},
                }
            },
            _ => {},
        }
    }
}

proof fn lemma_stream_is_fed(
    state: DecoderState,
    inspected: int,
    stream: Seq<u8>,
    answers: Seq<Answer>,
)
    requires
        keeps_pieces(answers),
        joined(state.chunks).len() == inspected <= JPEG_XL_PREFLIGHT_MAX_CODESTREAM_BYTES,
    ensures
        feed_stream(state, inspected, stream, answers) matches Progress::Going(end, fed, left) ==> {
            &&& keeps_pieces(left)
            &&& was_fed(state, end, stream, stream.len() as int)
            &&& fed == inspected + stream.len() <= JPEG_XL_PREFLIGHT_MAX_CODESTREAM_BYTES
        },
        feed_stream(state, inspected, stream, answers) matches Progress::Stopped(end) ==> {
            let more = joined(end.chunks).len() - inspected;
            &&& was_fed(state, end, stream, more)
            &&& joined(end.chunks).len() <= JPEG_XL_PREFLIGHT_MAX_CODESTREAM_BYTES
            &&& end.has_first_keyframe_header() || joined(end.chunks).len()
                == JPEG_XL_PREFLIGHT_MAX_CODESTREAM_BYTES
        },
    decreases stream.len(),
{
    if stream.len() == 0 {
        assert(joined(state.chunks) + stream.take(0) =~= joined(state.chunks));
    } else if inspected >= JPEG_XL_PREFLIGHT_MAX_CODESTREAM_BYTES {
        assert(joined(state.chunks) + stream.take(0) =~= joined(state.chunks));
    } else {
        let n = chunk_length(stream.len() as int, inspected);
        let piece = stream.subrange(0, n);
        let rest = stream.subrange(n, stream.len() as int);
        match state.fed(piece, answers) {
            Fed::Taken(next, left) => {
                assert(next.chunks == state.chunks.push(piece));
                assert(next.chunks.drop_last() =~= state.chunks);
                assert(joined(next.chunks) == joined(state.chunks) + piece);
                assert(stream.take(n) =~= piece);
                lemma_rest_of_answers(state, piece, answers);
                if next.has_first_keyframe_header() {
                    assert(was_fed(state, next, stream, n));
                } else {
                    lemma_stream_is_fed(next, inspected + n, rest, left);
                    match feed_stream(next, inspected + n, rest, left) {
                        Progress::Going(end, _, _) => {
                            assert(rest.take(rest.len() as int) =~= rest);
                            assert(stream.take(stream.len() as int) =~= piece + rest);
                            assert(joined(state.chunks) + piece + rest =~= joined(state.chunks) + (
                            piece + rest));
                        },
                        Progress::Stopped(end) => {
                            let more = joined(end.chunks).len() - (inspected + n);
                            assert(stream.take(n + more) =~= piece + rest.take(more));
                            assert(joined(state.chunks) + piece + rest.take(more) =~= joined(
                                state.chunks,
                            ) + (piece + rest.take(more)));
                        },
                        _ => {},
                    }
                }
            },
            _ => {},
        }
    }
}

proof fn lemma_rest_of_answers(state: DecoderState, piece: Seq<u8>, answers: Seq<Answer>)
    requires
        keeps_pieces(answers),
    ensures
        state.fed(piece, answers) matches Fed::Taken(_, left) ==> keeps_pieces(left),
{
    if let Fed::Taken(_, left) = state.fed(piece, answers) {
        assert forall|i: int| 0 <= i < left.len() implies (#[trigger] left[i].answer matches Ok(
            after,
        ) ==> after.chunks == left[i].asked) by {
            if state.attempts(piece) {
                assert(left[i] == answers[i + 1]);
                assert(answers[i + 1].answer == left[i].answer);
            }
        }
    }
}

/// Without the header of its first keyframe a payload is refused. With it, the
/// image is what its header says, and it depends on all frames before that
/// keyframe, each where its own header says. A frame is kept for others alone
/// where it is neither shown nor part of a frame that is.
pub proof fn law_first_keyframe_decides(state: DecoderState, context: DngBlockContext<'_>, i: int)
    ensures
        !state.has_image || first_keyframe(state.chunks) is None ==> inspection_of(
            state,
            context,
        ) is Err,
        state.has_image ==> (first_keyframe(state.chunks) matches Some(first) ==> {
            let frames = dependency_frames(state.chunks, first);
            &&& inspection_of(state, context) == header_outcome(
                image_header(state.chunks),
                frames,
                context,
            )
            &&& frames.len() == first
            &&& 0 <= i < first ==> {
                let header = frame_header(state.chunks, i as usize).unwrap();
                &&& frames[i].x0 == header.x0
                &&& frames[i].y0 == header.y0
                &&& frames[i].width == header.width
                &&& frames[i].height == header.height
                &&& frames[i].is_reference_only <==> !(header.is_normal || header.is_progressive)
            }
        }),
{
}

/// What the container or the decoder refuses on the way is told in its own
/// words, behind what was inspected.
pub proof fn law_refusals_are_told(
    payload: Seq<u8>,
    context: DngBlockContext<'_>,
    answers: Seq<Answer>,
)
    ensures
        progress_on(payload, answers) matches Progress::Failed(text) ==> inspection(
            payload,
            context,
            answers,
        ) matches Some(Err(message)) && ends_with(message, text) && contains(
            message,
            context.text(),
        ),
        container_parts(payload).len() > 0 ==> (container_parts(payload)[0] matches
            ContainerPart::Trouble(text) ==> progress_on(payload, answers) == Progress::Failed(text)),
        container_parts(payload).len() > 0 && container_parts(payload)[0] is InvalidSignature
            ==> progress_on(payload, answers) is Failed,
{
    if let Progress::Failed(text) = progress_on(payload, answers) {
        let head = "failed to inspect JPEG-XL "@;
        let message = inspection_text(context, text);
        lemma_ends_with(head + context.text() + ": "@, text);
        assert(message.subrange(head.len() as int, (head.len() + context.text().len()) as int)
            =~= context.text());
        assert(matches_at(message, context.text(), head.len() as int));
    }
}

/// As soon as the header of the first keyframe is there, nothing more is fed,
/// whatever follows of the codestream and of the container. Until then the
/// feeding goes on with what follows the piece.
pub proof fn law_first_keyframe_ends_the_feeding(
    state: DecoderState,
    inspected: int,
    stream: Seq<u8>,
    behind: Seq<ContainerPart>,
    answers: Seq<Answer>,
    next: DecoderState,
    left: Seq<Answer>,
)
    requires
        stream.len() > 0,
        0 <= inspected < 16_777_216,
        state.fed(
            stream.take(chunk_length(stream.len() as int, inspected)),
            answers,
        ) == Fed::Taken(next, left),
    ensures
        ({
            let n = chunk_length(stream.len() as int, inspected);
            let parts = seq![ContainerPart::Codestream(stream)] + behind;
            let rest = seq![ContainerPart::Codestream(stream.skip(n))] + behind;
            &&& next.has_image && first_keyframe(next.chunks) is Some ==> feed_parts(
                state,
                inspected,
                parts,
                answers,
            ) == Progress::Stopped(next)
            &&& !(next.has_image && first_keyframe(next.chunks) is Some) ==> feed_parts(
                state,
                inspected,
                parts,
                answers,
            ) == feed_parts(next, inspected + n, rest, left)
        }),
{
    let n = chunk_length(stream.len() as int, inspected);
    let parts = seq![ContainerPart::Codestream(stream)] + behind;
    let rest = seq![ContainerPart::Codestream(stream.skip(n))] + behind;
    assert(stream.subrange(0, n) =~= stream.take(n));
    assert(stream.subrange(n, stream.len() as int) =~= stream.skip(n));
    assert(parts.drop_first() =~= behind);
    assert(rest.drop_first() =~= behind);
}

/// A piece that a decoder with an image takes is kept behind what it was fed, and
/// one that a decoder without an image takes goes into the attempt to make one.
/// What either refuses is told in its own words.
pub proof fn law_pieces_are_fed_to_the_decoder(
    state: DecoderState,
    bytes: Seq<u8>,
    answers: Seq<Answer>,
)
    ensures
        state.has_image ==> match image_feed_error(state.chunks, bytes) {
            Some(text) => state.fed(bytes, answers) == Fed::Refused(text),
            None => state.fed(bytes, answers) == Fed::Taken(
                DecoderState { has_image: true, chunks: state.chunks.push(bytes) },
                answers,
            ),
        },
        !state.has_image ==> match waiting_feed_error(state.chunks, bytes) {
            Some(text) => state.fed(bytes, answers) == Fed::Refused(text),
            None => answers.len() > 0 && answers[0].asked == state.chunks.push(bytes) ==> (
            match answers[0].answer {
                Ok(next) => state.fed(bytes, answers) == Fed::Taken(next, answers.skip(1)),
                Err(text) => state.fed(bytes, answers) == Fed::Refused(text),
            }),
        },
        DecoderState::initial().chunks.len() == 0 && !DecoderState::initial().has_image,
{
    assert(answers.len() > 0 ==> answers.drop_first() =~= answers.skip(1));
}

/// What an inspection comes to is that of this payload, with an answer to every
/// attempt to make an image that was given for just the pieces fed so far.
pub proof fn law_inspection_is_of_this_payload<
    F: Fn(jxl_oxide::UninitializedJxlImage) -> Result<JpegXlPreflightDecoder, String>,
>(
    payload: Seq<u8>,
    context: DngBlockContext<'_>,
    try_init: F,
    r: ImageResult<JpegXlHeaderDimensions>,
)
    requires
        inspection_may_give(payload, context, try_init, r),
    ensures
        exists|answers: Seq<Answer>|
            {
                &&& #[trigger] answers_are_given(try_init, answers)
                &&& match progress_on(payload, answers) {
                    Progress::Unanswered => false,
                    Progress::Failed(text) => r matches Err(ImageError::Decode(message))
                        && ends_with(message@, text),
                    Progress::Going(state, _, _) => settles_as(r, inspection_of(state, context)),
                    Progress::Stopped(state) => settles_as(r, inspection_of(state, context)),
                }
            },
{
    let answers = choose|answers: Seq<Answer>|
        {
            &&& may_answer_all(try_init, answers)
            &&& #[trigger] inspection(payload, context, answers) matches Some(expected)
                && settles_as(r, expected)
        };
    law_refusals_are_told(payload, context, answers);
    assert forall|i: int| 0 <= i < answers.len() implies exists|
        decoder: jxl_oxide::UninitializedJxlImage,
        given: Result<JpegXlPreflightDecoder, String>,
    |
        {
            &&& #[trigger] try_init.ensures((decoder,), given)
            &&& waiting_chunks(decoder) == (#[trigger] answers[i]).asked
            &&& answer_view(given) == answers[i].answer
        } by {
        let answer = answers[i];
        assert(may_answer(try_init, answer));
        let (decoder, given) = choose|
            decoder: jxl_oxide::UninitializedJxlImage,
            given: Result<JpegXlPreflightDecoder, String>,
        |
            {
                &&& waiting_chunks(decoder) == answer.asked
                &&& #[trigger] try_init.ensures((decoder,), given)
                &&& answer_view(given) == answer.answer
            };
        assert(try_init.ensures((decoder,), given));
    }
    assert(answers_are_given(try_init, answers));
}

/// Each of the answers was given by `try_init` to a decoder that holds the pieces
/// that it is an answer to.
pub open spec fn answers_are_given<
    F: Fn(jxl_oxide::UninitializedJxlImage) -> Result<JpegXlPreflightDecoder, String>,
>(try_init: F, answers: Seq<Answer>) -> bool {
    forall|i: int|
        0 <= i < answers.len() ==> exists|
            decoder: jxl_oxide::UninitializedJxlImage,
            given: Result<JpegXlPreflightDecoder, String>,
        |
            {
                &&& #[trigger] try_init.ensures((decoder,), given)
                &&& waiting_chunks(decoder) == (#[trigger] answers[i]).asked
                &&& answer_view(given) == answers[i].answer
            }
}

} // verus!
