//! The image converter: which inputs are accepted, how the converter is
//! called, and how its description of an input is read.

use vstd::prelude::*;
use vstd::string::*;
use crate::alias::Alias;
use crate::details::{MediaType, MediaTypeView};
use crate::error::UploadError;
use crate::scan::{
    after_first, before_first, chars_are, chars_of, ends_with, has_suffix, lines, parse_number,
    parse_usize, split_line, split_once, trim, trimmed,
};

verus! {

/// The image formats into which uploads can be converted.
#[derive(Clone, Copy, Debug, PartialEq, Eq, Structural)]
pub enum ImageFormat {
    Jpeg,
    Png,
    Webp,
}

/// The video codecs into which uploads can be transcoded.
#[derive(Clone, Copy, Debug, PartialEq, Eq, Structural)]
pub enum VideoCodec {
    H264,
    H265,
    Av1,
    Vp8,
    Vp9,
}

impl ImageFormat {
    /// The name by which the converter knows the format.
    pub open spec fn magick_name(self) -> Seq<char> {
        match self {
            ImageFormat::Jpeg => "JPEG"@,
            ImageFormat::Png => "PNG"@,
            ImageFormat::Webp => "WEBP"@,
        }
    }

    /// The name by which the converter knows the format.
    pub fn as_magick_format(self) -> (r: &'static str)
        ensures
            r@ == self.magick_name(),
    {
        match self {
            ImageFormat::Jpeg => "JPEG",
            ImageFormat::Png => "PNG",
            ImageFormat::Webp => "WEBP",
        }
    }
}

/// The kinds of input that are accepted.
#[derive(Clone, Copy, Debug, PartialEq, Eq, Structural)]
pub enum ValidInputType {
    Mp4,
    Webm,
    Gif,
    Png,
    Jpeg,
    Webp,
}

impl ValidInputType {
    /// The name by which the converter knows the input type.
    pub open spec fn name(self) -> Seq<char> {
        match self {
            ValidInputType::Mp4 => "MP4"@,
            ValidInputType::Webm => "WEBM"@,
            ValidInputType::Gif => "GIF"@,
            ValidInputType::Png => "PNG"@,
            ValidInputType::Jpeg => "JPEG"@,
            ValidInputType::Webp => "WEBP"@,
        }
    }

    /// The file extension of the input type, with its dot.
    pub open spec fn ext(self) -> Seq<char> {
        match self {
            ValidInputType::Mp4 => ".mp4"@,
            ValidInputType::Webm => ".webm"@,
            ValidInputType::Gif => ".gif"@,
            ValidInputType::Png => ".png"@,
            ValidInputType::Jpeg => ".jpeg"@,
            ValidInputType::Webp => ".webp"@,
        }
    }

    /// Whether the input type is handled as video.
    pub open spec fn video(self) -> bool {
        self == ValidInputType::Mp4 || self == ValidInputType::Webm || self == ValidInputType::Gif
    }

    /// The name by which the converter knows the input type.
    pub fn as_str(self) -> (r: &'static str)
        ensures
            r@ == self.name(),
    {
        match self {
            ValidInputType::Mp4 => "MP4",
            ValidInputType::Webm => "WEBM",
            ValidInputType::Gif => "GIF",
            ValidInputType::Png => "PNG",
            ValidInputType::Jpeg => "JPEG",
            ValidInputType::Webp => "WEBP",
        }
    }

    /// The file extension of the input type, with its dot.
    pub fn as_ext(self) -> (r: &'static str)
        ensures
            r@ == self.ext(),
    {
        match self {
            ValidInputType::Mp4 => ".mp4",
            ValidInputType::Webm => ".webm",
            ValidInputType::Gif => ".gif",
            ValidInputType::Png => ".png",
            ValidInputType::Jpeg => ".jpeg",
            ValidInputType::Webp => ".webp",
        }
    }

    /// Whether the input type is handled as video.
    pub fn is_video(self) -> (r: bool)
        ensures
            r == self.video(),
    {
        matches!(self, ValidInputType::Mp4 | ValidInputType::Webm | ValidInputType::Gif)
    }

    /// The extension under which a video input is handed to the converter as
    /// a file; nothing for an input that is not video.
    pub fn video_hint(self) -> (r: Option<&'static str>)
        ensures
            r is Some <==> self.video(),
            r matches Some(e) ==> e@ == self.ext(),
    {
        match self {
            ValidInputType::Mp4 => Some(".mp4"),
            ValidInputType::Webm => Some(".webm"),
            ValidInputType::Gif => Some(".gif"),
            _ => None,
        }
    }

    /// The container in which a codec is delivered.
    pub fn from_video_codec(codec: VideoCodec) -> (r: Self)
        ensures
            r == match codec {
                VideoCodec::Av1 | VideoCodec::Vp8 | VideoCodec::Vp9 => ValidInputType::Webm,
                VideoCodec::H264 | VideoCodec::H265 => ValidInputType::Mp4,
            },
    {
        match codec {
            VideoCodec::Av1 | VideoCodec::Vp8 | VideoCodec::Vp9 => ValidInputType::Webm,
            VideoCodec::H264 | VideoCodec::H265 => ValidInputType::Mp4,
        }
    }

    /// The input type of an image format.
    pub fn from_format(format: ImageFormat) -> (r: Self)
        ensures
            r == match format {
                ImageFormat::Jpeg => ValidInputType::Jpeg,
                ImageFormat::Png => ValidInputType::Png,
                ImageFormat::Webp => ValidInputType::Webp,
            },
            r.to_format_spec() == Some(format),
    {
        match format {
            ImageFormat::Jpeg => ValidInputType::Jpeg,
            ImageFormat::Png => ValidInputType::Png,
            ImageFormat::Webp => ValidInputType::Webp,
        }
    }

    /// The image format of an input type, where it is one.
    pub open spec fn to_format_spec(self) -> Option<ImageFormat> {
        match self {
            ValidInputType::Jpeg => Some(ImageFormat::Jpeg),
            ValidInputType::Png => Some(ImageFormat::Png),
            ValidInputType::Webp => Some(ImageFormat::Webp),
            _ => None,
        }
    }

    /// The image format of an input type, where it is one.
    pub fn to_format(self) -> (r: Option<ImageFormat>)
        ensures
            r == self.to_format_spec(),
    {
        match self {
            ValidInputType::Jpeg => Some(ImageFormat::Jpeg),
            ValidInputType::Png => Some(ImageFormat::Png),
            ValidInputType::Webp => Some(ImageFormat::Webp),
            _ => None,
        }
    }
}

/// `image/webp`
pub fn image_webp() -> (r: MediaType)
    ensures
        r@ == (MediaTypeView { kind: "image"@, subtype: "webp"@ }),
{
    MediaType::new("image", "webp")
}

/// `video/mp4`
pub fn video_mp4() -> (r: MediaType)
    ensures
        r@ == (MediaTypeView { kind: "video"@, subtype: "mp4"@ }),
{
    MediaType::new("video", "mp4")
}

/// `video/webm`
pub fn video_webm() -> (r: MediaType)
    ensures
        r@ == (MediaTypeView { kind: "video"@, subtype: "webm"@ }),
{
    MediaType::new("video", "webm")
}

/// What the extension of an alias says of its content: a video container
/// where the extension ends in one, nothing otherwise.
pub open spec fn hint_of(extension: Option<Seq<char>>) -> Option<ValidInputType> {
    match extension {
        Some(e) => if ends_with(e, ".mp4"@) {
            Some(ValidInputType::Mp4)
        } else if ends_with(e, ".webm"@) {
            Some(ValidInputType::Webm)
        } else {
            None
        },
        None => None,
    }
}

/// What the extension of `alias` says of its content.
pub fn details_hint(alias: &Alias) -> (r: Option<ValidInputType>)
    ensures
        r == hint_of(alias@.extension),
{
    match alias.extension() {
        Some(ext) => {
            let cs = chars_of(ext);
            let mp4 = chars_of(".mp4");
            let webm = chars_of(".webm");
            if has_suffix(cs.as_slice(), mp4.as_slice()) {
                Some(ValidInputType::Mp4)
            } else if has_suffix(cs.as_slice(), webm.as_slice()) {
                Some(ValidInputType::Webm)
            } else {
                None
            }
        },
        None => None,
    }
}

/// The mathematical value of what the converter reports of an input.
pub struct Probe {
    pub mime_type: MediaTypeView,
    pub width: usize,
    pub height: usize,
    pub frames: Option<usize>,
}

/// What the converter reports of an input.
#[derive(Clone, Debug, PartialEq, Eq)]
pub struct Details {
    pub mime_type: MediaType,
    pub width: usize,
    pub height: usize,
    pub frames: Option<usize>,
}

impl View for Details {
    type V = Probe;

    open spec fn view(&self) -> Probe {
        Probe {
            mime_type: self.mime_type@,
            width: self.width,
            height: self.height,
            frames: self.frames,
        }
    }
}

/// The media type that the converter means by a format name.
pub open spec fn format_media_type(format: Seq<char>) -> Option<MediaTypeView> {
    if format == "MP4"@ {
        Some(MediaTypeView { kind: "video"@, subtype: "mp4"@ })
    } else if format == "WEBM"@ {
        Some(MediaTypeView { kind: "video"@, subtype: "webm"@ })
    } else if format == "GIF"@ {
        Some(MediaTypeView { kind: "image"@, subtype: "gif"@ })
    } else if format == "PNG"@ {
        Some(MediaTypeView { kind: "image"@, subtype: "png"@ })
    } else if format == "JPEG"@ {
        Some(MediaTypeView { kind: "image"@, subtype: "jpeg"@ })
    } else if format == "WEBP"@ {
        Some(MediaTypeView { kind: "image"@, subtype: "webp"@ })
    } else {
        None
    }
}

/// What one line of the converter's report says: width, height and format
/// name. The line reads `width height | format`; white space around each
/// part is ignored, and anything behind a second bar is.
pub open spec fn parse_line(line: Seq<char>) -> Option<(usize, usize, Seq<char>)> {
    let dimensions = trim(before_first(line, '|'));
    match (after_first(dimensions, ' '), after_first(line, '|')) {
        (Some(rest), Some(tail)) => match (
            parse_number(trim(before_first(dimensions, ' '))),
            parse_number(trim(before_first(rest, ' '))),
        ) {
            (Some(width), Some(height)) => Some((width, height, trim(before_first(tail, '|')))),
            _ => None,
        },
        _ => None,
    }
}

/// What the converter's report says of an input. The report has one line for
/// each frame. The first line gives the dimensions and the format, every
/// other line must end with the same format name, and the format must be a
/// known one. More than one line means that many frames.
pub open spec fn parse_report(s: Seq<char>) -> Option<Probe> {
    let ls = lines(s);
    if ls.len() == 0 {
        None
    } else {
        match parse_line(ls[0]) {
            Some((width, height, format)) => match format_media_type(format) {
                Some(mime_type) => if forall|k: int|
                    1 <= k < ls.len() ==> ends_with(#[trigger] ls[k], format) {
                    Some(
                        Probe {
                            mime_type,
                            width,
                            height,
                            frames: if ls.len() > 1 {
                                Some(ls.len() as usize)
                            } else {
                                None
                            },
                        },
                    )
                } else {
                    None
                },
                None => None,
            },
            None => None,
        }
    }
}

/// Reads one line of the converter's report.
fn parse_first_line(line: &[char]) -> (r: Option<(usize, usize, &[char])>)
    ensures
        match r {
            Some((w, h, f)) => parse_line(line@) == Some((w, h, f@)),
            None => parse_line(line@) is None,
        },
{
    let (head, tail) = split_once(line, '|');
    let dimensions = trimmed(head);
    let (first, rest) = split_once(dimensions, ' ');
    let rest = match rest {
        Some(r) => r,
        None => {
            return None;
        },
    };
    let tail = match tail {
        Some(t) => t,
        None => {
            return None;
        },
    };
    let width = match parse_usize(trimmed(first)) {
        Some(w) => w,
        None => {
            return None;
        },
    };
    let (second, _) = split_once(rest, ' ');
    let height = match parse_usize(trimmed(second)) {
        Some(h) => h,
        None => {
            return None;
        },
    };
    let (format, _) = split_once(tail, '|');
    Some((width, height, trimmed(format)))
}

/// The media type that the converter means by a format name.
fn media_type_of(format: &[char]) -> (r: Option<MediaType>)
    ensures
        match r {
            Some(m) => format_media_type(format@) == Some(m@),
            None => format_media_type(format@) is None,
        },
{
    if chars_are(format, "MP4") {
        Some(video_mp4())
    } else if chars_are(format, "WEBM") {
        Some(video_webm())
    } else if chars_are(format, "GIF") {
        Some(MediaType::image_gif())
    } else if chars_are(format, "PNG") {
        Some(MediaType::image_png())
    } else if chars_are(format, "JPEG") {
        Some(MediaType::image_jpeg())
    } else if chars_are(format, "WEBP") {
        Some(image_webp())
    } else {
        None
    }
}

/// Reads the converter's report on an input. A report that does not have
/// the expected form, or names a format that is not accepted, is refused as
/// an unsupported format.
#[verifier::loop_isolation(false)]
pub fn parse_details(s: &str) -> (r: Result<Details, UploadError>)
    ensures
        match parse_report(s@) {
            Some(p) => r matches Ok(d) && d@ == p,
            None => r == Err::<Details, UploadError>(UploadError::UnsupportedFormat),
        },
{
    let cs = chars_of(s);
    let (first, mut rest) = match split_line(cs.as_slice()) {
        Some(p) => p,
        None => {
            return Err(UploadError::UnsupportedFormat);
        },
    };
    let ghost all = lines(cs@);
    assert(all[0] == first@);
    let (width, height, format) = match parse_first_line(first) {
        Some(t) => t,
        None => {
            return Err(UploadError::UnsupportedFormat);
        },
    };
    let mut frames: usize = 1;
    let ghost mut seen: Seq<Seq<char>> = seq![first@];
    while rest.len() > 0
        invariant
            all == seen + lines(rest@),
            1 <= seen.len() == frames,
            frames + rest@.len() <= cs@.len() <= usize::MAX,
            forall|k: int| 1 <= k < seen.len() ==> ends_with(#[trigger] seen[k], format@),
        decreases rest@.len(),
    {
        match split_line(rest) {
            Some((line, tail)) => {
                if !has_suffix(line, format) {
                    proof {
                        let k = seen.len() as int;
                        assert(all[k] == line@);
                        assert(!ends_with(all[k], format@));
                    }
                    return Err(UploadError::UnsupportedFormat);
                }
                proof {
                    assert(seen + (seq![line@] + lines(tail@)) =~= seen.push(line@) + lines(tail@));
                    seen = seen.push(line@);
                }
                rest = tail;
                frames += 1;
            },
            None => {},
        }
    }
    proof {
        assert(lines(rest@) =~= Seq::<Seq<char>>::empty());
        assert(all =~= seen);
    }
    match media_type_of(format) {
        Some(mime_type) => Ok(
            Details {
                mime_type,
                width,
                height,
                frames: if frames > 1 {
                    Some(frames)
                } else {
                    None
                },
            },
        ),
        None => Err(UploadError::UnsupportedFormat),
    }
}

/// The bounds within which an input is accepted.
#[derive(Clone, Copy, Debug, PartialEq, Eq)]
pub struct MediaLimits {
    pub max_width: usize,
    pub max_height: usize,
    pub max_area: usize,
    pub max_frame_count: usize,
}

impl MediaTypeView {
    /// The input type that a media type is accepted as.
    pub open spec fn input_type(self) -> Option<ValidInputType> {
        if self.kind == "video"@ && (self.subtype == "mp4"@ || self.subtype == "mpeg"@) {
            Some(ValidInputType::Mp4)
        } else if self.kind == "video"@ && self.subtype == "webm"@ {
            Some(ValidInputType::Webm)
        } else if self.kind == "image"@ && self.subtype == "gif"@ {
            Some(ValidInputType::Gif)
        } else if self.kind == "image"@ && self.subtype == "png"@ {
            Some(ValidInputType::Png)
        } else if self.kind == "image"@ && self.subtype == "jpeg"@ {
            Some(ValidInputType::Jpeg)
        } else if self.kind == "image"@ && self.subtype == "webp"@ {
            Some(ValidInputType::Webp)
        } else {
            None
        }
    }
}

impl Probe {
    /// Whether the input is wider, higher or larger than the limits allow.
    pub open spec fn too_large(self, limits: MediaLimits) -> bool {
        self.width > limits.max_width || self.height > limits.max_height || self.width
            * self.height > limits.max_area
    }

    /// Whether the input has more frames than the limits allow.
    pub open spec fn too_many_frames(self, limits: MediaLimits) -> bool {
        self.frames matches Some(n) && n > limits.max_frame_count
    }

    /// Whether an input is accepted, and as what. An input that is too
    /// large is refused first, then one with too many frames, then one whose
    /// media type is not accepted.
    pub open spec fn validated(self, limits: MediaLimits) -> Result<ValidInputType, UploadError> {
        if self.too_large(limits) {
            Err(UploadError::Dimensions)
        } else if self.too_many_frames(limits) {
            Err(UploadError::Frames)
        } else {
            match self.mime_type.input_type() {
                Some(t) => Ok(t),
                None => Err(UploadError::UnsupportedFormat),
            }
        }
    }
}

impl Details {
    /// Decides whether an input is accepted, and as what.
    pub fn validate_input(&self, limits: &MediaLimits) -> (r: Result<ValidInputType, UploadError>)
        ensures
            r == self@.validated(*limits),
    {
        if self.width > limits.max_width || self.height > limits.max_height {
            return Err(UploadError::Dimensions);
        }
        match self.width.checked_mul(self.height) {
            Some(area) => {
                if area > limits.max_area {
                    return Err(UploadError::Dimensions);
                }
            },
            None => {
                return Err(UploadError::Dimensions);
            },
        }
        match self.frames {
            Some(frames) => {
                if frames > limits.max_frame_count {
                    return Err(UploadError::Frames);
                }
            },
            None => {},
        }
        let m = &self.mime_type;
        if m.is("video", "mp4") || m.is("video", "mpeg") {
            Ok(ValidInputType::Mp4)
        } else if m.is("video", "webm") {
            Ok(ValidInputType::Webm)
        } else if m.is("image", "gif") {
            Ok(ValidInputType::Gif)
        } else if m.is("image", "png") {
            Ok(ValidInputType::Png)
        } else if m.is("image", "jpeg") {
            Ok(ValidInputType::Jpeg)
        } else if m.is("image", "webp") {
            Ok(ValidInputType::Webp)
        } else {
            Err(UploadError::UnsupportedFormat)
        }
    }
}

/// Reads the converter's report on an input and decides whether the input is
/// accepted: the details of the input and what it is accepted as, or the
/// reason for which it is refused.
pub fn input_type(report: &str, limits: &MediaLimits) -> (r: Result<
    (Details, ValidInputType),
    UploadError,
>)
    ensures
        match parse_report(report@) {
            Some(p) => match p.validated(*limits) {
                Ok(t) => r matches Ok((d, u)) && d@ == p && u == t,
                Err(e) => r == Err::<(Details, ValidInputType), UploadError>(e),
            },
            None => r == Err::<(Details, ValidInputType), UploadError>(
                UploadError::UnsupportedFormat,
            ),
        },
{
    let details = match parse_details(report) {
        Ok(d) => d,
        Err(e) => {
            return Err(e);
        },
    };
    match details.validate_input(limits) {
        Ok(t) => Ok((details, t)),
        Err(e) => Err(e),
    }
}

/// The texts of a list of strings.
pub open spec fn texts(list: Seq<String>) -> Seq<Seq<char>> {
    list.map_values(|s: String| s@)
}

/// The program that converts and describes images.
pub fn program() -> (r: &'static str)
    ensures
        r@ == "magick"@,
{
    "magick"
}

/// The arguments with which the converter turns its input into `format`,
/// turned upright and without metadata.
pub fn convert_args(format: ImageFormat) -> (r: Vec<String>)
    ensures
        texts(r@) == seq![
            "convert"@,
            "-"@,
            "-auto-orient"@,
            "-strip"@,
            format.magick_name() + ":-"@,
        ],
{
    let mut args: Vec<String> = Vec::new();
    args.push("convert".to_owned());
    args.push("-".to_owned());
    args.push("-auto-orient".to_owned());
    args.push("-strip".to_owned());
    args.push(format.as_magick_format().to_owned().concat(":-"));
    assert(texts(args@) =~= seq![
        "convert"@,
        "-"@,
        "-auto-orient"@,
        "-strip"@,
        format.magick_name() + ":-"@,
    ]);
    args
}

/// The arguments with which the converter applies `operations` to its input
/// and writes the result as `format`.
pub fn process_image_args(operations: &Vec<String>, format: ImageFormat) -> (r: Vec<String>)
    ensures
        texts(r@) == seq!["convert"@, "-"@] + texts(operations@) + seq![
            format.magick_name() + ":-"@,
        ],
{
    let mut args: Vec<String> = Vec::new();
    args.push("convert".to_owned());
    args.push("-".to_owned());
    let mut i: usize = 0;
    while i < operations.len()
        invariant
            i <= operations@.len(),
            texts(args@) == seq!["convert"@, "-"@] + texts(operations@.take(i as int)),
        decreases operations@.len() - i,
    {
        let ghost before = args@;
        args.push(operations[i].clone());
        assert(texts(args@) =~= texts(before).push(operations@[i as int]@));
        assert(texts(operations@.take(i + 1)) =~= texts(operations@.take(i as int)).push(
            operations@[i as int]@,
        ));
        i += 1;
    }
    assert(operations@.take(operations@.len() as int) =~= operations@);
    let ghost before = args@;
    args.push(format.as_magick_format().to_owned().concat(":-"));
    assert(texts(args@) =~= texts(before).push(format.magick_name() + ":-"@));
    args
}

/// How an input is handed to the converter for description.
#[derive(Clone, Debug, PartialEq, Eq)]
pub enum IdentifyInput {
    /// In a temporary file with this extension, which is removed afterwards.
    File(&'static str),
    /// On standard input, named to the converter by this argument.
    Stdin(String),
}

/// Decides how an input is handed to the converter for description. Video
/// goes through a temporary file with the extension of its container.
/// Anything else is piped, with its format named where it is known.
pub fn identify_input(hint: Option<ValidInputType>) -> (r: IdentifyInput)
    ensures
        match hint {
            Some(t) => if t.video() {
                r matches IdentifyInput::File(e) && e@ == t.ext()
            } else {
                r matches IdentifyInput::Stdin(a) && a@ == t.name() + ":-"@
            },
            None => r matches IdentifyInput::Stdin(a) && a@ == "-"@,
        },
{
    match hint {
        Some(t) => match t.video_hint() {
            Some(ext) => IdentifyInput::File(ext),
            None => IdentifyInput::Stdin(t.as_str().to_owned().concat(":-")),
        },
        None => IdentifyInput::Stdin("-".to_owned()),
    }
}

/// The arguments with which the converter describes `target`: one line for
/// each frame, with width, height and format.
pub fn identify_args(target: &str) -> (r: Vec<String>)
    ensures
        texts(r@) == seq!["identify"@, "-ping"@, "-format"@, "%w %h | %m\n"@, target@],
{
    let mut args: Vec<String> = Vec::new();
    args.push("identify".to_owned());
    args.push("-ping".to_owned());
    args.push("-format".to_owned());
    args.push("%w %h | %m\n".to_owned());
    args.push(target.to_owned());
    assert(texts(args@) =~= seq!["identify"@, "-ping"@, "-format"@, "%w %h | %m\n"@, target@]);
    args
}

} // verus!
