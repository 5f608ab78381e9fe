//! What is known of a stored blob from its content: its dimensions, its media
//! type, how many frames it has and when this was found out.

use vstd::prelude::*;
use vstd::string::*;
use crate::text::str_eq;

verus! {

/// The mathematical value of a media type: its top-level type and its
/// subtype, both in lower case.
pub struct MediaTypeView {
    pub kind: Seq<char>,
    pub subtype: Seq<char>,
}

/// A media type such as `image/png`.
#[derive(Clone, Debug, PartialEq, Eq)]
pub struct MediaType {
    pub kind: String,
    pub subtype: String,
}

impl View for MediaType {
    type V = MediaTypeView;

    open spec fn view(&self) -> MediaTypeView {
        MediaTypeView { kind: self.kind@, subtype: self.subtype@ }
    }
}

impl MediaTypeView {
    /// The text `type/subtype`.
    pub open spec fn text(self) -> Seq<char> {
        self.kind + seq!['/'] + self.subtype
    }

    /// Video of any kind, or an animated image format.
    pub open spec fn is_motion(self) -> bool {
        self.kind == "video"@ || (self.kind == "image"@ && self.subtype == "gif"@)
    }
}

impl MediaType {
    /// The media type with the given type and subtype.
    pub fn new(kind: &str, subtype: &str) -> (r: Self)
        ensures
            r@ == (MediaTypeView { kind: kind@, subtype: subtype@ }),
    {
        MediaType { kind: kind.to_owned(), subtype: subtype.to_owned() }
    }

    /// `image/gif`
    pub fn image_gif() -> (r: Self)
        ensures
            r@ == (MediaTypeView { kind: "image"@, subtype: "gif"@ }),
    {
        MediaType::new("image", "gif")
    }

    /// `image/png`
    pub fn image_png() -> (r: Self)
        ensures
            r@ == (MediaTypeView { kind: "image"@, subtype: "png"@ }),
    {
        MediaType::new("image", "png")
    }

    /// `image/jpeg`
    pub fn image_jpeg() -> (r: Self)
        ensures
            r@ == (MediaTypeView { kind: "image"@, subtype: "jpeg"@ }),
    {
        MediaType::new("image", "jpeg")
    }

    /// Whether this is `kind/subtype`.
    pub fn is(&self, kind: &str, subtype: &str) -> (r: bool)
        ensures
            r == (self@.kind == kind@ && self@.subtype == subtype@),
    {
        str_eq(self.kind.as_str(), kind) && str_eq(self.subtype.as_str(), subtype)
    }

    /// Whether the top-level type is `kind`.
    pub fn is_kind(&self, kind: &str) -> (r: bool)
        ensures
            r == (self@.kind == kind@),
    {
        str_eq(self.kind.as_str(), kind)
    }

    /// The text `type/subtype`.
    pub fn to_string(&self) -> (r: String)
        ensures
            r@ == self@.text(),
    {
        proof {
            reveal_strlit("/");
        }
        let r = self.kind.clone().concat("/").concat(self.subtype.as_str());
        assert("/"@ =~= seq!['/']);
        r
    }

    /// An independent copy.
    pub fn duplicate(&self) -> (r: Self)
        ensures
            r@ == self@,
    {
        MediaType { kind: self.kind.clone(), subtype: self.subtype.clone() }
    }

    /// Whether two media types are the same.
    pub fn same(&self, other: &Self) -> (r: bool)
        ensures
            r == (self@ == other@),
    {
        self.kind.eq(&other.kind) && self.subtype.eq(&other.subtype)
    }
}

/// The mathematical value of `Details`.
pub struct DetailsView {
    pub width: usize,
    pub height: usize,
    pub frames: Option<usize>,
    pub content_type: MediaTypeView,
    pub created_at: i128,
}

/// Content-derived metadata of a stored blob.
#[derive(Clone, Debug, PartialEq, Eq)]
pub struct Details {
    width: usize,
    height: usize,
    frames: Option<usize>,
    content_type: MediaType,
    created_at: i128,
}

impl View for Details {
    type V = DetailsView;

    closed spec fn view(&self) -> DetailsView {
        DetailsView {
            width: self.width,
            height: self.height,
            frames: self.frames,
            content_type: self.content_type@,
            created_at: self.created_at,
        }
    }
}

/// `OffsetDateTime::now_utc` and `unix_timestamp_nanos`: the current time in
/// nanoseconds since the Unix epoch. Nothing is promised of the value.
#[verifier::external_body]
fn now_unix_nanos() -> (r: i128) {
    time::OffsetDateTime::now_utc().unix_timestamp_nanos()
}

impl Details {
    /// Details found out at the given moment, in nanoseconds since the Unix
    /// epoch.
    pub fn new(
        width: usize,
        height: usize,
        content_type: MediaType,
        frames: Option<usize>,
        created_at: i128,
    ) -> (r: Self)
        ensures
            r@ == (DetailsView {
                width,
                height,
                frames,
                content_type: content_type@,
                created_at,
            }),
    {
        Details { width, height, frames, content_type, created_at }
    }

    /// Details found out now.
    pub fn now(width: usize, height: usize, content_type: MediaType, frames: Option<usize>) -> (r:
        Self)
        ensures
            r@.width == width,
            r@.height == height,
            r@.frames == frames,
            r@.content_type == content_type@,
    {
        Details::new(width, height, content_type, frames, now_unix_nanos())
    }

    /// The details that the converter has just reported.
    pub fn from_probe(probe: &crate::magick::Details) -> (r: Self)
        ensures
            r@.width == probe@.width,
            r@.height == probe@.height,
            r@.frames == probe@.frames,
            r@.content_type == probe@.mime_type,
    {
        Details::now(probe.width, probe.height, probe.mime_type.duplicate(), probe.frames)
    }

    /// Whether the blob moves: video, or an animated image format.
    pub fn is_motion(&self) -> (r: bool)
        ensures
            r == self@.content_type.is_motion(),
    {
        self.content_type.is_kind("video") || self.content_type.is("image", "gif")
    }

    /// The width in pixels.
    pub fn width(&self) -> (r: usize)
        ensures
            r == self@.width,
    {
        self.width
    }

    /// The height in pixels.
    pub fn height(&self) -> (r: usize)
        ensures
            r == self@.height,
    {
        self.height
    }

    /// The number of frames, where there is more than one.
    pub fn frames(&self) -> (r: Option<usize>)
        ensures
            r == self@.frames,
    {
        self.frames
    }

    /// The media type.
    pub fn content_type(&self) -> (r: MediaType)
        ensures
            r@ == self@.content_type,
    {
        self.content_type.duplicate()
    }

    /// When the details were found out, in nanoseconds since the Unix epoch.
    pub fn system_time(&self) -> (r: i128)
        ensures
            r == self@.created_at,
    {
        self.created_at
    }

    /// An independent copy.
    pub fn duplicate(&self) -> (r: Self)
        ensures
            r@ == self@,
    {
        Details {
            width: self.width,
            height: self.height,
            frames: self.frames,
            content_type: self.content_type.duplicate(),
            created_at: self.created_at,
        }
    }
}

} // verus!
