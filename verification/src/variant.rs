//! Serving a derived form of an upload: reading the request, finding out
//! whether the variant is there, and the steps that store a variant that
//! has just been made.

use vstd::prelude::*;
use vstd::string::*;
use crate::details::MediaType;
use crate::error::UploadError;
use crate::magick::{texts, ImageFormat};
use crate::repo::hash_repo::HashState;
use crate::store::file_store::Found;
use crate::alias::{alias_from_text, Alias};
use crate::repo::RepoState;
use crate::text::{str_eq, string_from_utf8_lossy, utf8_lossy};
use crate::upload_manager::UploadManager;

verus! {

/// What `str::to_lowercase` makes of a text.
pub uninterp spec fn lowercase(s: Seq<char>) -> Seq<char>;

/// `str::to_lowercase`: the text in lower case, as `lowercase` names it.
#[verifier::external_body]
fn to_lowercase(s: &str) -> (r: String)
    ensures
        r@ == lowercase(s@),
{
    s.to_lowercase()
}

/// The format that a file extension asks for.
pub open spec fn format_of(ext: Seq<char>) -> Option<ImageFormat> {
    if ext == "jpg"@ || ext == "jpeg"@ {
        Some(ImageFormat::Jpeg)
    } else if ext == "png"@ {
        Some(ImageFormat::Png)
    } else if ext == "webp"@ {
        Some(ImageFormat::Webp)
    } else {
        None
    }
}

/// The format that a file extension asks for.
pub fn parse_format(ext: &str) -> (r: Result<ImageFormat, UploadError>)
    ensures
        match format_of(ext@) {
            Some(f) => r == Ok::<ImageFormat, UploadError>(f),
            None => r == Err::<ImageFormat, UploadError>(UploadError::UnsupportedFormat),
        },
{
    if str_eq(ext, "jpg") || str_eq(ext, "jpeg") {
        Ok(ImageFormat::Jpeg)
    } else if str_eq(ext, "png") {
        Ok(ImageFormat::Png)
    } else if str_eq(ext, "webp") {
        Ok(ImageFormat::Webp)
    } else {
        Err(UploadError::UnsupportedFormat)
    }
}

/// The extension under which a blob of the given media type is stored.
pub fn to_ext(mime: &MediaType) -> (r: Result<&'static str, UploadError>)
    ensures
        match r {
            Ok(e) => {
                ||| mime@.kind == "image"@ && mime@.subtype == "png"@ && e@ == ".png"@
                ||| mime@.kind == "image"@ && mime@.subtype == "jpeg"@ && e@ == ".jpg"@
                ||| mime@.kind == "video"@ && mime@.subtype == "mp4"@ && e@ == ".mp4"@
                ||| mime@.kind == "image"@ && mime@.subtype == "webp"@ && e@ == ".webp"@
            },
            Err(e) => {
                &&& e == UploadError::UnsupportedFormat
                &&& !(mime@.kind == "image"@ && mime@.subtype == "png"@)
                &&& !(mime@.kind == "image"@ && mime@.subtype == "jpeg"@)
                &&& !(mime@.kind == "video"@ && mime@.subtype == "mp4"@)
                &&& !(mime@.kind == "image"@ && mime@.subtype == "webp"@)
            },
        },
{
    if mime.is("image", "png") {
        Ok(".png")
    } else if mime.is("image", "jpeg") {
        Ok(".jpg")
    } else if mime.is("video", "mp4") {
        Ok(".mp4")
    } else if mime.is("image", "webp") {
        Ok(".webp")
    } else {
        Err(UploadError::UnsupportedFormat)
    }
}

/// The source named by a query: the value of its last `src` entry, or the
/// empty text where it has none.
pub open spec fn query_source(query: Seq<(String, String)>) -> Seq<char>
    decreases query.len(),
{
    if query.len() == 0 {
        Seq::empty()
    } else if query.last().0@ == "src"@ {
        query.last().1@
    } else {
        query_source(query.drop_last())
    }
}

/// Whether `name`, put into lower case, is among the allowed names. Where no
/// list of allowed names is given, every name is allowed.
pub open spec fn allowed(filters: Option<Seq<String>>, name: Seq<char>) -> bool {
    match filters {
        Some(list) => listed(list, lowercase(name)),
        None => true,
    }
}

/// Whether `name` is among `list`.
pub open spec fn listed(list: Seq<String>, name: Seq<char>) -> bool {
    exists|i: int| 0 <= i < list.len() && #[trigger] list[i]@ == name
}

/// The operations named by a query: its entries other than `src` whose names
/// are allowed, in their order.
pub open spec fn query_operations(
    query: Seq<(String, String)>,
    filters: Option<Seq<String>>,
) -> Seq<(Seq<char>, Seq<char>)>
    decreases query.len(),
{
    if query.len() == 0 {
        Seq::empty()
    } else {
        let before = query_operations(query.drop_last(), filters);
        let entry = query.last();
        if entry.0@ != "src"@ && allowed(filters, entry.0@) {
            before.push((entry.0@, entry.1@))
        } else {
            before
        }
    }
}

/// Whether `name` is among `list`.
pub fn is_listed(list: &Vec<String>, name: &str) -> (r: bool)
    ensures
        r == listed(list@, name@),
{
    let mut i: usize = 0;
    while i < list.len()
        invariant
            i <= list@.len(),
            forall|j: int| 0 <= j < i ==> (#[trigger] list@[j])@ != name@,
        decreases list@.len() - i,
    {
        if str_eq(list[i].as_str(), name) {
            assert(list@[i as int]@ == name@);
            return true;
        }
        i += 1;
    }
    false
}

/// Whether `name`, put into lower case, is among `list`.
fn is_allowed(list: &Vec<String>, name: &str) -> (r: bool)
    ensures
        r == allowed(Some(list@), name@),
{
    let lower = to_lowercase(name);
    is_listed(list, lower.as_str())
}

/// The name under which a derived form is stored: the file name of the
/// upload, a dot and the extension that was asked for.
pub fn processed_name(name: &str, ext: &str) -> (r: String)
    ensures
        r@ == name@ + "."@ + ext@,
{
    name.to_owned().concat(".").concat(ext)
}

/// The chain of operations as it stands in a variant key: each operation
/// and its argument, in their order, with a slash behind each.
pub open spec fn chain_text(operations: Seq<(String, String)>) -> Seq<char>
    decreases operations.len(),
{
    if operations.len() == 0 {
        Seq::empty()
    } else {
        chain_text(operations.drop_last()) + operations.last().0@ + "/"@ + operations.last().1@
            + "/"@
    }
}

/// The key of a variant: the chain of operations, and then the name under
/// which the derived form is stored.
pub open spec fn variant_key_of(operations: Seq<(String, String)>, name: Seq<char>) -> Seq<char> {
    chain_text(operations) + name
}

/// The key of the variant that `operations` make of the upload stored as
/// `name`. Requests with the same operations for the same name have the same
/// key.
pub fn variant_key(operations: &Vec<(String, String)>, name: &str) -> (r: String)
    ensures
        r@ == variant_key_of(operations@, name@),
{
    let mut key = String::new();
    let mut i: usize = 0;
    assert(chain_text(operations@.take(0)) =~= Seq::<char>::empty());
    while i < operations.len()
        invariant
            i <= operations@.len(),
            key@ == chain_text(operations@.take(i as int)),
        decreases operations@.len() - i,
    {
        proof {
            assert(operations@.take(i + 1).drop_last() =~= operations@.take(i as int));
            assert(operations@.take(i + 1).last() == operations@[i as int]);
        }
        key = key.concat(operations[i].0.as_str()).concat("/").concat(
            operations[i].1.as_str(),
        ).concat("/");
        i += 1;
    }
    assert(operations@.take(operations@.len() as int) =~= operations@);
    key.concat(name)
}

/// The arguments by which the converter is told of `operations`: for each
/// operation its name behind a dash, and then its argument.
pub open spec fn operation_args(operations: Seq<(String, String)>) -> Seq<Seq<char>>
    decreases operations.len(),
{
    if operations.len() == 0 {
        Seq::empty()
    } else {
        operation_args(operations.drop_last()).push("-"@ + operations.last().0@).push(
            operations.last().1@,
        )
    }
}

/// The arguments by which the converter is told of `operations`.
pub fn build_args(operations: &Vec<(String, String)>) -> (r: Vec<String>)
    ensures
        texts(r@) == operation_args(operations@),
{
    let mut args: Vec<String> = Vec::new();
    let mut i: usize = 0;
    assert(texts(args@) =~= operation_args(operations@.take(0)));
    while i < operations.len()
        invariant
            i <= operations@.len(),
            texts(args@) == operation_args(operations@.take(i as int)),
        decreases operations@.len() - i,
    {
        proof {
            assert(operations@.take(i + 1).drop_last() =~= operations@.take(i as int));
            assert(operations@.take(i + 1).last() == operations@[i as int]);
        }
        let ghost before = args@;
        let flag = "-".to_owned().concat(operations[i].0.as_str());
        let value = operations[i].1.clone();
        args.push(flag);
        args.push(value);
        assert(texts(args@) =~= texts(before).push(flag@).push(value@));
        i += 1;
    }
    assert(operations@.take(operations@.len() as int) =~= operations@);
    args
}

/// What a request for a derived form asks for.
pub struct ProcessRequest {
    /// The format of the result.
    pub format: ImageFormat,
    /// The alias of the upload to derive from, as text.
    pub source: String,
    /// The hash of the upload.
    pub hash: Vec<u8>,
    /// Where the original of the upload is stored.
    pub original: Vec<u8>,
    /// The operations to apply, in their order: name and argument.
    pub operations: Vec<(String, String)>,
    /// The key of the variant that is asked for.
    pub variant: String,
    /// The arguments by which the converter is told of the operations.
    pub args: Vec<String>,
}

/// `operations` holds the given names and arguments.
pub open spec fn holds_operations(
    operations: Seq<(String, String)>,
    wanted: Seq<(Seq<char>, Seq<char>)>,
) -> bool {
    operations.len() == wanted.len() && forall|i: int|
        0 <= i < wanted.len() ==> (#[trigger] operations[i]).0@ == wanted[i].0
            && operations[i].1@ == wanted[i].1
}

/// The source and the operations that a query names.
fn read_query(query: &Vec<(String, String)>, filters: &Option<Vec<String>>) -> (r: (
    String,
    Vec<(String, String)>,
))
    ensures
        r.0@ == query_source(query@),
        holds_operations(
            r.1@,
            query_operations(
                query@,
                match filters {
                    Some(list) => Some(list@),
                    None => None,
                },
            ),
        ),
{
    let ghost allowed_names = match filters {
        Some(list) => Some(list@),
        None => None,
    };
    let mut source = String::new();
    let mut operations: Vec<(String, String)> = Vec::new();
    let mut i: usize = 0;
    while i < query.len()
        invariant
            i <= query@.len(),
            allowed_names == match filters {
                Some(list) => Some(list@),
                None => None,
            },
            source@ == query_source(query@.take(i as int)),
            holds_operations(operations@, query_operations(query@.take(i as int), allowed_names)),
        decreases query@.len() - i,
    {
        proof {
            assert(query@.take(i + 1).drop_last() =~= query@.take(i as int));
            assert(query@.take(i + 1).last() == query@[i as int]);
        }
        let entry = &query[i];
        if str_eq(entry.0.as_str(), "src") {
            source = entry.1.clone();
        } else {
            let keep = match filters {
                Some(list) => is_allowed(list, entry.0.as_str()),
                None => true,
            };
            if keep {
                operations.push((entry.0.clone(), entry.1.clone()));
            }
        }
        i += 1;
    }
    assert(query@.take(query@.len() as int) =~= query@);
    (source, operations)
}

/// Why a request for a derived form is refused, if it is. The faults are
/// looked for in this order: the query names no source; the source is no
/// alias on record; the alias points at no stored original; the extension
/// is no known format.
pub open spec fn process_refusal(s: RepoState, query: Seq<(String, String)>, ext: Seq<char>) -> Option<
    UploadError,
> {
    let source = query_source(query);
    let alias = alias_from_text(source);
    if source.len() == 0 {
        Some(UploadError::MissingFilename)
    } else if !s.aliases.hashes.contains_key(alias) {
        Some(UploadError::MissingAlias)
    } else if !s.hashes.identifiers.contains_key(s.aliases.hashes[alias]) {
        Some(UploadError::MissingFile)
    } else if format_of(ext) is None {
        Some(UploadError::UnsupportedFormat)
    } else {
        None
    }
}

/// Reads a request for a derived form from the entries of its query and the
/// extension it asks for, and looks the upload up that it names. The variant
/// is keyed by the operations that are allowed and by the name of the stored
/// original with the extension behind it.
pub fn prepare_process(
    query: &Vec<(String, String)>,
    ext: &str,
    manager: &UploadManager,
    filters: &Option<Vec<String>>,
) -> (r: Result<ProcessRequest, UploadError>)
    ensures
        match process_refusal(manager@, query@, ext@) {
            Some(e) => r == Err::<ProcessRequest, UploadError>(e),
            None => {
                let alias = alias_from_text(query_source(query@));
                let hash = manager@.aliases.hashes[alias];
                &&& r matches Ok(request)
                &&& request.source@ == query_source(query@)
                &&& request.hash@ == hash
                &&& request.original@ == manager@.hashes.identifiers[hash]
                &&& format_of(ext@) == Some(request.format)
                &&& holds_operations(
                    request.operations@,
                    query_operations(
                        query@,
                        match filters {
                            Some(list) => Some(list@),
                            None => None,
                        },
                    ),
                )
                &&& request.variant@ == variant_key_of(
                    request.operations@,
                    utf8_lossy(request.original@) + "."@ + ext@,
                )
                &&& texts(request.args@) == operation_args(request.operations@)
            },
        },
{
    let (source, operations) = read_query(query, filters);
    if source.as_str().is_empty() {
        return Err(UploadError::MissingFilename);
    }
    let alias = Alias::from_existing(source.as_str());
    let hash = match manager.repo().aliases.hash(&alias) {
        Some(h) => h,
        None => {
            return Err(UploadError::MissingAlias);
        },
    };
    let original = match manager.repo().hashes.identifier(&hash) {
        Some(id) => id,
        None => {
            return Err(UploadError::MissingFile);
        },
    };
    let format = match parse_format(ext) {
        Ok(f) => f,
        Err(e) => {
            return Err(e);
        },
    };
    let name = string_from_utf8_lossy(original.as_slice());
    let variant = variant_key(&operations, processed_name(name.as_str(), ext).as_str());
    let args = build_args(&operations);
    Ok(ProcessRequest { format, source, hash, original, operations, variant, args })
}

/// The program that makes still images of moving uploads.
pub fn thumbnail_program() -> (r: &'static str)
    ensures
        r@ == "ffmpeg"@,
{
    "ffmpeg"
}

/// The arguments with which the still image of the moving upload in the file
/// `from` is written to the file `to`: its first frame, as a JPEG.
pub fn thumbnail_args(from: &str, to: &str) -> (r: Vec<String>)
    ensures
        texts(r@) == seq![
            "-i"@,
            from@,
            "-ss"@,
            "00:00:00.000"@,
            "-vframes"@,
            "1"@,
            "-codec"@,
            "mjpeg"@,
            "-f"@,
            "singlejpeg"@,
            to@,
        ],
{
    let mut args: Vec<String> = Vec::new();
    args.push("-i".to_owned());
    args.push(from.to_owned());
    args.push("-ss".to_owned());
    args.push("00:00:00.000".to_owned());
    args.push("-vframes".to_owned());
    args.push("1".to_owned());
    args.push("-codec".to_owned());
    args.push("mjpeg".to_owned());
    args.push("-f".to_owned());
    args.push("singlejpeg".to_owned());
    args.push(to.to_owned());
    assert(texts(args@) =~= seq![
        "-i"@,
        from@,
        "-ss"@,
        "00:00:00.000"@,
        "-vframes"@,
        "1"@,
        "-codec"@,
        "mjpeg"@,
        "-f"@,
        "singlejpeg"@,
        to@,
    ]);
    args
}

/// Whether a variant on record can be served: it can if its file is there;
/// if the file is gone the variant is made anew; a failed look is an error.
pub fn usable_variant(recorded: Option<Vec<u8>>, found: Found) -> (r: Result<
    Option<Vec<u8>>,
    UploadError,
>)
    ensures
        match (recorded, found) {
            (None, _) => r matches Ok(None),
            (Some(id), Found::Something) => r matches Ok(Some(x)) && x@ == id@,
            (Some(_), Found::Nothing) => r matches Ok(None),
            (Some(_), Found::Failure) => r matches Err(UploadError::Io(_)),
        },
{
    match recorded {
        None => Ok(None),
        Some(id) => match found {
            Found::Something => Ok(Some(id)),
            Found::Nothing => Ok(None),
            Found::Failure => Err(UploadError::Io(String::new())),
        },
    }
}

/// The steps by which a variant that has just been made is stored, after
/// the request has been answered.
#[derive(Clone, Copy, Debug, PartialEq, Eq, Structural)]
pub enum SaveStep {
    /// Ask the path generator for a directory.
    NextDirectory,
    /// Write the bytes to a file in it.
    SaveFile,
    /// Record the details of the file.
    StoreDetails,
    /// Record the file as the variant.
    StoreVariant,
    /// Everything is stored.
    Done,
    /// A step failed; the later steps are left out.
    Stopped,
}

impl SaveStep {
    /// The step that follows this one after it went well.
    pub open spec fn following(self) -> SaveStep {
        match self {
            SaveStep::NextDirectory => SaveStep::SaveFile,
            SaveStep::SaveFile => SaveStep::StoreDetails,
            SaveStep::StoreDetails => SaveStep::StoreVariant,
            SaveStep::StoreVariant => SaveStep::Done,
            SaveStep::Done => SaveStep::Done,
            SaveStep::Stopped => SaveStep::Stopped,
        }
    }

    /// The step to take after this one, given how this one went. A variant
    /// is recorded only after its file and its details are: the first
    /// failure ends the sequence.
    pub fn next(self, went_well: bool) -> (r: SaveStep)
        ensures
            r == if went_well {
                self.following()
            } else if self == SaveStep::Done {
                SaveStep::Done
            } else {
                SaveStep::Stopped
            },
    {
        if !went_well {
            return match self {
                SaveStep::Done => SaveStep::Done,
                _ => SaveStep::Stopped,
            };
        }
        match self {
            SaveStep::NextDirectory => SaveStep::SaveFile,
            SaveStep::SaveFile => SaveStep::StoreDetails,
            SaveStep::StoreDetails => SaveStep::StoreVariant,
            SaveStep::StoreVariant => SaveStep::Done,
            SaveStep::Done => SaveStep::Done,
            SaveStep::Stopped => SaveStep::Stopped,
        }
    }
}

/// Where the still image of an upload comes from.
#[derive(Clone, Debug, PartialEq, Eq)]
pub enum Still {
    /// The upload does not move: it is its own still image.
    Original,
    /// The motion preview on record.
    Existing(Vec<u8>),
    /// A motion preview has to be made and recorded.
    Generate,
}

/// Decides where the still image of an upload comes from.
pub fn still_source(is_motion: bool, motion_identifier: Option<Vec<u8>>) -> (r: Still)
    ensures
        match r {
            Still::Original => !is_motion,
            Still::Existing(id) => is_motion && (motion_identifier matches Some(m) && m@ == id@),
            Still::Generate => is_motion && motion_identifier is None,
        },
{
    if !is_motion {
        return Still::Original;
    }
    match motion_identifier {
        Some(id) => Still::Existing(id),
        None => Still::Generate,
    }
}

/// How a request with or without a range is answered.
#[derive(Clone, Copy, Debug, PartialEq, Eq, Structural)]
pub enum Answer {
    /// With the whole blob.
    Whole,
    /// With the one range that was asked for.
    Partial,
}

/// Decides how a request is answered. A request without a range gets the
/// whole blob. A range must be given in bytes and be exactly one; anything
/// else cannot be served.
pub fn range_answer(range: Option<(bool, usize)>) -> (r: Result<Answer, UploadError>)
    ensures
        r == match range {
            None => Ok::<Answer, UploadError>(Answer::Whole),
            Some((is_bytes, ranges)) => if is_bytes && ranges == 1 {
                Ok(Answer::Partial)
            } else {
                Err(UploadError::Range)
            },
        },
{
    match range {
        None => Ok(Answer::Whole),
        Some((is_bytes, ranges)) => if is_bytes && ranges == 1 {
            Ok(Answer::Partial)
        } else {
            Err(UploadError::Range)
        },
    }
}

/// Cancel-safety. Once a variant has been recorded, every later request for
/// the same variant of the same hash finds it, whatever else has been
/// recorded in between for other hashes or other variants: the variant is
/// not made a second time.
pub proof fn lemma_recorded_variant_is_found(
    s: HashState,
    hash: Seq<u8>,
    variant: Seq<char>,
    identifier: Seq<u8>,
    other_hash: Seq<u8>,
    other_variant: Seq<char>,
    other_identifier: Seq<u8>,
)
    requires
        (other_hash, other_variant) != (hash, variant),
    ensures
        s.relate_variant_identifier(hash, variant, identifier).variants[(hash, variant)]
            == identifier,
        s.relate_variant_identifier(hash, variant, identifier).variants.contains_key(
            (hash, variant),
        ),
        s.relate_variant_identifier(hash, variant, identifier).relate_variant_identifier(
            other_hash,
            other_variant,
            other_identifier,
        ).variants[(hash, variant)] == identifier,
{
}

} // verus!
