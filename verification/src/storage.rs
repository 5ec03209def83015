//! Uploaded slide images and narration recordings: which uploads are
//! accepted, where they are stored, how they are served and who may
//! delete them.
use vstd::prelude::*;
use crate::models::file::FileRecord;
use crate::outside::{header_dimensions, rgba_decoding};
use crate::text::{decimal, is_blank, opt_str, starts_with, strip_all_end};

verus! {

/// The most pixels an uploaded slide image may have.
pub const MAX_IMAGE_PIXELS: u64 = 30000000;

/// Why an image upload is refused.
#[derive(Clone, Debug)]
pub enum UploadError {
    /// The upload does not declare an `image/` content type.
    InvalidType,
    /// The image header cannot be read (the reader's error text).
    UnreadableHeader(String),
    /// The image has more than `MAX_IMAGE_PIXELS` pixels.
    TooLarge { width: u32, height: u32 },
    /// The image cannot be decoded (the decoder's error text).
    Undecodable(String),
}

/// The abstract value of an upload refusal.
pub enum Refusal {
    InvalidType,
    UnreadableHeader(Seq<char>),
    TooLarge(u32, u32),
    Undecodable(Seq<char>),
}

impl View for UploadError {
    type V = Refusal;

    open spec fn view(&self) -> Refusal {
        match self {
            UploadError::InvalidType => Refusal::InvalidType,
            UploadError::UnreadableHeader(t) => Refusal::UnreadableHeader(t@),
            UploadError::TooLarge { width, height } => Refusal::TooLarge(*width, *height),
            UploadError::Undecodable(t) => Refusal::Undecodable(t@),
        }
    }
}

/// The message a caller shows for a refusal.
pub open spec fn refusal_text(r: Refusal) -> Seq<char> {
    match r {
        Refusal::InvalidType => "Invalid file type. Expected an image upload."@,
        Refusal::UnreadableHeader(t) => "Failed to read image header: "@ + t,
        Refusal::TooLarge(w, h) => "Image is too large ("@ + decimal(w as nat) + "x"@ + decimal(h as nat)
            + "); maximum is 30000000 pixels"@,
        Refusal::Undecodable(t) => "Failed to decode image: "@ + t,
    }
}

impl UploadError {
    /// The message shown for this refusal.
    pub fn message(&self) -> (s: String)
        ensures
            s@ == refusal_text(self@),
    {
        match self {
            UploadError::InvalidType => crate::text::owned("Invalid file type. Expected an image upload."),
            UploadError::UnreadableHeader(t) => {
                let mut s = crate::text::owned("Failed to read image header: ");
                crate::text::push_str(&mut s, t.as_str());
                s
            },
            UploadError::TooLarge { width, height } => {
                let mut s = crate::text::owned("Image is too large (");
                crate::text::push_decimal(&mut s, *width as u64);
                crate::text::push_str(&mut s, "x");
                crate::text::push_decimal(&mut s, *height as u64);
                crate::text::push_str(&mut s, "); maximum is 30000000 pixels");
                s
            },
            UploadError::Undecodable(t) => {
                let mut s = crate::text::owned("Failed to decode image: ");
                crate::text::push_str(&mut s, t.as_str());
                s
            },
        }
    }
}

/// Decoded RGBA pixels, row by row, four bytes a pixel.
#[derive(Clone, Debug)]
pub struct RgbaImageData {
    pub width: u32,
    pub height: u32,
    pub pixels: Vec<u8>,
}

/// Whether a declared content type names an image.
pub open spec fn is_image_type(content_type: Option<Seq<char>>) -> bool {
    match content_type {
        Some(t) => starts_with(t, "image/"@),
        None => false,
    }
}

/// Whether an upload declares an image content type (`image/...`).
pub fn is_image_content_type(content_type: Option<&str>) -> (b: bool)
    ensures
        b == is_image_type(opt_str(content_type)),
{
    match content_type {
        Some(t) => {
            let v = crate::text::chars_of(t);
            let p = crate::text::chars_of("image/");
            assert(v@.subrange(0, v@.len() as int) =~= v@);
            crate::text::range_starts_with(&v, 0, v.len(), &p)
        },
        None => false,
    }
}

/// Whether an image of `width` x `height` pixels is small enough.
pub open spec fn size_allowed(width: u32, height: u32) -> bool {
    width * height <= MAX_IMAGE_PIXELS
}

/// Refuses an image of more than `MAX_IMAGE_PIXELS` pixels.
pub fn check_image_size(width: u32, height: u32) -> (r: Result<(), UploadError>)
    ensures
        match r {
            Ok(()) => size_allowed(width, height),
            Err(e) => !size_allowed(width, height) && e@ == Refusal::TooLarge(width, height),
        },
{
    let w = width as u64;
    let h = height as u64;
    assert(w * h <= 0xffff_fffe_0000_0001) by (nonlinear_arith)
        requires
            w <= 0xffff_ffff,
            h <= 0xffff_ffff,
    ;
    if w * h > MAX_IMAGE_PIXELS {
        Err(UploadError::TooLarge { width, height })
    } else {
        Ok(())
    }
}

/// What becomes of an uploaded slide image: refused for its content type,
/// its header, its size or its encoding (checked in that order), or
/// decoded to RGBA pixels.
pub open spec fn slide_image_outcome(content_type: Option<Seq<char>>, bytes: Seq<u8>) -> Result<
    (u32, u32, Seq<u8>),
    Refusal,
> {
    if !is_image_type(content_type) {
        Err(Refusal::InvalidType)
    } else {
        match header_dimensions(bytes) {
            Err(t) => Err(Refusal::UnreadableHeader(t)),
            Ok(d) => if !size_allowed(d.0, d.1) {
                Err(Refusal::TooLarge(d.0, d.1))
            } else {
                match rgba_decoding(bytes) {
                    Err(t) => Err(Refusal::Undecodable(t)),
                    Ok(p) => Ok(p),
                }
            },
        }
    }
}

/// Checks an uploaded slide image and decodes it to RGBA pixels, ready to
/// be re-encoded for storage (see `slide_image_outcome`).
pub fn prepare_slide_image(content_type: Option<&str>, bytes: &Vec<u8>) -> (r: Result<
    RgbaImageData,
    UploadError,
>)
    ensures
        match r {
            Ok(img) => slide_image_outcome(opt_str(content_type), bytes@) == Ok::<
                (u32, u32, Seq<u8>),
                Refusal,
            >((img.width, img.height, img.pixels@)),
            Err(e) => slide_image_outcome(opt_str(content_type), bytes@) == Err::<
                (u32, u32, Seq<u8>),
                Refusal,
            >(e@),
        },
{
    if !is_image_content_type(content_type) {
        return Err(UploadError::InvalidType);
    }
    let (width, height) = match crate::outside::read_header_dimensions(bytes) {
        Ok(d) => d,
        Err(t) => {
            return Err(UploadError::UnreadableHeader(t));
        },
    };
    match check_image_size(width, height) {
        Ok(()) => {},
        Err(e) => {
            return Err(e);
        },
    }
    match crate::outside::decode_rgba(bytes) {
        Ok(p) => Ok(RgbaImageData { width: p.0, height: p.1, pixels: p.2 }),
        Err(t) => Err(UploadError::Undecodable(t)),
    }
}

// ---------------------------------------------------------------------------
// Names, paths and URLs
// ---------------------------------------------------------------------------

/// The stored name of a converted slide image: a fresh unique id and
/// `.webp`.
pub fn image_file_name(unique: &str) -> (s: String)
    ensures
        s@ == unique@ + ".webp"@,
{
    let mut s = crate::text::owned(unique);
    crate::text::push_str(&mut s, ".webp");
    s
}

/// Where a slide image of `owner_id` is stored: `slide-image/{owner}/{name}`.
pub fn slide_image_path(owner_id: &str, filename: &str) -> (s: String)
    ensures
        s@ == "slide-image/"@ + owner_id@ + "/"@ + filename@,
{
    let mut s = crate::text::owned("slide-image/");
    crate::text::push_str(&mut s, owner_id);
    crate::text::push_str(&mut s, "/");
    crate::text::push_str(&mut s, filename);
    s
}

/// The name a narration recording keeps: the uploaded name unless it is
/// missing or blank.
pub open spec fn narration_name(given: Option<Seq<char>>) -> Seq<char> {
    match given {
        Some(n) => if is_blank(n) {
            "narration.webm"@
        } else {
            n
        },
        None => "narration.webm"@,
    }
}

/// The name a narration recording keeps (see `narration_name`).
pub fn narration_safe_name(given: Option<&str>) -> (s: String)
    ensures
        s@ == narration_name(opt_str(given)),
{
    match given {
        Some(n) => if crate::text::str_is_blank(n) {
            crate::text::owned("narration.webm")
        } else {
            crate::text::owned(n)
        },
        None => crate::text::owned("narration.webm"),
    }
}

/// The stored name of a narration recording: a fresh unique id, `_` and
/// the kept name.
pub fn narration_file_name(unique: &str, safe_name: &str) -> (s: String)
    ensures
        s@ == unique@ + "_"@ + safe_name@,
{
    let mut s = crate::text::owned(unique);
    crate::text::push_str(&mut s, "_");
    crate::text::push_str(&mut s, safe_name);
    s
}

/// Where a narration recording of `owner_id` is stored:
/// `slide-narration/{owner}/{name}`.
pub fn narration_path(owner_id: &str, filename: &str) -> (s: String)
    ensures
        s@ == "slide-narration/"@ + owner_id@ + "/"@ + filename@,
{
    let mut s = crate::text::owned("slide-narration/");
    crate::text::push_str(&mut s, owner_id);
    crate::text::push_str(&mut s, "/");
    crate::text::push_str(&mut s, filename);
    s
}

/// The content type a raw upload is stored and served with: the declared
/// one, or `application/octet-stream`.
pub fn upload_content_type(content_type: Option<&str>) -> (s: String)
    ensures
        s@ == match content_type {
            Some(t) => t@,
            None => "application/octet-stream"@,
        },
{
    match content_type {
        Some(t) => crate::text::owned(t),
        None => crate::models::file::default_content_type(),
    }
}

/// The public URL of a stored file: the API base without trailing `/`,
/// then `/slides-files/view/{id}`.
pub fn file_view_url(api_base_url: &str, file_id: &str) -> (s: String)
    ensures
        s@ == strip_all_end(api_base_url@, '/') + "/slides-files/view/"@ + file_id@,
{
    let mut s = crate::text::strip_end_char(api_base_url, '/');
    crate::text::push_str(&mut s, "/slides-files/view/");
    crate::text::push_str(&mut s, file_id);
    s
}

/// What an upload answers: the file's public URL and its id.
#[derive(Clone, Debug)]
pub struct UploadedImage {
    pub file_url: String,
    pub file_id: String,
}

/// The answer to an upload stored under `file_id`.
pub fn uploaded(api_base_url: &str, file_id: String) -> (u: UploadedImage)
    ensures
        u.file_id == file_id,
        u.file_url@ == strip_all_end(api_base_url@, '/') + "/slides-files/view/"@ + file_id@,
{
    let file_url = file_view_url(api_base_url, file_id.as_str());
    UploadedImage { file_url, file_id }
}

/// A stored file's bytes and the content type it is served with.
#[derive(Clone, Debug)]
pub struct StoredFile {
    pub bytes: Vec<u8>,
    pub content_type: String,
}

/// The record of a new upload.
pub fn new_file_record(
    filename: String,
    file_type: &str,
    size: usize,
    storage_path: String,
    content_type: String,
    uploaded_by: &str,
    created_at: i64,
) -> (f: FileRecord)
    requires
        size <= i64::MAX,
    ensures
        f.id is None,
        f.filename == filename,
        f.file_type@ == file_type@,
        f.file_size == size,
        f.storage_path == storage_path,
        f.content_type == content_type,
        f.uploaded_by@ == uploaded_by@,
        f.created_at == created_at,
{
    FileRecord {
        id: None,
        filename,
        file_type: crate::text::owned(file_type),
        file_size: size as i64,
        storage_path,
        content_type,
        uploaded_by: crate::text::owned(uploaded_by),
        created_at,
    }
}

// ---------------------------------------------------------------------------
// Looking up and deleting files
// ---------------------------------------------------------------------------

/// Why a file request is refused.
#[derive(Clone, Debug)]
pub enum FileError {
    /// No file with this id (or the id is malformed).
    NotFound(String),
    /// Only the uploader may delete a file.
    Forbidden,
}

impl FileError {
    /// The message shown for this refusal.
    pub fn message(&self) -> (s: String)
        ensures
            s@ == match self {
                FileError::NotFound(id) => "File not found: "@ + id@,
                FileError::Forbidden => "Cannot delete another user's file"@,
            },
    {
        match self {
            FileError::NotFound(id) => {
                let mut s = crate::text::owned("File not found: ");
                crate::text::push_str(&mut s, id.as_str());
                s
            },
            FileError::Forbidden => crate::text::owned("Cannot delete another user's file"),
        }
    }
}

/// The file a lookup found, or `NotFound` naming the requested id.
pub fn found_file(file_id: &str, found: Option<FileRecord>) -> (r: Result<FileRecord, FileError>)
    ensures
        match found {
            Some(f) => r == Ok::<FileRecord, FileError>(f),
            None => r matches Err(FileError::NotFound(id)) && id@ == file_id@,
        },
{
    match found {
        Some(f) => Ok(f),
        None => Err(FileError::NotFound(crate::text::owned(file_id))),
    }
}

/// Whether `requester_id` may delete `record`: only its uploader may.
pub fn check_delete(record: &FileRecord, requester_id: &str) -> (r: Result<(), FileError>)
    ensures
        r is Ok <==> record.uploaded_by@ == requester_id@,
        r is Err ==> r matches Err(FileError::Forbidden),
{
    if crate::text::str_equals(record.uploaded_by.as_str(), requester_id) {
        Ok(())
    } else {
        Err(FileError::Forbidden)
    }
}

} // verus!
