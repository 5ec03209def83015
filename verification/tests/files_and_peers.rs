use ecobook::models::file::{default_content_type, FileRecord};
use ecobook::reader_page::reader_page;
use ecobook::peers::{
    auth_user_url, flag_from_reply, is_owner_role, owner_from_reply, registration_url, slide_payment_url,
    Identity, Reply,
};
use ecobook::storage::{
    check_delete, check_image_size, file_view_url, found_file, image_file_name, is_image_content_type,
    narration_file_name, narration_path, narration_safe_name, new_file_record, prepare_slide_image,
    slide_image_path, upload_content_type, uploaded, FileError, UploadError, MAX_IMAGE_PIXELS,
};

/// A 2x1 PNG: one red and one blue pixel.
fn tiny_png() -> Vec<u8> {
    let mut out = Vec::new();
    let img = image::RgbaImage::from_raw(2, 1, vec![255, 0, 0, 255, 0, 0, 255, 255]).unwrap();
    img.write_to(&mut std::io::Cursor::new(&mut out), image::ImageFormat::Png).unwrap();
    out
}

fn record(by: &str) -> FileRecord {
    new_file_record("a.webp".to_string(), "slide-image", 12, "slide-image/alice/a.webp".to_string(), "image/webp".to_string(), by, 3)
}

#[test]
fn only_image_uploads_are_accepted() {
    assert!(is_image_content_type(Some("image/png")));
    assert!(!is_image_content_type(Some("text/plain")));
    assert!(!is_image_content_type(Some("Image/png")));
    assert!(!is_image_content_type(None));
    let e = prepare_slide_image(Some("text/plain"), &tiny_png()).unwrap_err();
    assert!(matches!(e, UploadError::InvalidType));
    assert_eq!(e.message(), "Invalid file type. Expected an image upload.");
}

#[test]
fn an_image_is_decoded_to_rgba() {
    let img = prepare_slide_image(Some("image/png"), &tiny_png()).unwrap();
    assert_eq!((img.width, img.height), (2, 1));
    assert_eq!(img.pixels, vec![255, 0, 0, 255, 0, 0, 255, 255]);
}

#[test]
fn unreadable_images_are_refused() {
    let e = prepare_slide_image(Some("image/png"), &b"not an image".to_vec()).unwrap_err();
    assert!(matches!(e, UploadError::UnreadableHeader(_)));
    assert!(e.message().starts_with("Failed to read image header: "));
    let mut broken = Vec::new();
    let img = image::RgbaImage::from_pixel(16, 16, image::Rgba([9, 8, 7, 255]));
    img.write_to(&mut std::io::Cursor::new(&mut broken), image::ImageFormat::Png).unwrap();
    // signature, header chunk and the start of the first data chunk only
    broken.truncate(50);
    let e = prepare_slide_image(Some("image/png"), &broken).unwrap_err();
    assert!(matches!(e, UploadError::Undecodable(_)));
    assert!(e.message().starts_with("Failed to decode image: "));
}

#[test]
fn images_over_the_pixel_limit_are_refused() {
    assert_eq!(MAX_IMAGE_PIXELS, 30_000_000);
    assert!(check_image_size(6000, 5000).is_ok());
    let e = check_image_size(6000, 5001).unwrap_err();
    assert!(matches!(e, UploadError::TooLarge { width: 6000, height: 5001 }));
    assert_eq!(e.message(), "Image is too large (6000x5001); maximum is 30000000 pixels");
    assert!(check_image_size(u32::MAX, u32::MAX).is_err());
}

#[test]
fn storage_names_and_paths() {
    assert_eq!(image_file_name("u1"), "u1.webp");
    assert_eq!(slide_image_path("alice", "u1.webp"), "slide-image/alice/u1.webp");
    assert_eq!(narration_safe_name(Some("take 1.webm")), "take 1.webm");
    assert_eq!(narration_safe_name(Some("  ")), "narration.webm");
    assert_eq!(narration_safe_name(None), "narration.webm");
    assert_eq!(narration_file_name("u2", "take.webm"), "u2_take.webm");
    assert_eq!(narration_path("alice", "u2_take.webm"), "slide-narration/alice/u2_take.webm");
    assert_eq!(upload_content_type(Some("audio/webm")), "audio/webm");
    assert_eq!(upload_content_type(None), "application/octet-stream");
    assert_eq!(default_content_type(), "application/octet-stream");
}

#[test]
fn view_urls_drop_trailing_slashes() {
    assert_eq!(file_view_url("https://api.example/api//", "f1"), "https://api.example/api/slides-files/view/f1");
    assert_eq!(file_view_url("", "f1"), "/slides-files/view/f1");
    let u = uploaded("http://h/", "abc".to_string());
    assert_eq!(u.file_url, "http://h/slides-files/view/abc");
    assert_eq!(u.file_id, "abc");
}

#[test]
fn only_the_uploader_deletes() {
    assert!(check_delete(&record("alice"), "alice").is_ok());
    let e = check_delete(&record("alice"), "eve").unwrap_err();
    assert!(matches!(e, FileError::Forbidden));
    assert_eq!(e.message(), "Cannot delete another user's file");
    let r = record("alice");
    assert_eq!((r.file_size, r.file_type.as_str(), r.uploaded_by.as_str()), (12, "slide-image", "alice"));
}

#[test]
fn missing_files_are_not_found() {
    let e = found_file("f9", None).unwrap_err();
    assert_eq!(e.message(), "File not found: f9");
    assert!(found_file("f1", Some(record("alice"))).is_ok());
}

#[test]
fn peer_urls() {
    assert_eq!(auth_user_url("http://auth/", "u1"), "http://auth/auth/users/u1");
    assert_eq!(registration_url("http://c", "ev", "u1"), "http://c/events/ev/registration/u1");
    assert_eq!(slide_payment_url("http://p//", "u1", "d1"), "http://p/payments/access/slide-deck/d1/user/u1");
}

#[test]
fn peer_answers() {
    assert!(is_owner_role(&Identity { role: "OwNeR".to_string() }));
    assert!(!is_owner_role(&Identity { role: "MEMBER".to_string() }));
    assert!(owner_from_reply(&Reply::Answered(Identity { role: "owner".to_string() })));
    assert!(!owner_from_reply(&Reply::Status(404)));
    assert!(!owner_from_reply(&Reply::Unreachable));
    assert!(flag_from_reply(&Reply::Answered(true)));
    assert!(!flag_from_reply(&Reply::Answered(false)));
    assert!(!flag_from_reply(&Reply::Unreadable));
}

#[test]
fn reader_page_fills_in_the_slug() {
    assert_eq!(reader_page("<a href='/book/__SLUG__'>__SLUG__</a>", "intro"), "<a href='/book/intro'>intro</a>");
    assert_eq!(reader_page("__SLUG___SLUG__", "x"), "x_SLUG__");
    assert_eq!(reader_page("no mark", "x"), "no mark");
    assert_eq!(reader_page("__SLU", "x"), "__SLU");
}
