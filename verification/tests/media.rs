use imgdump::media::Media;
use imgdump::text::{starts_with, str_eq};

#[test]
fn image_family_is_told_by_prefix() {
    assert!(Media::is_image("image/png"));
    assert!(Media::is_image("image/"));
    assert!(Media::is_image("image/x-unheard-of"));
    assert!(Media::is_image("image/svg+xml"));
}

#[test]
fn other_families_are_not_images() {
    assert!(!Media::is_image(""));
    assert!(!Media::is_image("image"));
    assert!(!Media::is_image("imag"));
    assert!(!Media::is_image("Image/png"));
    assert!(!Media::is_image(" image/png"));
    assert!(!Media::is_image("text/plain"));
    assert!(!Media::is_image("text/image/png"));
    assert!(!Media::is_image("video/mp4"));
}

#[test]
fn every_listed_type_has_its_extension() {
    let table = [
        ("application/json", "json"),
        ("application/pdf", "pdf"),
        ("application/pgp-signature", "asc"),
        ("application/yaml", "yaml"),
        ("audio/flac", "flac"),
        ("audio/mpeg", "mp3"),
        ("audio/wav", "wav"),
        ("image/apng", "apng"),
        ("image/avif", "avif"),
        ("image/gif", "gif"),
        ("image/jpeg", "jpg"),
        ("image/png", "png"),
        ("image/svg+xml", "svg"),
        ("image/webp", "webp"),
        ("model/stl", "stl"),
        ("text/html;charset=utf-8", "html"),
        ("text/plain;charset=utf-8", "txt"),
        ("video/mp4", "mp4"),
        ("video/webm", "webm"),
    ];
    for (content_type, extension) in table {
        assert_eq!(Media::extension_for_content_type(content_type), Some(extension));
    }
}

#[test]
fn unlisted_types_have_no_extension() {
    assert_eq!(Media::extension_for_content_type(""), None);
    assert_eq!(Media::extension_for_content_type("image/"), None);
    assert_eq!(Media::extension_for_content_type("image/png "), None);
    assert_eq!(Media::extension_for_content_type("image/PNG"), None);
    assert_eq!(Media::extension_for_content_type("image/png;charset=utf-8"), None);
    assert_eq!(Media::extension_for_content_type("text/plain"), None);
    assert_eq!(Media::extension_for_content_type("png"), None);
}

#[test]
fn strings_are_compared_by_their_characters() {
    assert!(str_eq("", ""));
    assert!(str_eq("image/png", "image/png"));
    assert!(!str_eq("image/png", "image/pn"));
    assert!(!str_eq("image/png", "image/pnh"));
    assert!(!str_eq("", "a"));
    assert!(str_eq("b\u{e9}b\u{e9} \u{1f600}", "b\u{e9}b\u{e9} \u{1f600}"));
    assert!(!str_eq("b\u{e9}", "b\u{e8}"));
}

#[test]
fn prefixes_are_found_by_characters() {
    assert!(starts_with("image/png", "image/"));
    assert!(starts_with("image/png", ""));
    assert!(starts_with("", ""));
    assert!(starts_with("abc", "abc"));
    assert!(!starts_with("ab", "abc"));
    assert!(!starts_with("xabc", "abc"));
    assert!(starts_with("\u{e9}t\u{e9}", "\u{e9}t"));
    assert!(!starts_with("\u{e9}t\u{e9}", "et"));
}
