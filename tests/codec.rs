use gallery::codec::{join_path, set_webp_extension, to_web_segment, url_to_string};
use gallery::error::GalleryError;

#[test]
fn test_url() {
    assert_eq!(url_to_string(&vec!["foo".to_string()]), "foo");
}

#[test]
fn test_composite_url() {
    assert_eq!(
        url_to_string(&vec!["foo".to_string(), "bar".to_string()]),
        "foo/bar"
    );
}

#[test]
fn to_web_path_empty_is_empty() {
    // An empty segment has no content to turn into a slug: it is refused.
    assert_eq!(
        to_web_segment(""),
        Err(GalleryError::InvalidSegment { segment: String::new() })
    );
}

#[test]
fn to_web_path_simple() {
    assert_eq!(
        to_web_segment("2021-12-01 Fuji, Japan").unwrap(),
        "2021-12-01-fuji-japan"
    );
}

#[test]
fn to_web_path_umlaut_is_removed() {
    assert_eq!(
        to_web_segment("2021-12-01 Zürich").unwrap(),
        "2021-12-01-zurich"
    );
}

#[test]
fn to_web_path_file_extension_remains_intact() {
    assert_eq!(to_web_segment("Fuji, Japan.webp").unwrap(), "fuji-japan.webp");
}

#[test]
fn to_web_path_multi_component_is_error() {
    // A path of several components is segmented before the codec applies.
    assert!(to_web_segment("2021-12-01 Fuji, Japan/Summit.webp").is_err());
}

#[test]
fn web_segment_examples() {
    assert_eq!(to_web_segment("Fuji, Japan.webp").unwrap(), "fuji-japan.webp");
    assert_eq!(to_web_segment("Zürich").unwrap(), "zurich");
}

#[test]
fn web_segment_rejects_empty_and_multi_component() {
    assert!(to_web_segment("").is_err());
    assert_eq!(
        to_web_segment("a/b"),
        Err(GalleryError::InvalidSegment { segment: "a/b".to_string() })
    );
}

#[test]
fn web_segment_is_idempotent_without_extension() {
    for s in ["Fuji, Japan", "2021-12-01 Some group", "--A  b--", "x", "Hello World 42"] {
        let once = to_web_segment(s).unwrap();
        let twice = to_web_segment(&once).unwrap();
        assert_eq!(once, twice);
    }
}

#[test]
fn web_segment_keeps_the_last_extension_only() {
    assert_eq!(to_web_segment("My.Photo.JPEG").unwrap(), "my-photo.JPEG");
    assert_eq!(to_web_segment(".hidden").unwrap(), ".hidden");
}

#[test]
fn join_path_places_relative_path_under_base() {
    assert_eq!(join_path("out", "index.html"), "out/index.html");
    assert_eq!(join_path("out/", "index.html"), "out/index.html");
    assert_eq!(join_path("", "index.html"), "index.html");
}

#[test]
fn webp_extension_replaces_or_appends() {
    assert_eq!(set_webp_extension("some-file.jpeg"), "some-file.webp");
    assert_eq!(set_webp_extension("summit.webp"), "summit.webp");
    assert_eq!(set_webp_extension("plain"), "plain.webp");
    assert_eq!(set_webp_extension(".hidden"), ".hidden.webp");
}
