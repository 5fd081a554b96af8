use gallery::error::{markdown_image_error, path_context, path_error, GalleryError};
use gallery::input::DirEntry;
use gallery::model::{Date, Image, ImageGroup};

fn dir(dirname: &str, file_names: &[(&str, bool)]) -> Vec<DirEntry> {
    file_names
        .iter()
        .map(|(p, is_dir)| DirEntry {
            path: format!("{}/{}", dirname, p),
            file_name: p.to_string(),
            is_dir: *is_dir,
        })
        .collect()
}

fn group(
    name: &str,
    title: &str,
    date: Date,
    images: &[(&str, &str)],
    markdown_file: Option<&str>,
) -> ImageGroup {
    ImageGroup {
        path: name.to_string(),
        title: title.to_string(),
        date,
        images: images
            .iter()
            .map(|(n, p)| Image {
                name: n.to_string(),
                path: p.to_string(),
                file_name: p.rsplit('/').next().unwrap().to_string(),
            })
            .collect(),
        markdown_file: markdown_file.map(|s| s.to_string()),
    }
}

fn ymd(year: u32, month: u32, day: u32) -> Date {
    Date::from_calendar_date(year, month, day).unwrap()
}

#[test]
fn test_empty_dir() {
    assert_eq!(
        ImageGroup::from_entries("2021-01-01 Fuji, Japan", &vec![]).unwrap(),
        Some(group("2021-01-01 Fuji, Japan", "Fuji, Japan", ymd(2021, 1, 1), &[], None))
    );
}

#[test]
fn test_simple_dir() {
    assert_eq!(
        ImageGroup::from_entries(
            "2021-01-01 Fuji, Japan",
            &dir("2021-01-01 Fuji, Japan", &[("Valley.webp", false), ("Summit.webp", false)])
        )
        .unwrap(),
        Some(group(
            "2021-01-01 Fuji, Japan",
            "Fuji, Japan",
            ymd(2021, 1, 1),
            &[
                ("Summit", "2021-01-01 Fuji, Japan/Summit.webp"),
                ("Valley", "2021-01-01 Fuji, Japan/Valley.webp"),
            ],
            None,
        ))
    );
}

#[test]
fn test_index() {
    assert_eq!(
        ImageGroup::from_entries(
            "2021-01-01 Fuji, Japan",
            &dir("some/path/2021-01-01 Fuji, Japan", &[("index.md", false)])
        )
        .unwrap(),
        Some(group(
            "2021-01-01 Fuji, Japan",
            "Fuji, Japan",
            ymd(2021, 1, 1),
            &[],
            Some("some/path/2021-01-01 Fuji, Japan/index.md"),
        ))
    );
}

#[test]
fn test_ignored_entries() {
    assert_eq!(
        ImageGroup::from_entries(
            "2021-12-01 Fuji, Japan",
            &dir(
                "some/path/2021-12-01 Fuji, Japan",
                &[("Valley", true), ("Summit.webp", false), ("something.unknown", false)]
            )
        )
        .unwrap(),
        Some(group(
            "2021-12-01 Fuji, Japan",
            "Fuji, Japan",
            ymd(2021, 12, 1),
            &[("Summit", "some/path/2021-12-01 Fuji, Japan/Summit.webp")],
            None,
        ))
    );
}

#[test]
fn test_missing_date_in_dirname() {
    assert_eq!(
        ImageGroup::from_entries(
            "2021-01 Fuji, Japan",
            &dir("some/path/2021-01 Fuji, Japan", &[("Summit.webp", false)])
        )
        .unwrap(),
        None
    );
}

#[test]
fn names_without_a_date_shape_form_no_group() {
    assert_eq!(ImageGroup::from_entries("Fuji, Japan", &vec![]), Ok(None));
    assert_eq!(ImageGroup::from_entries("2021_01_01 Fuji", &vec![]), Ok(None));
    assert_eq!(ImageGroup::from_entries("2021-01-01", &vec![]), Ok(None));
}

#[test]
fn entries_with_trailing_separators_keep_their_extension() {
    let e = DirEntry { path: "a/b.webp/".to_string(), file_name: "b.webp/".to_string(), is_dir: false };
    assert!(e.is_image());
    let e = DirEntry { path: "a/index.md/.".to_string(), file_name: "index.md/.".to_string(), is_dir: false };
    assert!(e.is_index());
}

#[test]
fn impossible_date_is_an_error() {
    assert_eq!(
        ImageGroup::from_entries("2021-02-29 Leap", &vec![]),
        Err(GalleryError::InvalidDate { name: "2021-02-29 Leap".to_string() })
    );
    assert!(ImageGroup::from_entries("2020-02-29 Leap", &vec![]).unwrap().is_some());
}

#[test]
fn image_entries_are_recognized_by_extension() {
    let e = |p: &str| DirEntry { path: p.to_string(), file_name: p.to_string(), is_dir: false };
    assert!(e("a/b.webp").is_image());
    assert!(e("b.jpeg").is_image());
    assert!(!e("b.jpg").is_image());
    assert!(!e(".webp").is_image());
    assert!(!e("webp").is_image());
    assert!(e("a/index.md").is_index());
    assert!(!e("a/index.mdx").is_index());
}

#[test]
fn image_name_is_the_file_stem() {
    let img = Image::new("My photo.v2.webp".to_string(), "in/My photo.v2.webp".to_string()).unwrap();
    assert_eq!(img.name, "My photo.v2");
    assert!(Image::new("..".to_string(), "in/..".to_string()).is_err());
    // Trailing separators and `.` components do not end the file name.
    assert_eq!(Image::new("x/".to_string(), "in/x/".to_string()).unwrap().name, "x");
    assert_eq!(Image::new("a/b.webp/.".to_string(), "in/a".to_string()).unwrap().name, "b");
    assert_eq!(
        Image::new("/".to_string(), "in".to_string()),
        Err(GalleryError::PathContext {
            message: "Failed to determine file stem".to_string(),
            path: "/".to_string(),
        })
    );
}

#[test]
fn dates_are_formatted_as_iso() {
    assert_eq!(ymd(2021, 1, 1).to_iso_string(), "2021-01-01");
    assert_eq!(ymd(987, 12, 31).to_iso_string(), "0987-12-31");
    assert!(Date::from_calendar_date(2021, 4, 31).is_none());
    assert!(Date::from_calendar_date(1900, 2, 29).is_none());
    assert!(Date::from_calendar_date(2000, 2, 29).is_some());
}

#[test]
fn error_messages_name_their_context() {
    assert_eq!(path_error("Failed to decode UTF-8", "a/b").message(), "Failed to decode UTF-8: a/b");
    assert_eq!(
        path_context("Failed to write HTML file", "out/a").message(),
        "Failed to write HTML file: \"out/a\""
    );
    assert_eq!(
        markdown_image_error(&vec!["A".to_string(), "B".to_string()]),
        "\"A\", \"B\""
    );
    let e = GalleryError::MissingImages { file: "f.md".to_string(), names: vec!["Valley".to_string()] };
    assert_eq!(
        e.message(),
        "Error in markdown file: \"f.md\": Images present on disk but missing from the markdown file: \"Valley\""
    );
}
