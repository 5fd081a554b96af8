use gallery::error::GalleryError;
use gallery::html::ImageData;
use gallery::markdown::{reorder_images, to_html, weave, ImageStatistics};

fn image(name: &str) -> ImageData {
    ImageData {
        url: format!("group/{}.webp", name.to_lowercase()),
        name: name.to_string(),
        thumbnail: format!("thumbnails/large/group/{}.webp", name.to_lowercase()),
        anchor: name.to_lowercase(),
    }
}

fn names(images: &[ImageData]) -> Vec<String> {
    images.iter().map(|i| i.name.clone()).collect()
}

fn text(s: &str) -> Option<String> {
    Some(s.to_string())
}

#[test]
fn weaving_orders_images_by_document() {
    let doc = "Intro.\n\n!image Summit\n\nMiddle.\n\n!image Valley\n";
    let r = to_html(doc, "index.md", vec![image("Summit"), image("Valley")]).unwrap();
    assert_eq!(names(&r.images_seen), vec!["Summit", "Valley"]);
    assert!(r.html.contains("<p>Intro.</p>"));
    assert!(r.html.contains(
        "<div class=\"card shadow-sm mb-3\" id=\"summit\"><a href=\"../group/summit.webp\"><img class=\"card-img-top\" src=\"../thumbnails/large/group/summit.webp\"></a></div>"
    ));
    assert!(!r.html.contains("!image"));
}

#[test]
fn weaving_follows_document_order_not_image_order() {
    let doc = "!image Valley\n\n!image Summit\n";
    let r = to_html(doc, "index.md", vec![image("Summit"), image("Valley")]).unwrap();
    assert_eq!(names(&r.images_seen), vec!["Valley", "Summit"]);
}

#[test]
fn weaving_reports_missing_images() {
    let doc = "!image Summit\n";
    let r = to_html(doc, "g/index.md", vec![image("Summit"), image("Valley")]);
    assert_eq!(
        r,
        Err(GalleryError::MissingImages {
            file: "g/index.md".to_string(),
            names: vec!["Valley".to_string()],
        })
    );
}

#[test]
fn weaving_reports_unknown_images() {
    let doc = "!image Summit\n\n!image Unknown\n\n!image Valley\n";
    let r = to_html(doc, "g/index.md", vec![image("Summit"), image("Valley")]);
    assert_eq!(
        r,
        Err(GalleryError::UnknownImages {
            file: "g/index.md".to_string(),
            names: vec!["Unknown".to_string()],
        })
    );
}

#[test]
fn unknown_images_are_reported_before_missing_ones() {
    let texts = vec![text("!image Unknown")];
    let r = weave(&texts, "f", vec![image("Summit")]);
    assert_eq!(
        r,
        Err(GalleryError::UnknownImages {
            file: "f".to_string(),
            names: vec!["Unknown".to_string()],
        })
    );
}

#[test]
fn weave_replaces_only_known_tags() {
    let texts = vec![text("!image Summit"), None, text("plain"), text("!imageSummit")];
    let images = vec![image("Summit")];
    let snippet = "<div class=\"card shadow-sm mb-3\" id=\"summit\"><a href=\"../group/summit.webp\"><img class=\"card-img-top\" src=\"../thumbnails/large/group/summit.webp\"></a></div>";
    let w = weave(&texts, "f", images).unwrap();
    assert_eq!(w.snippets, vec![Some(snippet.to_string()), None, None, None]);
    assert_eq!(names(&w.images), vec!["Summit"]);
}

#[test]
fn repeated_reference_takes_the_place_of_its_last_occurrence() {
    // Summit is referenced first and last: its last reference decides.
    let texts = vec![text("!image Summit"), text("!image Valley"), text("!image Summit")];
    let w = weave(&texts, "f", vec![image("Summit"), image("Valley")]).unwrap();
    assert_eq!(names(&w.images), vec!["Valley", "Summit"]);
}

#[test]
fn reorder_keeps_order_of_images_with_the_same_place() {
    let seen = vec!["B".to_string(), "A".to_string()];
    let mut a2 = image("A");
    a2.url = "other".to_string();
    let r = reorder_images(vec![image("A"), image("B"), a2], &seen);
    assert_eq!(names(&r), vec!["B", "A", "A"]);
    assert_eq!(r[1].url, "group/a.webp");
    assert_eq!(r[2].url, "other");
}

#[test]
fn missing_lists_unreferenced_images_in_order() {
    let stats = ImageStatistics { seen: vec!["B".to_string()], unknown: vec![] };
    assert_eq!(
        stats.missing(&vec![image("A"), image("B"), image("C")]),
        vec!["A".to_string(), "C".to_string()]
    );
}
