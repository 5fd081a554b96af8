use gallery::config::{output_config, Config, GalleryOrder, RunMode};
use gallery::images::{relative_thumbnail_path, render_images};
use gallery::model::{Date, Image, ImageGroup, ThumbnailType};
use gallery::output::WorkItem;

fn config(out: &str) -> Config {
    Config {
        output_path: out.to_string(),
        run_mode: RunMode::Normal,
        order: GalleryOrder::MostRecentFirst,
        page_title: "Title".to_string(),
        page_footer: Some("Footer".to_string()),
    }
}

fn new_image_group(group_path: &str, image_path: &str) -> ImageGroup {
    let file_name = image_path.rsplit('/').next().unwrap().to_string();
    ImageGroup {
        path: group_path.to_string(),
        title: "ignored".to_owned(),
        date: Date { year: 2021, month: 1, day: 1 },
        images: vec![Image {
            name: "ignored".to_owned(),
            path: image_path.to_string(),
            file_name,
        }],
        markdown_file: None,
    }
}

#[test]
fn images_thumbnail_path_simple() {
    let group = new_image_group(
        "2021-01-01 Some group",
        "/some/path/2021-01-01 Some group/Some file.webp",
    );
    let image = group.images.get(0).unwrap();
    assert_eq!(
        relative_thumbnail_path(&group, image, ThumbnailType::Small).unwrap(),
        "thumbnails/small/2021-01-01-some-group/some-file.webp"
    );
}

#[test]
fn images_thumbnail_path_jpeg() {
    let group = new_image_group(
        "2021-01-01 Some group",
        "/some/path/input/2021-01-01 Some group/Some file.jpeg",
    );
    let image = group.images.get(0).unwrap();
    assert_eq!(
        relative_thumbnail_path(&group, image, ThumbnailType::Small).unwrap(),
        // The thumbnail should be webp even for jpeg source files.
        "thumbnails/small/2021-01-01-some-group/some-file.webp"
    );
}

#[test]
fn images_thumbnail_path_large() {
    let group = new_image_group(
        "2021-01-01 Some group",
        "/some/path/2021-01-01 Some group/Some file.webp",
    );
    let image = group.images.get(0).unwrap();
    assert_eq!(
        relative_thumbnail_path(&group, image, ThumbnailType::Large).unwrap(),
        "thumbnails/large/2021-01-01-some-group/some-file.webp"
    );
}

// The group's thumbnail URL is built segment by segment: each segment goes
// through the codec on its own, and the segments are joined afterwards.
#[test]
fn model_thumbnail_path_simple() {
    let group = new_image_group(
        "2021-01-01 Some group",
        "/some/path/2021-01-01 Some group/Some file.webp",
    );
    let image = group.images.get(0).unwrap();
    assert_eq!(
        group.thumbnail_url(image, ThumbnailType::Small).unwrap(),
        vec!["thumbnails", "small", "2021-01-01-some-group", "some-file.webp"]
    );
}

#[test]
fn model_thumbnail_path_jpeg() {
    let group = new_image_group(
        "2021-01-01 Some group",
        "/some/path/input/2021-01-01 Some group/Some file.jpeg",
    );
    let image = group.images.get(0).unwrap();
    assert_eq!(
        group.thumbnail_url(image, ThumbnailType::Small).unwrap(),
        // The thumbnail should be webp even for jpeg source files.
        vec!["thumbnails", "small", "2021-01-01-some-group", "some-file.webp"]
    );
}

#[test]
fn model_thumbnail_path_large() {
    let group = new_image_group(
        "2021-01-01 Some group",
        "/some/path/2021-01-01 Some group/Some file.webp",
    );
    let image = group.images.get(0).unwrap();
    assert_eq!(
        group.thumbnail_url(image, ThumbnailType::Large).unwrap(),
        vec!["thumbnails", "large", "2021-01-01-some-group", "some-file.webp"]
    );
}

#[test]
fn group_urls_are_built_segment_by_segment() {
    let group = new_image_group("2021-01-01 Fuji, Japan", "in/2021-01-01 Fuji, Japan/Summit.webp");
    let image = &group.images[0];
    assert_eq!(group.url().unwrap(), vec!["2021-01-01-fuji-japan".to_string()]);
    assert_eq!(group.image_filename(image).unwrap(), "summit.webp");
    assert_eq!(
        group.image_url(image).unwrap(),
        vec!["2021-01-01-fuji-japan".to_string(), "summit.webp".to_string()]
    );
    assert_eq!(
        group.thumbnail_url(image, ThumbnailType::Large).unwrap(),
        vec![
            "thumbnails".to_string(),
            "large".to_string(),
            "2021-01-01-fuji-japan".to_string(),
            "summit.webp".to_string()
        ]
    );
}

#[test]
fn group_without_document_yields_no_large_thumbnail() {
    let mut group = new_image_group("2021-01-01 Fuji, Japan", "in/2021-01-01 Fuji, Japan/Summit.webp");
    group.images.push(Image {
        name: "Valley".to_string(),
        path: "in/2021-01-01 Fuji, Japan/Valley.jpeg".to_string(),
        file_name: "Valley.jpeg".to_string(),
    });
    let items = render_images(&group, &config("out")).unwrap();
    assert_eq!(items.len(), 4);
    assert!(!items.iter().any(|i| matches!(
        i,
        WorkItem::Thumbnail { thumbnail_type: ThumbnailType::Large, .. }
    )));
    assert_eq!(
        items[2],
        WorkItem::Image {
            input_path: "in/2021-01-01 Fuji, Japan/Valley.jpeg".to_string(),
            output_path: "out/2021-01-01-fuji-japan/valley.jpeg".to_string(),
        }
    );
    assert_eq!(
        items[3],
        WorkItem::Thumbnail {
            input_path: "in/2021-01-01 Fuji, Japan/Valley.jpeg".to_string(),
            output_path: "out/thumbnails/small/2021-01-01-fuji-japan/valley.webp".to_string(),
            thumbnail_type: ThumbnailType::Small,
        }
    );
}

#[test]
fn group_with_document_yields_one_small_and_one_large_thumbnail_per_image() {
    let mut group = new_image_group("2021-01-01 Fuji, Japan", "in/2021-01-01 Fuji, Japan/Summit.webp");
    group.images.push(Image {
        name: "Valley".to_string(),
        path: "in/2021-01-01 Fuji, Japan/Valley.webp".to_string(),
        file_name: "Valley.webp".to_string(),
    });
    group.markdown_file = Some("in/2021-01-01 Fuji, Japan/index.md".to_string());
    let items = render_images(&group, &config("out")).unwrap();
    assert_eq!(items.len(), 6);
    for img in &group.images {
        let count = |t: ThumbnailType| {
            items
                .iter()
                .filter(|i| matches!(i, WorkItem::Thumbnail { input_path, thumbnail_type, .. }
                    if *input_path == img.path && *thumbnail_type == t))
                .count()
        };
        assert_eq!(count(ThumbnailType::Small), 1);
        assert_eq!(count(ThumbnailType::Large), 1);
    }
    assert_eq!(
        items[2],
        WorkItem::Thumbnail {
            input_path: "in/2021-01-01 Fuji, Japan/Summit.webp".to_string(),
            output_path: "out/thumbnails/large/2021-01-01-fuji-japan/summit.webp".to_string(),
            thumbnail_type: ThumbnailType::Large,
        }
    );
}

#[test]
fn planning_fails_on_an_invalid_segment() {
    let group = new_image_group("a/b", "in/a/b/x.webp");
    assert!(render_images(&group, &config("out")).is_err());
}

#[test]
fn output_config_maps_switches() {
    let c = output_config(true, true, "o".to_string(), "T".to_string(), None);
    assert_eq!(c.run_mode, RunMode::DryRun);
    assert_eq!(c.order, GalleryOrder::OldestFirst);
    assert_eq!(c.output_path, "o");
    assert_eq!(c.page_title, "T");
    assert_eq!(c.page_footer, None);
    let c = output_config(false, false, "o".to_string(), "T".to_string(), Some("F".to_string()));
    assert_eq!(c.run_mode, RunMode::Normal);
    assert_eq!(c.order, GalleryOrder::MostRecentFirst);
    assert_eq!(c.page_footer, Some("F".to_string()));
}
