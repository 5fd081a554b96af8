use gallery::config::{Config, GalleryOrder, RunMode};
use gallery::html::{image_groups_sorted, render_image_group_html, render_overview_html, ImageGroupData};
use gallery::images::render_images;
use gallery::model::{Date, Gallery, Image, ImageGroup, ThumbnailType};
use gallery::output::{write_action, Action, WorkItem};

fn config(title: &str, footer: &str, mode: RunMode, order: GalleryOrder) -> Config {
    Config {
        output_path: "output".to_string(),
        run_mode: mode,
        order,
        page_title: title.to_string(),
        page_footer: Some(footer.to_string()),
    }
}

fn fuji() -> ImageGroup {
    ImageGroup {
        path: "2021-01-01 Fuji, Japan".to_string(),
        title: "Fuji, Japan".to_string(),
        date: Date { year: 2021, month: 1, day: 1 },
        images: vec![Image {
            name: "Summit".to_string(),
            path: "input/2021-01-01 Fuji, Japan/Summit.webp".to_string(),
            file_name: "Summit.webp".to_string(),
        }],
        markdown_file: None,
    }
}

fn plain_group(path: &str, title: &str, year: u32) -> ImageGroup {
    ImageGroup {
        path: path.to_string(),
        title: title.to_string(),
        date: Date { year, month: 6, day: 1 },
        images: vec![],
        markdown_file: None,
    }
}

fn titles(v: &[ImageGroupData]) -> Vec<Option<String>> {
    v.iter().map(|g| g.title.clone()).collect()
}

#[test]
fn test_empty_input() {
    let gallery = Gallery { image_groups: vec![] };
    let c = config("Some title", "Some footer <a>link</a>", RunMode::Normal, GalleryOrder::MostRecentFirst);
    let page = render_overview_html(&gallery, &c, &vec![]).unwrap();
    assert_eq!(page.output_path, "output/index.html");
    assert_eq!(page.data.title, "Some title");
    assert_eq!(page.data.footer, Some("Some footer <a>link</a>".to_string()));
    assert!(page.data.image_groups.is_empty());
}

#[test]
fn test_simple_input() {
    let gallery = Gallery { image_groups: vec![fuji()] };
    let c = config("Title", "Footer", RunMode::Normal, GalleryOrder::MostRecentFirst);
    let page = render_overview_html(&gallery, &c, &vec![None]).unwrap();
    let g = &page.data.image_groups[0];
    assert_eq!(g.title, Some("Fuji, Japan".to_string()));
    assert_eq!(g.date, "2021-01-01");
    assert_eq!(g.url, "2021-01-01-fuji-japan");
    assert_eq!(g.images[0].name, "Summit");
    assert_eq!(g.images[0].url, "2021-01-01-fuji-japan/summit.webp");
    assert_eq!(g.images[0].thumbnail, "thumbnails/small/2021-01-01-fuji-japan/summit.webp");
    let items = render_images(&gallery.image_groups[0], &c).unwrap();
    assert_eq!(
        items,
        vec![
            WorkItem::Image {
                input_path: "input/2021-01-01 Fuji, Japan/Summit.webp".to_string(),
                output_path: "output/2021-01-01-fuji-japan/summit.webp".to_string(),
            },
            WorkItem::Thumbnail {
                input_path: "input/2021-01-01 Fuji, Japan/Summit.webp".to_string(),
                output_path: "output/thumbnails/small/2021-01-01-fuji-japan/summit.webp".to_string(),
                thumbnail_type: ThumbnailType::Small,
            },
        ]
    );
    assert_eq!(render_image_group_html(&gallery.image_groups[0], &c, "").unwrap(), None);
}

#[test]
fn test_dry_run_mode() {
    let gallery = Gallery { image_groups: vec![fuji()] };
    let c = config("Title", "Footer", RunMode::DryRun, GalleryOrder::MostRecentFirst);
    let items = render_images(&gallery.image_groups[0], &c).unwrap();
    let actions: Vec<Action> = items.iter().map(|i| write_action(i, c.run_mode, true)).collect();
    assert!(actions.iter().all(|a| matches!(a, Action::Skip | Action::Report { .. })));
    assert_eq!(
        actions[0],
        Action::Report { line: "Image: \"output/2021-01-01-fuji-japan/summit.webp\"".to_string() }
    );
    assert_eq!(actions[1], Action::Skip);
}

#[test]
fn single_image_named_like_its_group_hides_the_title() {
    let mut g = fuji();
    g.title = "Summit".to_string();
    let c = config("T", "F", RunMode::Normal, GalleryOrder::MostRecentFirst);
    let d = ImageGroupData::from_image_group(&c, &g, ThumbnailType::Small, None).unwrap();
    assert_eq!(d.title, None);
}

#[test]
fn overview_orders_by_date_then_title() {
    let gallery = Gallery {
        image_groups: vec![
            plain_group("2020-06-01 B", "B", 2020),
            plain_group("2021-06-01 Z", "Z", 2021),
            plain_group("2020-06-01 A", "A", 2020),
        ],
    };
    let recent = config("T", "F", RunMode::Normal, GalleryOrder::MostRecentFirst);
    let v = image_groups_sorted(&gallery, &recent, &vec![]).unwrap();
    assert_eq!(titles(&v), vec![Some("Z".to_string()), Some("A".to_string()), Some("B".to_string())]);
    let oldest = config("T", "F", RunMode::Normal, GalleryOrder::OldestFirst);
    let v = image_groups_sorted(&gallery, &oldest, &vec![]).unwrap();
    assert_eq!(titles(&v), vec![Some("A".to_string()), Some("B".to_string()), Some("Z".to_string())]);
}

#[test]
fn group_with_document_gets_a_page() {
    let mut g = fuji();
    g.markdown_file = Some("input/2021-01-01 Fuji, Japan/index.md".to_string());
    let c = config("T", "F", RunMode::Normal, GalleryOrder::MostRecentFirst);
    let page = render_image_group_html(&g, &c, "Hello.\n\n!image Summit\n").unwrap().unwrap();
    assert_eq!(page.output_path, "output/2021-01-01-fuji-japan/index.html");
    assert_eq!(page.data.images[0].thumbnail, "thumbnails/large/2021-01-01-fuji-japan/summit.webp");
    assert_eq!(page.data.images[0].anchor, "summit");
    assert!(page.data.markdown_content.unwrap().contains("<p>Hello.</p>"));
    let bad = render_image_group_html(&g, &c, "No images.\n");
    assert!(bad.is_err());
}
