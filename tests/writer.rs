use gallery::config::RunMode;
use gallery::error::GalleryError;
use gallery::model::ThumbnailType;
use gallery::output::{needs_update, thumbnail_error, thumbnail_outcome, write_action, Action, WorkItem};

fn image_item() -> WorkItem {
    WorkItem::Image { input_path: "in/a.webp".to_string(), output_path: "out/a.webp".to_string() }
}

fn thumbnail_item(t: ThumbnailType) -> WorkItem {
    WorkItem::Thumbnail {
        input_path: "in/a.webp".to_string(),
        output_path: "out/thumbnails/a.webp".to_string(),
        thumbnail_type: t,
    }
}

#[test]
fn staleness_follows_modification_times() {
    assert!(!needs_update(Some(10), Some(20)));
    assert!(!needs_update(Some(10), Some(10)));
    assert!(needs_update(Some(20), Some(10)));
    assert!(needs_update(Some(20), None));
    assert!(needs_update(None, Some(10)));
}

#[test]
fn fresh_outputs_are_not_written_again() {
    let stale = needs_update(Some(100), Some(200));
    for mode in [RunMode::Normal, RunMode::DryRun] {
        assert_eq!(write_action(&image_item(), mode, stale), Action::Skip);
        assert_eq!(write_action(&thumbnail_item(ThumbnailType::Small), mode, stale), Action::Skip);
    }
}

#[test]
fn stale_image_is_copied() {
    assert_eq!(
        write_action(&image_item(), RunMode::Normal, true),
        Action::CopyFile { from: "in/a.webp".to_string(), to: "out/a.webp".to_string() }
    );
}

#[test]
fn stale_thumbnail_is_converted_with_fixed_parameters() {
    let args = |resize: &str, crop: &str| -> Vec<String> {
        vec!["in/a.webp", "-resize", resize, "-gravity", "center", "-crop", crop, "+repage", "-quality", "80", "out/thumbnails/a.webp"]
            .into_iter()
            .map(|s| s.to_string())
            .collect()
    };
    assert_eq!(
        write_action(&thumbnail_item(ThumbnailType::Small), RunMode::Normal, true),
        Action::Convert {
            output: "out/thumbnails/a.webp".to_string(),
            program: "convert".to_string(),
            args: args("400x", "400x267+0+0"),
        }
    );
    assert_eq!(
        write_action(&thumbnail_item(ThumbnailType::Large), RunMode::Normal, true),
        Action::Convert {
            output: "out/thumbnails/a.webp".to_string(),
            program: "convert".to_string(),
            args: args("2000x", "2000x1335+0+0"),
        }
    );
}

#[test]
fn html_is_always_written() {
    let item = WorkItem::Html { content: "<p>x</p>".to_string(), output_path: "out/index.html".to_string() };
    assert_eq!(
        write_action(&item, RunMode::Normal, false),
        Action::WriteFile { path: "out/index.html".to_string(), content: "<p>x</p>".to_string() }
    );
}

#[test]
fn dry_run_reports_and_writes_nothing() {
    let item = WorkItem::Html { content: "<p>x</p>".to_string(), output_path: "out/index.html".to_string() };
    assert_eq!(
        write_action(&item, RunMode::DryRun, true),
        Action::Report { line: "HTML:  \"out/index.html\"".to_string() }
    );
    assert_eq!(
        write_action(&image_item(), RunMode::DryRun, true),
        Action::Report { line: "Image: \"out/a.webp\"".to_string() }
    );
    assert_eq!(write_action(&thumbnail_item(ThumbnailType::Large), RunMode::DryRun, true), Action::Skip);
}

#[test]
fn tool_failure_carries_diagnostics() {
    let e = thumbnail_error("in/a.webp", "bad".to_string(), "out".to_string());
    assert_eq!(
        e,
        GalleryError::Tool { input: "in/a.webp".to_string(), stderr: "bad".to_string(), stdout: "out".to_string() }
    );
    assert_eq!(e.message(), "Failed to create thumbnail: \"in/a.webp\"\nstderr:\nbad\n\nstdout:\nout\n");
}

#[test]
fn tool_outcome_follows_exit_status() {
    assert_eq!(thumbnail_outcome("in/a.webp", true, String::new(), String::new()), Ok(()));
    assert_eq!(
        thumbnail_outcome("in/a.webp", false, "bad".to_string(), String::new()),
        Err(GalleryError::Tool { input: "in/a.webp".to_string(), stderr: "bad".to_string(), stdout: String::new() })
    );
}
