//! Configuration of a generation run.
use vstd::prelude::*;

verus! {

/// Normal or dry-run (read-only) mode.
#[derive(Clone, Copy, Debug, PartialEq, Eq, Structural)]
pub enum RunMode {
    Normal,
    DryRun,
}

/// Image group order.
#[derive(Clone, Copy, Debug, PartialEq, Eq, Structural)]
pub enum GalleryOrder {
    MostRecentFirst,
    OldestFirst,
}

/// Configuration options for the output.
#[derive(Debug, PartialEq, Eq)]
pub struct Config {
    /// The target directory where to write the gallery.
    pub output_path: String,
    /// Normal or dry-run (read-only) mode.
    pub run_mode: RunMode,
    /// Image group order.
    pub order: GalleryOrder,
    /// The top-level title of the generated gallery.
    pub page_title: String,
    /// An optional footer to show (for example) a copyright notice.
    pub page_footer: Option<String>,
}

/// The run mode that the `dry_run` switch selects.
pub fn run_mode(dry_run: bool) -> (r: RunMode)
    ensures
        r == run_mode_spec(dry_run),
{
    if dry_run {
        RunMode::DryRun
    } else {
        RunMode::Normal
    }
}

/// The group order that the `oldest_first` switch selects.
pub fn order(oldest_first: bool) -> (r: GalleryOrder)
    ensures
        r == (if oldest_first {
            GalleryOrder::OldestFirst
        } else {
            GalleryOrder::MostRecentFirst
        }),
{
    if oldest_first {
        GalleryOrder::OldestFirst
    } else {
        GalleryOrder::MostRecentFirst
    }
}

/// The output configuration for the given command-line options.
pub fn output_config(
    dry_run: bool,
    oldest_first: bool,
    output: String,
    page_title: String,
    footer: Option<String>,
) -> (r: Config)
    ensures
        r.output_path == output,
        r.run_mode == run_mode_spec(dry_run),
        r.order == (if oldest_first {
            GalleryOrder::OldestFirst
        } else {
            GalleryOrder::MostRecentFirst
        }),
        r.page_title == page_title,
        r.page_footer == footer,
{
    Config {
        output_path: output,
        order: order(oldest_first),
        run_mode: run_mode(dry_run),
        page_title,
        page_footer: footer,
    }
}

/// The run mode that the `dry_run` switch selects.
pub open spec fn run_mode_spec(dry_run: bool) -> RunMode {
    if dry_run {
        RunMode::DryRun
    } else {
        RunMode::Normal
    }
}

} // verus!
