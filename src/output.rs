//! Work items and how each one is written.
//!
//! Every output artifact is a [`WorkItem`]. Writing one is decided here, from
//! the run mode and whether the output is stale, as an [`Action`] that the
//! caller performs on the file system.
use crate::config::RunMode;
use crate::error::GalleryError;
use crate::model::ThumbnailType;
use vstd::prelude::*;

verus! {

/// A unit of output: something to be written to disk.
#[derive(Debug, PartialEq, Eq)]
pub enum WorkItem {
    /// An HTML page.
    Html { content: String, output_path: String },
    /// A full-size copy of a source image.
    Image { input_path: String, output_path: String },
    /// A resized preview of a source image.
    Thumbnail { input_path: String, output_path: String, thumbnail_type: ThumbnailType },
}

/// What writing a work item takes.
#[derive(Debug, PartialEq, Eq)]
pub enum Action {
    /// Nothing: the output is up to date, or nothing is written in this mode.
    Skip,
    /// Create the parent directories of `path`, then write `content` to it.
    WriteFile { path: String, content: String },
    /// Create the parent directories of `to`, then copy the file `from` to it.
    CopyFile { from: String, to: String },
    /// Create the parent directories of `output`, then run `program` with
    /// `args`; a failed run fails the item.
    Convert { output: String, program: String, args: Vec<String> },
    /// Print `line`, and write nothing.
    Report { line: String },
}

/// Whether an output needs to be rewritten, given the modification times of
/// the input and the output where they could be read: it does unless both were
/// read and the output is not older than the input.
pub open spec fn stale(input_modified: Option<i128>, output_modified: Option<i128>) -> bool {
    match (output_modified, input_modified) {
        (Some(o), Some(i)) => o < i,
        _ => true,
    }
}

/// Returns true if the output is stale and needs to be rewritten. The times
/// are the modification times of the input and the output, `None` where one
/// could not be read.
pub fn needs_update(input_modified: Option<i128>, output_modified: Option<i128>) -> (r: bool)
    ensures
        r == stale(input_modified, output_modified),
{
    match (output_modified, input_modified) {
        (Some(o), Some(i)) => o < i,
        _ => true,
    }
}

/// The resize geometry of a thumbnail size.
pub open spec fn resize_geometry(t: ThumbnailType) -> Seq<char> {
    match t {
        ThumbnailType::Small => "400x"@,
        ThumbnailType::Large => "2000x"@,
    }
}

/// The crop geometry of a thumbnail size.
pub open spec fn crop_geometry(t: ThumbnailType) -> Seq<char> {
    match t {
        ThumbnailType::Small => "400x267+0+0"@,
        ThumbnailType::Large => "2000x1335+0+0"@,
    }
}

/// The conversion tool's arguments that make the thumbnail `output` of
/// `input`: resize to the size's width, crop the center, re-encode at quality
/// 80.
pub open spec fn convert_args(input: Seq<char>, output: Seq<char>, t: ThumbnailType) -> Seq<
    Seq<char>,
> {
    seq![
        input,
        "-resize"@,
        resize_geometry(t),
        "-gravity"@,
        "center"@,
        "-crop"@,
        crop_geometry(t),
        "+repage"@,
        "-quality"@,
        "80"@,
        output,
    ]
}

/// The conversion tool.
pub open spec fn convert_program() -> Seq<char> {
    "convert"@
}

/// `line` reports that `path` is written as an artifact of the kind `label`.
pub open spec fn report_line(label: Seq<char>, path: Seq<char>) -> Seq<char> {
    label + "\""@ + path + "\""@
}

/// `a` is how `item` is written in `mode`, where `stale` tells whether its
/// output needs to be rewritten. HTML pages are always written; images and
/// thumbnails only when stale. In dry-run mode nothing is written: pages and
/// images are reported, thumbnails are silent.
pub open spec fn is_action_for(a: Action, item: WorkItem, mode: RunMode, stale: bool) -> bool {
    match item {
        WorkItem::Html { content, output_path } => match mode {
            RunMode::Normal => a is WriteFile && a->WriteFile_path@ == output_path@
                && a->WriteFile_content@ == content@,
            RunMode::DryRun => a is Report && a->Report_line@ == report_line(
                "HTML:  "@,
                output_path@,
            ),
        },
        WorkItem::Image { input_path, output_path } => if !stale {
            a is Skip
        } else {
            match mode {
                RunMode::Normal => a is CopyFile && a->CopyFile_from@ == input_path@
                    && a->CopyFile_to@ == output_path@,
                RunMode::DryRun => a is Report && a->Report_line@ == report_line(
                    "Image: "@,
                    output_path@,
                ),
            }
        },
        WorkItem::Thumbnail { input_path, output_path, thumbnail_type } => if !stale {
            a is Skip
        } else {
            match mode {
                RunMode::Normal => a is Convert && a->Convert_output@ == output_path@
                    && a->Convert_program@ == convert_program() && a->Convert_args.deep_view()
                    == convert_args(input_path@, output_path@, thumbnail_type),
                RunMode::DryRun => a is Skip,
            }
        },
    }
}

fn report(label: &str, path: &String) -> (r: String)
    ensures
        r@ == report_line(label@, path@),
{
    let mut line = label.to_string();
    line.append("\"");
    line.append(path.as_str());
    line.append("\"");
    line
}

fn resize_arg(t: ThumbnailType) -> (r: String)
    ensures
        r@ == resize_geometry(t),
{
    match t {
        ThumbnailType::Small => "400x".to_string(),
        ThumbnailType::Large => "2000x".to_string(),
    }
}

fn crop_arg(t: ThumbnailType) -> (r: String)
    ensures
        r@ == crop_geometry(t),
{
    match t {
        ThumbnailType::Small => "400x267+0+0".to_string(),
        ThumbnailType::Large => "2000x1335+0+0".to_string(),
    }
}

/// Decides how a work item is written: `stale` tells whether its output needs
/// to be rewritten (see [`needs_update`]).
pub fn write_action(item: &WorkItem, mode: RunMode, stale: bool) -> (r: Action)
    ensures
        is_action_for(r, *item, mode, stale),
{
    match item {
        WorkItem::Html { content, output_path } => match mode {
            RunMode::Normal => Action::WriteFile {
                path: output_path.clone(),
                content: content.clone(),
            },
            RunMode::DryRun => Action::Report { line: report("HTML:  ", output_path) },
        },
        WorkItem::Image { input_path, output_path } => {
            if !stale {
                return Action::Skip;
            }
            match mode {
                RunMode::Normal => Action::CopyFile {
                    from: input_path.clone(),
                    to: output_path.clone(),
                },
                RunMode::DryRun => Action::Report { line: report("Image: ", output_path) },
            }
        },
        WorkItem::Thumbnail { input_path, output_path, thumbnail_type } => {
            if !stale {
                return Action::Skip;
            }
            match mode {
                RunMode::Normal => {
                    let args = vec![
                        input_path.clone(),
                        "-resize".to_string(),
                        resize_arg(*thumbnail_type),
                        "-gravity".to_string(),
                        "center".to_string(),
                        "-crop".to_string(),
                        crop_arg(*thumbnail_type),
                        "+repage".to_string(),
                        "-quality".to_string(),
                        "80".to_string(),
                        output_path.clone(),
                    ];
                    assert(args.deep_view() =~= convert_args(
                        input_path@,
                        output_path@,
                        *thumbnail_type,
                    ));
                    Action::Convert {
                        output: output_path.clone(),
                        program: "convert".to_string(),
                        args,
                    }
                },
                RunMode::DryRun => Action::Skip,
            }
        },
    }
}

/// The error for a thumbnail whose conversion failed, with what the tool
/// printed.
pub fn thumbnail_error(input_path: &str, stderr: String, stdout: String) -> (r: GalleryError)
    ensures
        r is Tool,
        r->Tool_input@ == input_path@,
        r->Tool_stderr == stderr,
        r->Tool_stdout == stdout,
{
    GalleryError::Tool { input: input_path.to_string(), stderr, stdout }
}

/// The outcome of running the conversion tool for the thumbnail of
/// `input_path`: success where the tool succeeded, else the error with what
/// it printed.
pub fn thumbnail_outcome(input_path: &str, success: bool, stderr: String, stdout: String) -> (r:
    Result<(), GalleryError>)
    ensures
        success <==> r is Ok,
        !success ==> r->Err_0 is Tool && r->Err_0->Tool_input@ == input_path@ && r->Err_0->Tool_stderr
            == stderr && r->Err_0->Tool_stdout == stdout,
{
    if success {
        Ok(())
    } else {
        Err(thumbnail_error(input_path, stderr, stdout))
    }
}

/// An image or thumbnail whose output is newer than its source is not
/// written again: no copy, no conversion, and nothing that can fail.
pub proof fn lemma_fresh_output_is_skipped(
    item: WorkItem,
    mode: RunMode,
    input_modified: i128,
    output_modified: i128,
    a: Action,
)
    requires
        item is Image || item is Thumbnail,
        output_modified > input_modified,
        is_action_for(a, item, mode, stale(Some(input_modified), Some(output_modified))),
    ensures
        a is Skip,
{
}

/// In dry-run mode no work item writes anything: each is skipped or only
/// reported, and an image that is due is reported by its output path.
pub proof fn lemma_dry_run_writes_nothing(item: WorkItem, stale: bool, a: Action)
    requires
        is_action_for(a, item, RunMode::DryRun, stale),
    ensures
        a is Skip || a is Report,
        item is Image && stale ==> a is Report && a->Report_line@ == report_line(
            "Image: "@,
            item->Image_output_path@,
        ),
{
}

} // verus!
