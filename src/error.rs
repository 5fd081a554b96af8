//! Errors of the gallery pipeline.
use vstd::prelude::*;

verus! {

/// Everything that can make a generation run fail.
#[derive(Debug, PartialEq, Eq)]
pub enum GalleryError {
    /// A failure tied to a path, reported as `message: path`.
    Path { message: String, path: String },
    /// A failure in handling a file or directory, such as a failed read or
    /// write, reported with the path quoted: `message: "path"`.
    PathContext { message: String, path: String },
    /// A path segment that cannot be made into a web segment: it is empty or
    /// holds a separator.
    InvalidSegment { segment: String },
    /// A description document references images that the group does not hold.
    UnknownImages { file: String, names: Vec<String> },
    /// A description document leaves out images of its group.
    MissingImages { file: String, names: Vec<String> },
    /// A group directory name whose date prefix does not form a calendar date.
    InvalidDate { name: String },
    /// The image conversion tool exited with a failure.
    Tool { input: String, stderr: String, stdout: String },
}

/// Creates a new error with the given message and path.
pub fn path_error(msg: &str, path: &str) -> (r: GalleryError)
    ensures
        r is Path,
        r->Path_message@ == msg@,
        r->Path_path@ == path@,
{
    GalleryError::Path { message: msg.to_string(), path: path.to_string() }
}

/// Creates a new error for a failure in handling the file or directory
/// `path`.
pub fn path_context(msg: &str, path: &str) -> (r: GalleryError)
    ensures
        r is PathContext,
        r->PathContext_message@ == msg@,
        r->PathContext_path@ == path@,
{
    GalleryError::PathContext { message: msg.to_string(), path: path.to_string() }
}

/// Names quoted and joined by commas: `"a", "b"`.
pub open spec fn quoted_list(names: Seq<Seq<char>>) -> Seq<char>
    decreases names.len(),
{
    if names.len() == 0 {
        seq![]
    } else if names.len() == 1 {
        "\""@ + names[0] + "\""@
    } else {
        quoted_list(names.drop_last()) + ", \""@ + names.last() + "\""@
    }
}

/// `text` quoted.
pub open spec fn quoted(text: Seq<char>) -> Seq<char> {
    "\""@ + text + "\""@
}

/// The message that describes an error.
pub open spec fn error_message(e: GalleryError) -> Seq<char> {
    match e {
        GalleryError::Path { message, path } => message@ + ": "@ + path@,
        GalleryError::PathContext { message, path } => message@ + ": "@ + quoted(path@),
        GalleryError::InvalidSegment { segment } => "Not a single path segment: "@ + quoted(
            segment@,
        ),
        GalleryError::UnknownImages { file, names } => "Error in markdown file: "@ + quoted(file@)
            + ": Unknown images in markdown file: "@ + quoted_list(names.deep_view()),
        GalleryError::MissingImages { file, names } => "Error in markdown file: "@ + quoted(file@)
            + ": Images present on disk but missing from the markdown file: "@ + quoted_list(
            names.deep_view(),
        ),
        GalleryError::InvalidDate { name } => "Invalid date in directory name: "@ + quoted(name@),
        GalleryError::Tool { input, stderr, stdout } => "Failed to create thumbnail: "@ + quoted(
            input@,
        ) + "\nstderr:\n"@ + stderr@ + "\n\nstdout:\n"@ + stdout@ + "\n"@,
    }
}

fn push_quoted(out: &mut String, text: &str)
    ensures
        final(out)@ == old(out)@ + quoted(text@),
{
    out.append("\"");
    out.append(text);
    out.append("\"");
}

/// Returns the names quoted and joined by commas.
pub fn markdown_image_error(images: &Vec<String>) -> (r: String)
    ensures
        r@ == quoted_list(images.deep_view()),
{
    let ghost v = images.deep_view();
    let mut out = String::new();
    let mut i: usize = 0;
    while i < images.len()
        invariant
            i <= images.len(),
            v == images.deep_view(),
            out@ == quoted_list(v.subrange(0, i as int)),
        decreases images.len() - i,
    {
        let ghost p = v.subrange(0, i + 1);
        assert(p.drop_last() =~= v.subrange(0, i as int));
        assert(p.last() == images@[i as int]@);
        let ghost before = out@;
        if i > 0 {
            out.append(", ");
        }
        push_quoted(&mut out, images[i].as_str());
        proof {
            if i > 0 {
                assert(out@ =~= before + ", \""@ + p.last() + "\""@) by {
                    reveal_strlit(", \"");
                    reveal_strlit(", ");
                    reveal_strlit("\"");
                }
            } else {
                assert(p.len() == 1);
                assert(out@ =~= "\""@ + p[0] + "\""@);
            }
        }
        i = i + 1;
    }
    assert(v.subrange(0, images.len() as int) =~= v);
    out
}

impl GalleryError {
    /// Describes the error in words.
    pub fn message(&self) -> (r: String)
        ensures
            r@ == error_message(*self),
    {
        match self {
            GalleryError::Path { message, path } => {
                let mut out = message.clone();
                out.append(": ");
                out.append(path.as_str());
                out
            },
            GalleryError::PathContext { message, path } => {
                let mut out = message.clone();
                out.append(": ");
                push_quoted(&mut out, path.as_str());
                out
            },
            GalleryError::InvalidSegment { segment } => {
                let mut out = "Not a single path segment: ".to_string();
                push_quoted(&mut out, segment.as_str());
                out
            },
            GalleryError::UnknownImages { file, names } => {
                let mut out = "Error in markdown file: ".to_string();
                push_quoted(&mut out, file.as_str());
                out.append(": Unknown images in markdown file: ");
                let list = markdown_image_error(names);
                out.append(list.as_str());
                out
            },
            GalleryError::MissingImages { file, names } => {
                let mut out = "Error in markdown file: ".to_string();
                push_quoted(&mut out, file.as_str());
                out.append(": Images present on disk but missing from the markdown file: ");
                let list = markdown_image_error(names);
                out.append(list.as_str());
                out
            },
            GalleryError::InvalidDate { name } => {
                let mut out = "Invalid date in directory name: ".to_string();
                push_quoted(&mut out, name.as_str());
                out
            },
            GalleryError::Tool { input, stderr, stdout } => {
                let mut out = "Failed to create thumbnail: ".to_string();
                push_quoted(&mut out, input.as_str());
                out.append("\nstderr:\n");
                out.append(stderr.as_str());
                out.append("\n\nstdout:\n");
                out.append(stdout.as_str());
                out.append("\n");
                out
            },
        }
    }
}

} // verus!
