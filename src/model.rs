//! Data structures that represent image galleries throughout the pipeline.
use crate::codec::{
    find_last, last_index_of, set_webp_extension, to_web_segment, web_segment,
    with_webp_extension,
};
use crate::error::GalleryError;
use vstd::prelude::*;

verus! {

/// A calendar date.
#[derive(Clone, Copy, Debug, PartialEq, Eq, Structural)]
pub struct Date {
    pub year: u32,
    pub month: u32,
    pub day: u32,
}

pub open spec fn is_leap_year(y: int) -> bool {
    (y % 4 == 0 && y % 100 != 0) || y % 400 == 0
}

pub open spec fn days_in_month(y: int, m: int) -> int {
    if m == 2 {
        if is_leap_year(y) {
            29
        } else {
            28
        }
    } else if m == 4 || m == 6 || m == 9 || m == 11 {
        30
    } else {
        31
    }
}

/// The decimal digits, in order.
pub open spec fn decimal_digits() -> Seq<char> {
    seq!['0', '1', '2', '3', '4', '5', '6', '7', '8', '9']
}

/// The last `width` decimal digits of `n`, zero-padded.
pub open spec fn padded(n: nat, width: nat) -> Seq<char>
    decreases width,
{
    if width == 0 {
        seq![]
    } else {
        padded(n / 10, (width - 1) as nat).push(decimal_digits()[(n % 10) as int])
    }
}

impl Date {
    /// A date of the proleptic Gregorian calendar with a four-digit year.
    pub open spec fn wf(&self) -> bool {
        &&& self.year <= 9999
        &&& 1 <= self.month <= 12
        &&& 1 <= self.day <= days_in_month(self.year as int, self.month as int)
    }

    /// The ISO 8601 form `YYYY-MM-DD`.
    pub open spec fn iso(&self) -> Seq<char> {
        padded(self.year as nat, 4) + seq!['-'] + padded(self.month as nat, 2) + seq!['-']
            + padded(self.day as nat, 2)
    }

    /// Makes a date from its year, month and day, where they form one.
    pub fn from_calendar_date(year: u32, month: u32, day: u32) -> (r: Option<Date>)
        ensures
            match r {
                Some(d) => d.year == year && d.month == month && d.day == day && d.wf(),
                None => !(Date { year, month, day }).wf(),
            },
    {
        if year > 9999 || month < 1 || month > 12 || day < 1 {
            return None;
        }
        let leap = (year % 4 == 0 && year % 100 != 0) || year % 400 == 0;
        let days: u32 = if month == 2 {
            if leap {
                29
            } else {
                28
            }
        } else if month == 4 || month == 6 || month == 9 || month == 11 {
            30
        } else {
            31
        };
        if day > days {
            None
        } else {
            Some(Date { year, month, day })
        }
    }

    /// Formats the date as `YYYY-MM-DD`.
    pub fn to_iso_string(&self) -> (r: String)
        ensures
            r@ == self.iso(),
    {
        proof {
            reveal_strlit("-");
        }
        let mut out = padded_digits(self.year, 4);
        out.append("-");
        let m = padded_digits(self.month, 2);
        out.append(m.as_str());
        out.append("-");
        let d = padded_digits(self.day, 2);
        out.append(d.as_str());
        out
    }
}

/// The last `width` decimal digits of `n`, zero-padded.
fn padded_digits(n: u32, width: u32) -> (r: String)
    ensures
        r@ == padded(n as nat, width as nat),
    decreases width,
{
    if width == 0 {
        return String::new();
    }
    let mut out = padded_digits(n / 10, width - 1);
    let k = (n % 10) as usize;
    let digits = "0123456789";
    proof {
        reveal_strlit("0123456789");
        assert(digits@ =~= decimal_digits());
    }
    let c = digits.substring_char(k, k + 1);
    assert(c@ =~= seq![decimal_digits()[k as int]]);
    out.append(c);
    out
}

/// An input image.
#[derive(Debug, PartialEq, Eq)]
pub struct Image {
    /// The user-visible name of the image.
    pub name: String,
    /// The full path to the source image.
    pub path: String,
    /// The file name of the source image.
    pub file_name: String,
}

/// The last component of a path: what follows its last separator.
pub open spec fn last_component(s: Seq<char>) -> Seq<char> {
    s.subrange(last_index_of(s, '/') + 1, s.len() as int)
}

/// A path without its trailing separators and trailing `.` components.
pub open spec fn trim_end(s: Seq<char>) -> Seq<char>
    decreases s.len(),
{
    if s.len() > 0 && s.last() == '/' {
        trim_end(s.drop_last())
    } else if s.len() >= 2 && s.last() == '.' && s[s.len() - 2] == '/' {
        trim_end(s.subrange(0, s.len() - 2))
    } else {
        s
    }
}

/// The file name of a path: its last component, once trailing separators and
/// `.` components are dropped.
pub open spec fn file_name_of(s: Seq<char>) -> Seq<char> {
    last_component(trim_end(s))
}

/// The part of a path that names its file (see [`file_name_of`]).
pub fn file_name_part(s: &str) -> (r: &str)
    ensures
        r@ == file_name_of(s@),
{
    let n = s.unicode_len();
    let mut m: usize = n;
    assert(s@.subrange(0, n as int) =~= s@);
    while m > 0 && (s.get_char(m - 1) == '/' || (m >= 2 && s.get_char(m - 1) == '.' && s.get_char(
        m - 2,
    ) == '/'))
        invariant
            n == s@.len(),
            m <= n,
            trim_end(s@) == trim_end(s@.subrange(0, m as int)),
        decreases m,
    {
        let ghost t = s@.subrange(0, m as int);
        if s.get_char(m - 1) == '/' {
            assert(t.drop_last() =~= s@.subrange(0, m - 1));
            m = m - 1;
        } else {
            assert(t.subrange(0, t.len() - 2) =~= s@.subrange(0, m - 2));
            m = m - 2;
        }
    }
    let t = s.substring_char(0, m);
    assert(trim_end(t@) == t@);
    let start = match find_last(t, '/') {
        Some(k) => k + 1,
        None => 0,
    };
    let c = t.substring_char(start, m);
    assert(c@ =~= last_component(t@));
    c
}

/// The stem of a file path: its file name without the final extension. A
/// leading dot starts no extension. `None` where the file name is empty, `.`
/// or `..`.
pub open spec fn file_stem(s: Seq<char>) -> Option<Seq<char>> {
    let c = file_name_of(s);
    if c.len() == 0 || c == seq!['.'] || c == seq!['.', '.'] {
        None
    } else {
        let d = last_index_of(c, '.');
        if d > 0 {
            Some(c.subrange(0, d))
        } else {
            Some(c)
        }
    }
}

impl Image {
    /// Makes an image from its file name and full path; its name is the file
    /// stem.
    pub fn new(file_name: String, path: String) -> (r: Result<Image, GalleryError>)
        ensures
            match r {
                Ok(img) => file_stem(file_name@) == Some(img.name@) && img.path@ == path@
                    && img.file_name@ == file_name@,
                Err(e) => file_stem(file_name@) is None && e is PathContext
                    && e->PathContext_message@ == "Failed to determine file stem"@
                    && e->PathContext_path@ == file_name@,
            },
    {
        let component = file_name_part(file_name.as_str());
        let cn = component.unicode_len();
        proof {
            reveal_strlit(".");
            reveal_strlit("..");
        }
        if cn == 0 || (cn == 1 && component.get_char(0) == '.') || (cn == 2 && component.get_char(
            0,
        ) == '.' && component.get_char(1) == '.') {
            proof {
                if cn == 1 {
                    assert(component@ =~= seq!['.']);
                }
                if cn == 2 {
                    assert(component@ =~= seq!['.', '.']);
                }
            }
            return Err(
                crate::error::path_context("Failed to determine file stem", file_name.as_str()),
            );
        }
        assert(component@ != seq!['.'] && component@ != seq!['.', '.']) by {
            if cn == 1 {
                assert(component@[0] != seq!['.'][0]);
            }
            if cn == 2 {
                assert(component@[0] != '.' || component@[1] != '.');
                assert(component@[0] != seq!['.', '.'][0] || component@[1] != seq!['.', '.'][1]);
            }
        }
        let name = match find_last(component, '.') {
            Some(d) if d > 0 => component.substring_char(0, d).to_string(),
            _ => component.to_string(),
        };
        Ok(Image { name, path, file_name })
    }
}

/// Different thumbnail types for different use cases.
///
/// The overview page uses small thumbnails, the image group pages use large
/// thumbnails.
#[derive(Clone, Copy, Debug, PartialEq, Eq, Structural)]
pub enum ThumbnailType {
    Small,
    Large,
}

/// The directory name of a thumbnail size.
pub open spec fn size_dir(t: ThumbnailType) -> Seq<char> {
    match t {
        ThumbnailType::Small => "small"@,
        ThumbnailType::Large => "large"@,
    }
}

fn size_name(t: ThumbnailType) -> (r: &'static str)
    ensures
        r@ == size_dir(t),
{
    match t {
        ThumbnailType::Small => "small",
        ThumbnailType::Large => "large",
    }
}

/// A list of input images.
#[derive(Debug, PartialEq, Eq)]
pub struct ImageGroup {
    /// The path to the image group directory relative to the base directory.
    pub path: String,
    /// The user-visible title of the image group.
    pub title: String,
    /// The date of the image group.
    pub date: Date,
    /// The contained images, sorted alphabetically.
    pub images: Vec<Image>,
    /// An optional markdown file that describes the image group.
    pub markdown_file: Option<String>,
}

/// A gallery of images.
#[derive(Debug, PartialEq, Eq)]
pub struct Gallery {
    /// The list of image groups in the gallery.
    pub image_groups: Vec<ImageGroup>,
}

/// The URL of a group: its web segment.
pub open spec fn group_url_of(group: Seq<char>) -> Option<Seq<Seq<char>>> {
    match web_segment(group) {
        Some(g) => Some(seq![g]),
        None => None,
    }
}

/// The URL of an image: the group's web segment, then the file's.
pub open spec fn image_url_of(group: Seq<char>, file: Seq<char>) -> Option<Seq<Seq<char>>> {
    match (web_segment(group), web_segment(file)) {
        (Some(g), Some(f)) => Some(seq![g, f]),
        _ => None,
    }
}

/// The URL of a thumbnail: under `thumbnails/<size>/`, the group's web
/// segment, then the file's, with the `webp` extension.
pub open spec fn thumbnail_url_of(group: Seq<char>, file: Seq<char>, t: ThumbnailType) -> Option<
    Seq<Seq<char>>,
> {
    match (web_segment(group), web_segment(file)) {
        (Some(g), Some(f)) => Some(seq!["thumbnails"@, size_dir(t), g, with_webp_extension(f)]),
        _ => None,
    }
}

/// A URL in segment form as the spec function `u` gives it, or the error for
/// an invalid segment where it gives none.
pub open spec fn url_result(r: Result<Vec<String>, GalleryError>, u: Option<Seq<Seq<char>>>) -> bool {
    match r {
        Ok(v) => u == Some(v.deep_view()),
        Err(e) => u is None && e is InvalidSegment,
    }
}

impl ImageGroup {
    /// The URL of this image group, relative to the base directory.
    pub fn url(&self) -> (r: Result<Vec<String>, GalleryError>)
        ensures
            url_result(r, group_url_of(self.path@)),
    {
        let g = to_web_segment(self.path.as_str())?;
        let v = vec![g];
        assert(v.deep_view() =~= seq![v@[0]@]);
        Ok(v)
    }

    /// The web-safe file name of an image in this image group.
    pub fn image_filename(&self, img: &Image) -> (r: Result<String, GalleryError>)
        ensures
            match r {
                Ok(f) => web_segment(img.file_name@) == Some(f@),
                Err(e) => web_segment(img.file_name@) is None && e is InvalidSegment,
            },
    {
        to_web_segment(img.file_name.as_str())
    }

    /// The URL of an image in this image group, relative to the base directory.
    pub fn image_url(&self, img: &Image) -> (r: Result<Vec<String>, GalleryError>)
        ensures
            url_result(r, image_url_of(self.path@, img.file_name@)),
    {
        let g = to_web_segment(self.path.as_str())?;
        let f = self.image_filename(img)?;
        let v = vec![g, f];
        assert(v.deep_view() =~= seq![v@[0]@, v@[1]@]);
        Ok(v)
    }

    /// The URL of a thumbnail of an image in this image group, relative to the
    /// base directory. Thumbnails always use the `webp` format.
    pub fn thumbnail_url(&self, img: &Image, thumbnail_type: ThumbnailType) -> (r: Result<
        Vec<String>,
        GalleryError,
    >)
        ensures
            url_result(r, thumbnail_url_of(self.path@, img.file_name@, thumbnail_type)),
    {
        let g = to_web_segment(self.path.as_str())?;
        let f = self.image_filename(img)?;
        let f = set_webp_extension(f.as_str());
        let v = vec!["thumbnails".to_string(), size_name(thumbnail_type).to_string(), g, f];
        assert(v.deep_view() =~= seq![v@[0]@, v@[1]@, v@[2]@, v@[3]@]);
        Ok(v)
    }
}

} // verus!
