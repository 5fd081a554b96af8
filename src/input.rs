//! Builds image groups from the entries of dated source directories.
//!
//! A group directory is named `YYYY-MM-DD Title`; it holds images with the
//! extension `webp` or `jpeg`, and optionally a description document named
//! `index.md`.
use crate::codec::{find_last, last_index_of};
use crate::error::GalleryError;
use crate::model::{file_name_of, file_name_part, file_stem, Date, Image, ImageGroup};
use crate::ordering::{lemma_seq_lt_asymmetric, lemma_seq_lt_transitive, seq_lt, str_lt};
use vstd::prelude::*;

verus! {

/// Whether a directory name starts with a date prefix, as the pattern
/// `^(\d{4})-(\d{2})-(\d{2}).` of `regex` decides.
pub uninterp spec fn date_prefix_match(name: Seq<char>) -> bool;

/// The pattern of a group directory name: a date, then one more character.
pub const DATE_PREFIX_PATTERN: &'static str = r"^(\d{4})-(\d{2})-(\d{2}).";

/// An ASCII digit.
pub open spec fn is_ascii_digit(c: char) -> bool {
    '0' <= c && c <= '9'
}

/// A name that starts with `YYYY-MM-DD` in ASCII digits, followed by a
/// character other than a line break.
pub open spec fn has_ascii_date_shape(name: Seq<char>) -> bool {
    &&& name.len() >= 11
    &&& forall|i: int| 0 <= i < 10 && i != 4 && i != 7 ==> is_ascii_digit(#[trigger] name[i])
    &&& name[4] == '-' && name[7] == '-'
    &&& name[10] != '\n'
}

/// Relies on `regex::Regex::new` and `regex::Regex::is_match` with
/// [`DATE_PREFIX_PATTERN`]: `\d` matches one decimal digit (ASCII digits
/// among them) and `.` one character other than a line break, so a match
/// spans the first eleven characters, with dashes at the fifth and eighth.
#[verifier::external_body]
fn has_date_prefix(pattern: &str, name: &str) -> (r: bool)
    requires
        pattern@ == DATE_PREFIX_PATTERN@,
    ensures
        r == date_prefix_match(name@),
        r ==> name@.len() >= 11 && name@[4] == '-' && name@[7] == '-',
        has_ascii_date_shape(name@) ==> r,
{
    match regex::Regex::new(pattern) {
        Ok(re) => re.is_match(name),
        Err(_) => false,
    }
}

/// An entry of a source directory.
#[derive(Debug, PartialEq, Eq)]
pub struct DirEntry {
    /// The full path of the entry.
    pub path: String,
    /// The path relative to the directory that holds the entry.
    pub file_name: String,
    pub is_dir: bool,
}

/// The extension of a path: what follows the last dot of its last component,
/// where that dot does not lead it.
pub open spec fn extension_of(s: Seq<char>) -> Option<Seq<char>> {
    let c = file_name_of(s);
    let d = last_index_of(c, '.');
    if c == seq!['.', '.'] || d <= 0 {
        None
    } else {
        Some(c.subrange(d + 1, c.len() as int))
    }
}

/// An image file: one with the extension `webp` or `jpeg`.
pub open spec fn is_image_path(s: Seq<char>) -> bool {
    extension_of(s) == Some("webp"@) || extension_of(s) == Some("jpeg"@)
}

/// The description document of a group: a file named `index.md`.
pub open spec fn is_index_path(s: Seq<char>) -> bool {
    file_name_of(s) == "index.md"@
}

/// The value of a decimal numeral of ASCII digits.
pub open spec fn decimal_value(s: Seq<char>) -> Option<nat>
    decreases s.len(),
{
    if s.len() == 0 {
        Some(0)
    } else {
        let c = s.last();
        match decimal_value(s.drop_last()) {
            Some(v) => if '0' <= c && c <= '9' {
                Some((v * 10 + (c as int - '0' as int)) as nat)
            } else {
                None
            },
            None => None,
        }
    }
}

/// The date that the prefix of a matching directory name spells, where its
/// parts are ASCII numerals.
pub open spec fn prefix_date(name: Seq<char>) -> Option<Date> {
    match (
        decimal_value(name.subrange(0, 4)),
        decimal_value(name.subrange(5, 7)),
        decimal_value(name.subrange(8, 10)),
    ) {
        (Some(y), Some(m), Some(d)) => Some(Date { year: y as u32, month: m as u32, day: d as u32 }),
        _ => None,
    }
}

/// The entries that are images, in order.
pub open spec fn image_entries(es: Seq<DirEntry>) -> Seq<DirEntry>
    decreases es.len(),
{
    if es.len() == 0 {
        seq![]
    } else {
        let prev = image_entries(es.drop_last());
        if is_image_path(es.last().path@) {
            prev.push(es.last())
        } else {
            prev
        }
    }
}

/// The path of the last entry that is a description document.
pub open spec fn index_file(es: Seq<DirEntry>) -> Option<Seq<char>>
    decreases es.len(),
{
    if es.len() == 0 {
        None
    } else if is_index_path(es.last().path@) {
        Some(es.last().path@)
    } else {
        index_file(es.drop_last())
    }
}

/// `img` is the image made from entry `e`.
pub open spec fn made_from(img: Image, e: DirEntry) -> bool {
    file_stem(e.file_name@) == Some(img.name@) && img.path@ == e.path@ && img.file_name@
        == e.file_name@
}

/// Images in order: by name, then path, then file name.
pub open spec fn image_lt(a: Image, b: Image) -> bool {
    ||| seq_lt(a.name@, b.name@)
    ||| a.name@ == b.name@ && seq_lt(a.path@, b.path@)
    ||| a.name@ == b.name@ && a.path@ == b.path@ && seq_lt(a.file_name@, b.file_name@)
}

/// `r` holds the images `imgs` sorted, `r[k]` being `imgs[p[k]]`.
pub open spec fn sorted_images(r: Seq<Image>, imgs: Seq<Image>, p: Seq<int>) -> bool {
    &&& r.len() == imgs.len()
    &&& p.len() == imgs.len()
    &&& forall|k: int| 0 <= k < r.len() ==> 0 <= #[trigger] p[k] < imgs.len() && r[k] == imgs[p[k]]
    &&& forall|k: int, l: int| 0 <= k < l < r.len() ==> p[k] != p[l]
    &&& forall|k: int, l: int| 0 <= k < l < r.len() ==> !image_lt(#[trigger] r[l], #[trigger] r[k])
}

/// `g` is the group that directory `name` with entries `es` forms.
pub open spec fn group_from(g: ImageGroup, name: Seq<char>, es: Seq<DirEntry>) -> bool {
    &&& date_prefix_match(name)
    &&& g.path@ == name
    &&& g.title@ == name.subrange(11, name.len() as int)
    &&& prefix_date(name) == Some(g.date)
    &&& g.date.wf()
    &&& g.markdown_file.deep_view() == index_file(es)
    &&& exists|imgs: Seq<Image>, p: Seq<int>|
        #![trigger sorted_images(g.images@, imgs, p)]
        sorted_images(g.images@, imgs, p) && imgs.len() == image_entries(es).len() && forall|k: int|
            0 <= k < imgs.len() ==> made_from(#[trigger] imgs[k], image_entries(es)[k])
}

impl DirEntry {
    /// Whether the entry is an image file.
    pub fn is_image(&self) -> (r: bool)
        ensures
            r == is_image_path(self.path@),
    {
        let c = file_name_part(self.path.as_str());
        proof {
            reveal_strlit("webp");
            reveal_strlit("jpeg");
        }
        let cn = c.unicode_len();
        if cn == 2 && c.get_char(0) == '.' && c.get_char(1) == '.' {
            assert(c@ =~= seq!['.', '.']);
            return false;
        }
        assert(c@ != seq!['.', '.']) by {
            if cn == 2 {
                assert(c@[0] != seq!['.', '.'][0] || c@[1] != seq!['.', '.'][1]);
            }
        }
        match find_last(c, '.') {
            Some(d) if d > 0 => {
                let ext = c.substring_char(d + 1, cn);
                let en = ext.unicode_len();
                if en != 4 {
                    assert(ext@ != "webp"@ && ext@ != "jpeg"@);
                    return false;
                }
                let webp = ext.get_char(0) == 'w' && ext.get_char(1) == 'e' && ext.get_char(2) == 'b'
                    && ext.get_char(3) == 'p';
                let jpeg = ext.get_char(0) == 'j' && ext.get_char(1) == 'p' && ext.get_char(2) == 'e'
                    && ext.get_char(3) == 'g';
                proof {
                    if webp {
                        assert(ext@ =~= "webp"@);
                    } else {
                        assert(ext@ != "webp"@ || ext@[0] != 'w' || ext@[1] != 'e' || ext@[2] != 'b'
                            || ext@[3] != 'p');
                    }
                    if jpeg {
                        assert(ext@ =~= "jpeg"@);
                    } else {
                        assert(ext@ != "jpeg"@ || ext@[0] != 'j' || ext@[1] != 'p' || ext@[2] != 'e'
                            || ext@[3] != 'g');
                    }
                }
                webp || jpeg
            },
            _ => false,
        }
    }

    /// Whether the entry is a description document.
    pub fn is_index(&self) -> (r: bool)
        ensures
            r == is_index_path(self.path@),
    {
        let c = file_name_part(self.path.as_str());
        let target = "index.md";
        proof {
            reveal_strlit("index.md");
        }
        if c.unicode_len() != 8 {
            assert(c@.len() != target@.len());
            return false;
        }
        let mut k: usize = 0;
        while k < 8
            invariant
                c@.len() == 8,
                target@.len() == 8,
                c@ == file_name_of(self.path@),
                target@ == "index.md"@,
                k <= 8,
                forall|j: int| 0 <= j < k ==> c@[j] == target@[j],
            decreases 8 - k,
        {
            if c.get_char(k) != target.get_char(k) {
                assert(c@[k as int] != target@[k as int]);
                return false;
            }
            k = k + 1;
        }
        assert(c@ =~= target@);
        true
    }
}

impl Image {
    /// The image of a directory entry.
    pub fn from(d: &DirEntry) -> (r: Result<Image, GalleryError>)
        ensures
            match r {
                Ok(img) => made_from(img, *d),
                Err(e) => file_stem(d.file_name@) is None && e is PathContext,
            },
    {
        Image::new(d.file_name.clone(), d.path.clone())
    }
}

/// The value of a short decimal numeral of ASCII digits.
fn parse_decimal(s: &str) -> (r: Option<u32>)
    requires
        s@.len() <= 4,
    ensures
        match r {
            Some(v) => decimal_value(s@) == Some(v as nat),
            None => decimal_value(s@) is None,
        },
{
    let n = s.unicode_len();
    let mut v: u32 = 0;
    let mut i: usize = 0;
    while i < n
        invariant
            n == s@.len(),
            n <= 4,
            i <= n,
            decimal_value(s@.subrange(0, i as int)) == Some(v as nat),
            v < 10000,
            i == 0 ==> v == 0,
            v < pow10(i as nat),
        decreases n - i,
    {
        let c = s.get_char(i);
        assert(s@.subrange(0, i + 1).drop_last() =~= s@.subrange(0, i as int));
        if c < '0' || c > '9' {
            proof {
                lemma_no_value_extends(s@, i as int + 1);
            }
            return None;
        }
        let digit = (c as u32) - ('0' as u32);
        assert(v * 10 + digit < pow10((i + 1) as nat)) by (nonlinear_arith)
            requires
                v < pow10(i as nat),
                digit < 10,
                pow10((i + 1) as nat) == pow10(i as nat) * 10,
        ;
        proof {
            assert(pow10(0) == 1);
            assert(pow10(1) == 10);
            assert(pow10(2) == 100);
            assert(pow10(3) == 1000);
            assert(pow10(4) == 10000);
            lemma_pow10_mono((i + 1) as nat, 4);
        }
        v = v * 10 + digit;
        i = i + 1;
    }
    assert(s@.subrange(0, n as int) =~= s@);
    Some(v)
}

spec fn pow10(n: nat) -> nat
    decreases n,
{
    if n == 0 {
        1
    } else {
        pow10((n - 1) as nat) * 10
    }
}

proof fn lemma_pow10_mono(a: nat, b: nat)
    requires
        a <= b,
    ensures
        pow10(a) <= pow10(b),
    decreases b,
{
    if a < b {
        lemma_pow10_mono(a, (b - 1) as nat);
    }
}

/// A prefix without a value leaves the whole without one.
proof fn lemma_no_value_extends(s: Seq<char>, i: int)
    requires
        0 <= i <= s.len(),
        decimal_value(s.subrange(0, i)) is None,
    ensures
        decimal_value(s) is None,
    decreases s.len() - i,
{
    if i < s.len() {
        assert(s.subrange(0, i + 1).drop_last() =~= s.subrange(0, i));
        lemma_no_value_extends(s, i + 1);
    } else {
        assert(s.subrange(0, i) =~= s);
    }
}

/// Whether image `a` sorts strictly before `b`.
fn is_image_lt(a: &Image, b: &Image) -> (r: bool)
    ensures
        r == image_lt(*a, *b),
{
    proof {
        lemma_seq_lt_asymmetric(a.name@, b.name@);
        lemma_seq_lt_asymmetric(a.path@, b.path@);
    }
    if !(a.name == b.name) {
        return str_lt(a.name.as_str(), b.name.as_str());
    }
    if !(a.path == b.path) {
        return str_lt(a.path.as_str(), b.path.as_str());
    }
    str_lt(a.file_name.as_str(), b.file_name.as_str())
}

/// The order of images is transitive.
proof fn lemma_image_lt_transitive(a: Image, b: Image, c: Image)
    requires
        image_lt(a, b),
        image_lt(b, c),
    ensures
        image_lt(a, c),
{
    if seq_lt(a.name@, b.name@) && seq_lt(b.name@, c.name@) {
        lemma_seq_lt_transitive(a.name@, b.name@, c.name@);
    }
    if a.name@ == b.name@ && b.name@ == c.name@ && seq_lt(a.path@, b.path@) && seq_lt(b.path@, c.path@) {
        lemma_seq_lt_transitive(a.path@, b.path@, c.path@);
    }
    if a.name@ == b.name@ && b.name@ == c.name@ && a.path@ == b.path@ && b.path@ == c.path@ {
        if seq_lt(a.file_name@, b.file_name@) && seq_lt(b.file_name@, c.file_name@) {
            lemma_seq_lt_transitive(a.file_name@, b.file_name@, c.file_name@);
        }
    }
}

/// The order of images is asymmetric.
proof fn lemma_image_lt_asymmetric(a: Image, b: Image)
    ensures
        image_lt(a, b) ==> !image_lt(b, a),
{
    lemma_seq_lt_asymmetric(a.name@, b.name@);
    lemma_seq_lt_asymmetric(a.path@, b.path@);
    lemma_seq_lt_asymmetric(a.file_name@, b.file_name@);
}

/// Sorts images by name, then path, then file name.
fn sort_images(imgs: Vec<Image>) -> (r: Vec<Image>)
    ensures
        exists|p: Seq<int>| #[trigger] sorted_images(r@, imgs@, p),
{
    let ghost src = imgs@;
    let mut rest = imgs;
    let n = rest.len();
    let mut out: Vec<Image> = Vec::new();
    let ghost mut p: Seq<int> = seq![];
    let mut i: usize = 0;
    while i < n
        invariant
            n == src.len(),
            i <= n,
            rest.len() == n - i,
            forall|k: int| 0 <= k < rest.len() ==> rest@[k] == src[k + i],
            out.len() == i,
            p.len() == i,
            forall|k: int| 0 <= k < i ==> 0 <= #[trigger] p[k] < i && out@[k] == src[p[k]],
            forall|k: int, l: int| 0 <= k < l < i ==> p[k] != p[l],
            forall|k: int, l: int| 0 <= k < l < i ==> !image_lt(#[trigger] out@[l], #[trigger] out@[k]),
        decreases n - i,
    {
        let x = rest.remove(0);
        assert(x == src[i as int]);
        let mut pos: usize = 0;
        while pos < out.len() && !is_image_lt(&x, &out[pos])
            invariant
                pos <= out.len(),
                forall|k: int| 0 <= k < pos ==> !image_lt(x, #[trigger] out@[k]),
            decreases out.len() - pos,
        {
            pos = pos + 1;
        }
        let ghost old_out = out@;
        let ghost old_p = p;
        out.insert(pos, x);
        proof {
            p = p.insert(pos as int, i as int);
        }
        assert forall|k: int, l: int| 0 <= k < l < i + 1 implies !image_lt(
            #[trigger] out@[l],
            #[trigger] out@[k],
        ) by {
            if l < pos {
                assert(out@[k] == old_out[k] && out@[l] == old_out[l]);
            } else if l == pos {
                assert(out@[k] == old_out[k]);
            } else if k > pos {
                assert(out@[k] == old_out[k - 1] && out@[l] == old_out[l - 1]);
            } else if k == pos {
                assert(out@[l] == old_out[l - 1]);
                assert(image_lt(x, old_out[pos as int]));
                if l - 1 > pos {
                    assert(!image_lt(old_out[l - 1], old_out[pos as int]));
                }
                if image_lt(old_out[l - 1], x) {
                    lemma_image_lt_transitive(old_out[l - 1], x, old_out[pos as int]);
                }
                lemma_image_lt_asymmetric(x, old_out[pos as int]);
            } else {
                assert(out@[k] == old_out[k] && out@[l] == old_out[l - 1]);
            }
        }
        assert forall|k: int| 0 <= k < i + 1 implies 0 <= #[trigger] p[k] < i + 1 && out@[k]
            == src[p[k]] by {
            if k < pos {
                assert(p[k] == old_p[k] && out@[k] == old_out[k]);
            } else if k > pos {
                assert(p[k] == old_p[k - 1] && out@[k] == old_out[k - 1]);
            }
        }
        assert forall|k: int, l: int| 0 <= k < l < i + 1 implies p[k] != p[l] by {
            if k < pos && l < pos {
            } else if k < pos && l == pos {
                assert(old_p[k] < i);
            } else if k < pos {
                assert(p[l] == old_p[l - 1]);
            } else if k == pos {
                assert(old_p[l - 1] < i);
            } else {
                assert(p[k] == old_p[k - 1] && p[l] == old_p[l - 1]);
            }
        }
        i = i + 1;
    }
    assert(sorted_images(out@, src, p));
    out
}

impl ImageGroup {
    /// Builds the image group of the directory `path`, a single directory name,
    /// from its entries; `None` where the name does not start with a date.
    pub fn from_entries(path: &str, v: &Vec<DirEntry>) -> (r: Result<Option<ImageGroup>, GalleryError>)
        ensures
            !(path@.len() >= 11 && path@[4] == '-' && path@[7] == '-') ==> r is Ok && r->Ok_0 is None,
            has_ascii_date_shape(path@) ==> !(r is Ok && r->Ok_0 is None),
            match r {
                Ok(None) => !date_prefix_match(path@),
                Ok(Some(g)) => group_from(g, path@, v@),
                Err(e) => date_prefix_match(path@) && (match prefix_date(path@) {
                    Some(d) => !d.wf(),
                    None => true,
                } && e is InvalidDate || e is PathContext && exists|k: int|
                    0 <= k < image_entries(v@).len() && file_stem(
                        (#[trigger] image_entries(v@)[k]).file_name@,
                    ) is None),
            },
    {
        if !has_date_prefix(DATE_PREFIX_PATTERN, path) {
            return Ok(None);
        }
        let n = path.unicode_len();
        let title = path.substring_char(11, n).to_string();
        let y = parse_decimal(path.substring_char(0, 4));
        let m = parse_decimal(path.substring_char(5, 7));
        let d = parse_decimal(path.substring_char(8, 10));
        let invalid = GalleryError::InvalidDate { name: path.to_string() };
        let (y, m, d) = match (y, m, d) {
            (Some(y), Some(m), Some(d)) => (y, m, d),
            _ => {
                return Err(invalid);
            },
        };
        let date = match Date::from_calendar_date(y, m, d) {
            Some(date) => date,
            None => {
                return Err(invalid);
            },
        };
        let mut images: Vec<Image> = Vec::new();
        let mut markdown_file: Option<String> = None;
        let mut i: usize = 0;
        while i < v.len()
            invariant
                i <= v.len(),
                date_prefix_match(path@),
                path@.len() >= 11 && path@[4] == '-' && path@[7] == '-',
                images.len() == image_entries(v@.subrange(0, i as int)).len(),
                forall|k: int|
                    0 <= k < images.len() ==> made_from(
                        #[trigger] images@[k],
                        image_entries(v@.subrange(0, i as int))[k],
                    ),
                markdown_file.deep_view() == index_file(v@.subrange(0, i as int)),
            decreases v.len() - i,
        {
            let ghost pre = v@.subrange(0, i as int);
            let ghost cur = v@.subrange(0, i + 1);
            assert(cur.drop_last() =~= pre);
            assert(cur.last() == v@[i as int]);
            if v[i].is_image() {
                match Image::from(&v[i]) {
                    Ok(img) => images.push(img),
                    Err(e) => {
                        proof {
                            lemma_image_entries_prefix(v@, i as int + 1);
                            assert(is_image_path(cur.last().path@));
                            assert(image_entries(cur) == image_entries(pre).push(cur.last()));
                            let k = image_entries(cur).len() - 1;
                            assert(image_entries(cur)[k] == v@[i as int]);
                            assert(image_entries(v@)[k] == v@[i as int]);
                            assert(file_stem(image_entries(v@)[k].file_name@) is None);
                        }
                        return Err(e);
                    },
                }
            }
            if v[i].is_index() {
                markdown_file = Some(v[i].path.clone());
            }
            i = i + 1;
        }
        assert(v@.subrange(0, v.len() as int) =~= v@);
        let ghost imgs = images@;
        let sorted = sort_images(images);
        let ghost sv = sorted@;
        let g = ImageGroup { path: path.to_string(), title, date, images: sorted, markdown_file };
        assert(g.images@ == sv);
        proof {
            let p = choose|p: Seq<int>| #[trigger] sorted_images(sv, imgs, p);
            assert(sorted_images(g.images@, imgs, p));
            reveal_strlit("-");
        }
        Ok(Some(g))
    }
}

/// The image entries of a prefix are a prefix of the image entries.
proof fn lemma_image_entries_prefix(es: Seq<DirEntry>, i: int)
    requires
        0 <= i <= es.len(),
    ensures
        image_entries(es.subrange(0, i)).len() <= image_entries(es).len(),
        forall|k: int|
            0 <= k < image_entries(es.subrange(0, i)).len() ==> image_entries(es)[k]
                == #[trigger] image_entries(es.subrange(0, i))[k],
    decreases es.len() - i,
{
    if i < es.len() {
        lemma_image_entries_prefix(es, i + 1);
        let cur = es.subrange(0, i + 1);
        assert(cur.drop_last() =~= es.subrange(0, i));
        let prev = image_entries(es.subrange(0, i));
        assert forall|k: int| 0 <= k < prev.len() implies image_entries(cur)[k] == prev[k] by {}
    } else {
        assert(es.subrange(0, i) =~= es);
    }
}

} // verus!
