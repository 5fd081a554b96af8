//! The slug/URL codec: turns one path segment into an ASCII-safe web segment,
//! and joins web segments into URLs and output paths.
use crate::error::GalleryError;
use vstd::prelude::*;

verus! {

/// A character that may stand in a slug.
pub open spec fn is_slug_char(c: char) -> bool {
    ('a' <= c && c <= 'z') || ('0' <= c && c <= '9') || c == '-'
}

/// A slug: lower-case letters, digits and single hyphens, with no hyphen at
/// either end.
pub open spec fn is_slug(s: Seq<char>) -> bool {
    &&& forall|i: int| 0 <= i < s.len() ==> is_slug_char(#[trigger] s[i])
    &&& s.len() > 0 ==> s[0] != '-' && s[s.len() - 1] != '-'
    &&& forall|i: int| 0 <= i < s.len() - 1 ==> !(#[trigger] s[i] == '-' && s[i + 1] == '-')
}

/// What `slug::slugify` makes of a text.
pub uninterp spec fn slug_of(s: Seq<char>) -> Seq<char>;

/// An ASCII letter or digit.
pub open spec fn is_ascii_alphanumeric(c: char) -> bool {
    ('a' <= c && c <= 'z') || ('A' <= c && c <= 'Z') || ('0' <= c && c <= '9')
}

/// Relies on `slug::slugify`: the result depends on the text alone and is a
/// slug; a text that already is a slug comes back unchanged (so the result is
/// its own slug); and every ASCII letter or digit of the text is kept, so a
/// text that holds one has a non-empty slug.
#[verifier::external_body]
pub(crate) fn slugify(s: &str) -> (r: String)
    ensures
        r@ == slug_of(s@),
        is_slug(r@),
        slug_of(r@) == r@,
        is_slug(s@) ==> r@ == s@,
        (exists|i: int| 0 <= i < s@.len() && is_ascii_alphanumeric(#[trigger] s@[i])) ==> r@.len()
            > 0,
{
    slug::slugify(s)
}

/// Index of the last occurrence of `c` in `s`, or -1.
pub open spec fn last_index_of(s: Seq<char>, c: char) -> int
    decreases s.len(),
{
    if s.len() == 0 {
        -1
    } else if s.last() == c {
        s.len() - 1
    } else {
        last_index_of(s.drop_last(), c)
    }
}

/// The base name of a segment: what precedes its final `.ext` suffix, or
/// the whole segment where it has none.
pub open spec fn base_name(s: Seq<char>) -> Seq<char> {
    if last_index_of(s, '.') >= 0 {
        s.subrange(0, last_index_of(s, '.'))
    } else {
        s
    }
}

/// A single path component: not empty, with no separator.
pub open spec fn is_single_segment(s: Seq<char>) -> bool {
    s.len() > 0 && forall|i: int| 0 <= i < s.len() ==> s[i] != '/'
}

/// The web form of a path segment: the slug of its base name, followed by its
/// final `.ext` suffix unchanged where it has one. `None` where the input is
/// not a single path component.
pub open spec fn web_segment(s: Seq<char>) -> Option<Seq<char>> {
    if !is_single_segment(s) {
        None
    } else {
        let d = last_index_of(s, '.');
        if d >= 0 {
            Some(slug_of(s.subrange(0, d)) + seq!['.'] + s.subrange(d + 1, s.len() as int))
        } else {
            Some(slug_of(s))
        }
    }
}

/// The last index of `c` is the one after which no `c` follows.
pub proof fn lemma_last_index_bounds(s: Seq<char>, c: char)
    ensures
        -1 <= last_index_of(s, c) < s.len(),
        last_index_of(s, c) >= 0 ==> s[last_index_of(s, c)] == c,
        forall|j: int| last_index_of(s, c) < j < s.len() ==> s[j] != c,
    decreases s.len(),
{
    if s.len() > 0 && s.last() != c {
        let t = s.drop_last();
        lemma_last_index_bounds(t, c);
        assert forall|j: int| last_index_of(s, c) < j < s.len() implies s[j] != c by {
            if j < t.len() {
                assert(s[j] == t[j]);
            }
        }
    }
}

/// Converts one path segment into an ASCII-safe web segment.
pub fn to_web_segment(segment: &str) -> (r: Result<String, GalleryError>)
    ensures
        match r {
            Ok(w) => web_segment(segment@) == Some(w@),
            Err(e) => web_segment(segment@) is None && e is InvalidSegment
                && e->InvalidSegment_segment@ == segment@,
        },
        // The slug part of the result is a slug.
        r is Ok ==> is_slug(slug_of(base_name(segment@))),
        // A segment without extension that holds an ASCII letter or digit is
        // turned into a fixed point of the codec.
        is_single_segment(segment@) && (forall|j: int|
            0 <= j < segment@.len() ==> segment@[j] != '.') && (exists|j: int|
            0 <= j < segment@.len() && is_ascii_alphanumeric(#[trigger] segment@[j])) ==> r is Ok
            && web_segment(r->Ok_0@) == Some(r->Ok_0@),
{
    let n = segment.unicode_len();
    let mut i: usize = 0;
    let mut has_separator = false;
    let mut dot: Option<usize> = None;
    while i < n
        invariant
            n == segment@.len(),
            i <= n,
            has_separator <==> exists|j: int| 0 <= j < i && segment@[j] == '/',
            match dot {
                Some(d) => d as int == last_index_of(segment@.subrange(0, i as int), '.'),
                None => last_index_of(segment@.subrange(0, i as int), '.') == -1,
            },
        decreases n - i,
    {
        let c = segment.get_char(i);
        assert(segment@.subrange(0, i + 1).drop_last() =~= segment@.subrange(0, i as int));
        if c == '/' {
            has_separator = true;
        }
        if c == '.' {
            dot = Some(i);
        }
        i = i + 1;
    }
    assert(segment@.subrange(0, n as int) =~= segment@);
    if n == 0 || has_separator {
        return Err(GalleryError::InvalidSegment { segment: segment.to_string() });
    }
    proof {
        lemma_last_index_bounds(segment@, '.');
        reveal_strlit(".");
    }
    match dot {
        Some(d) => {
            let base = segment.substring_char(0, d);
            let ext = segment.substring_char(d + 1, n);
            let mut out = slugify(base);
            out.append(".");
            out.append(ext);
            Ok(out)
        },
        None => {
            let out = slugify(segment);
            proof {
                assert forall|j: int| 0 <= j < out@.len() implies out@[j] != '/' && out@[j]
                    != '.' by {
                    assert(is_slug_char(out@[j]));
                }
                lemma_last_index_bounds(out@, '.');
            }
            Ok(out)
        },
    }
}

/// Web segments joined into one URL by slashes.
pub open spec fn joined(segs: Seq<Seq<char>>) -> Seq<char>
    decreases segs.len(),
{
    if segs.len() == 0 {
        seq![]
    } else if segs.len() == 1 {
        segs[0]
    } else {
        joined(segs.drop_last()) + seq!['/'] + segs.last()
    }
}

/// Converts a URL from segment form into a string: the segments joined by
/// slashes.
pub fn url_to_string(url: &Vec<String>) -> (r: String)
    ensures
        r@ == joined(url.deep_view()),
{
    let ghost segs = url.deep_view();
    let mut out = String::new();
    let mut i: usize = 0;
    while i < url.len()
        invariant
            i <= url.len(),
            segs == url.deep_view(),
            out@ == joined(segs.subrange(0, i as int)),
        decreases url.len() - i,
    {
        assert(segs.subrange(0, i + 1).drop_last() =~= segs.subrange(0, i as int));
        assert(segs[i as int] == url@[i as int]@);
        if i == 0 {
            assert(segs.subrange(0, 1)[0] == segs[0]);
        }
        let ghost prev = out@;
        proof {
            reveal_strlit("/");
            assert("/"@ =~= seq!['/']);
        }
        if i > 0 {
            out.append("/");
        }
        out.append(url[i].as_str());
        proof {
            let p = segs.subrange(0, i + 1);
            if i > 0 {
                assert(p.len() > 1);
                assert(p.last() == segs[i as int]);
                assert(out@ =~= prev + seq!['/'] + segs[i as int]);
            } else {
                assert(out@ =~= segs[0]);
            }
        }
        i = i + 1;
    }
    assert(segs.subrange(0, url.len() as int) =~= segs);
    out
}

/// A relative path placed under a base directory.
pub open spec fn path_join(base: Seq<char>, rel: Seq<char>) -> Seq<char> {
    if base.len() == 0 {
        rel
    } else if base.last() == '/' {
        base + rel
    } else {
        base + seq!['/'] + rel
    }
}

/// Places the relative path `rel` under the directory `base`.
pub fn join_path(base: &str, rel: &str) -> (r: String)
    ensures
        r@ == path_join(base@, rel@),
{
    proof {
        reveal_strlit("/");
    }
    let n = base.unicode_len();
    let mut out = base.to_string();
    if n > 0 && base.get_char(n - 1) != '/' {
        out.append("/");
    }
    out.append(rel);
    out
}

/// A file name with its extension replaced by `webp`, or `.webp` appended
/// where it has none (a leading dot starts no extension).
pub open spec fn with_webp_extension(s: Seq<char>) -> Seq<char> {
    let d = last_index_of(s, '.');
    if d > 0 {
        s.subrange(0, d) + seq!['.', 'w', 'e', 'b', 'p']
    } else {
        s + seq!['.', 'w', 'e', 'b', 'p']
    }
}

/// Gives a file name the `webp` extension.
pub fn set_webp_extension(name: &str) -> (r: String)
    ensures
        r@ == with_webp_extension(name@),
{
    let n = name.unicode_len();
    let mut i: usize = n;
    while i > 0 && name.get_char(i - 1) != '.'
        invariant
            n == name@.len(),
            i <= n,
            forall|j: int| i <= j < n ==> name@[j] != '.',
        decreases i,
    {
        i = i - 1;
    }
    proof {
        reveal_strlit(".webp");
        lemma_last_index_bounds(name@, '.');
    }
    let ghost d = last_index_of(name@, '.');
    assert(i == 0 ==> d == -1);
    assert(i > 0 ==> d == i - 1);
    let mut out = if i > 1 {
        name.substring_char(0, i - 1).to_string()
    } else {
        name.to_string()
    };
    out.append(".webp");
    out
}

/// Index of the last `c` in `s`, where there is one.
pub(crate) fn find_last(s: &str, c: char) -> (r: Option<usize>)
    ensures
        match r {
            Some(k) => k == last_index_of(s@, c) && k < s@.len() && s@[k as int] == c,
            None => last_index_of(s@, c) == -1,
        },
{
    let n = s.unicode_len();
    let mut i: usize = n;
    while i > 0 && s.get_char(i - 1) != c
        invariant
            n == s@.len(),
            i <= n,
            forall|j: int| i <= j < n ==> s@[j] != c,
        decreases i,
    {
        i = i - 1;
    }
    proof {
        lemma_last_index_bounds(s@, c);
        lemma_last_index_unique(s@, c, i - 1);
    }
    if i == 0 {
        None
    } else {
        Some(i - 1)
    }
}

/// Any index that holds `c` and after which none follows is the last one.
pub proof fn lemma_last_index_unique(s: Seq<char>, c: char, k: int)
    requires
        -1 <= k < s.len(),
        k >= 0 ==> s[k] == c,
        forall|j: int| k < j < s.len() ==> s[j] != c,
    ensures
        last_index_of(s, c) == k,
{
    lemma_last_index_bounds(s, c);
    let l = last_index_of(s, c);
    if l < k {
        assert(s[k] == c);
    } else if l > k {
        assert(s[l] == c);
    }
}

} // verus!
