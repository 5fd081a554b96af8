//! Markdown weaving: resolves image tags inside a description document
//! against the images of its group.
//!
//! To reference for example a file named "My image.webp", a document holds a
//! text line `!image My image`. Every image of the group must be referenced,
//! and no name may be referenced that the group does not hold.
use crate::error::GalleryError;
use crate::html::ImageData;
use pulldown_cmark::{html, Event, Parser};
use vstd::prelude::*;

verus! {

/// The tokens of a markdown document as `pulldown_cmark` parses it: the text
/// of each text event, `None` for every other event, in document order.
pub uninterp spec fn markdown_texts(doc: Seq<char>) -> Seq<Option<Seq<char>>>;

/// The HTML that `pulldown_cmark` renders for a document whose events are
/// replaced, where `snippets` holds a value at their index, by that raw HTML.
pub uninterp spec fn markdown_html(doc: Seq<char>, snippets: Seq<Option<Seq<char>>>) -> Seq<char>;

/// Relies on `pulldown_cmark::Parser`: the events of a document, in order,
/// each given as its text where it is a text event.
#[verifier::external_body]
fn text_tokens(doc: &str) -> (r: Vec<Option<String>>)
    ensures
        r.deep_view() == markdown_texts(doc@),
{
    Parser::new(doc).map(|e| match e {
        Event::Text(t) => Some(t.to_string()),
        _ => None,
    }).collect()
}

/// Relies on `pulldown_cmark::Parser` and `pulldown_cmark::html::push_html`:
/// renders the document, with each event for which `snippets` holds a value
/// replaced by an HTML event that carries it.
#[verifier::external_body]
fn render_markdown(doc: &str, snippets: Vec<Option<String>>) -> (r: String)
    requires
        snippets.len() == markdown_texts(doc@).len(),
    ensures
        r@ == markdown_html(doc@, snippets.deep_view()),
{
    let events = Parser::new(doc).zip(snippets).map(|(e, s)| match s {
        Some(h) => Event::Html(h.into()),
        None => e,
    });
    let mut out = String::new();
    html::push_html(&mut out, events);
    out
}

/// The tag that introduces an image reference in a text token.
pub open spec fn tag_prefix() -> Seq<char> {
    seq!['!', 'i', 'm', 'a', 'g', 'e', ' ']
}

/// The image name that a text token references, where it is a tag.
pub open spec fn tag_name(text: Seq<char>) -> Option<Seq<char>> {
    if text.len() >= 7 && text.subrange(0, 7) == tag_prefix() {
        Some(text.subrange(7, text.len() as int))
    } else {
        None
    }
}

/// Index of the first image named `name`, or -1.
pub open spec fn first_named(images: Seq<ImageData>, name: Seq<char>) -> int
    decreases images.len(),
{
    if images.len() == 0 {
        -1
    } else {
        let k = first_named(images.drop_last(), name);
        if k >= 0 {
            k
        } else if images.last().name@ == name {
            images.len() - 1
        } else {
            -1
        }
    }
}

/// Index of the last occurrence of `name` in `names`, or -1.
pub open spec fn last_occurrence(names: Seq<Seq<char>>, name: Seq<char>) -> int
    decreases names.len(),
{
    if names.len() == 0 {
        -1
    } else if names.last() == name {
        names.len() - 1
    } else {
        last_occurrence(names.drop_last(), name)
    }
}

/// The names of known images that the tokens reference, in order, repeats
/// kept.
pub open spec fn seen_names(texts: Seq<Option<Seq<char>>>, images: Seq<ImageData>) -> Seq<
    Seq<char>,
>
    decreases texts.len(),
{
    if texts.len() == 0 {
        seq![]
    } else {
        let prev = seen_names(texts.drop_last(), images);
        match texts.last() {
            Some(t) => match tag_name(t) {
                Some(n) => if first_named(images, n) >= 0 {
                    prev.push(n)
                } else {
                    prev
                },
                None => prev,
            },
            None => prev,
        }
    }
}

/// The names that the tokens reference and no image holds, in order.
pub open spec fn unknown_names(texts: Seq<Option<Seq<char>>>, images: Seq<ImageData>) -> Seq<
    Seq<char>,
>
    decreases texts.len(),
{
    if texts.len() == 0 {
        seq![]
    } else {
        let prev = unknown_names(texts.drop_last(), images);
        match texts.last() {
            Some(t) => match tag_name(t) {
                Some(n) => if first_named(images, n) < 0 {
                    prev.push(n)
                } else {
                    prev
                },
                None => prev,
            },
            None => prev,
        }
    }
}

/// The names of the images that `seen` leaves out, in image order.
pub open spec fn missing_names(images: Seq<ImageData>, seen: Seq<Seq<char>>) -> Seq<Seq<char>>
    decreases images.len(),
{
    if images.len() == 0 {
        seq![]
    } else {
        let prev = missing_names(images.drop_last(), seen);
        if last_occurrence(seen, images.last().name@) < 0 {
            prev.push(images.last().name@)
        } else {
            prev
        }
    }
}

/// The HTML that shows an image: its thumbnail, linked to the full image.
pub open spec fn image_snippet(img: ImageData) -> Seq<char> {
    "<div class=\"card shadow-sm mb-3\" id=\""@ + img.anchor@ + "\"><a href=\"../"@ + img.url@
        + "\"><img class=\"card-img-top\" src=\"../"@ + img.thumbnail@ + "\"></a></div>"@
}

/// What replaces a token: the snippet of the image that it references, where
/// it is a text token that references a known image.
pub open spec fn token_snippet(text: Option<Seq<char>>, images: Seq<ImageData>) -> Option<
    Seq<char>,
> {
    match text {
        Some(t) => match tag_name(t) {
            Some(n) => if first_named(images, n) >= 0 {
                Some(image_snippet(images[first_named(images, n)]))
            } else {
                None
            },
            None => None,
        },
        None => None,
    }
}

/// The images whose last reference in `seen` stands at index `j`, in their
/// order.
pub open spec fn with_key(images: Seq<ImageData>, seen: Seq<Seq<char>>, j: int) -> Seq<ImageData>
    decreases images.len(),
{
    if images.len() == 0 {
        seq![]
    } else {
        let prev = with_key(images.drop_last(), seen, j);
        if last_occurrence(seen, images.last().name@) == j {
            prev.push(images.last())
        } else {
            prev
        }
    }
}

/// The images whose last reference stands before index `j`, ordered by that
/// index; images with the same index keep their order.
pub open spec fn ordered_by_keys(images: Seq<ImageData>, seen: Seq<Seq<char>>, j: nat) -> Seq<
    ImageData,
>
    decreases j,
{
    if j == 0 {
        seq![]
    } else {
        ordered_by_keys(images, seen, (j - 1) as nat) + with_key(images, seen, j - 1)
    }
}

/// The images in the order of their last reference in `seen`.
pub open spec fn reordered(images: Seq<ImageData>, seen: Seq<Seq<char>>) -> Seq<ImageData> {
    ordered_by_keys(images, seen, seen.len())
}

/// The error that weaving the tokens `texts` for `images` ends in, where it
/// fails: unknown names first, then missing ones.
pub open spec fn weave_error(
    e: GalleryError,
    texts: Seq<Option<Seq<char>>>,
    file: Seq<char>,
    images: Seq<ImageData>,
) -> bool {
    let unknown = unknown_names(texts, images);
    let missing = missing_names(images, seen_names(texts, images));
    if unknown.len() > 0 {
        e is UnknownImages && e->UnknownImages_file@ == file && e->UnknownImages_names.deep_view()
            == unknown
    } else if missing.len() > 0 {
        e is MissingImages && e->MissingImages_file@ == file && e->MissingImages_names.deep_view()
            == missing
    } else {
        false
    }
}

/// What replaces each token.
pub open spec fn token_snippets(texts: Seq<Option<Seq<char>>>, images: Seq<ImageData>) -> Seq<
    Option<Seq<char>>,
> {
    texts.map_values(|t: Option<Seq<char>>| token_snippet(t, images))
}

/// Weaving the tokens `texts` for `images` succeeds.
pub open spec fn weaves(texts: Seq<Option<Seq<char>>>, images: Seq<ImageData>) -> bool {
    unknown_names(texts, images).len() == 0 && missing_names(images, seen_names(texts, images)).len()
        == 0
}

/// Images referenced in a document, and names referenced that no image holds.
#[derive(Debug, PartialEq, Eq)]
pub struct ImageStatistics {
    /// Images that are referenced in their order of appearance; may repeat.
    pub seen: Vec<String>,
    /// Unknown images in their order of appearance.
    pub unknown: Vec<String>,
}

/// The result of weaving: what replaces each token, and the images in the
/// order in which the document references them.
#[derive(Debug, PartialEq, Eq)]
pub struct Woven {
    pub snippets: Vec<Option<String>>,
    pub images: Vec<ImageData>,
}

/// The output of markdown rendering.
#[derive(Debug, PartialEq, Eq)]
pub struct Rendered {
    /// The HTML output.
    pub html: String,
    /// The images in order of appearance in the markdown file.
    pub images_seen: Vec<ImageData>,
}

/// The name that a text token references, where it is a tag.
fn strip_tag(text: &str) -> (r: Option<&str>)
    ensures
        match r {
            Some(n) => tag_name(text@) == Some(n@),
            None => tag_name(text@) is None,
        },
{
    let prefix = "!image ";
    proof {
        reveal_strlit("!image ");
        assert(prefix@ =~= tag_prefix());
    }
    let n = text.unicode_len();
    if n < 7 {
        return None;
    }
    let mut k: usize = 0;
    while k < 7
        invariant
            n == text@.len(),
            n >= 7,
            k <= 7,
            prefix@ == tag_prefix(),
            forall|j: int| 0 <= j < k ==> text@[j] == tag_prefix()[j],
        decreases 7 - k,
    {
        if text.get_char(k) != prefix.get_char(k) {
            assert(text@.subrange(0, 7)[k as int] != tag_prefix()[k as int]);
            return None;
        }
        k = k + 1;
    }
    assert(text@.subrange(0, 7) =~= tag_prefix());
    Some(text.substring_char(7, n))
}

/// Index of the first image named `name`, where there is one.
fn find_image(images: &Vec<ImageData>, name: &str) -> (r: Option<usize>)
    ensures
        match r {
            Some(k) => k == first_named(images@, name@) && k < images.len(),
            None => first_named(images@, name@) == -1,
        },
{
    let target = name.to_string();
    assert(target@ == name@);
    let mut i: usize = 0;
    while i < images.len()
        invariant
            i <= images.len(),
            target@ == name@,
            first_named(images@.subrange(0, i as int), name@) == -1,
        decreases images.len() - i,
    {
        assert(images@.subrange(0, i + 1).drop_last() =~= images@.subrange(0, i as int));
        if images[i].name == target {
            proof {
                assert(images@.subrange(0, i + 1).last() == images@[i as int]);
                assert(first_named(images@.subrange(0, i + 1), name@) == i);
                lemma_first_named_prefix(images@, i + 1, name@);
            }
            return Some(i);
        }
        i = i + 1;
    }
    assert(images@.subrange(0, images.len() as int) =~= images@);
    None
}

/// A name found in a prefix is found at the same index in the whole.
proof fn lemma_first_named_prefix(images: Seq<ImageData>, i: int, name: Seq<char>)
    requires
        0 <= i <= images.len(),
        first_named(images.subrange(0, i), name) >= 0,
    ensures
        first_named(images, name) == first_named(images.subrange(0, i), name),
    decreases images.len() - i,
{
    if i < images.len() {
        assert(images.subrange(0, i + 1).drop_last() =~= images.subrange(0, i));
        lemma_first_named_prefix(images, i + 1, name);
    } else {
        assert(images.subrange(0, i) =~= images);
    }
}

/// Index of the last occurrence of `name` in `names`, where there is one.
fn last_position(names: &Vec<String>, name: &String) -> (r: Option<usize>)
    ensures
        match r {
            Some(k) => k == last_occurrence(names.deep_view(), name@) && k < names.len(),
            None => last_occurrence(names.deep_view(), name@) == -1,
        },
{
    let ghost v = names.deep_view();
    let mut i: usize = names.len();
    assert(v.subrange(0, i as int) =~= v);
    while i > 0
        invariant
            i <= names.len(),
            v == names.deep_view(),
            last_occurrence(v, name@) == last_occurrence(v.subrange(0, i as int), name@),
        decreases i,
    {
        let ghost p = v.subrange(0, i as int);
        assert(p.drop_last() =~= v.subrange(0, i - 1));
        assert(p.last() == names@[i - 1]@);
        if names[i - 1] == *name {
            return Some(i - 1);
        }
        i = i - 1;
    }
    None
}

/// The HTML snippet that shows an image.
fn image_markdown_snippet(img: &ImageData) -> (r: String)
    ensures
        r@ == image_snippet(*img),
{
    let mut out = "<div class=\"card shadow-sm mb-3\" id=\"".to_string();
    out.append(img.anchor.as_str());
    out.append("\"><a href=\"../");
    out.append(img.url.as_str());
    out.append("\"><img class=\"card-img-top\" src=\"../");
    out.append(img.thumbnail.as_str());
    out.append("\"></a></div>");
    out
}

/// Maps one text token: returns the snippet that replaces it where it
/// references a known image, and records the reference.
fn map_image_text(text: &str, images: &Vec<ImageData>, stats: &mut ImageStatistics) -> (r: Option<
    String,
>)
    ensures
        r.deep_view() == token_snippet(Some(text@), images@),
        final(stats).seen.deep_view() == old(stats).seen.deep_view() + seen_names(
            seq![Some(text@)],
            images@,
        ),
        final(stats).unknown.deep_view() == old(stats).unknown.deep_view() + unknown_names(
            seq![Some(text@)],
            images@,
        ),
{
    proof {
        let t = seq![Some(text@)];
        assert(t.drop_last() =~= Seq::<Option<Seq<char>>>::empty());
        assert(t.last() == Some(text@));
        assert(seen_names(t.drop_last(), images@) == Seq::<Seq<char>>::empty());
        assert(unknown_names(t.drop_last(), images@) == Seq::<Seq<char>>::empty());
    }
    let Some(name) = strip_tag(text) else {
        assert(old(stats).seen.deep_view() + seq![] =~= stats.seen.deep_view());
        assert(old(stats).unknown.deep_view() + seq![] =~= stats.unknown.deep_view());
        return None;
    };
    match find_image(images, name) {
        Some(k) => {
            stats.seen.push(name.to_string());
            assert(old(stats).seen.deep_view() + seq![name@] =~= stats.seen.deep_view());
            assert(old(stats).unknown.deep_view() + seq![] =~= stats.unknown.deep_view());
            Some(image_markdown_snippet(&images[k]))
        },
        None => {
            stats.unknown.push(name.to_string());
            assert(old(stats).seen.deep_view() + seq![] =~= stats.seen.deep_view());
            assert(old(stats).unknown.deep_view() + seq![name@] =~= stats.unknown.deep_view());
            None
        },
    }
}

impl ImageStatistics {
    /// Images of the group that the document does not reference, in image
    /// order.
    pub fn missing(&self, images: &Vec<ImageData>) -> (r: Vec<String>)
        ensures
            r.deep_view() == missing_names(images@, self.seen.deep_view()),
    {
        let mut missing: Vec<String> = Vec::new();
        let mut i: usize = 0;
        while i < images.len()
            invariant
                i <= images.len(),
                missing.deep_view() == missing_names(
                    images@.subrange(0, i as int),
                    self.seen.deep_view(),
                ),
            decreases images.len() - i,
        {
            let ghost p = images@.subrange(0, i + 1);
            assert(p.drop_last() =~= images@.subrange(0, i as int));
            assert(p.last() == images@[i as int]);
            if last_position(&self.seen, &images[i].name).is_none() {
                missing.push(images[i].name.clone());
                assert(missing.deep_view() =~= missing_names(p, self.seen.deep_view()));
            }
            i = i + 1;
        }
        assert(images@.subrange(0, images.len() as int) =~= images@);
        missing
    }
}

/// Where no image is missing, every image is referenced.
pub proof fn lemma_none_missing(images: Seq<ImageData>, seen: Seq<Seq<char>>)
    requires
        missing_names(images, seen).len() == 0,
    ensures
        forall|k: int| 0 <= k < images.len() ==> last_occurrence(seen, #[trigger] images[k].name@) >= 0,
    decreases images.len(),
{
    if images.len() > 0 {
        let p = images.drop_last();
        lemma_none_missing(p, seen);
        assert forall|k: int| 0 <= k < images.len() implies last_occurrence(
            seen,
            #[trigger] images[k].name@,
        ) >= 0 by {
            if k < p.len() {
                assert(images[k] == p[k]);
            }
        }
    }
}

/// Reorders the images to match their appearance in the document. An image
/// referenced more than once takes the place of its last reference; images
/// with the same place keep their order.
pub fn reorder_images(images: Vec<ImageData>, images_seen: &Vec<String>) -> (r: Vec<ImageData>)
    requires
        forall|k: int|
            0 <= k < images.len() ==> last_occurrence(
                images_seen.deep_view(),
                #[trigger] images@[k].name@,
            ) >= 0,
    ensures
        r@ == reordered(images@, images_seen.deep_view()),
{
    let ghost seen = images_seen.deep_view();
    let n = images.len();
    let mut keys: Vec<usize> = Vec::new();
    let mut i: usize = 0;
    while i < n
        invariant
            n == images.len(),
            i <= n,
            seen == images_seen.deep_view(),
            keys.len() == i,
            forall|k: int|
                0 <= k < n ==> last_occurrence(seen, #[trigger] images@[k].name@) >= 0,
            forall|k: int|
                0 <= k < i ==> keys@[k] as int == last_occurrence(seen, #[trigger] images@[k].name@),
        decreases n - i,
    {
        let key = last_position(images_seen, &images[i].name);
        assert(last_occurrence(seen, images@[i as int].name@) >= 0);
        keys.push(key.unwrap());
        i = i + 1;
    }
    let m = images_seen.len();
    let mut out: Vec<ImageData> = Vec::new();
    let mut j: usize = 0;
    while j < m
        invariant
            n == images.len(),
            m == seen.len(),
            j <= m,
            keys.len() == n,
            forall|k: int|
                0 <= k < n ==> keys@[k] as int == last_occurrence(seen, #[trigger] images@[k].name@),
            out@ == ordered_by_keys(images@, seen, j as nat),
        decreases m - j,
    {
        let mut i: usize = 0;
        while i < n
            invariant
                n == images.len(),
                i <= n,
                j < m,
                keys.len() == n,
                forall|k: int|
                    0 <= k < n ==> keys@[k] as int == last_occurrence(
                        seen,
                        #[trigger] images@[k].name@,
                    ),
                out@ == ordered_by_keys(images@, seen, j as nat) + with_key(
                    images@.subrange(0, i as int),
                    seen,
                    j as int,
                ),
            decreases n - i,
        {
            let ghost p = images@.subrange(0, i + 1);
            assert(p.drop_last() =~= images@.subrange(0, i as int));
            assert(p.last() == images@[i as int]);
            let ghost before = out@;
            if keys[i] == j {
                out.push(images[i].clone());
                assert(out@ =~= before.push(images@[i as int]));
            }
            i = i + 1;
        }
        assert(images@.subrange(0, n as int) =~= images@);
        assert(ordered_by_keys(images@, seen, (j + 1) as nat) == ordered_by_keys(
            images@,
            seen,
            j as nat,
        ) + with_key(images@, seen, j as int));
        j = j + 1;
    }
    out
}

/// Weaves the text tokens of a document (`None` for a token that is not
/// text) with the images of its group: each tag that names a known image is
/// replaced by that image's snippet. Fails where the document references
/// unknown images, or else where it leaves images out; on success the images
/// come back in the order in which the document references them.
pub fn weave(texts: &Vec<Option<String>>, input_file: &str, images: Vec<ImageData>) -> (r: Result<
    Woven,
    GalleryError,
>)
    ensures
        match r {
            Ok(w) => weaves(texts.deep_view(), images@) && w.snippets.deep_view()
                == token_snippets(texts.deep_view(), images@) && w.images@ == reordered(
                images@,
                seen_names(texts.deep_view(), images@),
            ),
            Err(e) => weave_error(e, texts.deep_view(), input_file@, images@),
        },
{
    let ghost tv = texts.deep_view();
    let mut stats = ImageStatistics { seen: Vec::new(), unknown: Vec::new() };
    let mut snippets: Vec<Option<String>> = Vec::new();
    let mut i: usize = 0;
    while i < texts.len()
        invariant
            i <= texts.len(),
            tv == texts.deep_view(),
            stats.seen.deep_view() == seen_names(tv.subrange(0, i as int), images@),
            stats.unknown.deep_view() == unknown_names(tv.subrange(0, i as int), images@),
            snippets.deep_view() == token_snippets(tv.subrange(0, i as int), images@),
        decreases texts.len() - i,
    {
        let ghost p = tv.subrange(0, i + 1);
        assert(p.drop_last() =~= tv.subrange(0, i as int));
        assert(p.last() == tv[i as int]);
        let ghost before = snippets.deep_view();
        let s = match &texts[i] {
            Some(t) => {
                let ghost one = seq![Some(t@)];
                assert(one.drop_last() =~= Seq::<Option<Seq<char>>>::empty());
                assert(one.last() == Some(t@));
                assert(tv[i as int] == Some(t@));
                assert(seen_names(one.drop_last(), images@) =~= Seq::<Seq<char>>::empty());
                assert(unknown_names(one.drop_last(), images@) =~= Seq::<Seq<char>>::empty());
                let s = map_image_text(t.as_str(), &images, &mut stats);
                assert(stats.seen.deep_view() =~= seen_names(p, images@));
                assert(stats.unknown.deep_view() =~= unknown_names(p, images@));
                s
            },
            None => None,
        };
        assert(s.deep_view() == token_snippet(tv[i as int], images@));
        snippets.push(s);
        assert(snippets.deep_view() =~= before.push(token_snippet(tv[i as int], images@)));
        assert(snippets.deep_view() =~= token_snippets(p, images@));
        i = i + 1;
    }
    assert(tv.subrange(0, texts.len() as int) =~= tv);
    if stats.unknown.len() > 0 {
        return Err(
            GalleryError::UnknownImages { file: input_file.to_string(), names: stats.unknown },
        );
    }
    let missing = stats.missing(&images);
    if missing.len() > 0 {
        return Err(GalleryError::MissingImages { file: input_file.to_string(), names: missing });
    }
    proof {
        lemma_none_missing(images@, stats.seen.deep_view());
    }
    let ordered = reorder_images(images, &stats.seen);
    Ok(Woven { snippets, images: ordered })
}

/// The outcome of rendering a document whose text tokens are `texts`: the
/// error of weaving them, or the images in the order that weaving gives.
pub open spec fn rendered_from(
    r: Result<Rendered, GalleryError>,
    texts: Seq<Option<Seq<char>>>,
    file: Seq<char>,
    images: Seq<ImageData>,
) -> bool {
    match r {
        Ok(x) => weaves(texts, images) && x.images_seen@ == reordered(
            images,
            seen_names(texts, images),
        ),
        Err(e) => weave_error(e, texts, file, images),
    }
}

/// Renders a description document as HTML, with each image tag replaced by
/// the snippet of the image it names, and validates the references: the
/// outcome is that of weaving the document's text tokens (see [`weave`]).
pub fn to_html(input: &str, input_file: &str, images: Vec<ImageData>) -> (r: Result<
    Rendered,
    GalleryError,
>)
    ensures
        rendered_from(r, markdown_texts(input@), input_file@, images@),
        r is Ok ==> r->Ok_0.html@ == markdown_html(
            input@,
            token_snippets(markdown_texts(input@), images@),
        ),
{
    let texts = text_tokens(input);
    let ghost tv = texts.deep_view();
    let ghost imgs = images@;
    match weave(&texts, input_file, images) {
        Ok(w) => {
            let Woven { snippets, images: ordered } = w;
            assert(snippets.deep_view().len() == tv.len());
            let html = render_markdown(input, snippets);
            Ok(Rendered { html, images_seen: ordered })
        },
        Err(e) => Err(e),
    }
}

} // verus!
