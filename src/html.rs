//! The view records of the HTML pages, and the pages built from them.
use crate::codec::{join_path, joined, path_join, slug_of, slugify, url_to_string};
use crate::config::{Config, GalleryOrder};
use crate::error::GalleryError;
use crate::images::images_have_urls;
use crate::markdown::{
    markdown_html, markdown_texts, reordered, seen_names, to_html, token_snippets, weave_error,
    weaves, Rendered,
};
use crate::model::{
    group_url_of, image_url_of, thumbnail_url_of, Gallery, Image, ImageGroup, ThumbnailType,
};
use crate::ordering::{
    lemma_seq_lt_asymmetric, lemma_seq_lt_total, lemma_seq_lt_transitive, seq_lt, str_lt,
};
use vstd::prelude::*;

verus! {

/// Describes a single image on a page.
#[derive(Debug, PartialEq, Eq)]
pub struct ImageData {
    pub url: String,
    pub name: String,
    pub thumbnail: String,
    pub anchor: String,
}

impl Clone for ImageData {
    fn clone(&self) -> (r: Self)
        ensures
            r == *self,
    {
        ImageData {
            url: self.url.clone(),
            name: self.name.clone(),
            thumbnail: self.thumbnail.clone(),
            anchor: self.anchor.clone(),
        }
    }
}

/// `d` describes image `img` of the group at `group`, with thumbnails of size
/// `t`.
pub open spec fn describes_image(d: ImageData, group: Seq<char>, img: Image, t: ThumbnailType) -> bool {
    &&& image_url_of(group, img.file_name@) is Some
    &&& d.url@ == joined(image_url_of(group, img.file_name@)->0)
    &&& d.name@ == img.name@
    &&& d.thumbnail@ == joined(thumbnail_url_of(group, img.file_name@, t)->0)
    &&& d.anchor@ == slug_of(img.name@)
}

/// `ds` describe the images of `g` in order.
pub open spec fn describes_images(ds: Seq<ImageData>, g: ImageGroup, t: ThumbnailType) -> bool {
    &&& ds.len() == g.images.len()
    &&& forall|i: int| 0 <= i < ds.len() ==> describes_image(#[trigger] ds[i], g.path@, g.images@[i], t)
}

/// The title shown for a group: none where it would only repeat the name of
/// its single image.
pub open spec fn shown_title(g: ImageGroup) -> Option<Seq<char>> {
    if g.images.len() == 1 && g.images@[0].name@ == g.title@ {
        None
    } else {
        Some(g.title@)
    }
}

/// The file name that errors of a description document name.
pub open spec fn document_name(markdown_file: Option<String>) -> Seq<char> {
    match markdown_file {
        Some(f) => f@,
        None => seq![],
    }
}

impl ImageData {
    /// Describes an image of a group, with thumbnails of the given size.
    pub fn from_image(image: &Image, image_group: &ImageGroup, thumbnail_type: ThumbnailType) -> (r:
        Result<ImageData, GalleryError>)
        ensures
            match r {
                Ok(d) => describes_image(d, image_group.path@, *image, thumbnail_type),
                Err(e) => image_url_of(image_group.path@, image.file_name@) is None
                    && e is InvalidSegment,
            },
    {
        let url = image_group.image_url(image)?;
        let thumbnail = image_group.thumbnail_url(image, thumbnail_type)?;
        Ok(
            ImageData {
                url: url_to_string(&url),
                name: image.name.clone(),
                thumbnail: url_to_string(&thumbnail),
                anchor: slugify(image.name.as_str()),
            },
        )
    }
}

/// Describes an image group on a page.
#[derive(Debug, PartialEq, Eq)]
pub struct ImageGroupData {
    pub title: Option<String>,
    pub footer: Option<String>,
    pub date: String,
    pub markdown_content: Option<String>,
    pub images: Vec<ImageData>,
    pub url: String,
}

/// `d` describes group `g` with thumbnails of size `t`, under `config`, where
/// `document` is the text of the group's description document, if any: the
/// images appear in the order that weaving the document gives.
pub open spec fn describes_group(
    d: ImageGroupData,
    config: Config,
    g: ImageGroup,
    t: ThumbnailType,
    document: Option<Seq<char>>,
) -> bool {
    &&& images_have_urls(g)
    &&& group_url_of(g.path@) is Some
    &&& d.title.deep_view() == shown_title(g)
    &&& d.footer.deep_view() == config.page_footer.deep_view()
    &&& d.date@ == g.date.iso()
    &&& d.url@ == joined(group_url_of(g.path@)->0)
    &&& match document {
        None => d.markdown_content is None && describes_images(d.images@, g, t),
        Some(doc) => exists|ds: Seq<ImageData>| #[trigger]
            describes_images(ds, g, t) && weaves(markdown_texts(doc), ds) && d.images@ == reordered(
                ds,
                seen_names(markdown_texts(doc), ds),
            ) && d.markdown_content.deep_view() == Some(
                markdown_html(doc, token_snippets(markdown_texts(doc), ds)),
            ),
    }
}

/// `e` is an error that describing group `g` can end in: an image or the
/// group without a URL, or the failed weaving of its description document.
pub open spec fn group_error(
    e: GalleryError,
    g: ImageGroup,
    t: ThumbnailType,
    document: Option<Seq<char>>,
) -> bool {
    ||| e is InvalidSegment && (!images_have_urls(g) || group_url_of(g.path@) is None)
    ||| document is Some && exists|ds: Seq<ImageData>| #[trigger]
        describes_images(ds, g, t) && weave_error(
            e,
            markdown_texts(document->0),
            document_name(g.markdown_file),
            ds,
        )
}

fn clone_footer(footer: &Option<String>) -> (r: Option<String>)
    ensures
        r.deep_view() == footer.deep_view(),
{
    match footer {
        Some(f) => Some(f.clone()),
        None => None,
    }
}

impl ImageGroupData {
    /// Adds the rendered description document and reorders the images to
    /// match it.
    fn add_markdown(self, markdown_file: &Option<String>, document: Option<&str>) -> (r: Result<
        Self,
        GalleryError,
    >)
        ensures
            match document {
                None => r is Ok && r->Ok_0 == self,
                Some(doc) => match r {
                    Ok(d) => d.title == self.title && d.footer == self.footer && d.date == self.date
                        && d.url == self.url && weaves(markdown_texts(doc@), self.images@)
                        && d.images@ == reordered(
                        self.images@,
                        seen_names(markdown_texts(doc@), self.images@),
                    ) && d.markdown_content.deep_view() == Some(
                        markdown_html(doc@, token_snippets(markdown_texts(doc@), self.images@)),
                    ),
                    Err(e) => weave_error(
                        e,
                        markdown_texts(doc@),
                        document_name(*markdown_file),
                        self.images@,
                    ),
                },
            },
    {
        let doc = match document {
            Some(doc) => doc,
            None => {
                return Ok(self);
            },
        };
        let file = match markdown_file {
            Some(f) => f.clone(),
            None => String::new(),
        };
        let ghost imgs = self.images@;
        let res = to_html(doc, file.as_str(), self.images);
        let ghost texts = markdown_texts(doc@);
        match res {
            Ok(rendered) => {
                let Rendered { html, images_seen } = rendered;
                Ok(
                    ImageGroupData {
                        title: self.title,
                        footer: self.footer,
                        date: self.date,
                        markdown_content: Some(html),
                        images: images_seen,
                        url: self.url,
                    },
                )
            },
            Err(e) => {
                assert(weave_error(e, texts, document_name(*markdown_file), imgs));
                Err(e)
            },
        }
    }

    /// Describes an image group with thumbnails of the given size. `document`
    /// is the text of the group's description document, where it has one.
    pub fn from_image_group(
        config: &Config,
        image_group: &ImageGroup,
        thumbnail_type: ThumbnailType,
        document: Option<&str>,
    ) -> (r: Result<ImageGroupData, GalleryError>)
        ensures
            match r {
                Ok(d) => describes_group(
                    d,
                    *config,
                    *image_group,
                    thumbnail_type,
                    match document {
                        Some(s) => Some(s@),
                        None => None,
                    },
                ),
                Err(e) => group_error(
                    e,
                    *image_group,
                    thumbnail_type,
                    match document {
                        Some(s) => Some(s@),
                        None => None,
                    },
                ),
            },
    {
        let ghost g = *image_group;
        let title = if image_group.images.len() == 1 && image_group.images[0].name
            == image_group.title {
            None
        } else {
            Some(image_group.title.clone())
        };
        let mut images: Vec<ImageData> = Vec::new();
        let mut i: usize = 0;
        while i < image_group.images.len()
            invariant
                g == *image_group,
                i <= g.images.len(),
                images.len() == i,
                forall|j: int|
                    0 <= j < i ==> describes_image(
                        #[trigger] images@[j],
                        g.path@,
                        g.images@[j],
                        thumbnail_type,
                    ),
            decreases g.images.len() - i,
        {
            match ImageData::from_image(&image_group.images[i], image_group, thumbnail_type) {
                Ok(d) => images.push(d),
                Err(e) => {
                    assert(image_url_of(g.path@, g.images@[i as int].file_name@) is None);
                    return Err(e);
                },
            }
            i = i + 1;
        }
        let ghost ds = images@;
        assert(describes_images(ds, g, thumbnail_type));
        assert(images_have_urls(g)) by {
            assert forall|j: int| 0 <= j < g.images.len() implies (#[trigger] image_url_of(
                g.path@,
                g.images@[j].file_name@,
            )) is Some by {
                assert(describes_image(ds[j], g.path@, g.images@[j], thumbnail_type));
            }
        }
        let url = image_group.url()?;
        let data = ImageGroupData {
            title,
            footer: clone_footer(&config.page_footer),
            date: image_group.date.to_iso_string(),
            markdown_content: None,
            images,
            url: url_to_string(&url),
        };
        let r = data.add_markdown(&image_group.markdown_file, document);
        match r {
            Ok(d) => {
                assert(describes_images(ds, g, thumbnail_type));
                Ok(d)
            },
            Err(e) => {
                assert(describes_images(ds, g, thumbnail_type));
                Err(e)
            },
        }
    }
}

/// Titles in order: a hidden title first, then by text.
pub open spec fn title_lt(a: Option<Seq<char>>, b: Option<Seq<char>>) -> bool {
    match (a, b) {
        (None, Some(_)) => true,
        (Some(x), Some(y)) => seq_lt(x, y),
        _ => false,
    }
}

/// Two group records with the same date and title.
pub open spec fn same_key(a: ImageGroupData, b: ImageGroupData) -> bool {
    a.date@ == b.date@ && a.title.deep_view() == b.title.deep_view()
}

/// Group record `a` is shown before `b`: by date in the configured direction,
/// and by title between records of the same date.
pub open spec fn shown_before(a: ImageGroupData, b: ImageGroupData, order: GalleryOrder) -> bool {
    if a.date@ != b.date@ {
        match order {
            GalleryOrder::OldestFirst => seq_lt(a.date@, b.date@),
            GalleryOrder::MostRecentFirst => seq_lt(b.date@, a.date@),
        }
    } else {
        title_lt(a.title.deep_view(), b.title.deep_view())
    }
}

/// Records `a` and `b`, made from the groups at `ia` and `ib`, stand in this
/// order: `a` is shown first, or both have the same key and `a` came first.
pub open spec fn in_order(a: ImageGroupData, b: ImageGroupData, ia: int, ib: int, order: GalleryOrder) -> bool {
    shown_before(a, b, order) || (same_key(a, b) && ia < ib)
}

/// `r` holds the records `datas` in sorted order, `r[k]` being `datas[p[k]]`:
/// the stable sort of `datas`.
pub open spec fn sorted_from(
    r: Seq<ImageGroupData>,
    datas: Seq<ImageGroupData>,
    p: Seq<int>,
    order: GalleryOrder,
) -> bool {
    &&& r.len() == datas.len()
    &&& p.len() == datas.len()
    &&& forall|k: int| 0 <= k < r.len() ==> 0 <= #[trigger] p[k] < datas.len() && r[k] == datas[p[k]]
    &&& forall|k: int, l: int| 0 <= k < l < r.len() ==> p[k] != p[l]
    &&& forall|k: int, l: int|
        0 <= k < l < r.len() ==> in_order(#[trigger] r[k], #[trigger] r[l], p[k], p[l], order)
}

/// Of two records, one is shown first, or both have the same key.
pub proof fn lemma_shown_before_total(a: ImageGroupData, b: ImageGroupData, order: GalleryOrder)
    ensures
        shown_before(a, b, order) || shown_before(b, a, order) || same_key(a, b),
        !(shown_before(a, b, order) && shown_before(b, a, order)),
        !(shown_before(a, b, order) && same_key(a, b)),
{
    lemma_seq_lt_total(a.date@, b.date@);
    lemma_seq_lt_asymmetric(a.date@, b.date@);
    match (a.title.deep_view(), b.title.deep_view()) {
        (Some(x), Some(y)) => {
            lemma_seq_lt_total(x, y);
            lemma_seq_lt_asymmetric(x, y);
        },
        _ => {},
    }
}

/// Being shown first is transitive.
pub proof fn lemma_shown_before_transitive(
    a: ImageGroupData,
    b: ImageGroupData,
    c: ImageGroupData,
    order: GalleryOrder,
)
    requires
        shown_before(a, b, order),
        shown_before(b, c, order),
    ensures
        shown_before(a, c, order),
{
    lemma_seq_lt_asymmetric(a.date@, b.date@);
    lemma_seq_lt_asymmetric(b.date@, c.date@);
    if a.date@ != b.date@ && b.date@ != c.date@ {
        match order {
            GalleryOrder::OldestFirst => lemma_seq_lt_transitive(a.date@, b.date@, c.date@),
            GalleryOrder::MostRecentFirst => lemma_seq_lt_transitive(c.date@, b.date@, a.date@),
        }
    } else if a.date@ == b.date@ && b.date@ == c.date@ {
        match (a.title.deep_view(), b.title.deep_view(), c.title.deep_view()) {
            (Some(x), Some(y), Some(z)) => lemma_seq_lt_transitive(x, y, z),
            _ => {},
        }
    }
}

/// Inserting a record made later than all others, after every record that
/// is not shown after it, keeps the records in order.
proof fn lemma_insert_in_order(
    out: Seq<ImageGroupData>,
    p: Seq<int>,
    d: ImageGroupData,
    i: int,
    pos: int,
    order: GalleryOrder,
)
    requires
        0 <= pos <= out.len(),
        p.len() == out.len(),
        forall|k: int| 0 <= k < p.len() ==> #[trigger] p[k] < i,
        forall|k: int, l: int|
            0 <= k < l < out.len() ==> in_order(#[trigger] out[k], #[trigger] out[l], p[k], p[l], order),
        forall|k: int| 0 <= k < pos ==> !shown_before(d, #[trigger] out[k], order),
        pos < out.len() ==> shown_before(d, out[pos], order),
    ensures
        forall|k: int, l: int|
            0 <= k < l < out.len() + 1 ==> in_order(
                #[trigger] out.insert(pos, d)[k],
                #[trigger] out.insert(pos, d)[l],
                p.insert(pos, i)[k],
                p.insert(pos, i)[l],
                order,
            ),
{
    let o2 = out.insert(pos, d);
    let p2 = p.insert(pos, i);
    assert forall|k: int, l: int| 0 <= k < l < out.len() + 1 implies in_order(
        #[trigger] o2[k],
        #[trigger] o2[l],
        p2[k],
        p2[l],
        order,
    ) by {
        if l < pos {
            assert(o2[k] == out[k] && o2[l] == out[l] && p2[k] == p[k] && p2[l] == p[l]);
        } else if l == pos {
            assert(o2[k] == out[k] && p2[k] == p[k]);
            lemma_shown_before_total(d, out[k], order);
            assert(p[k] < i);
        } else if k > pos {
            assert(o2[k] == out[k - 1] && o2[l] == out[l - 1]);
            assert(p2[k] == p[k - 1] && p2[l] == p[l - 1]);
            assert(in_order(out[k - 1], out[l - 1], p[k - 1], p[l - 1], order));
        } else if k == pos {
            assert(o2[l] == out[l - 1]);
            if l - 1 > pos {
                assert(in_order(out[pos], out[l - 1], p[pos], p[l - 1], order));
                if shown_before(out[pos], out[l - 1], order) {
                    lemma_shown_before_transitive(d, out[pos], out[l - 1], order);
                }
            }
        } else {
            assert(o2[k] == out[k] && p2[k] == p[k]);
            assert(o2[l] == out[l - 1] && p2[l] == p[l - 1]);
            assert(in_order(out[k], out[l - 1], p[k], p[l - 1], order));
        }
    }
}

/// Whether group record `a` is shown before `b`.
fn is_shown_before(a: &ImageGroupData, b: &ImageGroupData, order: GalleryOrder) -> (r: bool)
    ensures
        r == shown_before(*a, *b, order),
{
    if a.date != b.date {
        match order {
            GalleryOrder::OldestFirst => str_lt(a.date.as_str(), b.date.as_str()),
            GalleryOrder::MostRecentFirst => str_lt(b.date.as_str(), a.date.as_str()),
        }
    } else {
        match (&a.title, &b.title) {
            (None, Some(_)) => true,
            (Some(x), Some(y)) => str_lt(x.as_str(), y.as_str()),
            _ => false,
        }
    }
}

/// The text of the description document at index `i`, where there is one.
pub open spec fn document_at(documents: Seq<Option<Seq<char>>>, i: int) -> Option<Seq<char>> {
    if 0 <= i < documents.len() {
        documents[i]
    } else {
        None
    }
}

/// `r` are the overview records of `groups`: one record per group,
/// `datas[j]` describing group `j` with small thumbnails, and `r` holding
/// them sorted (see [`sorted_from`]).
pub open spec fn overview_records(
    r: Seq<ImageGroupData>,
    datas: Seq<ImageGroupData>,
    p: Seq<int>,
    config: Config,
    groups: Seq<ImageGroup>,
    documents: Seq<Option<Seq<char>>>,
) -> bool {
    &&& datas.len() == groups.len()
    &&& sorted_from(r, datas, p, config.order)
    &&& forall|j: int|
        0 <= j < datas.len() ==> describes_group(
            #[trigger] datas[j],
            config,
            groups[j],
            ThumbnailType::Small,
            document_at(documents, j),
        )
}

/// The records of the overview, with small thumbnails, sorted by the
/// configured date order and, for equal dates, by title; records that agree
/// on both keep the order of their groups. `documents[i]` is the text of the
/// description document of group `i`, where it has one.
pub fn image_groups_sorted(gallery: &Gallery, config: &Config, documents: &Vec<Option<String>>) -> (r:
    Result<Vec<ImageGroupData>, GalleryError>)
    ensures
        match r {
            Ok(v) => exists|datas: Seq<ImageGroupData>, p: Seq<int>|
                #[trigger] overview_records(
                    v@,
                    datas,
                    p,
                    *config,
                    gallery.image_groups@,
                    documents.deep_view(),
                ),
            Err(e) => exists|j: int|
                0 <= j < gallery.image_groups.len() && group_error(
                    e,
                    #[trigger] gallery.image_groups@[j],
                    ThumbnailType::Small,
                    document_at(documents.deep_view(), j),
                ),
        },
{
    let groups = &gallery.image_groups;
    let ghost docs = documents.deep_view();
    let ghost order = config.order;
    let mut out: Vec<ImageGroupData> = Vec::new();
    let ghost mut datas: Seq<ImageGroupData> = seq![];
    let ghost mut p: Seq<int> = seq![];
    let mut i: usize = 0;
    while i < groups.len()
        invariant
            i <= groups.len(),
            groups@ == gallery.image_groups@,
            docs == documents.deep_view(),
            order == config.order,
            datas.len() == i,
            forall|j: int|
                0 <= j < i ==> describes_group(
                    #[trigger] datas[j],
                    *config,
                    groups@[j],
                    ThumbnailType::Small,
                    document_at(docs, j),
                ),
            out.len() == i,
            p.len() == i,
            forall|k: int| 0 <= k < i ==> 0 <= #[trigger] p[k] < i && out@[k] == datas[p[k]],
            forall|k: int, l: int| 0 <= k < l < i ==> p[k] != p[l],
            forall|k: int, l: int|
                0 <= k < l < i ==> in_order(#[trigger] out@[k], #[trigger] out@[l], p[k], p[l], order),
        decreases groups.len() - i,
    {
        let doc: Option<&str> = if i < documents.len() {
            match &documents[i] {
                Some(s) => Some(s.as_str()),
                None => None,
            }
        } else {
            None
        };
        assert(match doc {
            Some(s) => Some(s@),
            None => None,
        } == document_at(docs, i as int));
        let d = match ImageGroupData::from_image_group(config, &groups[i], ThumbnailType::Small, doc) {
            Ok(d) => d,
            Err(e) => {
                assert(group_error(e, gallery.image_groups@[i as int], ThumbnailType::Small, document_at(docs, i as int)));
                return Err(e);
            },
        };
        let mut pos: usize = 0;
        while pos < out.len() && !is_shown_before(&d, &out[pos], config.order)
            invariant
                pos <= out.len(),
                order == config.order,
                forall|k: int| 0 <= k < pos ==> !shown_before(d, #[trigger] out@[k], order),
            decreases out.len() - pos,
        {
            pos = pos + 1;
        }
        proof {
            lemma_insert_in_order(out@, p, d, i as int, pos as int, order);
            assert forall|k: int| 0 <= k < p.len() implies #[trigger] p[k] < i by {}
        }
        let ghost old_out = out@;
        let ghost old_p = p;
        proof {
            datas = datas.push(d);
            p = p.insert(pos as int, i as int);
        }
        out.insert(pos, d);
        assert(out@ =~= old_out.insert(pos as int, datas[i as int]));
        assert forall|k: int| 0 <= k < i + 1 implies 0 <= #[trigger] p[k] < i + 1 && out@[k] == datas[p[k]] by {
            if k < pos {
                assert(p[k] == old_p[k]);
            } else if k > pos {
                assert(p[k] == old_p[k - 1]);
            }
        }
        assert forall|k: int, l: int| 0 <= k < l < i + 1 implies p[k] != p[l] by {
            if k < pos && l < pos {
            } else if k < pos && l == pos {
                assert(old_p[k] < i);
            } else if k < pos && l > pos {
                assert(p[l] == old_p[l - 1]);
            } else if k == pos {
                assert(p[l] == old_p[l - 1]);
                assert(old_p[l - 1] < i);
            } else {
                assert(p[k] == old_p[k - 1] && p[l] == old_p[l - 1]);
            }
        }
        assert forall|j: int| 0 <= j < i + 1 implies describes_group(
            #[trigger] datas[j],
            *config,
            groups@[j],
            ThumbnailType::Small,
            document_at(docs, j),
        ) by {}
        i = i + 1;
    }
    assert(overview_records(out@, datas, p, *config, gallery.image_groups@, documents.deep_view()));
    let r: Result<Vec<ImageGroupData>, GalleryError> = Ok(out);
    assert(r->Ok_0@ == out@);
    r
}

/// Describes the whole gallery on the overview page.
#[derive(Debug, PartialEq, Eq)]
pub struct GalleryData {
    pub title: String,
    pub footer: Option<String>,
    pub image_groups: Vec<ImageGroupData>,
}

/// The overview page, ready to be rendered through the "overview" template.
#[derive(Debug, PartialEq, Eq)]
pub struct OverviewPage {
    pub data: GalleryData,
    pub output_path: String,
}

/// The page of an image group, ready to be rendered through the
/// "image_group" template.
#[derive(Debug, PartialEq, Eq)]
pub struct GroupPage {
    pub data: ImageGroupData,
    pub output_path: String,
}

/// The path of the overview page: `index.html` under the output directory.
pub open spec fn overview_path(out: Seq<char>) -> Seq<char> {
    path_join(out, "index.html"@)
}

/// The path of a group's page: `index.html` in the group's directory under
/// the output directory.
pub open spec fn group_page_path(out: Seq<char>, group: Seq<char>) -> Option<Seq<char>> {
    match group_url_of(group) {
        Some(u) => Some(path_join(out, joined(u) + "/index.html"@)),
        None => None,
    }
}

/// Builds the overview page: the configured title and footer, and the records
/// of all groups in display order (see [`image_groups_sorted`]).
pub fn render_overview_html(gallery: &Gallery, config: &Config, documents: &Vec<Option<String>>) -> (r:
    Result<OverviewPage, GalleryError>)
    ensures
        match r {
            Ok(page) => page.output_path@ == overview_path(config.output_path@)
                && page.data.title@ == config.page_title@ && page.data.footer.deep_view()
                == config.page_footer.deep_view() && exists|datas: Seq<ImageGroupData>, p: Seq<int>|
                #[trigger] overview_records(
                    page.data.image_groups@,
                    datas,
                    p,
                    *config,
                    gallery.image_groups@,
                    documents.deep_view(),
                ),
            Err(e) => exists|j: int|
                0 <= j < gallery.image_groups.len() && group_error(
                    e,
                    #[trigger] gallery.image_groups@[j],
                    ThumbnailType::Small,
                    document_at(documents.deep_view(), j),
                ),
        },
{
    let image_groups = image_groups_sorted(gallery, config, documents)?;
    let ghost v = image_groups@;
    let data = GalleryData {
        title: config.page_title.clone(),
        footer: clone_footer(&config.page_footer),
        image_groups,
    };
    let page = OverviewPage {
        data,
        output_path: join_path(config.output_path.as_str(), "index.html"),
    };
    assert(page.data.image_groups@ == v);
    Ok(page)
}

/// Builds the page of an image group, with large thumbnails; `None` for a
/// group without a description document, which has no page. `document` is
/// the text of the description document.
pub fn render_image_group_html(image_group: &ImageGroup, config: &Config, document: &str) -> (r:
    Result<Option<GroupPage>, GalleryError>)
    ensures
        image_group.markdown_file is None ==> r is Ok && r->Ok_0 is None,
        image_group.markdown_file is Some ==> match r {
            Ok(page) => page is Some && describes_group(
                page->0.data,
                *config,
                *image_group,
                ThumbnailType::Large,
                Some(document@),
            ) && group_page_path(config.output_path@, image_group.path@) == Some(
                page->0.output_path@,
            ),
            Err(e) => group_error(e, *image_group, ThumbnailType::Large, Some(document@)),
        },
{
    if image_group.markdown_file.is_none() {
        return Ok(None);
    }
    let data = ImageGroupData::from_image_group(
        config,
        image_group,
        ThumbnailType::Large,
        Some(document),
    )?;
    let url = image_group.url()?;
    let mut rel = url_to_string(&url);
    rel.append("/index.html");
    let output_path = join_path(config.output_path.as_str(), rel.as_str());
    Ok(Some(GroupPage { data, output_path }))
}

} // verus!
