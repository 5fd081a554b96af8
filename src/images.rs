//! Plans the images and thumbnails that make up the gallery.
use crate::codec::{join_path, joined, path_join, url_to_string};
use crate::config::Config;
use crate::error::GalleryError;
use crate::model::{image_url_of, thumbnail_url_of, Image, ImageGroup, ThumbnailType};
use crate::output::WorkItem;
use vstd::prelude::*;

verus! {

/// The path of the full-size copy of an image, under the output directory
/// `out`.
pub open spec fn image_output_of(out: Seq<char>, group: Seq<char>, file: Seq<char>) -> Option<
    Seq<char>,
> {
    match image_url_of(group, file) {
        Some(u) => Some(path_join(out, joined(u))),
        None => None,
    }
}

/// The path of a thumbnail relative to the output directory.
pub open spec fn relative_thumbnail_of(group: Seq<char>, file: Seq<char>, t: ThumbnailType) -> Option<
    Seq<char>,
> {
    match thumbnail_url_of(group, file, t) {
        Some(u) => Some(joined(u)),
        None => None,
    }
}

/// The path of a thumbnail under the output directory `out`.
pub open spec fn thumbnail_output_of(
    out: Seq<char>,
    group: Seq<char>,
    file: Seq<char>,
    t: ThumbnailType,
) -> Option<Seq<char>> {
    match relative_thumbnail_of(group, file, t) {
        Some(r) => Some(path_join(out, r)),
        None => None,
    }
}

/// How many work items each image of a group yields: its copy and its small
/// thumbnail, and a large thumbnail where the group has a description document.
pub open spec fn items_per_image(g: ImageGroup) -> int {
    if g.markdown_file is Some {
        3
    } else {
        2
    }
}

/// `items[k]` is a thumbnail of `img` of the given size, under `out`.
pub open spec fn thumbnail_at(
    items: Seq<WorkItem>,
    k: int,
    g: ImageGroup,
    img: Image,
    out: Seq<char>,
    t: ThumbnailType,
) -> bool {
    &&& items[k] is Thumbnail
    &&& items[k]->Thumbnail_input_path@ == img.path@
    &&& items[k]->Thumbnail_thumbnail_type == t
    &&& thumbnail_output_of(out, g.path@, img.file_name@, t) == Some(
        items[k]->Thumbnail_output_path@,
    )
}

/// From index `k` on, `items` hold the work items of image `img` of group `g`:
/// the copy, the small thumbnail, and the large one where the group has a
/// description document.
pub open spec fn planned_at(items: Seq<WorkItem>, k: int, g: ImageGroup, img: Image, out: Seq<char>) -> bool {
    &&& items[k] is Image
    &&& items[k]->Image_input_path@ == img.path@
    &&& image_output_of(out, g.path@, img.file_name@) == Some(items[k]->Image_output_path@)
    &&& thumbnail_at(items, k + 1, g, img, out, ThumbnailType::Small)
    &&& g.markdown_file is Some ==> thumbnail_at(items, k + 2, g, img, out, ThumbnailType::Large)
}

/// Every image of the group has a URL.
pub open spec fn images_have_urls(g: ImageGroup) -> bool {
    forall|i: int|
        0 <= i < g.images.len() ==> (#[trigger] image_url_of(g.path@, g.images@[i].file_name@)) is Some
}

/// `items` are the work items of all images of `g`, image by image.
pub open spec fn is_plan(items: Seq<WorkItem>, g: ImageGroup, out: Seq<char>) -> bool {
    &&& items.len() == items_per_image(g) * g.images.len()
    &&& forall|i: int|
        0 <= i < g.images.len() ==> planned_at(
            items,
            items_per_image(g) * i,
            g,
            #[trigger] g.images@[i],
            out,
        )
}

/// Returns the path to the thumbnail image relative to the output base
/// directory.
pub fn relative_thumbnail_path(group: &ImageGroup, image: &Image, thumbnail_type: ThumbnailType) -> (r:
    Result<String, GalleryError>)
    ensures
        match r {
            Ok(p) => relative_thumbnail_of(group.path@, image.file_name@, thumbnail_type) == Some(
                p@,
            ),
            Err(e) => relative_thumbnail_of(group.path@, image.file_name@, thumbnail_type) is None
                && e is InvalidSegment,
        },
{
    let url = group.thumbnail_url(image, thumbnail_type)?;
    Ok(url_to_string(&url))
}

/// The path of the full-size copy of an image.
fn output_path(group: &ImageGroup, image: &Image, config: &Config) -> (r: Result<String, GalleryError>)
    ensures
        match r {
            Ok(p) => image_output_of(config.output_path@, group.path@, image.file_name@) == Some(
                p@,
            ),
            Err(e) => image_output_of(config.output_path@, group.path@, image.file_name@) is None
                && e is InvalidSegment,
        },
{
    let url = group.image_url(image)?;
    let rel = url_to_string(&url);
    Ok(join_path(config.output_path.as_str(), rel.as_str()))
}

/// Returns the full path to the thumbnail image if a thumbnail is needed, or
/// `None` where it would be unused: no large thumbnail for a group without a
/// page of its own.
fn thumbnail_path(
    group: &ImageGroup,
    image: &Image,
    config: &Config,
    thumbnail_type: ThumbnailType,
) -> (r: Result<Option<String>, GalleryError>)
    ensures
        thumbnail_type == ThumbnailType::Large && group.markdown_file is None ==> r == Ok::<
            Option<String>,
            GalleryError,
        >(None),
        !(thumbnail_type == ThumbnailType::Large && group.markdown_file is None) ==> match r {
            Ok(p) => p is Some && thumbnail_output_of(
                config.output_path@,
                group.path@,
                image.file_name@,
                thumbnail_type,
            ) == Some(p->0@),
            Err(e) => thumbnail_output_of(
                config.output_path@,
                group.path@,
                image.file_name@,
                thumbnail_type,
            ) is None && e is InvalidSegment,
        },
{
    if thumbnail_type == ThumbnailType::Large && group.markdown_file.is_none() {
        return Ok(None);
    }
    let rel = relative_thumbnail_path(group, image, thumbnail_type)?;
    Ok(Some(join_path(config.output_path.as_str(), rel.as_str())))
}

/// Plans a single image: a work item for the image itself and some for its
/// thumbnails.
fn render_image(image: &Image, group: &ImageGroup, config: &Config) -> (r: Result<
    Vec<WorkItem>,
    GalleryError,
>)
    ensures
        match r {
            Ok(v) => image_url_of(group.path@, image.file_name@) is Some && v.len()
                == items_per_image(*group) && planned_at(
                v@,
                0,
                *group,
                *image,
                config.output_path@,
            ),
            Err(e) => image_url_of(group.path@, image.file_name@) is None && e is InvalidSegment,
        },
{
    let out = output_path(group, image, config)?;
    let mut res: Vec<WorkItem> = vec![
        WorkItem::Image { input_path: image.path.clone(), output_path: out },
    ];
    let small = thumbnail_path(group, image, config, ThumbnailType::Small)?;
    if let Some(p) = small {
        res.push(
            WorkItem::Thumbnail {
                input_path: image.path.clone(),
                output_path: p,
                thumbnail_type: ThumbnailType::Small,
            },
        );
    }
    let large = thumbnail_path(group, image, config, ThumbnailType::Large)?;
    if let Some(p) = large {
        res.push(
            WorkItem::Thumbnail {
                input_path: image.path.clone(),
                output_path: p,
                thumbnail_type: ThumbnailType::Large,
            },
        );
    }
    Ok(res)
}

/// Plans all images of a group: for each image in order, its full-size copy,
/// its small thumbnail, and its large thumbnail where the group has a
/// description document.
pub fn render_images(image_group: &ImageGroup, config: &Config) -> (r: Result<
    Vec<WorkItem>,
    GalleryError,
>)
    ensures
        match r {
            Ok(v) => images_have_urls(*image_group) && is_plan(v@, *image_group, config.output_path@),
            Err(e) => !images_have_urls(*image_group) && e is InvalidSegment,
        },
{
    let ghost g = *image_group;
    let ghost out = config.output_path@;
    let ghost w = items_per_image(g);
    let mut res: Vec<WorkItem> = Vec::new();
    let mut i: usize = 0;
    while i < image_group.images.len()
        invariant
            g == *image_group,
            out == config.output_path@,
            w == items_per_image(g),
            w == 2 || w == 3,
            i <= g.images.len(),
            res.len() == w * i,
            forall|j: int| 0 <= j < i ==> image_url_of(g.path@, #[trigger] g.images@[j].file_name@) is Some,
            forall|j: int| 0 <= j < i ==> planned_at(res@, w * j, g, #[trigger] g.images@[j], out),
        decreases g.images.len() - i,
    {
        let mut v = match render_image(&image_group.images[i], image_group, config) {
            Ok(v) => v,
            Err(e) => {
                assert(image_url_of(g.path@, g.images@[i as int].file_name@) is None);
                return Err(e);
            },
        };
        let ghost before = res@;
        let ghost chunk = v@;
        res.append(&mut v);
        proof {
            assert(w * (i + 1) == w * i + w) by (nonlinear_arith);
            assert forall|j: int| 0 <= j < i + 1 implies planned_at(
                res@,
                w * j,
                g,
                #[trigger] g.images@[j],
                out,
            ) by {
                if j < i {
                    assert(w * j + w <= w * i) by (nonlinear_arith)
                        requires
                            j < i,
                            w >= 0,
                    ;
                    assert(planned_at(before, w * j, g, g.images@[j], out));
                    assert(res@[w * j] == before[w * j]);
                    assert(res@[w * j + 1] == before[w * j + 1]);
                    if w == 3 {
                        assert(res@[w * j + 2] == before[w * j + 2]);
                    }
                } else {
                    assert(res@[w * j] == chunk[0]);
                    assert(res@[w * j + 1] == chunk[1]);
                    if w == 3 {
                        assert(res@[w * j + 2] == chunk[2]);
                    }
                }
            }
        }
        i = i + 1;
    }
    Ok(res)
}

/// A group without a description document never yields a large thumbnail;
/// a group with one yields, for each image, exactly one small and one large
/// thumbnail besides its copy.
pub proof fn lemma_large_thumbnails_need_a_document(items: Seq<WorkItem>, g: ImageGroup, out: Seq<char>)
    requires
        is_plan(items, g, out),
    ensures
        g.markdown_file is None ==> forall|k: int|
            0 <= k < items.len() ==> !(#[trigger] items[k] is Thumbnail
                && items[k]->Thumbnail_thumbnail_type == ThumbnailType::Large),
        g.markdown_file is Some ==> items.len() == 3 * g.images.len() && forall|i: int|
            0 <= i < g.images.len() ==> {
                &&& #[trigger] items[3 * i] is Image
                &&& thumbnail_at(items, 3 * i + 1, g, g.images@[i], out, ThumbnailType::Small)
                &&& thumbnail_at(items, 3 * i + 2, g, g.images@[i], out, ThumbnailType::Large)
            },
{
    if g.markdown_file is None {
        assert forall|k: int| 0 <= k < items.len() implies !(#[trigger] items[k] is Thumbnail
            && items[k]->Thumbnail_thumbnail_type == ThumbnailType::Large) by {
            let i = k / 2;
            assert(0 <= i < g.images.len());
            assert(planned_at(items, 2 * i, g, g.images@[i], out));
        }
    } else {
        assert forall|i: int| 0 <= i < g.images.len() implies {
            &&& #[trigger] items[3 * i] is Image
            &&& thumbnail_at(items, 3 * i + 1, g, g.images@[i], out, ThumbnailType::Small)
            &&& thumbnail_at(items, 3 * i + 2, g, g.images@[i], out, ThumbnailType::Large)
        } by {
            assert(planned_at(items, 3 * i, g, g.images@[i], out));
        }
    }
}

/// Where the images of a group have distinct source paths, as the files of
/// one directory do, each image has exactly one small and, with a
/// description document, exactly one large thumbnail: the one at its own
/// position.
pub proof fn lemma_one_thumbnail_of_each_size_per_image(
    items: Seq<WorkItem>,
    g: ImageGroup,
    out: Seq<char>,
)
    requires
        is_plan(items, g, out),
        g.markdown_file is Some,
        forall|i: int, j: int|
            0 <= i < j < g.images.len() ==> (#[trigger] g.images@[i]).path@ != (#[trigger] g.images@[j]).path@,
    ensures
        forall|i: int, k: int|
            0 <= i < g.images.len() && 0 <= k < items.len() && (#[trigger] items[k]) is Thumbnail
                && items[k]->Thumbnail_input_path@ == (#[trigger] g.images@[i]).path@ ==> {
                &&& items[k]->Thumbnail_thumbnail_type == ThumbnailType::Small ==> k == 3 * i + 1
                &&& items[k]->Thumbnail_thumbnail_type == ThumbnailType::Large ==> k == 3 * i + 2
            },
{
    assert forall|i: int, k: int|
        0 <= i < g.images.len() && 0 <= k < items.len() && (#[trigger] items[k]) is Thumbnail
            && items[k]->Thumbnail_input_path@ == (#[trigger] g.images@[i]).path@ implies {
        &&& items[k]->Thumbnail_thumbnail_type == ThumbnailType::Small ==> k == 3 * i + 1
        &&& items[k]->Thumbnail_thumbnail_type == ThumbnailType::Large ==> k == 3 * i + 2
    } by {
        let j = k / 3;
        assert(0 <= j < g.images.len());
        assert(planned_at(items, 3 * j, g, g.images@[j], out));
        assert(k == 3 * j + 1 || k == 3 * j + 2);
        assert(items[k]->Thumbnail_input_path@ == g.images@[j].path@);
        if i < j {
            assert(g.images@[i].path@ != g.images@[j].path@);
        } else if j < i {
            assert(g.images@[j].path@ != g.images@[i].path@);
        }
    }
}

} // verus!
