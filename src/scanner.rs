//! Building a catalog from a folder listing: which entries are photos, what
//! their raw sibling and display name are, and which rating a saved state
//! gives back to each.

use crate::models::{photo_views, ImageInfo, PhotoView, Rating};
use crate::paths::{
    extension, extension_of, file_name, file_name_of, get_raw_variant, raw_variant_of,
    RAW_EXTENSION,
};
use vstd::prelude::*;

verus! {

/// One entry of a folder listing, in the order the listing gave it.
#[derive(Clone, Debug)]
pub struct DirEntry {
    pub path: String,
    pub is_file: bool,
}

/// The extensions of the photos that a scan takes in.
pub open spec fn supported_extension(ext: Seq<char>) -> bool {
    ext == "JPG"@ || ext == "jpg"@
}

pub open spec fn stored_seq(stored: Option<Vec<ImageInfo>>) -> Option<Seq<ImageInfo>> {
    match stored {
        Some(v) => Some(v@),
        None => None,
    }
}

/// The rating of the first saved photo whose processed path is `path`, or
/// `Unrated` when none is.
pub open spec fn rating_in(saved: Seq<ImageInfo>, path: Seq<char>) -> Rating
    decreases saved.len(),
{
    if saved.len() == 0 {
        Rating::Unrated
    } else if saved[0].path_processed@ == path {
        saved[0].rating
    } else {
        rating_in(saved.drop_first(), path)
    }
}

/// The rating that a scan gives the photo at `path`: the saved one, if a
/// saved state is given and holds that path; else `Unrated`.
pub open spec fn restored_rating(stored: Option<Seq<ImageInfo>>, path: Seq<char>) -> Rating {
    match stored {
        Some(saved) => rating_in(saved, path),
        None => Rating::Unrated,
    }
}

/// The photo that the file at `path` becomes, if it is one: its extension
/// is supported and it has a file name.
pub open spec fn photo_at(path: Seq<char>, stored: Option<Seq<ImageInfo>>) -> Option<PhotoView> {
    if extension_of(path) is Some && supported_extension(extension_of(path)->0)
        && file_name_of(path) is Some {
        Some(
            PhotoView {
                processed: path,
                raw: raw_variant_of(path),
                rating: restored_rating(stored, path),
                name: file_name_of(path)->0,
            },
        )
    } else {
        None
    }
}

/// The photos that a listing holds, in the listing's order: one for each
/// regular file that is a photo. Subfolders are left out.
pub open spec fn scanned(entries: Seq<DirEntry>, stored: Option<Seq<ImageInfo>>) -> Seq<PhotoView>
    decreases entries.len(),
{
    if entries.len() == 0 {
        Seq::empty()
    } else {
        let rest = scanned(entries.drop_last(), stored);
        let e = entries.last();
        if e.is_file && photo_at(e.path@, stored) is Some {
            rest.push(photo_at(e.path@, stored)->0)
        } else {
            rest
        }
    }
}

/// A photo has a candidate raw sibling: a path with the raw extension,
/// recorded whether or not the file exists.
pub open spec fn has_raw_candidate(photo: ImageInfo) -> bool {
    photo.path_raw is Some && extension_of(photo.path_raw->0@) == Some(RAW_EXTENSION@)
}

/// Whether a file with this extension is taken into a catalog.
pub fn is_file_extension_supported(extension: &str) -> (r: bool)
    ensures
        r == supported_extension(extension@),
{
    let ext = extension.to_owned();
    if ext == "JPG".to_owned() {
        return true;
    }
    if ext == "jpg".to_owned() {
        return true;
    }
    false
}

/// The rating that the saved state gives the photo at `image_path`:
/// that of the first saved photo with this path, else `Unrated`.
pub fn get_rating_for_image(stored_photos: &Option<Vec<ImageInfo>>, image_path: &str) -> (r:
    Rating)
    ensures
        r == restored_rating(stored_seq(*stored_photos), image_path@),
{
    match stored_photos {
        Some(photos) => {
            let target = image_path.to_owned();
            let mut i: usize = 0;
            assert(photos@.subrange(0, photos@.len() as int) =~= photos@);
            while i < photos.len()
                invariant
                    i <= photos@.len(),
                    target@ == image_path@,
                    stored_seq(*stored_photos) == Some(photos@),
                    rating_in(photos@, target@) == rating_in(
                        photos@.subrange(i as int, photos@.len() as int),
                        target@,
                    ),
                decreases photos@.len() - i,
            {
                let ghost rest = photos@.subrange(i as int, photos@.len() as int);
                assert(rest[0] == photos@[i as int]);
                if photos[i].path_processed == target {
                    return photos[i].rating;
                }
                assert(rest.drop_first() =~= photos@.subrange(i as int + 1, photos@.len() as int));
                i = i + 1;
            }
            Rating::Unrated
        },
        None => Rating::Unrated,
    }
}

/// The photo that the file at `path` becomes: `None` where its extension
/// is missing or unsupported, or it has no file name.
pub fn init_image_info(path: &str, stored_photos: &Option<Vec<ImageInfo>>) -> (r: Option<
    ImageInfo,
>)
    ensures
        match r {
            Some(info) => photo_at(path@, stored_seq(*stored_photos)) == Some(info@),
            None => photo_at(path@, stored_seq(*stored_photos)) is None,
        },
        r matches Some(info) ==> has_raw_candidate(info),
{
    let file_extension = match extension(path) {
        Some(ext) => ext,
        None => return None,
    };
    if !is_file_extension_supported(file_extension.as_str()) {
        return None;
    }
    let filename = match file_name(path) {
        Some(name) => name,
        None => return None,
    };
    let rating = get_rating_for_image(stored_photos, path);
    Some(
        ImageInfo {
            path_processed: path.to_owned(),
            path_raw: get_raw_variant(path),
            rating,
            image_name: filename,
        },
    )
}

/// Appends to `photos` the photos of a folder listing, in its order, with
/// the ratings that the saved state gives them.
pub fn init_photos_state(
    entries: &Vec<DirEntry>,
    photos: &mut Vec<ImageInfo>,
    stored_photos: &Option<Vec<ImageInfo>>,
)
    ensures
        photo_views(final(photos)@) == photo_views(old(photos)@) + scanned(
            entries@,
            stored_seq(*stored_photos),
        ),
        forall|k: int|
            old(photos)@.len() <= k < final(photos)@.len() ==> has_raw_candidate(
                #[trigger] final(photos)@[k],
            ),
{
    let ghost start = photo_views(photos@);
    let ghost first_new = photos@.len();
    let mut i: usize = 0;
    while i < entries.len()
        invariant
            i <= entries@.len(),
            photo_views(photos@) == start + scanned(
                entries@.subrange(0, i as int),
                stored_seq(*stored_photos),
            ),
            first_new <= photos@.len(),
            forall|k: int| first_new <= k < photos@.len() ==> has_raw_candidate(#[trigger] photos@[k]),
        decreases entries@.len() - i,
    {
        assert(entries@.subrange(0, i as int + 1).drop_last() =~= entries@.subrange(0, i as int));
        if entries[i].is_file {
            if let Some(image_info) = init_image_info(entries[i].path.as_str(), stored_photos) {
                let ghost before = photos@;
                photos.push(image_info);
                assert(photo_views(photos@) =~= photo_views(before).push(image_info@));
            }
        }
        i = i + 1;
    }
    assert(entries@.subrange(0, i as int) =~= entries@);
}

proof fn lemma_scanned_ratings(entries: Seq<DirEntry>, stored: Option<Seq<ImageInfo>>)
    ensures
        forall|k: int|
            0 <= k < scanned(entries, stored).len() ==> (#[trigger] scanned(entries, stored)[k]).rating
                == restored_rating(stored, scanned(entries, stored)[k].processed),
    decreases entries.len(),
{
    if entries.len() > 0 {
        lemma_scanned_ratings(entries.drop_last(), stored);
    }
}

proof fn lemma_scanned_holds_entry(entries: Seq<DirEntry>, stored: Option<Seq<ImageInfo>>, i: int)
    requires
        0 <= i < entries.len(),
        entries[i].is_file,
        photo_at(entries[i].path@, stored) is Some,
    ensures
        exists|k: int|
            0 <= k < scanned(entries, stored).len() && (#[trigger] scanned(entries, stored)[k]).processed
                == entries[i].path@,
    decreases entries.len(),
{
    let rest = scanned(entries.drop_last(), stored);
    if i == entries.len() - 1 {
        assert(scanned(entries, stored)[rest.len() as int].processed == entries[i].path@);
    } else {
        lemma_scanned_holds_entry(entries.drop_last(), stored, i);
        let k = choose|k: int|
            0 <= k < rest.len() && (#[trigger] rest[k]).processed == entries.drop_last()[i].path@;
        assert(scanned(entries, stored)[k] == rest[k]);
    }
}

proof fn lemma_rating_in_agreed(saved: Seq<ImageInfo>, path: Seq<char>, r: Rating)
    requires
        exists|k: int| 0 <= k < saved.len() && (#[trigger] saved[k]).path_processed@ == path,
        forall|k: int|
            0 <= k < saved.len() && (#[trigger] saved[k]).path_processed@ == path ==> saved[k].rating
                == r,
    ensures
        rating_in(saved, path) == r,
    decreases saved.len(),
{
    if saved[0].path_processed@ != path {
        let k = choose|k: int| 0 <= k < saved.len() && (#[trigger] saved[k]).path_processed@ == path;
        assert(saved.drop_first()[k - 1] == saved[k]);
        assert forall|j: int|
            0 <= j < saved.drop_first().len() && (#[trigger] saved.drop_first()[j]).path_processed@
                == path implies saved.drop_first()[j].rating == r by {
            assert(saved.drop_first()[j] == saved[j + 1]);
        }
        lemma_rating_in_agreed(saved.drop_first(), path, r);
    }
}

proof fn lemma_scanned_same_ratings(
    entries: Seq<DirEntry>,
    stored: Option<Seq<ImageInfo>>,
    saved: Seq<ImageInfo>,
)
    requires
        forall|i: int|
            0 <= i < entries.len() && (#[trigger] entries[i]).is_file && photo_at(
                entries[i].path@,
                stored,
            ) is Some ==> rating_in(saved, entries[i].path@) == restored_rating(
                stored,
                entries[i].path@,
            ),
    ensures
        scanned(entries, Some(saved)) == scanned(entries, stored),
    decreases entries.len(),
{
    if entries.len() > 0 {
        let init = entries.drop_last();
        assert forall|i: int|
            0 <= i < init.len() && (#[trigger] init[i]).is_file && photo_at(init[i].path@, stored) is Some
                implies rating_in(saved, init[i].path@) == restored_rating(stored, init[i].path@) by {
            assert(init[i] == entries[i]);
        }
        lemma_scanned_same_ratings(init, stored, saved);
        let e = entries.last();
        assert(entries[entries.len() - 1] == e);
    }
}

/// Scanning a folder listing, saving the photos it gives, then scanning the
/// same listing again with those saved photos as the stored state gives back
/// the same photos, each with the rating it had.
pub proof fn lemma_rescan_keeps_ratings(
    entries: Seq<DirEntry>,
    stored: Option<Seq<ImageInfo>>,
    saved: Seq<ImageInfo>,
)
    requires
        photo_views(saved) == scanned(entries, stored),
    ensures
        scanned(entries, Some(saved)) == photo_views(saved),
        forall|k: int|
            0 <= k < saved.len() ==> (#[trigger] scanned(entries, Some(saved))[k]).rating
                == saved[k].rating,
{
    let first = scanned(entries, stored);
    lemma_scanned_ratings(entries, stored);
    assert forall|i: int|
        0 <= i < entries.len() && (#[trigger] entries[i]).is_file && photo_at(
            entries[i].path@,
            stored,
        ) is Some implies rating_in(saved, entries[i].path@) == restored_rating(
        stored,
        entries[i].path@,
    ) by {
        let path = entries[i].path@;
        lemma_scanned_holds_entry(entries, stored, i);
        let k = choose|k: int| 0 <= k < first.len() && (#[trigger] first[k]).processed == path;
        assert(photo_views(saved)[k] == saved[k]@);
        assert forall|j: int|
            0 <= j < saved.len() && (#[trigger] saved[j]).path_processed@ == path implies saved[j].rating
                == restored_rating(stored, path) by {
            assert(photo_views(saved)[j] == saved[j]@);
            assert(first[j].processed == path);
        }
        lemma_rating_in_agreed(saved, path, restored_rating(stored, path));
    }
    lemma_scanned_same_ratings(entries, stored, saved);
    assert forall|k: int| 0 <= k < saved.len() implies (#[trigger] scanned(
        entries,
        Some(saved),
    )[k]).rating == saved[k].rating by {
        assert(photo_views(saved)[k] == saved[k]@);
    }
}

/// Two photos are the same file under the same name, whatever their ratings.
pub open spec fn same_photo_but_rating(a: PhotoView, b: PhotoView) -> bool {
    a.processed == b.processed && a.raw == b.raw && a.name == b.name
}

proof fn lemma_scanned_shape(
    entries: Seq<DirEntry>,
    stored_a: Option<Seq<ImageInfo>>,
    stored_b: Option<Seq<ImageInfo>>,
)
    ensures
        scanned(entries, stored_a).len() == scanned(entries, stored_b).len(),
        forall|k: int|
            0 <= k < scanned(entries, stored_a).len() ==> same_photo_but_rating(
                #[trigger] scanned(entries, stored_a)[k],
                scanned(entries, stored_b)[k],
            ),
    decreases entries.len(),
{
    if entries.len() > 0 {
        lemma_scanned_shape(entries.drop_last(), stored_a, stored_b);
    }
}

/// Scanning a folder listing, rating its photos in any way, saving them,
/// then scanning the same listing again with the saved photos as the stored
/// state gives back the saved photos, each with the rating it was given.
/// The saved catalog holds each path once, as every catalog does.
pub proof fn lemma_rescan_restores_ratings(
    entries: Seq<DirEntry>,
    stored: Option<Seq<ImageInfo>>,
    saved: Seq<ImageInfo>,
)
    requires
        saved.len() == scanned(entries, stored).len(),
        forall|k: int|
            0 <= k < saved.len() ==> same_photo_but_rating(
                #[trigger] saved[k]@,
                scanned(entries, stored)[k],
            ),
        forall|i: int, j: int|
            0 <= i < saved.len() && 0 <= j < saved.len() && i != j ==> (#[trigger] saved[i]).path_processed@
                != (#[trigger] saved[j]).path_processed@,
    ensures
        scanned(entries, Some(saved)) == photo_views(saved),
{
    let first = scanned(entries, stored);
    let second = scanned(entries, Some(saved));
    lemma_scanned_shape(entries, stored, Some(saved));
    lemma_scanned_ratings(entries, Some(saved));
    assert forall|k: int| 0 <= k < saved.len() implies second[k] == #[trigger] photo_views(saved)[k] by {
        assert(same_photo_but_rating(saved[k]@, first[k]));
        assert(same_photo_but_rating(first[k], second[k]));
        let path = saved[k].path_processed@;
        assert forall|j: int|
            0 <= j < saved.len() && (#[trigger] saved[j]).path_processed@ == path implies saved[j].rating
                == saved[k].rating by {
            if j != k {
                assert(saved[j].path_processed@ != saved[k].path_processed@);
            }
        }
        lemma_rating_in_agreed(saved, path, saved[k].rating);
    }
    assert(second =~= photo_views(saved));
}

} // verus!
