//! The state of a culling session: the open folder, its catalog, the photo
//! under review, and the operations that the user's commands map onto.

use crate::models::{photo_views, ImageInfo, Rating};
use crate::navigation::{
    all_rated, first_unrated, get_first_unrated_image_index, get_next_picture_index,
    get_previous_picture_index, is_unrated, next_unrated, number_of_unrated_images,
    previous_unrated, unrated_count,
};
use crate::paths::{
    get_chaffe_dir, get_wheat_dir, path_joined, state_dir, state_file, STATE_DIR_NAME, STATE_FILE_NAME,
};
use crate::scanner::{init_photos_state, scanned, stored_seq, DirEntry};
use vstd::prelude::*;

verus! {

/// How many textures a folder-open loads by default.
pub const DEFAULT_MAX_TEXTURE_COUNT: usize = 200;

/// A command from the user, each one operation of the session.
#[derive(Clone, Copy, Debug, PartialEq, Eq, Structural)]
pub enum Command {
    /// Move to the next unrated photo.
    NextPhoto,
    /// Move to the previous unrated photo.
    PreviousPhoto,
    /// Approve the photo under review, then move to the next unrated one.
    ApproveAndAdvance,
    /// Remove the photo under review, then move to the next unrated one.
    RemoveAndAdvance,
}

/// One culling session. `photos_index` is the photo under review: a valid
/// index, or 0 for an empty catalog. `generation` counts the folders opened,
/// so that work begun for an earlier folder can be told apart and dropped.
pub struct BlitzApp {
    pub photos_index: usize,
    pub photos: Vec<ImageInfo>,
    pub photo_dir: String,
    pub wheat_dir_target: Option<String>,
    pub chaffe_dir_target: Option<String>,
    pub max_texture_count: usize,
    pub generation: u64,
}

impl Default for BlitzApp {
    fn default() -> (r: BlitzApp)
        ensures
            r.wf(),
            r.photos@.len() == 0,
            r.photo_dir@.len() == 0,
            r.wheat_dir_target is None,
            r.chaffe_dir_target is None,
            r.max_texture_count == DEFAULT_MAX_TEXTURE_COUNT,
            r.generation == 0,
    {
        BlitzApp {
            photos_index: 0,
            photos: Vec::new(),
            photo_dir: String::new(),
            wheat_dir_target: None,
            chaffe_dir_target: None,
            max_texture_count: DEFAULT_MAX_TEXTURE_COUNT,
            generation: 0,
        }
    }
}

/// Two sessions share their folder, destinations, texture budget and
/// generation.
pub open spec fn same_settings(a: &BlitzApp, b: &BlitzApp) -> bool {
    &&& a.photo_dir == b.photo_dir
    &&& a.wheat_dir_target == b.wheat_dir_target
    &&& a.chaffe_dir_target == b.chaffe_dir_target
    &&& a.max_texture_count == b.max_texture_count
    &&& a.generation == b.generation
}

/// The photos of two catalogs are the same but for their ratings.
pub open spec fn same_photos_but_ratings(a: Seq<ImageInfo>, b: Seq<ImageInfo>) -> bool {
    &&& a.len() == b.len()
    &&& forall|k: int|
        0 <= k < a.len() ==> (#[trigger] a[k]).path_processed == b[k].path_processed
            && a[k].path_raw == b[k].path_raw && a[k].image_name == b[k].image_name
}

impl BlitzApp {
    pub open spec fn wf(&self) -> bool {
        if self.photos@.len() == 0 {
            self.photos_index == 0
        } else {
            self.photos_index < self.photos@.len()
        }
    }

    /// Whether every photo of the catalog is rated: the review is complete
    /// and the ratings are ready to commit.
    pub fn is_review_complete(&self) -> (r: bool)
        ensures
            r == all_rated(self.photos@),
    {
        let n = number_of_unrated_images(self.photos.as_slice());
        proof {
            lemma_unrated_count_zero(self.photos@);
        }
        n == 0
    }

    /// The photo under review, if the catalog holds any.
    pub fn current_photo(&self) -> (r: Option<&ImageInfo>)
        requires
            self.wf(),
        ensures
            self.photos@.len() == 0 ==> r is None,
            self.photos@.len() > 0 ==> r == Some(&self.photos@[self.photos_index as int]),
    {
        if self.photos_index < self.photos.len() {
            Some(&self.photos[self.photos_index])
        } else {
            None
        }
    }

    /// Puts the photo at `index` under review; an index past the catalog
    /// changes nothing.
    pub fn select_photo(&mut self, index: usize)
        requires
            old(self).wf(),
        ensures
            final(self).wf(),
            final(self).photos == old(self).photos,
            same_settings(final(self), old(self)),
            index < old(self).photos@.len() ==> final(self).photos_index == index,
            index >= old(self).photos@.len() ==> final(self).photos_index == old(self).photos_index,
    {
        if index < self.photos.len() {
            self.photos_index = index;
        }
    }

    /// Sets the rating of the photo under review; nothing for an empty
    /// catalog.
    pub fn rate_current(&mut self, rating: Rating)
        requires
            old(self).wf(),
        ensures
            final(self).wf(),
            final(self).photos_index == old(self).photos_index,
            same_settings(final(self), old(self)),
            same_photos_but_ratings(final(self).photos@, old(self).photos@),
            old(self).photos@.len() > 0 ==> final(self).photos@[old(self).photos_index as int].rating
                == rating,
            forall|k: int|
                0 <= k < old(self).photos@.len() && k != old(self).photos_index ==> (
                #[trigger] final(self).photos@[k]).rating == old(self).photos@[k].rating,
    {
        if self.photos_index < self.photos.len() {
            let i = self.photos_index;
            self.photos[i].rating = rating;
        }
    }

    /// The folder where approved photos go: the chosen one, or "wheat" in
    /// the photo folder.
    pub fn wheat_dir(&self) -> (r: String)
        ensures
            self.wheat_dir_target is Some ==> r@ == self.wheat_dir_target->0@,
            self.wheat_dir_target is None ==> r@ == path_joined(self.photo_dir@, "wheat"@),
    {
        match &self.wheat_dir_target {
            Some(target) => target.clone(),
            None => get_wheat_dir(self.photo_dir.as_str()),
        }
    }

    /// The folder where removed photos go: the chosen one, or "chaffe" in
    /// the photo folder.
    pub fn chaffe_dir(&self) -> (r: String)
        ensures
            self.chaffe_dir_target is Some ==> r@ == self.chaffe_dir_target->0@,
            self.chaffe_dir_target is None ==> r@ == path_joined(self.photo_dir@, "chaffe"@),
    {
        match &self.chaffe_dir_target {
            Some(target) => target.clone(),
            None => get_chaffe_dir(self.photo_dir.as_str()),
        }
    }

    /// Opens a folder: the catalog becomes the photos of its listing, with
    /// the ratings of the saved state, and the first unrated photo (else the
    /// first photo) is put under review. Starts a new generation.
    pub fn open_folder(
        &mut self,
        photo_dir: String,
        entries: &Vec<DirEntry>,
        stored_photos: Option<Vec<ImageInfo>>,
    )
        ensures
            final(self).wf(),
            final(self).photo_dir == photo_dir,
            photo_views(final(self).photos@) == scanned(entries@, stored_seq(stored_photos)),
            first_unrated(final(self).photos@) < final(self).photos@.len() ==> final(self).photos_index == first_unrated(final(self).photos@),
            first_unrated(final(self).photos@) == final(self).photos@.len() ==> final(self).photos_index == 0,
            final(self).generation == (if old(self).generation == u64::MAX {
                0
            } else {
                (old(self).generation + 1) as u64
            }),
            final(self).wheat_dir_target == old(self).wheat_dir_target,
            final(self).chaffe_dir_target == old(self).chaffe_dir_target,
            final(self).max_texture_count == old(self).max_texture_count,
    {
        let mut photos: Vec<ImageInfo> = Vec::new();
        init_photos_state(entries, &mut photos, &stored_photos);
        assert(photo_views(Seq::<ImageInfo>::empty()) =~= Seq::empty());
        assert(Seq::empty() + scanned(entries@, stored_seq(stored_photos)) =~= scanned(
            entries@,
            stored_seq(stored_photos),
        ));
        let first = get_first_unrated_image_index(photos.as_slice());
        self.photos_index = if first < photos.len() {
            first
        } else {
            0
        };
        self.photos = photos;
        self.photo_dir = photo_dir;
        self.generation = if self.generation == u64::MAX {
            0
        } else {
            self.generation + 1
        };
    }

    /// Whether work begun for `generation` still belongs to the open folder.
    pub fn is_current_generation(&self, generation: u64) -> (r: bool)
        ensures
            r == (generation == self.generation),
    {
        generation == self.generation
    }

    /// Carries out a command. Returns false where there is no photo to move
    /// to: the catalog is empty, or every photo is rated, which is the
    /// signal that the review is complete; the photo under review then stays.
    pub fn apply_command(&mut self, command: Command) -> (moved: bool)
        requires
            old(self).wf(),
        ensures
            final(self).wf(),
            same_settings(final(self), old(self)),
            same_photos_but_ratings(final(self).photos@, old(self).photos@),
            command == Command::NextPhoto || command == Command::PreviousPhoto ==> final(self).photos
                == old(self).photos,
            command == Command::ApproveAndAdvance && old(self).photos@.len() > 0 ==> final(self).photos@[old(self).photos_index as int].rating == Rating::Approve,
            command == Command::RemoveAndAdvance && old(self).photos@.len() > 0 ==> final(self).photos@[old(self).photos_index as int].rating == Rating::Remove,
            forall|k: int|
                0 <= k < old(self).photos@.len() && k != old(self).photos_index ==> (
                #[trigger] final(self).photos@[k]).rating == old(self).photos@[k].rating,
            command == Command::PreviousPhoto ==> moves_back(old(self).photos_index, final(self), moved),
            command != Command::PreviousPhoto ==> moves_on(old(self).photos_index, final(self), moved),
    {
        match command {
            Command::NextPhoto => go_to_next_picture(self),
            Command::PreviousPhoto => go_to_previous_picture(self),
            Command::ApproveAndAdvance => {
                self.rate_current(Rating::Approve);
                go_to_next_picture(self)
            },
            Command::RemoveAndAdvance => {
                self.rate_current(Rating::Remove);
                go_to_next_picture(self)
            },
        }
    }
}

/// After a move forward from `start`: the session is at the next unrated
/// photo and `moved` holds, or there is none and it stayed at `start`.
pub open spec fn moves_on(start: usize, app: &BlitzApp, moved: bool) -> bool {
    if app.photos@.len() > 0 && next_unrated(app.photos@, start as int) is Some {
        moved && app.photos_index as int == next_unrated(app.photos@, start as int)->0
    } else {
        !moved && app.photos_index == start
    }
}

/// After a move backward from `start`, likewise.
pub open spec fn moves_back(start: usize, app: &BlitzApp, moved: bool) -> bool {
    if app.photos@.len() > 0 && previous_unrated(app.photos@, start as int) is Some {
        moved && app.photos_index as int == previous_unrated(app.photos@, start as int)->0
    } else {
        !moved && app.photos_index == start
    }
}

proof fn lemma_unrated_count_zero(photos: Seq<ImageInfo>)
    ensures
        (unrated_count(photos) == 0) == all_rated(photos),
    decreases photos.len(),
{
    if photos.len() > 0 {
        let init = photos.drop_last();
        lemma_unrated_count_zero(init);
        if all_rated(photos) {
            assert forall|j: int| 0 <= j < init.len() implies !#[trigger] is_unrated(init, j) by {
                assert(init[j] == photos[j]);
                assert(!is_unrated(photos, j));
            }
            assert(!is_unrated(photos, photos.len() - 1));
        }
        if unrated_count(photos) == 0 {
            assert forall|j: int| 0 <= j < photos.len() implies !#[trigger] is_unrated(photos, j) by {
                if j < photos.len() - 1 {
                    assert(init[j] == photos[j]);
                    assert(!is_unrated(init, j));
                }
            }
        }
    }
}

/// Moves the review to the next unrated photo. Returns false, and stays,
/// where there is none.
pub fn go_to_next_picture(app: &mut BlitzApp) -> (moved: bool)
    requires
        old(app).wf(),
    ensures
        final(app).wf(),
        final(app).photos == old(app).photos,
        same_settings(final(app), old(app)),
        moves_on(old(app).photos_index, final(app), moved),
{
    match get_next_picture_index(app.photos_index, app.photos.as_slice()) {
        Some(index) => {
            app.photos_index = index;
            true
        },
        None => false,
    }
}

/// Moves the review to the previous unrated photo. Returns false, and
/// stays, where there is none.
pub fn go_to_previous_picture(app: &mut BlitzApp) -> (moved: bool)
    requires
        old(app).wf(),
    ensures
        final(app).wf(),
        final(app).photos == old(app).photos,
        same_settings(final(app), old(app)),
        moves_back(old(app).photos_index, final(app), moved),
{
    match get_previous_picture_index(app.photos_index, app.photos.as_slice()) {
        Some(index) => {
            app.photos_index = index;
            true
        },
        None => false,
    }
}

/// Where a session's ratings are written: the hidden state folder, to be
/// created first, and the state file inside it.
pub struct SaveTarget {
    pub dir: String,
    pub file: String,
}

/// Where to save the ratings of `photos`, opened from `photo_dir`; none for
/// an empty catalog, so that a session that holds nothing never overwrites
/// a saved state.
pub fn culling_progress_target(photo_dir: &str, photos: &[ImageInfo]) -> (r: Option<SaveTarget>)
    ensures
        photos@.len() == 0 <==> r is None,
        r matches Some(t) ==> t.dir@ == path_joined(photo_dir@, STATE_DIR_NAME@) && t.file@
            == path_joined(path_joined(photo_dir@, STATE_DIR_NAME@), STATE_FILE_NAME@),
{
    if photos.len() == 0 {
        return None;
    }
    Some(SaveTarget { dir: state_dir(photo_dir), file: state_file(photo_dir) })
}

} // verus!
