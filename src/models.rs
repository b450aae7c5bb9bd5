//! The data that the rest of the library works on: a photo and its rating.

use vstd::prelude::*;

verus! {

/// The decision taken on one photo.
#[derive(Clone, Copy, Debug, PartialEq, Eq, Structural)]
pub enum Rating {
    /// Not decided yet.
    Unrated,
    /// Kept: goes to the wheat folder on commit.
    Approve,
    /// Rejected: goes to the chaffe folder on commit.
    Remove,
}

/// A photo as the proofs see it: its paths and name as character sequences.
pub struct PhotoView {
    pub processed: Seq<char>,
    pub raw: Option<Seq<char>>,
    pub rating: Rating,
    pub name: Seq<char>,
}

/// One discovered photo: the processed (JPEG) file, the candidate raw
/// sibling, the decision taken on it and the file name shown to the user.
#[derive(Clone, Debug)]
pub struct ImageInfo {
    pub path_processed: String,
    pub path_raw: Option<String>,
    pub rating: Rating,
    pub image_name: String,
}

pub open spec fn view_of_option(o: Option<String>) -> Option<Seq<char>> {
    match o {
        Some(s) => Some(s@),
        None => None,
    }
}

impl View for ImageInfo {
    type V = PhotoView;

    open spec fn view(&self) -> PhotoView {
        PhotoView {
            processed: self.path_processed@,
            raw: view_of_option(self.path_raw),
            rating: self.rating,
            name: self.image_name@,
        }
    }
}

/// The photos of a catalog as the proofs see them.
pub open spec fn photo_views(photos: Seq<ImageInfo>) -> Seq<PhotoView> {
    photos.map_values(|p: ImageInfo| p@)
}

} // verus!
