//! Previews: decoding a photo's bytes into RGBA pixels, and choosing which
//! photos get a preview loaded after a folder is opened.

use crate::models::{ImageInfo, Rating};
use crate::navigation::is_unrated;
use vstd::prelude::*;

verus! {

/// The width, height and RGBA pixels that the `image` crate decodes from
/// `data`, in the built-in format that `image::guess_format` reads from its
/// first bytes, converted to 8 bits per channel; `None` where either fails.
pub uninterp spec fn decoded_rgba(data: Seq<u8>) -> Option<(u32, u32, Seq<u8>)>;

/// Relies on `image::guess_format`, a fixed table of magic bytes, and on
/// `image::load_from_memory_with_format`, which decodes with that built-in
/// format and reads no registered hook; the image is then converted with
/// `to_rgba8`.
#[verifier::external_body]
fn load_rgba8(data: &[u8]) -> (r: Option<(u32, u32, Vec<u8>)>)
    ensures
        match r {
            Some(t) => decoded_rgba(data@) == Some((t.0, t.1, t.2@)),
            None => decoded_rgba(data@) is None,
        },
{
    let format = match image::guess_format(data) {
        Ok(format) => format,
        Err(_) => return None,
    };
    match image::load_from_memory_with_format(data, format) {
        Ok(decoded) => {
            let rgba = decoded.to_rgba8();
            Some((rgba.width(), rgba.height(), rgba.into_raw()))
        },
        Err(_) => None,
    }
}

/// Why a photo has no preview.
#[derive(Clone, Copy, Debug, PartialEq, Eq, Structural)]
pub enum ImageDecodeError {
    /// The bytes are no image that the decoder reads.
    Unreadable,
    /// The decoder gave a pixel buffer whose length does not match the size.
    BadPixelBuffer,
}

/// A decoded preview: `width` by `height` pixels, four bytes (red, green,
/// blue, alpha) each, row by row.
pub struct RgbaImage {
    pub width: u32,
    pub height: u32,
    pub pixels: Vec<u8>,
}

pub open spec fn rgba_len(width: u32, height: u32) -> int {
    4 * (width as int) * (height as int)
}

impl RgbaImage {
    pub open spec fn wf(&self) -> bool {
        self.pixels@.len() == rgba_len(self.width, self.height)
    }

    /// An image of the given size over `pixels`, where their number fits
    /// the size exactly.
    pub fn from_raw(width: u32, height: u32, pixels: Vec<u8>) -> (r: Option<RgbaImage>)
        ensures
            r is Some <==> pixels@.len() == rgba_len(width, height),
            r matches Some(img) ==> img.wf() && img.width == width && img.height == height
                && img.pixels@ == pixels@,
    {
        let w = width as u128;
        let h = height as u128;
        assert(w * h <= 0xffff_ffff_ffff_ffff) by (nonlinear_arith)
            requires
                w <= 0xffff_ffff,
                h <= 0xffff_ffff,
        ;
        let expected: u128 = 4 * (w * h);
        assert(expected as int == rgba_len(width, height)) by (nonlinear_arith)
            requires
                expected as int == 4 * (w as int * h as int),
                w as int == width as int,
                h as int == height as int,
        ;
        if pixels.len() as u128 == expected {
            Some(RgbaImage { width, height, pixels })
        } else {
            None
        }
    }
}

/// Decodes the bytes of a photo into a preview.
pub fn create_image(image_data: &[u8]) -> (r: Result<RgbaImage, ImageDecodeError>)
    ensures
        decoded_rgba(image_data@) is None ==> r == Err::<RgbaImage, ImageDecodeError>(
            ImageDecodeError::Unreadable,
        ),
        decoded_rgba(image_data@) matches Some(d) ==> {
            if d.2.len() == rgba_len(d.0, d.1) {
                r matches Ok(img) && img.wf() && img.width == d.0 && img.height == d.1
                    && img.pixels@ == d.2
            } else {
                r == Err::<RgbaImage, ImageDecodeError>(ImageDecodeError::BadPixelBuffer)
            }
        },
{
    match load_rgba8(image_data) {
        Some((width, height, pixels)) => match RgbaImage::from_raw(width, height, pixels) {
            Some(img) => Ok(img),
            None => Err(ImageDecodeError::BadPixelBuffer),
        },
        None => Err(ImageDecodeError::Unreadable),
    }
}

/// Which previews to load after a folder is opened: the unrated photos, in
/// catalog order, until `max_texture_count` of them loaded. A photo whose
/// preview fails does not count. `generation` is that of the folder the
/// loading was started for.
pub struct TextureLoader {
    pub next: usize,
    pub loaded: usize,
    pub max_texture_count: usize,
    pub generation: u64,
}

impl TextureLoader {
    pub open spec fn wf(&self) -> bool {
        self.loaded <= self.max_texture_count
    }

    /// A loader that has looked at no photo yet.
    pub fn new(max_texture_count: usize, generation: u64) -> (r: TextureLoader)
        ensures
            r.wf(),
            r.next == 0,
            r.loaded == 0,
            r.max_texture_count == max_texture_count,
            r.generation == generation,
    {
        TextureLoader { next: 0, loaded: 0, max_texture_count, generation }
    }

    /// The photo whose preview to load next: the first unrated one from
    /// `next` on, while fewer than `max_texture_count` loaded; `None` when
    /// the loading is over.
    pub fn next_to_load(&self, photos: &[ImageInfo]) -> (r: Option<usize>)
        ensures
            self.loaded >= self.max_texture_count ==> r is None,
            self.loaded < self.max_texture_count ==> match r {
                Some(k) => self.next <= k < photos@.len() && is_unrated(photos@, k as int) && forall|
                    j: int,
                | self.next <= j < k ==> !#[trigger] is_unrated(photos@, j),
                None => forall|j: int|
                    self.next <= j < photos@.len() ==> !#[trigger] is_unrated(photos@, j),
            },
    {
        if self.loaded >= self.max_texture_count {
            return None;
        }
        let mut i = self.next;
        while i < photos.len()
            invariant
                self.next <= i,
                self.loaded < self.max_texture_count,
                forall|j: int| self.next <= j < i && j < photos@.len() ==> !#[trigger] is_unrated(
                    photos@,
                    j,
                ),
            decreases photos@.len() - i,
        {
            if photos[i].rating == Rating::Unrated {
                return Some(i);
            }
            i = i + 1;
        }
        None
    }

    /// Takes in the outcome for the photo at `index`: the next look starts
    /// after it, and a preview that loaded counts towards the budget.
    pub fn record(&mut self, index: usize, succeeded: bool)
        requires
            old(self).wf(),
        ensures
            final(self).wf(),
            final(self).next == (if index < usize::MAX {
                (index + 1) as usize
            } else {
                index
            }),
            final(self).loaded == (if succeeded && old(self).loaded < old(self).max_texture_count {
                (old(self).loaded + 1) as usize
            } else {
                old(self).loaded
            }),
            final(self).max_texture_count == old(self).max_texture_count,
            final(self).generation == old(self).generation,
    {
        self.next = if index < usize::MAX {
            index + 1
        } else {
            index
        };
        if succeeded && self.loaded < self.max_texture_count {
            self.loaded = self.loaded + 1;
        }
    }
}

} // verus!
