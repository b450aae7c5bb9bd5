use blitz::textures::{create_image, ImageDecodeError, RgbaImage, TextureLoader};
use blitz::{ImageInfo, Rating};

/// A 2 by 1 bitmap: a blue pixel, then a green one.
fn two_pixel_bmp() -> Vec<u8> {
    let mut b = Vec::new();
    b.extend_from_slice(b"BM");
    b.extend_from_slice(&62u32.to_le_bytes());
    b.extend_from_slice(&0u32.to_le_bytes());
    b.extend_from_slice(&54u32.to_le_bytes());
    b.extend_from_slice(&40u32.to_le_bytes());
    b.extend_from_slice(&2i32.to_le_bytes());
    b.extend_from_slice(&1i32.to_le_bytes());
    b.extend_from_slice(&1u16.to_le_bytes());
    b.extend_from_slice(&24u16.to_le_bytes());
    b.extend_from_slice(&0u32.to_le_bytes());
    b.extend_from_slice(&8u32.to_le_bytes());
    b.extend_from_slice(&2835u32.to_le_bytes());
    b.extend_from_slice(&2835u32.to_le_bytes());
    b.extend_from_slice(&0u32.to_le_bytes());
    b.extend_from_slice(&0u32.to_le_bytes());
    b.extend_from_slice(&[255, 0, 0, 0, 255, 0, 0, 0]);
    b
}

#[test]
fn decodes_a_bitmap() {
    let img = create_image(&two_pixel_bmp()).unwrap();
    assert_eq!(2, img.width);
    assert_eq!(1, img.height);
    assert_eq!(vec![0, 0, 255, 255, 0, 255, 0, 255], img.pixels);
}

#[test]
fn undecodable_bytes() {
    assert_eq!(Some(ImageDecodeError::Unreadable), create_image(b"not an image").err());
    assert_eq!(Some(ImageDecodeError::Unreadable), create_image(&[]).err());
}

#[test]
fn pixel_buffer_must_fit_size() {
    assert!(RgbaImage::from_raw(2, 1, vec![0; 8]).is_some());
    assert!(RgbaImage::from_raw(2, 1, vec![0; 7]).is_none());
    assert!(RgbaImage::from_raw(0, 5, Vec::new()).is_some());
}

fn catalog(ratings: &[Rating]) -> Vec<ImageInfo> {
    ratings
        .iter()
        .enumerate()
        .map(|(i, r)| ImageInfo {
            path_processed: format!("/p/{}.jpg", i),
            path_raw: None,
            rating: *r,
            image_name: format!("{}.jpg", i),
        })
        .collect()
}

#[test]
fn loader_takes_unrated_photos_within_budget() {
    let photos = catalog(&[
        Rating::Approve,
        Rating::Unrated,
        Rating::Unrated,
        Rating::Remove,
        Rating::Unrated,
        Rating::Unrated,
    ]);
    let mut loader = TextureLoader::new(2, 7);
    let mut visited = Vec::new();
    let outcomes = [false, true, true];
    let mut step = 0;
    while let Some(k) = loader.next_to_load(&photos) {
        visited.push(k);
        loader.record(k, outcomes[step]);
        step += 1;
    }
    // The failed preview does not count towards the budget of two.
    assert_eq!(vec![1, 2, 4], visited);
    assert_eq!(2, loader.loaded);
    assert_eq!(7, loader.generation);
}

#[test]
fn loader_with_zero_budget_loads_nothing() {
    let photos = catalog(&[Rating::Unrated]);
    let loader = TextureLoader::new(0, 0);
    assert_eq!(None, loader.next_to_load(&photos));
}
