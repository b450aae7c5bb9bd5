use blitz::paths::{
    file_location, get_chaffe_dir, get_raw_variant, get_wheat_dir, state_dir, state_file,
};
use std::path::Path;

#[test]
fn lib_test_get_raw_variant() {
    let path = "/tmp/DSC55555.jpg";
    let raw_variant = get_raw_variant(path).unwrap();
    assert_eq!("RAF", Path::new(&raw_variant).extension().unwrap())
}

#[test]
fn open_folder_test_get_raw_variant() {
    let path = "/tmp/DSC55555.jpg";
    let raw_variant = get_raw_variant(path).unwrap();
    assert_eq!("RAF", Path::new(&raw_variant).extension().unwrap())
}

#[test]
fn open_folder_native_test_get_raw_variant() {
    let path = "/tmp/DSC55555.jpg";
    let raw_variant = get_raw_variant(path).unwrap();
    assert_eq!("RAF", Path::new(&raw_variant).extension().unwrap())
}

#[test]
fn open_folder_wasm_test_get_raw_variant() {
    assert_eq!(Some("/tmp/DSC55555.RAF".to_string()), get_raw_variant("/tmp/DSC55555.jpg"));
}

#[test]
fn raw_variant_replaces_extension() {
    assert_eq!(Some("/photos/a.RAF".to_string()), get_raw_variant("/photos/a.JPG"));
    assert_eq!(Some("/photos/noext.RAF".to_string()), get_raw_variant("/photos/noext"));
}

#[test]
fn raw_variant_of_path_without_file_name() {
    assert_eq!(None, get_raw_variant("/"));
    assert_eq!(None, get_raw_variant("/photos/.."));
}

#[test]
fn default_destination_folders() {
    assert_eq!("/tmp/photos/chaffe", get_chaffe_dir("/tmp/photos"));
    assert_eq!("/tmp/photos/wheat", get_wheat_dir("/tmp/photos"));
    assert_eq!("tmp/chaffe", get_chaffe_dir("tmp"));
}

#[test]
fn state_location() {
    assert_eq!("/tmp/photos/.blitz", state_dir("/tmp/photos"));
    assert_eq!("/tmp/photos/.blitz/storage.ron", state_file("/tmp/photos"));
}

#[test]
fn location_of_a_file() {
    assert_eq!("/tmp/photos", file_location("/tmp/photos/1.jpg"));
    assert_eq!("/", file_location("/"));
}
