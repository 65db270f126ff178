use gallery::image_file::{cache_for, ImageFile, LoadedImage};
use gallery::pixels::Pixels;
use std::cell::Cell;

fn square() -> Pixels {
    Pixels::new(2, 2, vec![1, 2, 3, 4, 5, 6, 7, 8, 9, 10, 11, 12]).unwrap()
}

#[test]
fn a_fresh_entry_is_unloaded() {
    let file = ImageFile::from(String::from("pictures/a.png"));
    assert_eq!(file.path(), "pictures/a.png");
    assert!(!file.is_resolved());
    assert!(file.get().is_none());
}

#[test]
fn the_cache_keeps_the_order_of_the_paths() {
    let files = cache_for(vec![String::from("b"), String::from("a"), String::from("b")]).unwrap();
    let paths: Vec<&str> = files.iter().map(|file| file.path()).collect();
    assert_eq!(paths, vec!["b", "a", "b"]);
    assert!(files.iter().all(|file| !file.is_resolved()));
}

#[test]
fn preload_hands_the_path_to_the_decoder() {
    let mut file = ImageFile::from(String::from("pictures/a.png"));
    file.preload(|path| {
        assert_eq!(path, "pictures/a.png");
        Some(square())
    });
    assert!(file.is_resolved());
    assert_eq!(file.path(), "pictures/a.png");
    let image = file.get().unwrap();
    assert_eq!(image.width(), 2);
    assert_eq!(image.height(), 2);
    assert_eq!(image.as_raw(), &vec![1, 2, 3, 4, 5, 6, 7, 8, 9, 10, 11, 12]);
}

#[test]
fn an_entry_is_decoded_once() {
    let calls = Cell::new(0usize);
    let decode = |_: &str| {
        calls.set(calls.get() + 1);
        Some(square())
    };
    let mut file = ImageFile::from(String::from("a.png"));
    file.preload(decode);
    let first = file.load(decode).unwrap();
    for _ in 0..10 {
        file.preload(decode);
        let again = file.load(decode).unwrap();
        assert_eq!(again.width(), first.width());
        assert_eq!(again.height(), first.height());
        assert_eq!(again.as_raw(), first.as_raw());
        assert_eq!(file.get().unwrap().as_raw(), first.as_raw());
    }
    assert_eq!(calls.get(), 1);
}

#[test]
fn a_failure_is_permanent() {
    let calls = Cell::new(0usize);
    let mut file = ImageFile::from(String::from("a.png"));
    let image = file.load(|_| {
        calls.set(calls.get() + 1);
        None
    });
    assert!(image.is_none());
    assert!(file.is_resolved());
    for _ in 0..5 {
        let image = file.load(|_| {
            calls.set(calls.get() + 1);
            Some(square())
        });
        assert!(image.is_none());
        assert!(file.get().is_none());
    }
    assert_eq!(calls.get(), 1);
}

#[test]
fn a_loaded_image_is_not_replaced() {
    let mut file = ImageFile::from(String::from("a.png"));
    file.preload(|_| Some(square()));
    file.preload(|_| None);
    file.preload(|_| Some(Pixels::new(1, 1, vec![0, 0, 0]).unwrap()));
    assert_eq!(file.get().unwrap().width(), 2);
}

#[test]
fn an_outcome_becomes_a_loaded_image() {
    assert!(matches!(LoadedImage::from(None), LoadedImage::Failed));
    match LoadedImage::from(Some(square())) {
        LoadedImage::Loaded(pixels) => assert_eq!(pixels.width(), 2),
        LoadedImage::Failed => panic!("an image was given"),
    }
}

#[test]
fn two_callers_that_both_found_it_unloaded_decode_once() {
    let calls = Cell::new(0usize);
    let decode = |_: &str| {
        calls.set(calls.get() + 1);
        Some(square())
    };
    let mut file = ImageFile::from(String::from("a.png"));
    let first_saw_unloaded = !file.is_resolved();
    let second_saw_unloaded = !file.is_resolved();
    assert!(first_saw_unloaded && second_saw_unloaded);
    file.preload(decode);
    file.preload(decode);
    assert_eq!(calls.get(), 1);
    assert_eq!(file.get().unwrap().width(), 2);
}
