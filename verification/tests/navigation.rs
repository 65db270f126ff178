use gallery::error::GalleryError;
use gallery::image_file::{cache_for, ImageFile};
use gallery::navigator::{
    get_index_at, preload_window, Direction, Navigator, PRELOAD_REACH, PRELOAD_WINDOW,
};
use gallery::pixels::Pixels;
use std::cell::RefCell;

fn dot(shade: u8) -> Pixels {
    Pixels::new(1, 1, vec![shade, shade, shade]).unwrap()
}

/// A cache of `len` entries named by their indices, in which the entries
/// listed in `broken` never decode.
fn cache(len: usize) -> RefCell<Vec<ImageFile>> {
    let paths: Vec<String> = (0..len).map(|i| i.to_string()).collect();
    RefCell::new(cache_for(paths).unwrap())
}

fn decode_unless(broken: &[usize], path: &str) -> Option<Pixels> {
    let index: usize = path.parse().unwrap();
    if broken.contains(&index) {
        None
    } else {
        Some(dot(index as u8))
    }
}

/// Walks a navigator by plain steps until it stands on `target`.
fn stand_on(navigator: &mut Navigator, target: usize) {
    while navigator.cursor() != target {
        navigator.move_index(Direction::Forward);
    }
}

#[test]
fn stepping_wraps_at_both_ends() {
    assert_eq!(get_index_at(1, 5, 4), 0);
    assert_eq!(get_index_at(-1, 5, 0), 4);
    assert_eq!(get_index_at(0, 5, 3), 3);
    assert_eq!(get_index_at(1, 5, 1), 2);
    assert_eq!(get_index_at(7, 5, 1), 3);
    assert_eq!(get_index_at(-7, 5, 1), 4);
    assert_eq!(get_index_at(-5, 3, 0), 1);
    assert_eq!(get_index_at(5, 3, 0), 2);
    assert_eq!(get_index_at(1, 1, 0), 0);
    assert_eq!(get_index_at(-1, 1, 0), 0);
}

#[test]
fn stepping_copes_with_the_largest_offsets() {
    assert_eq!(get_index_at(i64::MAX, 10, 3), 0);
    assert_eq!(get_index_at(i64::MIN, 10, 3), 5);
    assert_eq!(get_index_at(i64::MIN, 1, 0), 0);
    assert_eq!(get_index_at(-1, usize::MAX, 0), usize::MAX - 1);
    assert_eq!(get_index_at(2, usize::MAX, usize::MAX - 1), 1);
}

#[test]
fn stepping_takes_an_index_beyond_the_list_by_its_remainder() {
    assert_eq!(get_index_at(0, 5, 12), 2);
    assert_eq!(get_index_at(4, 5, 12), 1);
}

#[test]
fn stepping_is_periodic_in_the_offset() {
    for len in 1..8usize {
        for current in 0..len {
            for offset in -20..20i64 {
                let reduced = offset.rem_euclid(len as i64);
                assert_eq!(
                    get_index_at(offset, len, current),
                    get_index_at(reduced, len, current)
                );
                assert_eq!(
                    get_index_at(offset, len, current),
                    get_index_at(offset + 3 * len as i64, len, current)
                );
            }
        }
    }
}

#[test]
fn one_step_forward_and_one_back_restore_the_index() {
    for len in 1..8usize {
        for current in 0..len {
            let there = get_index_at(1, len, current);
            assert_eq!(get_index_at(-1, len, there), current);
            let back = get_index_at(-1, len, current);
            assert_eq!(get_index_at(1, len, back), current);
        }
    }
}

#[test]
fn window_of_a_long_list() {
    assert_eq!(PRELOAD_REACH, 5);
    assert_eq!(PRELOAD_WINDOW, 11);
    assert_eq!(preload_window(50, 100), vec![45, 46, 47, 48, 49, 50, 51, 52, 53, 54, 55]);
    assert_eq!(preload_window(0, 100), vec![95, 96, 97, 98, 99, 0, 1, 2, 3, 4, 5]);
    assert_eq!(preload_window(98, 100), vec![93, 94, 95, 96, 97, 98, 99, 0, 1, 2, 3]);
}

#[test]
fn window_of_a_short_list_names_entries_twice() {
    assert_eq!(preload_window(1, 3), vec![2, 0, 1, 2, 0, 1, 2, 0, 1, 2, 0]);
    assert_eq!(preload_window(0, 1), vec![0; 11]);
}

#[test]
fn an_empty_gallery_is_refused() {
    assert_eq!(Navigator::new(0).err(), Some(GalleryError::EmptySet));
    assert_eq!(cache_for(Vec::new()).err(), Some(GalleryError::EmptySet));
}

#[test]
fn a_navigator_starts_on_the_last_entry() {
    let navigator = Navigator::new(7).unwrap();
    assert_eq!(navigator.cursor(), 6);
    assert_eq!(navigator.len(), 7);
    let single = Navigator::new(1).unwrap();
    assert_eq!(single.cursor(), 0);
}

#[test]
fn move_index_steps_once_and_names_the_window() {
    let mut navigator = Navigator::new(20).unwrap();
    let requests = navigator.move_index(Direction::Forward);
    assert_eq!(navigator.cursor(), 0);
    assert_eq!(requests, vec![15, 16, 17, 18, 19, 0, 1, 2, 3, 4, 5]);
    let requests = navigator.move_index(Direction::Backward);
    assert_eq!(navigator.cursor(), 19);
    assert_eq!(requests, vec![14, 15, 16, 17, 18, 19, 0, 1, 2, 3, 4]);
}

#[test]
fn the_first_advance_shows_the_first_image() {
    let images = cache(4);
    let mut navigator = Navigator::new(4).unwrap();
    let shown = navigator.advance(Direction::Forward, &|i, _| {
        images.borrow_mut()[i].load(|path| decode_unless(&[], path))
    });
    assert_eq!(navigator.cursor(), 0);
    assert_eq!(shown.unwrap().as_raw(), &vec![0, 0, 0]);
}

#[test]
fn advance_passes_over_an_entry_that_fails() {
    let images = cache(5);
    let loaded = RefCell::new(Vec::new());
    let mut navigator = Navigator::new(5).unwrap();
    stand_on(&mut navigator, 1);
    let shown = navigator.advance(Direction::Forward, &|i, _| {
        let image = images.borrow_mut()[i].load(|path| decode_unless(&[2], path));
        loaded.borrow_mut().push((i, image.is_some()));
        image
    });
    assert_eq!(navigator.cursor(), 3);
    assert_eq!(shown.unwrap().as_raw(), &vec![3, 3, 3]);
    assert_eq!(*loaded.borrow(), vec![(2, false), (3, true)]);
}

#[test]
fn advance_backward_passes_over_an_entry_that_fails() {
    let images = cache(5);
    let mut navigator = Navigator::new(5).unwrap();
    stand_on(&mut navigator, 3);
    let shown = navigator.advance(Direction::Backward, &|i, _| {
        images.borrow_mut()[i].load(|path| decode_unless(&[2], path))
    });
    assert_eq!(navigator.cursor(), 1);
    assert_eq!(shown.unwrap().as_raw(), &vec![1, 1, 1]);
}

#[test]
fn advance_there_and_back_rests_where_it_began() {
    for broken in [vec![], vec![2], vec![0, 4], vec![1, 2, 3]] {
        for start in 0..5usize {
            if broken.contains(&start) {
                continue;
            }
            for direction in [Direction::Forward, Direction::Backward] {
                let images = cache(5);
                let visit = |i: usize, _: Vec<usize>| {
                    images.borrow_mut()[i].load(|path| decode_unless(&broken, path))
                };
                let mut navigator = Navigator::new(5).unwrap();
                stand_on(&mut navigator, start);
                assert!(navigator.advance(direction, &visit).is_ok());
                assert!(navigator.advance(direction.opposite(), &visit).is_ok());
                assert_eq!(navigator.cursor(), start);
            }
        }
    }
}

#[test]
fn advance_from_a_broken_entry_need_not_come_back() {
    let images = cache(5);
    let visit =
        |i: usize, _: Vec<usize>| images.borrow_mut()[i].load(|path| decode_unless(&[2], path));
    let mut navigator = Navigator::new(5).unwrap();
    stand_on(&mut navigator, 2);
    assert!(navigator.advance(Direction::Forward, &visit).is_ok());
    assert_eq!(navigator.cursor(), 3);
    assert!(navigator.advance(Direction::Backward, &visit).is_ok());
    assert_eq!(navigator.cursor(), 1);
}

#[test]
fn advance_comes_round_to_the_only_image() {
    let images = cache(4);
    let visit = |i: usize, _: Vec<usize>| {
        images.borrow_mut()[i].load(|path| decode_unless(&[0, 1, 3], path))
    };
    let mut navigator = Navigator::new(4).unwrap();
    stand_on(&mut navigator, 2);
    let shown = navigator.advance(Direction::Forward, &visit);
    assert_eq!(navigator.cursor(), 2);
    assert_eq!(shown.unwrap().as_raw(), &vec![2, 2, 2]);
}

#[test]
fn advance_gives_up_after_one_full_turn() {
    let images = cache(3);
    let tried = RefCell::new(Vec::new());
    let decoded = RefCell::new(0usize);
    let visit = |i: usize, _: Vec<usize>| {
        tried.borrow_mut().push(i);
        images.borrow_mut()[i].load(|_| {
            *decoded.borrow_mut() += 1;
            None
        })
    };
    let mut navigator = Navigator::new(3).unwrap();
    stand_on(&mut navigator, 1);
    let shown = navigator.advance(Direction::Forward, &visit);
    assert_eq!(shown.err(), Some(GalleryError::NoViewableImages));
    assert_eq!(navigator.cursor(), 1);
    assert_eq!(*tried.borrow(), vec![2, 0, 1]);
    let again = navigator.advance(Direction::Backward, &visit);
    assert_eq!(again.err(), Some(GalleryError::NoViewableImages));
    assert_eq!(navigator.cursor(), 1);
    assert_eq!(*decoded.borrow(), 3);
}

#[test]
fn advance_hands_over_the_window_of_each_entry() {
    let images = cache(30);
    let visits = RefCell::new(Vec::new());
    let mut navigator = Navigator::new(30).unwrap();
    stand_on(&mut navigator, 9);
    let shown = navigator.advance(Direction::Forward, &|i, requests| {
        visits.borrow_mut().push((i, requests));
        images.borrow_mut()[i].load(|path| decode_unless(&[10], path))
    });
    assert!(shown.is_ok());
    assert_eq!(navigator.cursor(), 11);
    assert_eq!(
        *visits.borrow(),
        vec![
            (10, vec![5, 6, 7, 8, 9, 10, 11, 12, 13, 14, 15]),
            (11, vec![6, 7, 8, 9, 10, 11, 12, 13, 14, 15, 16]),
        ]
    );
}

#[test]
fn current_loads_the_entry_under_the_cursor() {
    let images = cache(3);
    let load = |i: usize| images.borrow_mut()[i].load(|path| decode_unless(&[1], path));
    let mut navigator = Navigator::new(3).unwrap();
    assert_eq!(navigator.current(&load).unwrap().as_raw(), &vec![2, 2, 2]);
    stand_on(&mut navigator, 1);
    assert!(navigator.current(&load).is_none());
    assert_eq!(navigator.cursor(), 1);
}

#[test]
fn advance_requests_stay_inside_a_short_list() {
    let images = cache(3);
    let visits = RefCell::new(Vec::new());
    let mut navigator = Navigator::new(3).unwrap();
    let shown = navigator.advance(Direction::Backward, &|i, requests| {
        visits.borrow_mut().push((i, requests));
        images.borrow_mut()[i].load(|path| decode_unless(&[], path))
    });
    assert!(shown.is_ok());
    assert_eq!(navigator.cursor(), 1);
    assert_eq!(*visits.borrow(), vec![(1, vec![2, 0, 1, 2, 0, 1, 2, 0, 1, 2, 0])]);
}
