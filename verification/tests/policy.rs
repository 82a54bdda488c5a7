use image_browser::game::policy::{look_ahead, preload_window, select_next, select_previous};

#[test]
fn window_in_the_middle() {
    assert_eq!(preload_window(5, 10), vec![5, 4, 6, 7]);
}

#[test]
fn window_at_the_start() {
    assert_eq!(preload_window(0, 10), vec![0, 1, 2]);
}

#[test]
fn window_at_the_end() {
    assert_eq!(preload_window(9, 10), vec![9, 8]);
    assert_eq!(preload_window(8, 10), vec![8, 7, 9]);
}

#[test]
fn window_of_a_single_image() {
    assert_eq!(preload_window(0, 1), vec![0]);
}

#[test]
fn window_of_two_images() {
    assert_eq!(preload_window(0, 2), vec![0, 1]);
    assert_eq!(preload_window(1, 2), vec![1, 0]);
}

#[test]
fn window_at_the_largest_id() {
    assert_eq!(preload_window(usize::MAX, usize::MAX), vec![usize::MAX, usize::MAX - 1]);
    assert_eq!(
        preload_window(usize::MAX - 1, usize::MAX),
        vec![usize::MAX - 1, usize::MAX - 2]
    );
}

#[test]
fn look_ahead_is_the_first_id_past_the_window() {
    assert_eq!(look_ahead(0, 10), Some(3));
    assert_eq!(look_ahead(6, 10), Some(9));
    assert_eq!(look_ahead(7, 10), None);
    assert_eq!(look_ahead(9, 10), None);
    assert_eq!(look_ahead(0, 3), None);
    assert_eq!(look_ahead(0, 4), Some(3));
    assert_eq!(look_ahead(0, 0), None);
    assert_eq!(look_ahead(usize::MAX, usize::MAX), None);
}

#[test]
fn next_wraps_to_the_first() {
    assert_eq!(select_next(0, 3), 1);
    assert_eq!(select_next(1, 3), 2);
    assert_eq!(select_next(2, 3), 0);
    assert_eq!(select_next(0, 1), 0);
    assert_eq!(select_next(0, 0), 0);
}

#[test]
fn previous_wraps_to_the_last() {
    assert_eq!(select_previous(2, 3), 1);
    assert_eq!(select_previous(1, 3), 0);
    assert_eq!(select_previous(0, 3), 2);
    assert_eq!(select_previous(0, 1), 0);
    assert_eq!(select_previous(0, 0), 0);
}
