use image_browser::game::discovery::Candidate;
use image_browser::game::policy::Keys;
use image_browser::game::pool::{Task, TaskResult, WorkerEnds};
use image_browser::game::renderer::Renderer;
use image_browser::game::Game;
use std::path::PathBuf;

/// A renderer without a screen: its image is the number of bytes it was
/// given.
struct Counter;

impl Renderer for Counter {
    type Image = usize;

    fn create_image(&mut self, bytes: &Vec<u8>, _width: u32, _height: u32) -> Option<usize> {
        Some(bytes.len())
    }
}

fn name(id: usize) -> PathBuf {
    PathBuf::from(format!("{id}.png"))
}

fn images(count: usize) -> Vec<Candidate> {
    (0..count)
        .map(|id| Candidate { path: name(id), is_file: true, extension: Some("png".to_string()) })
        .collect()
}

fn browser(count: usize) -> (Game<usize>, WorkerEnds) {
    Game::new(&images(count)).unwrap()
}

fn asked(ends: &WorkerEnds) -> Vec<usize> {
    let mut ids = Vec::new();
    while let Ok(Task::Load { id, path }) = ends.tasks.try_recv() {
        assert_eq!(path, name(id));
        ids.push(id);
    }
    ids
}

fn finish(ends: &WorkerEnds, id: usize) {
    let result = TaskResult::DecodedImage { id, bytes: vec![0; 4], width: 1, height: 1 };
    ends.results.send(result).unwrap();
}

const NO_KEYS: Keys = Keys { next: false, previous: false, invert: false };
const NEXT: Keys = Keys { next: true, previous: false, invert: false };
const PREVIOUS: Keys = Keys { next: false, previous: true, invert: false };

#[test]
fn nothing_to_browse_without_images() {
    assert!(Game::<usize>::new(&Vec::new()).is_none());
    let only_text =
        vec![Candidate { path: name(0), is_file: true, extension: Some("txt".to_string()) }];
    assert!(Game::<usize>::new(&only_text).is_none());
}

#[test]
fn new_browser_shows_the_first_image() {
    let (game, ends) = browser(3);
    assert_eq!(game.selected(), 0);
    assert!(!game.is_inverted());
    assert!(game.is_idle());
    assert_eq!(game.image(), None);
    assert_eq!(game.world().len(), 3);
    assert_eq!(game.world().get_path(2), Some(&name(2)));
    assert_eq!(asked(&ends), Vec::<usize>::new());
}

#[test]
fn next_and_previous_step_and_wrap() {
    let (mut game, _ends) = browser(3);
    game.input(NEXT);
    assert_eq!(game.selected(), 1);
    game.input(NEXT);
    assert_eq!(game.selected(), 2);
    game.input(NEXT);
    assert_eq!(game.selected(), 0);
    game.input(PREVIOUS);
    assert_eq!(game.selected(), 2);
    game.input(PREVIOUS);
    assert_eq!(game.selected(), 1);
    game.input(NO_KEYS);
    assert_eq!(game.selected(), 1);
}

#[test]
fn next_and_previous_together_cancel() {
    let (mut game, _ends) = browser(3);
    game.input(Keys { next: true, previous: true, invert: false });
    assert_eq!(game.selected(), 0);
    game.input(NEXT);
    game.input(NEXT);
    game.input(Keys { next: true, previous: true, invert: false });
    assert_eq!(game.selected(), 2);
}

#[test]
fn invert_toggles_the_tint() {
    let (mut game, _ends) = browser(1);
    game.input(Keys { next: false, previous: false, invert: true });
    assert!(game.is_inverted());
    game.input(NO_KEYS);
    assert!(game.is_inverted());
    game.input(Keys { next: true, previous: false, invert: true });
    assert!(!game.is_inverted());
    assert_eq!(game.selected(), 0);
}

#[test]
fn window_is_requested_selection_first() {
    let (mut game, ends) = browser(10);
    for _ in 0..5 {
        game.input(NEXT);
    }
    game.request_window();
    assert_eq!(asked(&ends), vec![5, 4, 6, 7]);
    game.request_window();
    assert_eq!(asked(&ends), Vec::<usize>::new());
    for id in [5, 4, 6, 7] {
        assert!(game.is_queued(id));
    }
    assert!(!game.is_queued(3));
    assert!(!game.is_queued(8));
}

#[test]
fn a_frame_requests_the_window_and_no_more_while_busy() {
    let (mut game, ends) = browser(10);
    game.update(&mut Counter, 0);
    assert_eq!(asked(&ends), vec![0, 1, 2]);
    game.update(&mut Counter, 1);
    assert_eq!(asked(&ends), Vec::<usize>::new());
    assert!(!game.is_idle());
    assert_eq!(game.image(), None);
}

#[test]
fn an_idle_frame_reads_one_image_ahead() {
    let (mut game, ends) = browser(10);
    game.update(&mut Counter, 0);
    for id in asked(&ends) {
        finish(&ends, id);
    }
    game.update(&mut Counter, 1);
    assert_eq!(game.image(), Some(&4));
    assert_eq!(asked(&ends), vec![3]);
    assert!(game.is_queued(3));

    game.update(&mut Counter, 2);
    assert_eq!(asked(&ends), Vec::<usize>::new());
    finish(&ends, 3);
    game.update(&mut Counter, 3);
    assert!(game.is_idle());
    assert!(game.world().get_image(3).is_some());
    assert_eq!(asked(&ends), Vec::<usize>::new());
}

#[test]
fn read_ahead_waits_until_nothing_is_in_flight() {
    let (mut game, ends) = browser(10);
    game.request_window();
    game.read_ahead();
    assert_eq!(asked(&ends), vec![0, 1, 2]);
    game.deliver(0, Some(1));
    game.deliver(1, Some(1));
    game.read_ahead();
    assert_eq!(asked(&ends), Vec::<usize>::new());
    game.deliver(2, Some(1));
    game.read_ahead();
    assert_eq!(asked(&ends), vec![3]);
}

#[test]
fn read_ahead_stops_at_the_last_image() {
    let (mut game, ends) = browser(3);
    game.request_window();
    assert_eq!(asked(&ends), vec![0, 1, 2]);
    for id in 0..3 {
        game.deliver(id, Some(1));
    }
    game.read_ahead();
    assert_eq!(asked(&ends), Vec::<usize>::new());
    assert!(game.is_idle());
}

#[test]
fn stepping_moves_the_window() {
    let (mut game, ends) = browser(10);
    game.update(&mut Counter, 0);
    assert_eq!(asked(&ends), vec![0, 1, 2]);
    game.input(NEXT);
    game.update(&mut Counter, 1);
    assert_eq!(asked(&ends), vec![3]);
    game.input(PREVIOUS);
    game.input(PREVIOUS);
    assert_eq!(game.selected(), 9);
    game.update(&mut Counter, 2);
    assert_eq!(asked(&ends), vec![9, 8]);
}

#[test]
fn deliver_shows_the_selected_image() {
    let (mut game, _ends) = browser(2);
    game.request(0);
    assert!(game.is_queued(0));
    game.deliver(0, None);
    assert_eq!(game.image(), None);
    assert!(game.is_queued(0));
    game.deliver(0, Some(12));
    assert_eq!(game.image(), Some(&12));
    assert!(game.is_idle());
}

#[test]
fn request_passes_over_unknown_ids() {
    let (mut game, ends) = browser(2);
    game.request(2);
    game.request(usize::MAX);
    assert!(game.is_idle());
    assert_eq!(asked(&ends), Vec::<usize>::new());
}
