use image_browser::game::loader::Loader;
use image_browser::game::world::World;
use std::path::PathBuf;

fn registry_of(count: usize) -> World<u8> {
    let mut world = World::new();
    for id in 0..count {
        world.spawn_asset(PathBuf::from(format!("{id}.png")));
    }
    world
}

#[test]
fn new_loader_is_idle() {
    let mut loader = Loader::new();
    assert!(loader.is_idle());
    assert_eq!(loader.update(&registry_of(1)), None);
    assert!(loader.is_idle());
}

#[test]
fn loader_takes_the_latest_id_first() {
    let world = registry_of(3);
    let mut loader = Loader::new();
    loader.load(0);
    loader.load(2);
    assert!(!loader.is_idle());
    assert_eq!(loader.update(&world), Some((2, PathBuf::from("2.png"))));
    assert_eq!(loader.update(&world), Some((0, PathBuf::from("0.png"))));
    assert_eq!(loader.update(&world), None);
    assert!(loader.is_idle());
}

#[test]
fn loader_queues_an_id_once() {
    let world = registry_of(2);
    let mut loader = Loader::new();
    loader.load(1);
    loader.load(1);
    loader.load(0);
    loader.load(1);
    assert_eq!(loader.update(&world), Some((0, PathBuf::from("0.png"))));
    assert_eq!(loader.update(&world), Some((1, PathBuf::from("1.png"))));
    assert!(loader.is_idle());
}

#[test]
fn loader_passes_over_an_id_with_an_image() {
    let mut world = registry_of(2);
    world.insert_image(1, 5);
    let mut loader = Loader::new();
    loader.load(1);
    assert_eq!(loader.update(&world), None);
    assert!(loader.is_idle());
}

#[test]
fn loader_passes_over_an_unregistered_id() {
    let world = registry_of(1);
    let mut loader = Loader::new();
    loader.load(4);
    assert!(!loader.is_idle());
    assert_eq!(loader.update(&world), None);
    assert!(loader.is_idle());
}
