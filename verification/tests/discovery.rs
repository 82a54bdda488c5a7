use image_browser::game::discovery::{
    discover, is_accepted, is_supported, Candidate, SUPPORTED_EXTENSIONS,
};
use image_browser::game::world::World;
use std::path::PathBuf;

fn file(name: &str, extension: Option<&str>) -> Candidate {
    Candidate {
        path: PathBuf::from(name),
        is_file: true,
        extension: extension.map(|text| text.to_string()),
    }
}

#[test]
fn every_listed_extension_is_supported() {
    let listed = [
        "png", "jpg", "jpeg", "gif", "bmp", "ico", "tiff", "tif", "webp", "avif", "pbm", "pgm",
        "ppm", "pnm", "dds", "tga", "ff",
    ];
    assert_eq!(SUPPORTED_EXTENSIONS, listed);
    for extension in listed {
        assert!(is_supported(extension));
    }
}

#[test]
fn other_extensions_are_not_supported() {
    for extension in ["txt", "", "pn", "pngx", "PNG", "Jpg", " png", "svg", "f", "fff"] {
        assert!(!is_supported(extension));
    }
}

#[test]
fn only_files_with_a_supported_extension_are_accepted() {
    assert!(is_accepted(&file("a.png", Some("png"))));
    assert!(!is_accepted(&file("a.txt", Some("txt"))));
    assert!(!is_accepted(&file("a", None)));
    let directory = Candidate {
        path: PathBuf::from("dir.png"),
        is_file: false,
        extension: Some("png".to_string()),
    };
    assert!(!is_accepted(&directory));
}

#[test]
fn discover_registers_accepted_candidates_in_order() {
    let candidates = vec![
        file("a.png", Some("png")),
        file("notes.txt", Some("txt")),
        file("b.jpg", Some("jpg")),
        file("README", None),
        file("c.ff", Some("ff")),
    ];
    let world: World<u8> = discover(&candidates);
    assert_eq!(world.len(), 3);
    assert_eq!(world.get_path(0), Some(&PathBuf::from("a.png")));
    assert_eq!(world.get_path(1), Some(&PathBuf::from("b.jpg")));
    assert_eq!(world.get_path(2), Some(&PathBuf::from("c.ff")));
    assert_eq!(world.get_path(3), None);
    for id in 0..3 {
        assert_eq!(world.get_image(id), None);
    }
}

#[test]
fn discover_of_nothing_is_empty() {
    let world: World<u8> = discover(&Vec::new());
    assert_eq!(world.len(), 0);
    let world: World<u8> = discover(&vec![file("a.txt", Some("txt"))]);
    assert_eq!(world.len(), 0);
}
