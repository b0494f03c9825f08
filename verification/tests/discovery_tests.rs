//! The extension filter and the frozen discovery order.

use embed_pipeline::discovery::{filter_image_paths, has_accepted_extension};

/// Accepted extensions match case-sensitively; everything else is
/// silently discarded.
#[test]
fn extension_filter_cases() {
    assert!(has_accepted_extension("photo.jpg"));
    assert!(has_accepted_extension("photo.jpeg"));
    assert!(has_accepted_extension("photo.png"));
    assert!(has_accepted_extension("dir/sub/photo.jpg"));
    assert!(has_accepted_extension("a.b.png"));

    assert!(!has_accepted_extension("photo.JPG"));
    assert!(!has_accepted_extension("photo.Png"));
    assert!(!has_accepted_extension("photo.gif"));
    assert!(!has_accepted_extension("photo.jpgg"));
    assert!(!has_accepted_extension("photojpg"));
    assert!(!has_accepted_extension("photo"));
    assert!(!has_accepted_extension(""));
    // A dot file has no extension.
    assert!(!has_accepted_extension(".jpg"));
    assert!(!has_accepted_extension("dir/.jpg"));
}

/// Filtering keeps the accepted paths in arrival order and freezes
/// their positions as the discovery order.
#[test]
fn filter_keeps_order_and_indexes() {
    let paths: Vec<String> = vec![
        String::from("one.jpg"),
        String::from("skip.txt"),
        String::from("two.png"),
        String::from("also/skipped"),
        String::from("three.jpeg"),
    ];
    let found = filter_image_paths(&paths);
    let names: Vec<&str> = found.iter().map(|ip| ip.path.as_str()).collect();
    assert_eq!(names, vec!["one.jpg", "two.png", "three.jpeg"]);
    for (k, ip) in found.iter().enumerate() {
        assert_eq!(ip.index, k);
    }
}

/// No accepted path at all gives an empty order, not an error.
#[test]
fn filter_empty_result() {
    let paths: Vec<String> = vec![String::from("a.txt"), String::from("b")];
    let found = filter_image_paths(&paths);
    assert!(found.is_empty());
}
