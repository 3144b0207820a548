use jinn_imageviewer::images::ImageEntry;
use jinn_imageviewer::sorting::{first_char_code, natural_cmp, ImageSortMode};
use std::cmp::Ordering;

#[test]
fn test_natural_sort_basic() {
    let mut files = vec!["img10.jpg", "img2.jpg", "img1.jpg", "img20.jpg"];
    files.sort_by(|a, b| natural_cmp(a, b));
    assert_eq!(files, vec!["img1.jpg", "img2.jpg", "img10.jpg", "img20.jpg"]);
}

#[test]
fn test_natural_sort_mixed() {
    let mut files = vec!["b2.png", "a10.png", "a2.png", "b1.png"];
    files.sort_by(|a, b| natural_cmp(a, b));
    assert_eq!(files, vec!["a2.png", "a10.png", "b1.png", "b2.png"]);
}

#[test]
fn test_natural_sort_equal() {
    assert_eq!(natural_cmp("abc", "abc"), Ordering::Equal);
}

#[test]
fn test_natural_sort_empty() {
    assert_eq!(natural_cmp("", ""), Ordering::Equal);
    assert_eq!(natural_cmp("", "a"), Ordering::Less);
}

#[test]
fn test_leading_zeros() {
    let mut files = vec!["file009.txt", "file09.txt", "file9.txt"];
    files.sort_by(|a, b| natural_cmp(a, b));
    assert_eq!(files, vec!["file009.txt", "file09.txt", "file9.txt"]);
}

#[test]
fn test_case_insensitive() {
    assert_eq!(natural_cmp("ABC", "abc"), Ordering::Equal);
    assert_eq!(natural_cmp("aBC", "Abc"), Ordering::Equal);
}

#[test]
fn test_numbers_before_letters() {
    assert_eq!(natural_cmp("1abc", "abc"), Ordering::Less);
}

#[test]
fn natural_order_is_antisymmetric_on_examples() {
    let names = ["a2", "a10", "A10", "b", "", "010", "10", "x9y", "x10y"];
    for a in names.iter() {
        for b in names.iter() {
            assert_eq!(natural_cmp(a, b), natural_cmp(b, a).reverse());
        }
        assert_eq!(natural_cmp(a, a), Ordering::Equal);
    }
}

#[test]
fn numbers_compare_by_value() {
    assert_eq!(natural_cmp("page2", "page10"), Ordering::Less);
    assert_eq!(natural_cmp("page100", "page99"), Ordering::Greater);
    assert_eq!(natural_cmp("a007", "a7"), Ordering::Equal);
}

#[test]
fn first_char_code_of_names() {
    assert_eq!(first_char_code(""), 0);
    assert_eq!(first_char_code("abc"), 97);
    assert_eq!(first_char_code("中文"), 0x4E2D);
}

fn entry(name: &str) -> ImageEntry {
    ImageEntry {
        path: format!("/pictures/{}", name),
        name: name.to_string(),
        manual_rotation: 0,
        load_failed: false,
    }
}

fn names(entries: &[ImageEntry]) -> Vec<String> {
    entries.iter().map(|e| e.name.clone()).collect()
}

#[test]
fn sort_by_size_then_name() {
    let mut entries = vec![entry("b.png"), entry("a.png"), entry("c.png")];
    let keys = vec![20, 20, 10];
    ImageSortMode::Size.sort(&mut entries, &keys, false);
    assert_eq!(names(&entries), vec!["c.png", "a.png", "b.png"]);
}

#[test]
fn sort_by_date_newest_first() {
    let mut entries = vec![entry("old.png"), entry("new.png"), entry("mid.png")];
    let keys = vec![100, 300, 200];
    ImageSortMode::Date.sort(&mut entries, &keys, false);
    assert_eq!(names(&entries), vec!["new.png", "mid.png", "old.png"]);
}

#[test]
fn sort_by_date_reversed_is_oldest_first() {
    let mut entries = vec![entry("old.png"), entry("new.png"), entry("mid.png")];
    let keys = vec![100, 300, 200];
    ImageSortMode::Date.sort(&mut entries, &keys, true);
    assert_eq!(names(&entries), vec!["old.png", "mid.png", "new.png"]);
}

#[test]
fn sort_by_name_uses_first_character_then_natural_order() {
    let mut entries = vec![entry("b10.png"), entry("B2.png"), entry("a1.png"), entry("b2.png")];
    let keys = vec![0, 0, 0, 0];
    ImageSortMode::Name.sort(&mut entries, &keys, false);
    assert_eq!(names(&entries), vec!["B2.png", "a1.png", "b2.png", "b10.png"]);
}

#[test]
fn sort_keeps_equal_entries_in_order() {
    let mut entries = vec![entry("x.png"), entry("X.png")];
    let keys = vec![5, 5];
    ImageSortMode::Size.sort(&mut entries, &keys, false);
    assert_eq!(names(&entries), vec!["x.png", "X.png"]);
    ImageSortMode::Size.sort(&mut entries, &keys, true);
    assert_eq!(names(&entries), vec!["x.png", "X.png"]);
}

#[test]
fn sort_mode_predicates() {
    assert!(ImageSortMode::Size.is_size());
    assert!(!ImageSortMode::Date.is_size());
    assert!(ImageSortMode::Name.is_name());
    assert!(!ImageSortMode::Size.is_name());
}

#[test]
fn reversed_sort_is_the_plain_sort_backwards() {
    let start = vec![entry("d.png"), entry("a.png"), entry("c.png"), entry("b.png")];
    let keys = vec![40, 10, 30, 10];
    for mode in [ImageSortMode::Size, ImageSortMode::Date, ImageSortMode::Name] {
        let mut plain = start.clone();
        mode.sort(&mut plain, &keys, false);
        let mut reversed = start.clone();
        mode.sort(&mut reversed, &keys, true);
        let mut backwards = names(&plain);
        backwards.reverse();
        assert_eq!(names(&reversed), backwards);
    }
}
