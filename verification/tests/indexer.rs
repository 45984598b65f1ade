use vidgen::framelist::{min_frame, Frame, FrameList, SourceEntry};
use vidgen::framename::frame_id_of_name;

fn entry(name: &str) -> SourceEntry {
    SourceEntry { name: name.to_string(), path: format!("/frames/{}", name) }
}

#[test]
fn name_with_digits_dot_extension_yields_id() {
    assert_eq!(frame_id_of_name("000001.png"), Some(1));
    assert_eq!(frame_id_of_name("000002.png"), Some(2));
    assert_eq!(frame_id_of_name("12345.jpeg"), Some(12345));
    assert_eq!(frame_id_of_name("007.png"), Some(7));
}

#[test]
fn name_without_digit_group_yields_nothing() {
    assert_eq!(frame_id_of_name("report.txt"), None);
    assert_eq!(frame_id_of_name(""), None);
    assert_eq!(frame_id_of_name("frames"), None);
    assert_eq!(frame_id_of_name("12.ab"), None);
    assert_eq!(frame_id_of_name("12png"), None);
    assert_eq!(frame_id_of_name("12."), None);
}

#[test]
fn earliest_match_wins_and_backtracking_follows_the_grammar() {
    // The first digit run, "123", is followed by ".45" — only two word
    // characters before the next dot — so the match starts at "45".
    assert_eq!(frame_id_of_name("123.45.png"), Some(45));
    // Digits inside a longer name still match.
    assert_eq!(frame_id_of_name("frame12.jpeg"), Some(12));
    assert_eq!(frame_id_of_name("a1.png"), Some(1));
    // Trailing text after the extension is no obstacle.
    assert_eq!(frame_id_of_name("12.png.bak"), Some(12));
}

#[test]
fn digit_group_beyond_u64_is_skipped() {
    assert_eq!(frame_id_of_name("18446744073709551615.png"), Some(u64::MAX));
    assert_eq!(frame_id_of_name("18446744073709551616.png"), None);
    assert_eq!(frame_id_of_name("99999999999999999999999.png"), None);
}

#[test]
fn index_keeps_matching_entries_sorted_ascending() {
    let list = FrameList::from_entries(vec![
        entry("000003.png"),
        entry("report.txt"),
        entry("000001.png"),
        entry("_progress.json"),
        entry("000002.png"),
    ]);
    let ids: Vec<u64> = list.frames.iter().map(|f| f.0).collect();
    assert_eq!(ids, vec![1, 2, 3]);
    assert_eq!(list.frames[0].1, "/frames/000001.png");
    assert_eq!(list.frames[2].1, "/frames/000003.png");
}

#[test]
fn index_skips_non_matching_names_regardless_of_name() {
    let list = FrameList::from_entries(vec![
        entry("report.txt"),
        entry("notes"),
        entry("th.umbs.db"),
        entry("0.tga"),
    ]);
    // Only "0.tga" holds a digit group followed by a dot and a long
    // enough extension; the digit-less names are absent whatever they say.
    assert_eq!(list.len(), 1);
    assert_eq!(list.frames[0].1, "/frames/0.tga");
    assert_eq!(list.frames[0].0, 0);
}

#[test]
fn equal_ids_keep_directory_listing_order() {
    let list = FrameList::from_entries(vec![
        entry("7.png"),
        entry("0007.jpg"),
        entry("5.png"),
    ]);
    let ids: Vec<u64> = list.frames.iter().map(|f| f.0).collect();
    assert_eq!(ids, vec![5, 7, 7]);
    assert_eq!(list.frames[1].1, "/frames/7.png");
    assert_eq!(list.frames[2].1, "/frames/0007.jpg");
}

#[test]
fn empty_listing_gives_empty_index() {
    let list = FrameList::from_entries(Vec::new());
    assert_eq!(list.len(), 0);
}

#[test]
fn min_frame_picks_smallest_id() {
    let entries = vec![
        entry("9.png"),
        entry("report.txt"),
        entry("3.png"),
        entry("12.png"),
    ];
    let m = min_frame(&entries).expect("a frame matches");
    assert_eq!(m.0, 3);
    assert_eq!(m.1, "/frames/3.png");
}

#[test]
fn min_frame_keeps_the_earliest_on_a_tie() {
    let entries = vec![entry("4.png"), entry("04.jpg")];
    let m = min_frame(&entries).expect("a frame matches");
    assert_eq!(m.1, "/frames/4.png");
}

#[test]
fn min_frame_of_no_match_is_none() {
    let entries = vec![entry("report.txt"), entry("notes")];
    assert!(min_frame(&entries).is_none());
}

#[test]
fn frames_order_by_id_alone() {
    let a = Frame(1, "a".to_string());
    let b = Frame(2, "b".to_string());
    let c = Frame(1, "c".to_string());
    assert!(a < b);
    assert!(b > c);
    assert_eq!(a.partial_cmp(&c), Some(std::cmp::Ordering::Equal));
    assert!(a != c);
    assert_eq!(a, Frame(1, "a".to_string()));
}
