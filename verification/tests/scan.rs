use muse::catalog::{Catalog, TagFields};
use muse::scan::{
    candidates, is_candidate, is_mp3_file, root_or_default, WalkItem, DEFAULT_ROOT, MP3_EXTENSION,
    MP3_PATTERN,
};

fn file(name: &str) -> WalkItem {
    WalkItem::Entry { is_file: true, file_name: Some(name.to_string()) }
}

fn dir(name: &str) -> WalkItem {
    WalkItem::Entry { is_file: false, file_name: Some(name.to_string()) }
}

#[test]
fn scan_picks_mp3_files_whatever_their_case() {
    let items = vec![file("Song.MP3"), file("track.mp3"), file("notes.txt")];
    assert_eq!(candidates(&items), vec![0, 1]);
}

#[test]
fn lower_case_is_applied_before_the_match() {
    assert!(is_mp3_file(Some("Song.MP3")));
    assert!(is_mp3_file(Some("SONG.Mp3")));
    assert!(is_mp3_file(Some("a.mP3")));
}

#[test]
fn extension_must_be_the_whole_suffix() {
    assert!(is_mp3_file(Some(".mp3")));
    assert!(is_mp3_file(Some("a.b.mp3")));
    assert!(!is_mp3_file(Some("mp3")));
    assert!(!is_mp3_file(Some("amp3")));
    assert!(!is_mp3_file(Some("a.mp3x")));
    assert!(!is_mp3_file(Some("a.mp3 ")));
    assert!(!is_mp3_file(Some("a.mp3\n")));
    assert!(!is_mp3_file(Some("a.mp4")));
    assert!(!is_mp3_file(Some("a.mp3.txt")));
    assert!(!is_mp3_file(Some("")));
}

#[test]
fn name_that_is_not_unicode_is_no_mp3_file() {
    assert!(!is_mp3_file(None));
}

#[test]
fn only_regular_files_are_candidates() {
    assert!(is_candidate(&file("a.mp3")));
    assert!(!is_candidate(&dir("a.mp3")));
    assert!(!is_candidate(&file("a.txt")));
    assert!(!is_candidate(&WalkItem::Entry { is_file: true, file_name: None }));
    assert!(!is_candidate(&WalkItem::Unreadable));
}

#[test]
fn unreadable_entries_are_passed_over() {
    let items = vec![
        WalkItem::Unreadable,
        file("a.mp3"),
        dir("music.mp3"),
        WalkItem::Unreadable,
        file("b.MP3"),
        file("c.ogg"),
        file("d.mp3"),
    ];
    assert_eq!(candidates(&items), vec![1, 4, 6]);
}

#[test]
fn walk_without_candidates_gives_an_empty_catalog() {
    let items = vec![dir("test_dir"), file("notes.txt"), file("cover.jpg")];
    let picked = candidates(&items);
    assert!(picked.is_empty());
    let tags: Vec<TagFields> = Vec::new();
    let catalog = Catalog::from_tags(&tags).unwrap();
    assert!(catalog.is_empty());
    assert!(candidates(&Vec::new()).is_empty());
}

#[test]
fn constants_of_the_scan() {
    assert_eq!(DEFAULT_ROOT, "test_dir");
    assert_eq!(MP3_EXTENSION, ".mp3");
    assert_eq!(MP3_PATTERN, "\\.mp3$");
}

#[test]
fn root_is_the_one_supplied_or_the_default() {
    assert_eq!(root_or_default(None), "test_dir");
    assert_eq!(root_or_default(Some("music".to_string())), "music");
    assert_eq!(root_or_default(Some(String::new())), "");
}
