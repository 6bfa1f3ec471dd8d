use metasort::media::Folder;
use metasort::naming::{Claims, NameQuestion, NameSearch};
use std::collections::HashSet;

/// Runs a search on a disk that holds these extensions beside the file and these
/// names in its folder.
fn name_on(mut search: NameSearch, claims: &mut Claims, beside: &[&str], target: &HashSet<String>) -> String {
    loop {
        assert!(search.has_numbers_left());
        let found = match search.question() {
            NameQuestion::SourceExists(ext) => beside.contains(&ext.as_str()),
            NameQuestion::TargetExists(name) => target.contains(&name),
            NameQuestion::Assigned(name) => return name,
        };
        search.answer(found, claims);
    }
}

fn begin(stem: &str, ext: &str, folder: Folder, key: u64) -> NameSearch {
    NameSearch::begin(Some(stem.to_string()), Some(ext.to_string()), folder, key)
}

fn names(list: &[&str]) -> HashSet<String> {
    list.iter().map(|s| s.to_string()).collect()
}

#[test]
fn a_free_name_is_kept() {
    let mut claims = Claims::new();
    let disk = names(&[]);
    assert_eq!(name_on(begin("IMG", "JPG", Folder::Media, 1), &mut claims, &[], &disk), "IMG.JPG");
    assert!(claims.contains(Folder::Media, "IMG.JPG"));
    assert!(!claims.contains(Folder::UnknownTime, "IMG.JPG"));
    assert!(!claims.contains(Folder::Media, "IMG.jpg"));
}

#[test]
fn taken_names_are_numbered() {
    let mut claims = Claims::new();
    let disk = names(&["IMG_1.jpg"]);
    let mut got = Vec::new();
    for key in 0..4 {
        got.push(name_on(begin("IMG", "jpg", Folder::Media, key), &mut claims, &[], &disk));
    }
    assert_eq!(got, vec!["IMG.jpg", "IMG_2.jpg", "IMG_3.jpg", "IMG_4.jpg"]);
    let other = name_on(begin("IMG", "jpg", Folder::UnknownTime, 9), &mut claims, &[], &names(&[]));
    assert_eq!(other, "IMG.jpg");
}

#[test]
fn many_files_of_one_name_get_different_names() {
    let mut claims = Claims::new();
    let disk = names(&[]);
    let mut seen = HashSet::new();
    for key in 0..120 {
        let name = name_on(begin("a", "png", Folder::Media, key), &mut claims, &[], &disk);
        assert!(seen.insert(name));
    }
    assert!(seen.contains("a_119.png"));
}

#[test]
fn missing_parts_of_a_name_are_made_up_or_left_out() {
    let mut claims = Claims::new();
    let disk = names(&[]);
    let nameless = NameSearch::begin(None, Some("jpg".to_string()), Folder::Media, 0);
    assert_eq!(name_on(nameless, &mut claims, &[], &disk), "file.jpg");
    let bare = NameSearch::begin(Some("x".to_string()), None, Folder::Media, 0);
    assert_eq!(name_on(bare, &mut claims, &[], &disk), "x");
    let again = NameSearch::begin(Some("x".to_string()), None, Folder::Media, 0);
    assert_eq!(name_on(again, &mut claims, &[], &disk), "x_1");
}

#[test]
fn halves_of_a_live_photo_share_a_stem() {
    let mut claims = Claims::new();
    let disk = names(&["IMG.heic"]);
    let image = name_on(begin("IMG", "heic", Folder::Media, 5), &mut claims, &["mp4"], &disk);
    assert_eq!(image, "IMG_1.heic");
    assert_eq!(claims.live_stem(5), Some("IMG_1".to_string()));
    let video = name_on(begin("IMG", "mp4", Folder::Media, 5), &mut claims, &["heic"], &disk);
    assert_eq!(video, "IMG_1.mp4");
    assert!(claims.contains(Folder::Media, "IMG_1.mp4"));
}

#[test]
fn both_names_of_a_live_photo_have_to_be_free() {
    let mut claims = Claims::new();
    let disk = names(&["IMG.MP4", "IMG_2.HEIC"]);
    let image = name_on(begin("IMG", "HEIC", Folder::Media, 5), &mut claims, &["MP4"], &disk);
    assert_eq!(image, "IMG_1.HEIC");
    let mut fresh = Claims::new();
    let video = name_on(begin("IMG", "Mp4", Folder::Media, 6), &mut fresh, &["HEIC"], &names(&["IMG.HEIC"]));
    assert_eq!(video, "IMG_1.Mp4");
    fresh.claim(Folder::Media, "B.HEIC".to_string());
    let claimed = name_on(begin("B", "mp4", Folder::Media, 7), &mut fresh, &["HEIC"], &names(&[]));
    assert_eq!(claimed, "B_1.mp4");
}

#[test]
fn the_other_half_is_looked_for_under_the_extension_it_has() {
    let mut claims = Claims::new();
    claims.claim(Folder::Media, "IMG.mp4".to_string());
    let image = name_on(begin("IMG", "heic", Folder::Media, 1), &mut claims, &["mp4"], &names(&[]));
    assert_eq!(image, "IMG_1.heic");
    let video = name_on(begin("IMG", "mp4", Folder::Media, 1), &mut claims, &["heic"], &names(&[]));
    assert_eq!(video, "IMG_1.mp4");

    let mut fresh = Claims::new();
    let disk = names(&["IMG.heic"]);
    let video = name_on(begin("IMG", "mp4", Folder::Media, 2), &mut fresh, &["heic"], &disk);
    assert_eq!(video, "IMG_1.mp4");
    let image = name_on(begin("IMG", "heic", Folder::Media, 2), &mut fresh, &["mp4"], &disk);
    assert_eq!(image, "IMG_1.heic");

    let mut upper = Claims::new();
    let disk = names(&["IMG.mp4"]);
    let image = name_on(begin("IMG", "HEIC", Folder::Media, 3), &mut upper, &["MP4"], &disk);
    assert_eq!(image, "IMG.HEIC");
    let both = name_on(begin("IMG", "HEIC", Folder::Media, 4), &mut upper, &["mp4", "MP4"], &disk);
    assert_eq!(both, "IMG_1.HEIC");
}

#[test]
fn a_pair_on_a_disk_that_ignores_case_is_not_split() {
    let mut claims = Claims::new();
    let disk = names(&[]);
    let stranger = name_on(begin("IMG", "MP4", Folder::Media, 1), &mut claims, &[], &disk);
    assert_eq!(stranger, "IMG.MP4");
    let image = name_on(begin("IMG", "HEIC", Folder::Media, 2), &mut claims, &["mp4", "MP4"], &disk);
    assert_eq!(image, "IMG_1.HEIC");
    let video = name_on(begin("IMG", "MP4", Folder::Media, 2), &mut claims, &["heic", "HEIC"], &disk);
    assert_eq!(video, "IMG_1.MP4");

    let mut fresh = Claims::new();
    fresh.claim(Folder::Media, "IMG.HEIC".to_string());
    let video = name_on(begin("IMG", "MP4", Folder::Media, 3), &mut fresh, &["heic", "HEIC"], &disk);
    assert_eq!(video, "IMG_1.MP4");
    let on_disk = names(&["B.MP4", "B_1.mp4"]);
    let image = name_on(begin("B", "HEIC", Folder::Media, 4), &mut fresh, &["mp4", "MP4"], &on_disk);
    assert_eq!(image, "B_2.HEIC");
}

#[test]
fn a_lower_case_pair_is_asked_about_in_order() {
    let mut claims = Claims::new();
    let mut search = begin("IMG", "mp4", Folder::Media, 1);
    assert!(matches!(search.question(), NameQuestion::SourceExists(e) if e == "heic"));
    search.answer(true, &mut claims);
    assert!(matches!(search.question(), NameQuestion::TargetExists(n) if n == "IMG.mp4"));
    search.answer(false, &mut claims);
    assert!(matches!(search.question(), NameQuestion::TargetExists(n) if n == "IMG.heic"));
    search.answer(false, &mut claims);
    assert!(matches!(search.question(), NameQuestion::TargetExists(n) if n == "IMG.HEIC"));
    search.answer(true, &mut claims);
    assert!(matches!(search.question(), NameQuestion::TargetExists(n) if n == "IMG_1.mp4"));
    for _ in 0..3 {
        search.answer(false, &mut claims);
    }
    assert!(matches!(search.question(), NameQuestion::Assigned(n) if n == "IMG_1.mp4"));
}

#[test]
fn a_lone_half_is_an_ordinary_file() {
    let mut claims = Claims::new();
    let disk = names(&["IMG.MP4"]);
    let image = name_on(begin("IMG", "heic", Folder::Media, 5), &mut claims, &[], &disk);
    assert_eq!(image, "IMG.heic");
    assert_eq!(claims.live_stem(5), None);
}

#[test]
fn a_search_asks_in_order() {
    let mut claims = Claims::new();
    let mut search = begin("IMG", "HEIC", Folder::Media, 1);
    assert!(matches!(search.question(), NameQuestion::SourceExists(e) if e == "mp4"));
    search.answer(false, &mut claims);
    assert!(matches!(search.question(), NameQuestion::SourceExists(e) if e == "MP4"));
    search.answer(true, &mut claims);
    assert!(matches!(search.question(), NameQuestion::TargetExists(n) if n == "IMG.HEIC"));
    search.answer(false, &mut claims);
    assert!(matches!(search.question(), NameQuestion::TargetExists(n) if n == "IMG.MP4"));
    search.answer(false, &mut claims);
    assert!(matches!(search.question(), NameQuestion::Assigned(n) if n == "IMG.HEIC"));
    let mut video = begin("V", "mp4", Folder::Media, 2);
    assert!(matches!(video.question(), NameQuestion::SourceExists(e) if e == "heic"));
    video.answer(false, &mut claims);
    assert!(matches!(video.question(), NameQuestion::SourceExists(e) if e == "HEIC"));
}

#[test]
fn the_second_half_takes_a_name_that_someone_else_has() {
    let mut claims = Claims::new();
    let disk = names(&[]);
    let image = name_on(begin("IMG", "heic", Folder::Media, 5), &mut claims, &["mp4"], &disk);
    assert_eq!(image, "IMG.heic");
    let stranger = name_on(begin("IMG", "mp4", Folder::Media, 8), &mut claims, &[], &disk);
    assert_eq!(stranger, "IMG.mp4");
    let video = name_on(begin("IMG", "mp4", Folder::Media, 5), &mut claims, &["heic"], &disk);
    assert_eq!(video, "IMG.mp4");
}
