use metasort::exif::ExifFields;
use metasort::media::{Category, Folder};
use metasort::naming::{NameQuestion};
use metasort::sorting::{file_info, FileInfo, SortCounts, SortState};
use metasort::source::SourceFile;

fn fields(date: &str, mime: &str) -> ExifFields {
    ExifFields {
        date: date.to_string(),
        mime_type: mime.to_string(),
        image_size: "10x10".to_string(),
        file_type: "T".to_string(),
    }
}

fn info(name: &str) -> FileInfo {
    file_info(name.to_string(), fields("d", "m"), 2048)
}

fn file(name: &str, stem: &str, ext: &str) -> SourceFile {
    SourceFile {
        name: Some(name.to_string()),
        shown_name: name.to_string(),
        stem: Some(stem.to_string()),
        ext: Some(ext.to_string()),
        live_key: 0,
    }
}

fn listed(v: &[FileInfo]) -> Vec<String> {
    v.iter().map(|i| i.0.clone()).collect()
}

#[test]
fn a_row_holds_what_is_known() {
    let row = file_info("new.jpg".to_string(), fields("2020", "image/jpeg"), 1536);
    let expected = (
        "new.jpg".to_string(),
        "T".to_string(),
        "2020".to_string(),
        "10x10".to_string(),
        "1.50 KB".to_string(),
        1536u64,
    );
    assert_eq!(row, expected);
}

#[test]
fn each_category_has_its_list_and_its_count() {
    let mut s = SortState::new();
    s.record(Category::Photo, info("p"), false);
    s.record(Category::WhatsApp, info("w"), true);
    s.record(Category::Screenshot, info("s"), false);
    s.record(Category::Video, info("v"), false);
    s.record(Category::Mkv, info("m"), false);
    s.record(Category::UnknownTime, info("u"), false);
    s.record(Category::UnknownTime, info("f"), true);
    assert_eq!(listed(&s.photos_info), vec!["p", "w", "s"]);
    assert_eq!(listed(&s.videos_info), vec!["v"]);
    assert_eq!(listed(&s.mkv_info), vec!["m"]);
    assert_eq!(listed(&s.unknown_info), vec!["u"]);
    assert_eq!(listed(&s.failed_guess_info), vec!["f"]);
    let counts =
        SortCounts { photos: 1, videos: 1, whatsapp: 1, screenshots: 1, unknown: 2, mkv: 1 };
    assert_eq!(s.counts, counts);
    assert_eq!(s.counts.total(), 7);
}

fn sample(n: usize) -> (Category, FileInfo, bool) {
    let categories = [
        Category::Photo,
        Category::WhatsApp,
        Category::Screenshot,
        Category::Video,
        Category::Mkv,
        Category::UnknownTime,
    ];
    (categories[n % 6], info(&format!("file{}", n)), n % 4 == 1)
}

fn tally(from: usize, to: usize) -> SortState {
    let mut s = SortState::new();
    for n in from..to {
        let (c, i, f) = sample(n);
        s.record(c, i, f);
    }
    s
}

fn same(a: &SortState, b: &SortState) -> bool {
    a.photos_info == b.photos_info
        && a.videos_info == b.videos_info
        && a.unknown_info == b.unknown_info
        && a.mkv_info == b.mkv_info
        && a.failed_guess_info == b.failed_guess_info
        && a.counts == b.counts
}

#[test]
fn tallies_of_parts_make_the_tally_of_the_whole() {
    let mut left = tally(0, 10);
    let right = tally(10, 31);
    assert!(left.can_merge(&right));
    left.merge(right);
    assert!(same(&left, &tally(0, 31)));
    assert_eq!(left.counts.total(), 31);
    left.merge(SortState::new());
    assert!(same(&left, &tally(0, 31)));
    let mut fresh = SortState::new();
    fresh.merge(tally(0, 31));
    assert!(same(&left, &fresh));
}

#[test]
fn merging_can_be_grouped_either_way() {
    let mut a = tally(0, 7);
    a.merge(tally(7, 9));
    a.merge(tally(9, 20));
    let mut tail = tally(7, 9);
    tail.merge(tally(9, 20));
    let mut b = tally(0, 7);
    b.merge(tail);
    assert!(same(&a, &b));
}

#[test]
fn full_counts_are_noticed() {
    let mut s = SortState::new();
    assert!(s.can_add());
    assert!(s.counts.total_fits());
    s.counts.unknown = usize::MAX;
    assert!(!s.can_add());
    assert!(s.counts.total_fits());
    s.counts.photos = 1;
    assert!(!s.counts.total_fits());
    let mut t = SortState::new();
    assert!(s.can_merge(&t));
    t.counts.unknown = 1;
    assert!(!s.can_merge(&t));
}

#[test]
fn a_file_is_filed_under_its_category() {
    let mut s = SortState::new();
    let screenshot = file("Screenshot 1.PNG", "Screenshot 1", "PNG");
    s.add_file(true, &screenshot, "n1".to_string(), fields("2020", "image/png"), 1, false);
    s.add_file(false, &screenshot, "n2".to_string(), fields("2020", "image/png"), 1, false);
    s.add_file(false, &screenshot, "n3".to_string(), fields("", "image/png"), 1, true);
    s.add_file(true, &file("a.MKV", "a", "MKV"), "n4".to_string(), fields("", ""), 1, true);
    s.add_file(true, &file("b.MOV", "b", "MOV"), "n5".to_string(), fields("2020", ""), 1, true);
    assert_eq!(listed(&s.photos_info), vec!["n1", "n2"]);
    assert_eq!(listed(&s.failed_guess_info), vec!["n3"]);
    assert_eq!(listed(&s.mkv_info), vec!["n4"]);
    assert_eq!(listed(&s.videos_info), vec!["n5"]);
    let counts =
        SortCounts { photos: 1, videos: 1, whatsapp: 0, screenshots: 1, unknown: 1, mkv: 1 };
    assert_eq!(s.counts, counts);
}

#[test]
fn reports_come_in_order() {
    let s = tally(0, 24);
    let photos = s.photos_info.clone();
    let failed = s.failed_guess_info.clone();
    let expected = s.counts;
    let (reports, counts) = s.into_reports();
    let files: Vec<&str> = reports.iter().map(|r| r.file_name).collect();
    assert_eq!(
        files,
        vec!["photos.csv", "videos.csv", "unknown_time.csv", "mkv_files.csv", "failed_filename_guess.csv"]
    );
    assert_eq!(reports[0].rows, photos);
    assert_eq!(reports[4].rows, failed);
    assert_eq!(counts, expected);
}

#[test]
fn the_date_decides_on_the_folder() {
    let f = file("IMG.JPG", "IMG", "JPG");
    assert!(f.is_media());
    assert!(!file("notes.txt", "notes", "txt").is_media());
    assert_eq!(f.folder(&fields("2020", "")), Folder::Media);
    assert_eq!(f.folder(&fields("", "")), Folder::UnknownTime);
    let search = f.name_search(&fields("", ""));
    assert!(matches!(search.question(), NameQuestion::TargetExists(n) if n == "IMG.JPG"));
}
