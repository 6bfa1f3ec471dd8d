use metasort::dating::{DateAnswer, DateQuestion, DateSearch, Sidecar, Subject};
use metasort::exif::ExifFields;

fn search(is_mp4: bool) -> DateSearch {
    let name = if is_mp4 { "IMG.MP4" } else { "IMG.jpg" };
    let ext = if is_mp4 { "MP4" } else { "jpg" };
    DateSearch::begin(Some(name.to_string()), Some("IMG".to_string()), &Some(ext.to_string()))
}

fn printed(text: &str) -> DateAnswer {
    DateAnswer::Output(Some(text.as_bytes().to_vec()))
}

const TAKEN: &str = r#"{"photoTakenTime": {"timestamp": "1577934245"}}"#;

struct World {
    output: [&'static str; 3],
    full_name: [bool; 3],
    replaced: [bool; 3],
    entries: [Vec<String>; 3],
    content: [Option<&'static str>; 3],
    lower: bool,
    upper: bool,
}

fn empty_world() -> World {
    World {
        output: ["", "", ""],
        full_name: [false; 3],
        replaced: [false; 3],
        entries: [Vec::new(), Vec::new(), Vec::new()],
        content: [None, None, None],
        lower: false,
        upper: false,
    }
}

fn index(s: Subject) -> usize {
    match s {
        Subject::File => 0,
        Subject::LowerHeic => 1,
        Subject::UpperHeic => 2,
    }
}

fn run(mut search: DateSearch, world: &World) -> (ExifFields, usize) {
    let mut asked = 0;
    loop {
        let answer = match search.question() {
            DateQuestion::Exif(s) => printed(world.output[index(s)]),
            DateQuestion::SidecarExists(s, Sidecar::Named(_)) => {
                DateAnswer::Exists(world.full_name[index(s)])
            }
            DateQuestion::SidecarExists(s, Sidecar::Extension(_)) => {
                DateAnswer::Exists(world.replaced[index(s)])
            }
            DateQuestion::Entries(s) => DateAnswer::Entries(world.entries[index(s)].clone()),
            DateQuestion::SidecarContent(s, _) => {
                DateAnswer::Content(world.content[index(s)].map(|c| c.to_string()))
            }
            DateQuestion::SubjectExists(Subject::UpperHeic) => DateAnswer::Exists(world.upper),
            DateQuestion::SubjectExists(_) => DateAnswer::Exists(world.lower),
            DateQuestion::Finished => return (search.into_fields(), asked),
            DateQuestion::NoSuchDate(t) => panic!("no date for {}", t),
        };
        asked += 1;
        search.answer(answer);
    }
}

#[test]
fn own_metadata_is_enough() {
    let mut world = empty_world();
    world.output[0] = "Date/Time Original: 2001:02:03 04:05:06\nMIME Type: image/jpeg\n";
    world.full_name[0] = true;
    world.content[0] = Some(TAKEN);
    let (fields, asked) = run(search(false), &world);
    assert_eq!(fields.date, "2001:02:03 04:05:06");
    assert_eq!(fields.mime_type, "image/jpeg");
    assert_eq!(asked, 1);
}

#[test]
fn the_sidecar_steps_in() {
    for way in 0..3 {
        let mut world = empty_world();
        world.output[0] = "File Type: JPEG\n";
        world.content[0] = Some(TAKEN);
        if way == 0 {
            world.full_name[0] = true;
        } else if way == 1 {
            world.replaced[0] = true;
        } else {
            world.entries[0] = vec!["x.json".to_string(), "IMG.jpg.suppl.json".to_string()];
        }
        let (fields, _) = run(search(false), &world);
        assert_eq!(fields.date, "2020:01:02 03:04:05");
        assert_eq!(fields.file_type, "JPEG");
    }
}

#[test]
fn the_names_asked_about_are_those_of_the_subject() {
    let mut s = search(true);
    assert!(matches!(s.question(), DateQuestion::Exif(Subject::File)));
    s.answer(DateAnswer::Output(None));
    assert!(matches!(s.question(), DateQuestion::SidecarExists(Subject::File, Sidecar::Named(n)) if n == "IMG.MP4.json"));
    s.answer(DateAnswer::Exists(false));
    assert!(matches!(s.question(), DateQuestion::SidecarExists(Subject::File, Sidecar::Extension(e)) if e == "json"));
    s.answer(DateAnswer::Exists(true));
    assert!(matches!(s.question(), DateQuestion::SidecarContent(Subject::File, Sidecar::Extension(e)) if e == "json"));
    s.answer(DateAnswer::Content(None));
    assert!(matches!(s.question(), DateQuestion::SubjectExists(Subject::LowerHeic)));
    s.answer(DateAnswer::Exists(false));
    assert!(matches!(s.question(), DateQuestion::SubjectExists(Subject::UpperHeic)));
    s.answer(DateAnswer::Exists(true));
    assert!(matches!(s.question(), DateQuestion::Exif(Subject::UpperHeic)));
    s.answer(DateAnswer::Output(None));
    assert!(matches!(s.question(), DateQuestion::SidecarExists(Subject::UpperHeic, Sidecar::Named(n)) if n == "IMG.HEIC.json"));
    s.answer(DateAnswer::Exists(false));
    s.answer(DateAnswer::Exists(false));
    assert!(matches!(s.question(), DateQuestion::Entries(Subject::UpperHeic)));
    s.answer(DateAnswer::Entries(vec!["IMG.HEIC.x.json".to_string()]));
    assert!(matches!(s.question(), DateQuestion::SidecarContent(Subject::UpperHeic, Sidecar::Named(n)) if n == "IMG.HEIC.x.json"));
    s.answer(DateAnswer::Content(Some("{}".to_string())));
    assert!(matches!(s.question(), DateQuestion::Finished));
}

#[test]
fn a_video_borrows_from_the_image() {
    let mut world = empty_world();
    world.output[0] = "MIME Type: video/mp4\nFile Type: MP4\n";
    world.lower = true;
    world.output[1] = "Date/Time Original: 2011:11:11 11:11:11\nFile Type: HEIC\n";
    let (fields, _) = run(search(true), &world);
    assert_eq!(fields.date, "2011:11:11 11:11:11");
    assert_eq!(fields.file_type, "MP4");
    assert_eq!(fields.mime_type, "video/mp4");
    world.output[1] = "";
    world.full_name[1] = true;
    world.content[1] = Some(TAKEN);
    let (fields, _) = run(search(true), &world);
    assert_eq!(fields.date, "2020:01:02 03:04:05");
    let (fields, _) = run(search(false), &world);
    assert_eq!(fields.date, "");
}

#[test]
fn a_search_in_vain_ends() {
    let mut world = empty_world();
    let (fields, asked) = run(search(false), &world);
    assert_eq!(fields.date, "");
    assert_eq!(asked, 4);
    world.upper = true;
    world.entries[0] = vec!["IMG.MP4.json".to_string()];
    world.entries[2] = vec!["IMG.HEIC.json".to_string()];
    let (fields, asked) = run(search(true), &world);
    assert_eq!(fields.date, "");
    assert_eq!(asked, 12);
}

#[test]
fn a_time_without_a_date_is_reported() {
    let mut s = search(false);
    s.answer(DateAnswer::Output(None));
    s.answer(DateAnswer::Exists(true));
    s.answer(DateAnswer::Content(Some(
        r#"{"photoTakenTime": {"timestamp": "9000000000000000000"}}"#.to_string(),
    )));
    assert!(matches!(s.question(), DateQuestion::NoSuchDate(9000000000000000000)));
}

#[test]
fn nameless_files_are_asked_about_too() {
    let mut s = DateSearch::begin(None, None, &Some("mp4".to_string()));
    s.answer(DateAnswer::Output(None));
    assert!(matches!(s.question(), DateQuestion::SidecarExists(Subject::File, Sidecar::Named(n)) if n == ".json"));
    s.answer(DateAnswer::Exists(true));
    s.answer(DateAnswer::Content(None));
    s.answer(DateAnswer::Exists(true));
    s.answer(DateAnswer::Output(None));
    assert!(matches!(s.question(), DateQuestion::SidecarExists(Subject::LowerHeic, Sidecar::Named(n)) if n == ".json"));
}

#[test]
fn exiftool_is_asked_for_what_is_needed() {
    assert_eq!(
        Subject::File.exif_options(),
        vec!["-DateTimeOriginal", "-MIMEType", "-ImageSize", "-FileType"]
    );
    assert_eq!(Subject::UpperHeic.exif_options(), vec!["-DateTimeOriginal"]);
    assert_eq!(Subject::File.extension(), None);
    assert_eq!(Subject::LowerHeic.extension(), Some("heic"));
    assert_eq!(Subject::UpperHeic.extension(), Some("HEIC"));
}
