use metasort::media::{
    categorize, category_of_file, extension_in_lower_case, is_media_file, known_extension,
    known_video_extension, Category, Folder,
};

fn some(s: &str) -> Option<String> {
    Some(s.to_string())
}

#[test]
fn media_are_told_by_their_extension() {
    let images = "jpg jpeg png webp heic heif bmp tiff gif avif jxl jfif";
    let videos = "mp4 mov avi webm 3gp m4v mpg mpeg mts m2ts ts flv f4v wmv asf rm rmvb vob ogv mxf dv divx xvid";
    for ext in images.split(' ') {
        assert!(known_extension(ext));
        assert!(!known_video_extension(ext));
    }
    for ext in videos.split(' ') {
        assert!(known_extension(ext));
        assert!(known_video_extension(ext));
    }
    assert!(known_extension("mkv"));
    assert!(!known_video_extension("mkv"));
    for ext in ["", "json", "txt", "JPG", "jp", "jpgg"] {
        assert!(!known_extension(ext));
    }
}

#[test]
fn the_case_of_an_extension_does_not_matter() {
    assert!(is_media_file(&some("JPG")));
    assert!(is_media_file(&some("HeIc")));
    assert!(!is_media_file(&some("JSON")));
    assert!(!is_media_file(&None));
    assert_eq!(extension_in_lower_case(&some("ÄMP4")), "ämp4");
    assert_eq!(extension_in_lower_case(&None), "");
}

#[test]
fn categories_follow_their_order() {
    let d = "2020:01:01 00:00:00";
    assert_eq!(categorize(true, "img-wa0001.jpg", "jpg", d, ""), Category::WhatsApp);
    assert_eq!(categorize(true, "whatsapp image.jpg", "jpg", "", ""), Category::WhatsApp);
    assert_eq!(categorize(true, "screenshot_1.png", "png", d, ""), Category::Screenshot);
    assert_eq!(categorize(true, "screenshot_wa.png", "png", d, ""), Category::WhatsApp);
    assert_eq!(categorize(false, "img-wa0001.jpg", "jpg", d, ""), Category::Photo);
    assert_eq!(categorize(false, "screenshot_1.png", "png", "", ""), Category::UnknownTime);
    assert_eq!(categorize(true, "film.mkv", "mkv", "", "video/x-matroska"), Category::Mkv);
    assert_eq!(categorize(true, "a.mp4", "mp4", "", "video/mp4"), Category::UnknownTime);
    assert_eq!(categorize(true, "a.mp4", "mp4", d, ""), Category::Video);
    assert_eq!(categorize(true, "a.jpg", "jpg", d, "video/mp4"), Category::Video);
    assert_eq!(categorize(true, "a.jpg", "jpg", d, "image/jpeg; video"), Category::Photo);
    assert_eq!(
        category_of_file(true, "IMG-WA0001.JPG", &some("JPG"), d, "image/jpeg"),
        Category::WhatsApp
    );
    assert_eq!(category_of_file(false, "Clip.MOV", &some("MOV"), d, ""), Category::Video);
}

#[test]
fn a_category_goes_with_its_folder() {
    assert_eq!(Folder::for_date(""), Folder::UnknownTime);
    assert_eq!(Folder::for_date("2020:01:01 00:00:00"), Folder::Media);
    assert_eq!(Folder::Media.name(), "Media Files");
    assert_eq!(Folder::UnknownTime.name(), "Unknown Time");
    assert_eq!(categorize(false, "x.jpg", "jpg", "", ""), Category::UnknownTime);
}
