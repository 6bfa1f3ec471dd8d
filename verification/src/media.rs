//! What kind of file an export holds, told from its extension, its name and
//! what is known of it.
use vstd::prelude::*;
use vstd::utf8::is_ascii_chars;
use crate::text::{
    begins_with, contains_text, is_one_of, law_lower_case_changes_case_only,
    law_lower_case_ignores_ascii_case, law_part_occurs_in_the_whole, lowered, occurs_at, occurs_in,
    opt_text, same_but_ascii_case, same_text,
};

verus! {

// ---------------------------------------------------------------------------
// Extensions
// ---------------------------------------------------------------------------
/// The extensions of images.
pub open spec fn image_extensions() -> Seq<Seq<char>> {
    seq![
        "jpg"@,
        "jpeg"@,
        "png"@,
        "webp"@,
        "heic"@,
        "heif"@,
        "bmp"@,
        "tiff"@,
        "gif"@,
        "avif"@,
        "jxl"@,
        "jfif"@,
    ]
}

/// The extensions that make a file a video whatever else is known of it.
pub open spec fn video_extensions() -> Seq<Seq<char>> {
    seq![
        "mp4"@,
        "mov"@,
        "avi"@,
        "webm"@,
        "3gp"@,
        "m4v"@,
        "mpg"@,
        "mpeg"@,
        "mts"@,
        "m2ts"@,
        "ts"@,
        "flv"@,
        "f4v"@,
        "wmv"@,
        "asf"@,
        "rm"@,
        "rmvb"@,
        "vob"@,
        "ogv"@,
        "mxf"@,
        "dv"@,
        "divx"@,
        "xvid"@,
    ]
}

/// Whether files with this extension, in lower case, are sorted at all.
pub open spec fn is_media_extension(ext: Seq<char>) -> bool {
    ||| image_extensions().contains(ext)
    ||| video_extensions().contains(ext)
    ||| ext == "mkv"@
}

/// An extension in lower case; empty if there is none.
pub open spec fn lower_extension(ext: Option<Seq<char>>) -> Seq<char> {
    match ext {
        Some(e) => lowered(e),
        None => seq![],
    }
}

fn known_image_extension(ext: &str) -> (b: bool)
    ensures
        b == image_extensions().contains(ext@),
{
    let list: Vec<&str> = vec![
        "jpg", "jpeg", "png", "webp", "heic", "heif", "bmp", "tiff", "gif", "avif", "jxl", "jfif",
    ];
    assert(list@.map_values(|s: &str| s@) =~= image_extensions());
    is_one_of(&list, ext)
}

/// Whether an extension, in lower case, makes a file a video.
pub fn known_video_extension(ext: &str) -> (b: bool)
    ensures
        b == video_extensions().contains(ext@),
{
    let list: Vec<&str> = vec![
        "mp4", "mov", "avi", "webm", "3gp", "m4v", "mpg", "mpeg", "mts", "m2ts", "ts", "flv",
        "f4v", "wmv", "asf", "rm", "rmvb", "vob", "ogv", "mxf", "dv", "divx", "xvid",
    ];
    assert(list@.map_values(|s: &str| s@) =~= video_extensions());
    is_one_of(&list, ext)
}

/// Whether files with this extension, in lower case, are sorted at all.
pub fn known_extension(ext: &str) -> (b: bool)
    ensures
        b == is_media_extension(ext@),
{
    known_image_extension(ext) || known_video_extension(ext) || same_text(ext, "mkv")
}

/// An extension in lower case; empty if there is none.
pub fn extension_in_lower_case(ext: &Option<String>) -> (r: String)
    ensures
        r@ == lower_extension(opt_text(*ext)),
{
    match ext {
        Some(e) => e.as_str().to_lowercase(),
        None => String::new(),
    }
}

/// Whether a file with this extension is sorted.
pub fn is_media_file(ext: &Option<String>) -> (b: bool)
    ensures
        b == is_media_extension(lower_extension(opt_text(*ext))),
{
    known_extension(extension_in_lower_case(ext).as_str())
}

// ---------------------------------------------------------------------------
// Categories
// ---------------------------------------------------------------------------
/// The heading under which a file is counted.
#[derive(Clone, Copy, PartialEq, Eq, Structural, Debug)]
pub enum Category {
    WhatsApp,
    Screenshot,
    Mkv,
    UnknownTime,
    Video,
    Photo,
}

/// Whether a file name, in lower case, is one that WhatsApp gives.
pub open spec fn is_whatsapp_name(name: Seq<char>) -> bool {
    occurs_in(name, "wa"@) || occurs_in(name, "whatsapp"@)
}

/// Whether a file name, in lower case, is that of a screenshot.
pub open spec fn is_screenshot_name(name: Seq<char>) -> bool {
    occurs_in(name, "screenshot"@)
}

/// The category of a file with this name and extension, both in lower case, this
/// date and this MIME type. WhatsApp files and screenshots have categories of
/// their own only if they are to be kept apart.
pub open spec fn category_of(
    keep_apart: bool,
    name: Seq<char>,
    ext: Seq<char>,
    date: Seq<char>,
    mime_type: Seq<char>,
) -> Category {
    if keep_apart && is_whatsapp_name(name) {
        Category::WhatsApp
    } else if keep_apart && is_screenshot_name(name) {
        Category::Screenshot
    } else if ext == "mkv"@ {
        Category::Mkv
    } else if date.len() == 0 {
        Category::UnknownTime
    } else if occurs_at(mime_type, "video"@, 0) || video_extensions().contains(ext) {
        Category::Video
    } else {
        Category::Photo
    }
}

/// The category of a file whose name and extension are given in lower case.
pub fn categorize(
    keep_apart: bool,
    name: &str,
    ext: &str,
    date: &str,
    mime_type: &str,
) -> (category: Category)
    ensures
        category == category_of(keep_apart, name@, ext@, date@, mime_type@),
{
    if keep_apart && (contains_text(name, "wa") || contains_text(name, "whatsapp")) {
        Category::WhatsApp
    } else if keep_apart && contains_text(name, "screenshot") {
        Category::Screenshot
    } else if same_text(ext, "mkv") {
        Category::Mkv
    } else if date.is_empty() {
        Category::UnknownTime
    } else if begins_with(mime_type, "video") || known_video_extension(ext) {
        Category::Video
    } else {
        Category::Photo
    }
}

/// The category of a file, from its name and extension as they stand on disk.
pub fn category_of_file(
    keep_apart: bool,
    name: &str,
    ext: &Option<String>,
    date: &str,
    mime_type: &str,
) -> (category: Category)
    ensures
        category == category_of(
            keep_apart,
            lowered(name@),
            lower_extension(opt_text(*ext)),
            date@,
            mime_type@,
        ),
{
    let lower = name.to_lowercase();
    let lower_ext = extension_in_lower_case(ext);
    categorize(keep_apart, lower.as_str(), lower_ext.as_str(), date, mime_type)
}

// ---------------------------------------------------------------------------
// Folders
// ---------------------------------------------------------------------------
/// The folders that files are copied to.
#[derive(Clone, Copy, PartialEq, Eq, Structural, Debug)]
pub enum Folder {
    Media,
    UnknownTime,
}

/// The folder of a file with this date: an empty date is an unknown one.
pub open spec fn folder_for(date: Seq<char>) -> Folder {
    if date.len() == 0 {
        Folder::UnknownTime
    } else {
        Folder::Media
    }
}

impl Folder {
    /// The folder of a file with this date.
    pub fn for_date(date: &str) -> (folder: Folder)
        ensures
            folder == folder_for(date@),
    {
        if date.is_empty() {
            Folder::UnknownTime
        } else {
            Folder::Media
        }
    }

    /// The folder's name.
    pub open spec fn title(self) -> Seq<char> {
        match self {
            Folder::Media => "Media Files"@,
            Folder::UnknownTime => "Unknown Time"@,
        }
    }

    /// The folder's name.
    pub fn name(&self) -> (name: &'static str)
        ensures
            name@ == self.title(),
    {
        match self {
            Folder::Media => "Media Files",
            Folder::UnknownTime => "Unknown Time",
        }
    }
}

// ---------------------------------------------------------------------------
// Laws
// ---------------------------------------------------------------------------
/// A file that is counted as one of unknown time goes to the folder for those; a
/// photo or a video goes to the folder for media files.
pub proof fn law_category_fits_folder(
    keep_apart: bool,
    name: Seq<char>,
    ext: Seq<char>,
    date: Seq<char>,
    mime_type: Seq<char>,
)
    ensures
        ({
            let category = category_of(keep_apart, name, ext, date, mime_type);
            &&& category == Category::UnknownTime ==> folder_for(date) == Folder::UnknownTime
            &&& category == Category::Photo || category == Category::Video ==> folder_for(date)
                == Folder::Media
        }),
{
}

/// WhatsApp files and screenshots are told apart from the rest only on request.
pub proof fn law_kept_apart_on_request(
    name: Seq<char>,
    ext: Seq<char>,
    date: Seq<char>,
    mime_type: Seq<char>,
)
    ensures
        category_of(false, name, ext, date, mime_type) != Category::WhatsApp,
        category_of(false, name, ext, date, mime_type) != Category::Screenshot,
{
}

/// Every extension that makes a file a video is one that is sorted.
pub proof fn law_videos_are_media(ext: Seq<char>)
    requires
        video_extensions().contains(ext),
    ensures
        is_media_extension(ext),
{
}

/// The extensions that make a file a video are these, and no others.
pub proof fn law_video_extensions(ext: Seq<char>)
    ensures
        video_extensions().contains(ext) <==> (
            ext == "mp4"@ || ext == "mov"@ || ext == "avi"@ || ext == "webm"@ || ext == "3gp"@
                || ext == "m4v"@ || ext == "mpg"@ || ext == "mpeg"@ || ext == "mts"@
                || ext == "m2ts"@ || ext == "ts"@ || ext == "flv"@ || ext == "f4v"@
                || ext == "wmv"@ || ext == "asf"@ || ext == "rm"@ || ext == "rmvb"@
                || ext == "vob"@ || ext == "ogv"@ || ext == "mxf"@ || ext == "dv"@
                || ext == "divx"@ || ext == "xvid"@),
{
    let videos = video_extensions();
    assert(videos[0] == "mp4"@);
    assert(videos[1] == "mov"@);
    assert(videos[2] == "avi"@);
    assert(videos[3] == "webm"@);
    assert(videos[4] == "3gp"@);
    assert(videos[5] == "m4v"@);
    assert(videos[6] == "mpg"@);
    assert(videos[7] == "mpeg"@);
    assert(videos[8] == "mts"@);
    assert(videos[9] == "m2ts"@);
    assert(videos[10] == "ts"@);
    assert(videos[11] == "flv"@);
    assert(videos[12] == "f4v"@);
    assert(videos[13] == "wmv"@);
    assert(videos[14] == "asf"@);
    assert(videos[15] == "rm"@);
    assert(videos[16] == "rmvb"@);
    assert(videos[17] == "vob"@);
    assert(videos[18] == "ogv"@);
    assert(videos[19] == "mxf"@);
    assert(videos[20] == "dv"@);
    assert(videos[21] == "divx"@);
    assert(videos[22] == "xvid"@);
    if videos.contains(ext) {
        let i = choose|i: int| 0 <= i < videos.len() && videos[i] == ext;
        assert(videos.len() == 23);
    }
}

/// The files that are sorted are those with one of these extensions, the videos
/// and the `mkv` files, and no others.
pub proof fn law_sorted_extensions(ext: Seq<char>)
    ensures
        is_media_extension(ext) <==> (video_extensions().contains(ext) || ext == "mkv"@ || (
            ext == "jpg"@ || ext == "jpeg"@ || ext == "png"@ || ext == "webp"@ || ext == "heic"@
                || ext == "heif"@ || ext == "bmp"@ || ext == "tiff"@ || ext == "gif"@
                || ext == "avif"@ || ext == "jxl"@ || ext == "jfif"@)),
{
    let images = image_extensions();
    assert(images[0] == "jpg"@);
    assert(images[1] == "jpeg"@);
    assert(images[2] == "png"@);
    assert(images[3] == "webp"@);
    assert(images[4] == "heic"@);
    assert(images[5] == "heif"@);
    assert(images[6] == "bmp"@);
    assert(images[7] == "tiff"@);
    assert(images[8] == "gif"@);
    assert(images[9] == "avif"@);
    assert(images[10] == "jxl"@);
    assert(images[11] == "jfif"@);
    if images.contains(ext) {
        let i = choose|i: int| 0 <= i < images.len() && images[i] == ext;
        assert(images.len() == 12);
    }
}

/// Whether an extension is in capital or in small letters does not matter, and one
/// in small letters is taken as it is; a file without an extension is not sorted.
pub proof fn law_case_of_an_extension_does_not_matter(a: Seq<char>, b: Seq<char>)
    requires
        is_ascii_chars(a),
        same_but_ascii_case(a, b),
    ensures
        lower_extension(Some(a)) == lower_extension(Some(b)),
        (forall|i: int| 0 <= i < a.len() ==> !('A' <= #[trigger] a[i] <= 'Z')) ==> lower_extension(
            Some(b),
        ) == a,
        !is_media_extension(lower_extension(None)),
{
    law_lower_case_ignores_ascii_case(a, b);
    law_lower_case_changes_case_only(a);
    if forall|i: int| 0 <= i < a.len() ==> !('A' <= #[trigger] a[i] <= 'Z') {
        assert(lower_extension(Some(a)) =~= a);
    }
    let none = lower_extension(None);
    law_sorted_extensions(none);
    law_video_extensions(none);
    reveal_strlit("jpg");
    reveal_strlit("jpeg");
    reveal_strlit("png");
    reveal_strlit("webp");
    reveal_strlit("heic");
    reveal_strlit("heif");
    reveal_strlit("bmp");
    reveal_strlit("tiff");
    reveal_strlit("gif");
    reveal_strlit("avif");
    reveal_strlit("jxl");
    reveal_strlit("jfif");
    reveal_strlit("mp4");
    reveal_strlit("mov");
    reveal_strlit("avi");
    reveal_strlit("webm");
    reveal_strlit("3gp");
    reveal_strlit("m4v");
    reveal_strlit("mpg");
    reveal_strlit("mpeg");
    reveal_strlit("mts");
    reveal_strlit("m2ts");
    reveal_strlit("ts");
    reveal_strlit("flv");
    reveal_strlit("f4v");
    reveal_strlit("wmv");
    reveal_strlit("asf");
    reveal_strlit("rm");
    reveal_strlit("rmvb");
    reveal_strlit("vob");
    reveal_strlit("ogv");
    reveal_strlit("mxf");
    reveal_strlit("dv");
    reveal_strlit("divx");
    reveal_strlit("xvid");
    reveal_strlit("mkv");
    assert(none.len() == 0);
}

/// Where WhatsApp files are kept apart, a file with `wa` or `whatsapp` anywhere in
/// its name is one, whatever its extension, its date and its MIME type are.
pub proof fn law_whatsapp_files_are_told_by_their_name(
    before: Seq<char>,
    after: Seq<char>,
    ext: Seq<char>,
    date: Seq<char>,
    mime_type: Seq<char>,
)
    ensures
        category_of(true, before + "wa"@ + after, ext, date, mime_type) == Category::WhatsApp,
        category_of(true, before + "whatsapp"@ + after, ext, date, mime_type)
            == Category::WhatsApp,
{
    law_part_occurs_in_the_whole(before, "wa"@, after);
    law_part_occurs_in_the_whole(before, "whatsapp"@, after);
}

/// Where screenshots are kept apart, a file with `screenshot` anywhere in its name
/// is one, whatever its extension, its date and its MIME type are, unless its name
/// is that of a WhatsApp file.
pub proof fn law_screenshots_are_told_by_their_name(
    before: Seq<char>,
    after: Seq<char>,
    ext: Seq<char>,
    date: Seq<char>,
    mime_type: Seq<char>,
)
    ensures
        ({
            let name = before + "screenshot"@ + after;
            category_of(true, name, ext, date, mime_type) == (if occurs_in(name, "wa"@)
                || occurs_in(name, "whatsapp"@) {
                Category::WhatsApp
            } else {
                Category::Screenshot
            })
        }),
{
    law_part_occurs_in_the_whole(before, "screenshot"@, after);
}

/// Whether a file is kept apart depends on its name alone, and for the others the
/// name does not matter.
pub proof fn law_name_decides_what_is_kept_apart(
    keep_apart: bool,
    name: Seq<char>,
    other_name: Seq<char>,
    ext: Seq<char>,
    date: Seq<char>,
    mime_type: Seq<char>,
)
    ensures
        ({
            let category = category_of(keep_apart, name, ext, date, mime_type);
            let whatsapp = occurs_in(name, "wa"@) || occurs_in(name, "whatsapp"@);
            let screenshot = occurs_in(name, "screenshot"@);
            &&& category == Category::WhatsApp <==> keep_apart && whatsapp
            &&& category == Category::Screenshot <==> keep_apart && screenshot && !whatsapp
            &&& !keep_apart || (!whatsapp && !screenshot) ==> category == category_of(
                false,
                other_name,
                ext,
                date,
                mime_type,
            )
        }),
{
}

/// Files that are not kept apart: an `mkv` file is one with or without a date;
/// any other without a date is one of unknown time; one with a date is a video if
/// its MIME type begins with `video` or its extension says so, and a photo
/// otherwise. Which date it is does not matter.
pub proof fn law_other_files_are_told_by_extension_date_and_type(
    name: Seq<char>,
    ext: Seq<char>,
    date: Seq<char>,
    mime_type: Seq<char>,
    after: Seq<char>,
)
    ensures
        category_of(false, name, "mkv"@, date, mime_type) == Category::Mkv,
        ext != "mkv"@ ==> category_of(false, name, ext, seq![], mime_type)
            == Category::UnknownTime,
        ext != "mkv"@ && date.len() > 0 ==> {
            &&& category_of(false, name, ext, date, "video"@ + after) == Category::Video
            &&& video_extensions().contains(ext) ==> category_of(false, name, ext, date, mime_type)
                == Category::Video
            &&& !video_extensions().contains(ext) && !(mime_type.len() >= 5 && mime_type.take(5)
                == "video"@) ==> category_of(false, name, ext, date, mime_type) == Category::Photo
        },
{
    reveal_strlit("video");
    assert(("video"@ + after).subrange(0, 5) =~= "video"@);
    if occurs_at(mime_type, "video"@, 0) {
        assert(mime_type.take(5) =~= mime_type.subrange(0, 5));
    }
}

/// A file goes to the folder for unknown times exactly if it has no date.
pub proof fn law_only_undated_files_have_an_unknown_time(date: Seq<char>)
    ensures
        folder_for(date) == Folder::UnknownTime <==> date == Seq::<char>::empty(),
        folder_for(date) == Folder::Media <==> date != Seq::<char>::empty(),
{
    if date.len() == 0 {
        assert(date =~= Seq::<char>::empty());
    }
}

} // verus!
