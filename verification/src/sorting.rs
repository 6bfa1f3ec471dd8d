//! The tally of a sorting run: what is listed in the reports and what is
//! counted.
use vstd::prelude::*;
use crate::exif::{ExifFields, ExifTexts};
use crate::media::{
    category_of, category_of_file, law_whatsapp_files_are_told_by_their_name, Category,
};
use crate::number::{human_readable_size, size_text};
use crate::source::SourceFile;
use crate::text::lowered;

verus! {

// ---------------------------------------------------------------------------
// Counts
// ---------------------------------------------------------------------------
/// How many files a run sorted, by category.
#[derive(Clone, Copy, PartialEq, Eq, Structural, Debug)]
pub struct SortCounts {
    pub photos: usize,
    pub videos: usize,
    pub whatsapp: usize,
    pub screenshots: usize,
    pub unknown: usize,
    pub mkv: usize,
}

impl SortCounts {
    /// The count of a category.
    pub open spec fn of(self, category: Category) -> usize {
        match category {
            Category::WhatsApp => self.whatsapp,
            Category::Screenshot => self.screenshots,
            Category::Mkv => self.mkv,
            Category::UnknownTime => self.unknown,
            Category::Video => self.videos,
            Category::Photo => self.photos,
        }
    }

    /// All counts together.
    pub open spec fn sum(self) -> int {
        self.photos + self.videos + self.whatsapp + self.screenshots + self.unknown + self.mkv
    }

    /// Whether the number of files fits a machine word.
    pub fn total_fits(&self) -> (b: bool)
        ensures
            b == (self.sum() <= usize::MAX),
    {
        let mut room: usize = usize::MAX;
        if self.photos > room {
            return false;
        }
        room = room - self.photos;
        if self.videos > room {
            return false;
        }
        room = room - self.videos;
        if self.whatsapp > room {
            return false;
        }
        room = room - self.whatsapp;
        if self.screenshots > room {
            return false;
        }
        room = room - self.screenshots;
        if self.unknown > room {
            return false;
        }
        room = room - self.unknown;
        self.mkv <= room
    }

    /// How many files were sorted.
    pub fn total(&self) -> (n: usize)
        requires
            self.sum() <= usize::MAX,
        ensures
            n == self.sum(),
    {
        self.photos + self.videos + self.whatsapp + self.screenshots + self.unknown + self.mkv
    }
}

// ---------------------------------------------------------------------------
// Rows
// ---------------------------------------------------------------------------
/// A row of a report: the file's new name, its type, its date, the size of the
/// image, the size of the file in words and in bytes.
pub type FileInfo = (String, String, String, String, String, u64);

/// The texts of a [`FileInfo`].
pub struct Row {
    pub name: Seq<char>,
    pub file_type: Seq<char>,
    pub date: Seq<char>,
    pub image_size: Seq<char>,
    pub size_text: Seq<char>,
    pub size: u64,
}

/// The texts of a row.
pub open spec fn row(info: FileInfo) -> Row {
    Row {
        name: info.0@,
        file_type: info.1@,
        date: info.2@,
        image_size: info.3@,
        size_text: info.4@,
        size: info.5,
    }
}

/// The texts of a list of rows.
pub open spec fn rows(list: Seq<FileInfo>) -> Seq<Row> {
    list.map_values(|info: FileInfo| row(info))
}

/// The row of a file under its new name, with what is known of it and its size.
pub open spec fn row_of(name: Seq<char>, fields: ExifTexts, size: u64) -> Row {
    Row {
        name,
        file_type: fields.file_type,
        date: fields.date,
        image_size: fields.image_size,
        size_text: size_text(size as nat),
        size,
    }
}

/// The row of a file under its new name, with what is known of it and its size.
pub fn file_info(name: String, fields: ExifFields, size: u64) -> (info: FileInfo)
    ensures
        row(info) == row_of(name@, fields@, size),
{
    (
        name,
        fields.file_type,
        fields.date,
        fields.image_size,
        human_readable_size(size),
        size,
    )
}

// ---------------------------------------------------------------------------
// The tally
// ---------------------------------------------------------------------------
/// What is listed and counted so far.
pub struct SortState {
    pub photos_info: Vec<FileInfo>,
    pub videos_info: Vec<FileInfo>,
    pub unknown_info: Vec<FileInfo>,
    pub mkv_info: Vec<FileInfo>,
    pub failed_guess_info: Vec<FileInfo>,
    pub counts: SortCounts,
}

/// The lists and counts of a [`SortState`].
#[verifier::ext_equal]
pub struct Tally {
    pub photos: Seq<Row>,
    pub videos: Seq<Row>,
    pub unknown: Seq<Row>,
    pub mkv: Seq<Row>,
    pub failed_guess: Seq<Row>,
    pub n_photos: int,
    pub n_videos: int,
    pub n_whatsapp: int,
    pub n_screenshots: int,
    pub n_unknown: int,
    pub n_mkv: int,
}

impl View for SortState {
    type V = Tally;

    open spec fn view(&self) -> Tally {
        Tally {
            photos: rows(self.photos_info@),
            videos: rows(self.videos_info@),
            unknown: rows(self.unknown_info@),
            mkv: rows(self.mkv_info@),
            failed_guess: rows(self.failed_guess_info@),
            n_photos: self.counts.photos as int,
            n_videos: self.counts.videos as int,
            n_whatsapp: self.counts.whatsapp as int,
            n_screenshots: self.counts.screenshots as int,
            n_unknown: self.counts.unknown as int,
            n_mkv: self.counts.mkv as int,
        }
    }
}

/// A file to be listed: its category, its row, and whether its date was guessed
/// from its name without success.
pub struct Entry {
    pub category: Category,
    pub row: Row,
    pub failed_guess: bool,
}

/// The entry of a file that is copied to the name `new_name`.
pub open spec fn entry_of(
    keep_apart: bool,
    file: SourceFile,
    new_name: Seq<char>,
    fields: ExifTexts,
    size: u64,
    failed_guess: bool,
) -> Entry {
    Entry {
        category: category_of(
            keep_apart,
            lowered(file.shown_name@),
            file.lower_ext(),
            fields.date,
            fields.mime_type,
        ),
        row: row_of(new_name, fields, size),
        failed_guess,
    }
}

impl Tally {
    /// Nothing listed, nothing counted.
    pub open spec fn empty() -> Tally {
        Tally {
            photos: seq![],
            videos: seq![],
            unknown: seq![],
            mkv: seq![],
            failed_guess: seq![],
            n_photos: 0,
            n_videos: 0,
            n_whatsapp: 0,
            n_screenshots: 0,
            n_unknown: 0,
            n_mkv: 0,
        }
    }

    /// The tally with one more file. WhatsApp files and screenshots are counted
    /// by themselves and listed among the photos.
    pub open spec fn with(self, e: Entry) -> Tally {
        match e.category {
            Category::WhatsApp => Tally {
                photos: self.photos.push(e.row),
                n_whatsapp: self.n_whatsapp + 1,
                ..self
            },
            Category::Screenshot => Tally {
                photos: self.photos.push(e.row),
                n_screenshots: self.n_screenshots + 1,
                ..self
            },
            Category::Mkv => Tally { mkv: self.mkv.push(e.row), n_mkv: self.n_mkv + 1, ..self },
            Category::UnknownTime => if e.failed_guess {
                Tally {
                    failed_guess: self.failed_guess.push(e.row),
                    n_unknown: self.n_unknown + 1,
                    ..self
                }
            } else {
                Tally { unknown: self.unknown.push(e.row), n_unknown: self.n_unknown + 1, ..self }
            },
            Category::Video => Tally {
                videos: self.videos.push(e.row),
                n_videos: self.n_videos + 1,
                ..self
            },
            Category::Photo => Tally {
                photos: self.photos.push(e.row),
                n_photos: self.n_photos + 1,
                ..self
            },
        }
    }

    /// Two tallies put together: the lists of the second behind those of the
    /// first, the counts added.
    pub open spec fn merged(self, other: Tally) -> Tally {
        Tally {
            photos: self.photos + other.photos,
            videos: self.videos + other.videos,
            unknown: self.unknown + other.unknown,
            mkv: self.mkv + other.mkv,
            failed_guess: self.failed_guess + other.failed_guess,
            n_photos: self.n_photos + other.n_photos,
            n_videos: self.n_videos + other.n_videos,
            n_whatsapp: self.n_whatsapp + other.n_whatsapp,
            n_screenshots: self.n_screenshots + other.n_screenshots,
            n_unknown: self.n_unknown + other.n_unknown,
            n_mkv: self.n_mkv + other.n_mkv,
        }
    }

    /// The tally of a sequence of files.
    pub open spec fn of(files: Seq<Entry>) -> Tally
        decreases files.len(),
    {
        if files.len() == 0 {
            Tally::empty()
        } else {
            Tally::of(files.drop_last()).with(files.last())
        }
    }

    /// The lists and the counts agree.
    pub open spec fn balanced(self) -> bool {
        &&& self.photos.len() == self.n_photos + self.n_whatsapp + self.n_screenshots
        &&& self.videos.len() == self.n_videos
        &&& self.mkv.len() == self.n_mkv
        &&& self.unknown.len() + self.failed_guess.len() == self.n_unknown
    }

    /// All counts together.
    pub open spec fn counted(self) -> int {
        self.n_photos + self.n_videos + self.n_whatsapp + self.n_screenshots + self.n_unknown
            + self.n_mkv
    }

    /// The length of all lists together.
    pub open spec fn listed(self) -> int {
        (self.photos.len() + self.videos.len() + self.unknown.len() + self.mkv.len()
            + self.failed_guess.len()) as int
    }

    /// Every count fits a machine word.
    pub open spec fn fits(self) -> bool {
        &&& self.n_photos <= usize::MAX
        &&& self.n_videos <= usize::MAX
        &&& self.n_whatsapp <= usize::MAX
        &&& self.n_screenshots <= usize::MAX
        &&& self.n_unknown <= usize::MAX
        &&& self.n_mkv <= usize::MAX
    }
}

proof fn lemma_rows_push(list: Seq<FileInfo>, info: FileInfo)
    ensures
        rows(list.push(info)) == rows(list).push(row(info)),
{
    assert(rows(list.push(info)) =~= rows(list).push(row(info)));
}

proof fn lemma_rows_add(a: Seq<FileInfo>, b: Seq<FileInfo>)
    ensures
        rows(a + b) == rows(a) + rows(b),
{
    assert(rows(a + b) =~= rows(a) + rows(b));
}

impl SortState {
    /// Every count can take one more.
    pub open spec fn has_room(&self) -> bool {
        forall|category: Category| #[trigger] self.counts.of(category) < usize::MAX
    }

    /// Nothing listed, nothing counted.
    pub fn new() -> (state: Self)
        ensures
            state@ == Tally::empty(),
            state@.balanced(),
    {
        let state = Self {
            photos_info: Vec::new(),
            videos_info: Vec::new(),
            unknown_info: Vec::new(),
            mkv_info: Vec::new(),
            failed_guess_info: Vec::new(),
            counts: SortCounts {
                photos: 0,
                videos: 0,
                whatsapp: 0,
                screenshots: 0,
                unknown: 0,
                mkv: 0,
            },
        };
        assert(state@ =~= Tally::empty());
        state
    }

    /// Lists and counts a file.
    pub fn record(&mut self, category: Category, info: FileInfo, failed_guess: bool)
        requires
            old(self).counts.of(category) < usize::MAX,
        ensures
            final(self)@ == old(self)@.with(Entry { category, row: row(info), failed_guess }),
            old(self)@.balanced() ==> final(self)@.balanced(),
    {
        proof {
            lemma_rows_push(self.photos_info@, info);
            lemma_rows_push(self.videos_info@, info);
            lemma_rows_push(self.unknown_info@, info);
            lemma_rows_push(self.mkv_info@, info);
            lemma_rows_push(self.failed_guess_info@, info);
        }
        match category {
            Category::WhatsApp => {
                self.counts.whatsapp = self.counts.whatsapp + 1;
                self.photos_info.push(info);
            },
            Category::Screenshot => {
                self.counts.screenshots = self.counts.screenshots + 1;
                self.photos_info.push(info);
            },
            Category::Mkv => {
                self.counts.mkv = self.counts.mkv + 1;
                self.mkv_info.push(info);
            },
            Category::UnknownTime => {
                self.counts.unknown = self.counts.unknown + 1;
                if failed_guess {
                    self.failed_guess_info.push(info);
                } else {
                    self.unknown_info.push(info);
                }
            },
            Category::Video => {
                self.counts.videos = self.counts.videos + 1;
                self.videos_info.push(info);
            },
            Category::Photo => {
                self.counts.photos = self.counts.photos + 1;
                self.photos_info.push(info);
            },
        }
    }

    /// Lists and counts a file that is copied to the name `new_name`, with what
    /// has been found out about it and its size.
    pub fn add_file(
        &mut self,
        keep_apart: bool,
        file: &SourceFile,
        new_name: String,
        fields: ExifFields,
        size: u64,
        failed_guess: bool,
    )
        requires
            old(self).has_room(),
        ensures
            final(self)@ == old(self)@.with(
                entry_of(keep_apart, *file, new_name@, fields@, size, failed_guess),
            ),
            old(self)@.balanced() ==> final(self)@.balanced(),
    {
        let category = category_of_file(
            keep_apart,
            file.shown_name.as_str(),
            &file.ext,
            fields.date.as_str(),
            fields.mime_type.as_str(),
        );
        let info = file_info(new_name, fields, size);
        self.record(category, info, failed_guess);
    }

    /// Whether every count can take one more.
    pub fn can_add(&self) -> (b: bool)
        ensures
            b == self.has_room(),
    {
        let b = self.counts.photos < usize::MAX && self.counts.videos < usize::MAX
            && self.counts.whatsapp < usize::MAX && self.counts.screenshots < usize::MAX
            && self.counts.unknown < usize::MAX && self.counts.mkv < usize::MAX;
        proof {
            if !b {
                let category = if self.counts.photos == usize::MAX {
                    Category::Photo
                } else if self.counts.videos == usize::MAX {
                    Category::Video
                } else if self.counts.whatsapp == usize::MAX {
                    Category::WhatsApp
                } else if self.counts.screenshots == usize::MAX {
                    Category::Screenshot
                } else if self.counts.unknown == usize::MAX {
                    Category::UnknownTime
                } else {
                    Category::Mkv
                };
                assert(self.counts.of(category) == usize::MAX);
            }
        }
        b
    }

    /// Whether the counts of two tallies put together fit a machine word.
    pub fn can_merge(&self, other: &SortState) -> (b: bool)
        ensures
            b == self@.merged(other@).fits(),
    {
        let a = &self.counts;
        let c = &other.counts;
        a.photos <= usize::MAX - c.photos && a.videos <= usize::MAX - c.videos && a.whatsapp
            <= usize::MAX - c.whatsapp && a.screenshots <= usize::MAX - c.screenshots
            && a.unknown <= usize::MAX - c.unknown && a.mkv <= usize::MAX - c.mkv
    }

    /// Puts another tally behind this one.
    pub fn merge(&mut self, other: SortState)
        requires
            old(self)@.merged(other@).fits(),
        ensures
            final(self)@ == old(self)@.merged(other@),
            old(self)@.balanced() && other@.balanced() ==> final(self)@.balanced(),
    {
        proof {
            lemma_rows_add(self.photos_info@, other.photos_info@);
            lemma_rows_add(self.videos_info@, other.videos_info@);
            lemma_rows_add(self.unknown_info@, other.unknown_info@);
            lemma_rows_add(self.mkv_info@, other.mkv_info@);
            lemma_rows_add(self.failed_guess_info@, other.failed_guess_info@);
        }
        let mut other = other;
        self.photos_info.append(&mut other.photos_info);
        self.videos_info.append(&mut other.videos_info);
        self.unknown_info.append(&mut other.unknown_info);
        self.mkv_info.append(&mut other.mkv_info);
        self.failed_guess_info.append(&mut other.failed_guess_info);

        self.counts.photos = self.counts.photos + other.counts.photos;
        self.counts.videos = self.counts.videos + other.counts.videos;
        self.counts.whatsapp = self.counts.whatsapp + other.counts.whatsapp;
        self.counts.screenshots = self.counts.screenshots + other.counts.screenshots;
        self.counts.unknown = self.counts.unknown + other.counts.unknown;
        self.counts.mkv = self.counts.mkv + other.counts.mkv;
    }
}

// ---------------------------------------------------------------------------
// Reports
// ---------------------------------------------------------------------------
/// A report to be written: its file name and its rows.
pub struct Report {
    pub file_name: &'static str,
    pub rows: Vec<FileInfo>,
}

impl Report {
    /// The report has this file name and these rows.
    pub open spec fn consists_of(self, file_name: Seq<char>, list: Seq<Row>) -> bool {
        self.file_name@ == file_name && rows(self.rows@) == list
    }
}

impl Tally {
    /// The reports on a run: their file names and their rows.
    pub open spec fn reports(self) -> Map<Seq<char>, Seq<Row>> {
        map![
            "photos.csv"@ => self.photos,
            "videos.csv"@ => self.videos,
            "unknown_time.csv"@ => self.unknown,
            "mkv_files.csv"@ => self.mkv,
            "failed_filename_guess.csv"@ => self.failed_guess,
        ]
    }
}

impl SortState {
    /// The reports on a run, in the order in which they are written, and the
    /// counts.
    pub fn into_reports(self) -> (r: (Vec<Report>, SortCounts))
        ensures
            forall|i: int|
                0 <= i < r.0.len() ==> self@.reports().contains_key(
                    (#[trigger] r.0[i]).file_name@,
                ) && rows(r.0[i].rows@) == self@.reports()[r.0[i].file_name@],
            r.0.len() == 5,
            r.0[0].consists_of("photos.csv"@, self@.photos),
            r.0[1].consists_of("videos.csv"@, self@.videos),
            r.0[2].consists_of("unknown_time.csv"@, self@.unknown),
            r.0[3].consists_of("mkv_files.csv"@, self@.mkv),
            r.0[4].consists_of("failed_filename_guess.csv"@, self@.failed_guess),
            r.1 == self.counts,
    {
        let mut reports: Vec<Report> = Vec::new();
        reports.push(Report { file_name: "photos.csv", rows: self.photos_info });
        reports.push(Report { file_name: "videos.csv", rows: self.videos_info });
        reports.push(Report { file_name: "unknown_time.csv", rows: self.unknown_info });
        reports.push(Report { file_name: "mkv_files.csv", rows: self.mkv_info });
        reports.push(
            Report { file_name: "failed_filename_guess.csv", rows: self.failed_guess_info },
        );
        proof {
            law_reports_are_on_their_categories(Seq::empty(), self@);
        }
        (reports, self.counts)
    }
}

// ---------------------------------------------------------------------------
// Laws
// ---------------------------------------------------------------------------
/// Putting an empty tally before or behind another changes nothing.
pub proof fn law_empty_tally_is_neutral(t: Tally)
    ensures
        Tally::empty().merged(t) == t,
        t.merged(Tally::empty()) == t,
{
    assert(Tally::empty().merged(t) =~= t);
    assert(t.merged(Tally::empty()) =~= t);
}

/// How three tallies are grouped does not matter when they are put together in
/// order.
pub proof fn law_merging_is_associative(a: Tally, b: Tally, c: Tally)
    ensures
        a.merged(b).merged(c) == a.merged(b.merged(c)),
{
    assert(a.merged(b).merged(c) =~= a.merged(b.merged(c)));
}

/// Tallying the parts of a run apart and putting the tallies together in order
/// gives the tally of the whole run.
pub proof fn law_parts_make_the_whole(first: Seq<Entry>, second: Seq<Entry>)
    ensures
        Tally::of(first + second) == Tally::of(first).merged(Tally::of(second)),
    decreases second.len(),
{
    if second.len() == 0 {
        assert(first + second =~= first);
        law_empty_tally_is_neutral(Tally::of(first));
    } else {
        law_parts_make_the_whole(first, second.drop_last());
        assert((first + second).drop_last() =~= first + second.drop_last());
        assert(Tally::of(first).merged(Tally::of(second.drop_last())).with(second.last())
            =~= Tally::of(first).merged(Tally::of(second.drop_last()).with(second.last())));
    }
}

/// In the tally of any run the counts agree with the lists, and both account
/// for every file exactly once.
pub proof fn law_every_file_is_counted_once(files: Seq<Entry>)
    ensures
        Tally::of(files).balanced(),
        Tally::of(files).counted() == files.len(),
        Tally::of(files).listed() == files.len(),
    decreases files.len(),
{
    if files.len() > 0 {
        law_every_file_is_counted_once(files.drop_last());
    }
}

/// Each list of a run holds the rows of the files of its categories, in the order
/// of the files: the photos with the WhatsApp files and screenshots, the videos,
/// the `mkv` files, and the files of unknown time, those whose date was guessed in
/// vain apart.
pub proof fn law_lists_hold_the_files_of_their_categories(files: Seq<Entry>)
    ensures
        ({
            let tally = Tally::of(files);
            &&& tally.photos == files.filter(
                |e: Entry|
                    e.category == Category::Photo || e.category == Category::WhatsApp
                        || e.category == Category::Screenshot,
            ).map_values(|e: Entry| e.row)
            &&& tally.videos == files.filter(
                |e: Entry|
                    e.category == Category::Video,
            ).map_values(|e: Entry| e.row)
            &&& tally.mkv == files.filter(
                |e: Entry|
                    e.category == Category::Mkv,
            ).map_values(|e: Entry| e.row)
            &&& tally.unknown == files.filter(
                |e: Entry|
                    e.category == Category::UnknownTime && !e.failed_guess,
            ).map_values(|e: Entry| e.row)
            &&& tally.failed_guess == files.filter(
                |e: Entry|
                    e.category == Category::UnknownTime && e.failed_guess,
            ).map_values(|e: Entry| e.row)
        }),
    decreases files.len(),
{
    reveal(Seq::filter);
    if files.len() > 0 {
        let rest = files.drop_last();
        law_lists_hold_the_files_of_their_categories(rest);
        let row = |e: Entry| e.row;
        let last = files.last();
        let in_photos = |e: Entry| e.category == Category::Photo || e.category == Category::WhatsApp
                || e.category == Category::Screenshot;
        let in_videos = |e: Entry| e.category == Category::Video;
        let in_mkv = |e: Entry| e.category == Category::Mkv;
        let in_unknown = |e: Entry| e.category == Category::UnknownTime && !e.failed_guess;
        let in_failed = |e: Entry| e.category == Category::UnknownTime && e.failed_guess;
        lemma_filter_and_push(rest.filter(in_photos), last);
        assert(files.filter(in_photos).map_values(row) == (if in_photos(last) {
            rest.filter(in_photos).map_values(row).push(last.row)
        } else {
            rest.filter(in_photos).map_values(row)
        }));
        lemma_filter_and_push(rest.filter(in_videos), last);
        assert(files.filter(in_videos).map_values(row) == (if in_videos(last) {
            rest.filter(in_videos).map_values(row).push(last.row)
        } else {
            rest.filter(in_videos).map_values(row)
        }));
        lemma_filter_and_push(rest.filter(in_mkv), last);
        assert(files.filter(in_mkv).map_values(row) == (if in_mkv(last) {
            rest.filter(in_mkv).map_values(row).push(last.row)
        } else {
            rest.filter(in_mkv).map_values(row)
        }));
        lemma_filter_and_push(rest.filter(in_unknown), last);
        assert(files.filter(in_unknown).map_values(row) == (if in_unknown(last) {
            rest.filter(in_unknown).map_values(row).push(last.row)
        } else {
            rest.filter(in_unknown).map_values(row)
        }));
        lemma_filter_and_push(rest.filter(in_failed), last);
        assert(files.filter(in_failed).map_values(row) == (if in_failed(last) {
            rest.filter(in_failed).map_values(row).push(last.row)
        } else {
            rest.filter(in_failed).map_values(row)
        }));
    } else {
        assert(Tally::of(files).photos =~= seq![]);
        assert(Tally::of(files).videos =~= seq![]);
        assert(Tally::of(files).mkv =~= seq![]);
        assert(Tally::of(files).unknown =~= seq![]);
        assert(Tally::of(files).failed_guess =~= seq![]);
    }
}

proof fn lemma_filter_and_push(list: Seq<Entry>, last: Entry)
    ensures
        list.push(last).map_values(|e: Entry| e.row) == list.map_values(|e: Entry| e.row).push(
            last.row,
        ),
{
    assert(list.push(last).map_values(|e: Entry| e.row) =~= list.map_values(
        |e: Entry| e.row,
    ).push(last.row));
}

/// Each count of a run is the number of files of its category.
pub proof fn law_counts_are_those_of_the_categories(files: Seq<Entry>)
    ensures
        ({
            let tally = Tally::of(files);
            let number = |c: Category| files.filter(|e: Entry| e.category == c).len() as int;
            &&& tally.n_photos == number(Category::Photo)
            &&& tally.n_videos == number(Category::Video)
            &&& tally.n_whatsapp == number(Category::WhatsApp)
            &&& tally.n_screenshots == number(Category::Screenshot)
            &&& tally.n_unknown == number(Category::UnknownTime)
            &&& tally.n_mkv == number(Category::Mkv)
        }),
    decreases files.len(),
{
    reveal(Seq::filter);
    if files.len() > 0 {
        law_counts_are_those_of_the_categories(files.drop_last());
    }
}

/// Tallies are put together list by list and count by count.
pub proof fn law_merging_keeps_every_list(a: Tally, b: Tally)
    ensures
        a.merged(b).photos == a.photos + b.photos,
        a.merged(b).videos == a.videos + b.videos,
        a.merged(b).unknown == a.unknown + b.unknown,
        a.merged(b).mkv == a.mkv + b.mkv,
        a.merged(b).failed_guess == a.failed_guess + b.failed_guess,
        a.merged(b).counted() == a.counted() + b.counted(),
        a.merged(b).listed() == a.listed() + b.listed(),
        a.balanced() && b.balanced() ==> a.merged(b).balanced(),
{
}

/// A tally shows the rows and the counts of its state, each in its place.
pub proof fn law_tally_shows_the_state(state: SortState, i: int)
    ensures
        state@.photos.len() == state.photos_info.len(),
        state@.videos.len() == state.videos_info.len(),
        state@.unknown.len() == state.unknown_info.len(),
        state@.mkv.len() == state.mkv_info.len(),
        state@.failed_guess.len() == state.failed_guess_info.len(),
        0 <= i < state.photos_info.len() ==> state@.photos[i] == row(state.photos_info[i]),
        0 <= i < state.videos_info.len() ==> state@.videos[i] == row(state.videos_info[i]),
        0 <= i < state.unknown_info.len() ==> state@.unknown[i] == row(state.unknown_info[i]),
        0 <= i < state.mkv_info.len() ==> state@.mkv[i] == row(state.mkv_info[i]),
        0 <= i < state.failed_guess_info.len() ==> state@.failed_guess[i] == row(
            state.failed_guess_info[i],
        ),
        state@.n_photos == state.counts.photos,
        state@.n_videos == state.counts.videos,
        state@.n_whatsapp == state.counts.whatsapp,
        state@.n_screenshots == state.counts.screenshots,
        state@.n_unknown == state.counts.unknown,
        state@.n_mkv == state.counts.mkv,
        state@.counted() == state.counts.sum(),
{
}

/// A row shows the new name of a file, what is known of it, and its size.
pub proof fn law_row_shows_what_is_known(name: String, fields: ExifFields, size: u64, info: FileInfo)
    requires
        row(info) == row_of(name@, fields@, size),
    ensures
        info.0@ == name@,
        info.1@ == fields.file_type@,
        info.2@ == fields.date@,
        info.3@ == fields.image_size@,
        info.4@ == size_text(size as nat),
        info.5 == size,
{
}

/// A file is entered under the category that its name and extension, both in lower
/// case, its date and its MIME type give it.
pub proof fn law_file_is_entered_under_its_category(
    keep_apart: bool,
    file: SourceFile,
    new_name: String,
    fields: ExifFields,
    size: u64,
    failed_guess: bool,
)
    ensures
        ({
            let e = entry_of(keep_apart, file, new_name@, fields@, size, failed_guess);
            let name = lowered(file.shown_name@);
            let ext = match file.ext {
                Some(ext) => lowered(ext@),
                None => seq![],
            };
            &&& e.category == category_of(
                keep_apart,
                name,
                ext,
                fields.date@,
                fields.mime_type@,
            )
            &&& e.row == row_of(new_name@, fields@, size)
            &&& e.failed_guess == failed_guess
        }),
{
}

/// A file with `wa` in its name is counted as a WhatsApp file and listed among the
/// photos if those are kept apart, whatever else is known of it, and changes
/// nothing else.
pub proof fn law_whatsapp_files_are_listed_among_the_photos(
    tally: Tally,
    file: SourceFile,
    before: Seq<char>,
    after: Seq<char>,
    new_name: String,
    fields: ExifFields,
    size: u64,
    failed_guess: bool,
)
    requires
        lowered(file.shown_name@) == before + "wa"@ + after,
    ensures
        ({
            let e = entry_of(true, file, new_name@, fields@, size, failed_guess);
            tally.with(e) == (Tally {
                photos: tally.photos.push(row_of(new_name@, fields@, size)),
                n_whatsapp: tally.n_whatsapp + 1,
                ..tally
            })
        }),
{
    law_whatsapp_files_are_told_by_their_name(
        before,
        after,
        file.lower_ext(),
        fields.date@,
        fields.mime_type@,
    );
}

/// There is room for one more file exactly if no count is full, and two tallies
/// can be put together exactly if no two of their counts are too many together.
pub proof fn law_counts_are_full_one_by_one(a: SortState, b: SortState)
    ensures
        a.has_room() <==> a.counts.photos < usize::MAX && a.counts.videos < usize::MAX
            && a.counts.whatsapp < usize::MAX && a.counts.screenshots < usize::MAX
            && a.counts.unknown < usize::MAX && a.counts.mkv < usize::MAX,
        a@.merged(b@).fits() <==> a.counts.photos + b.counts.photos <= usize::MAX
            && a.counts.videos + b.counts.videos <= usize::MAX && a.counts.whatsapp
            + b.counts.whatsapp <= usize::MAX && a.counts.screenshots + b.counts.screenshots
            <= usize::MAX && a.counts.unknown + b.counts.unknown <= usize::MAX && a.counts.mkv
            + b.counts.mkv <= usize::MAX,
{
    assert(a.counts.of(Category::Photo) == a.counts.photos);
    assert(a.counts.of(Category::Video) == a.counts.videos);
    assert(a.counts.of(Category::WhatsApp) == a.counts.whatsapp);
    assert(a.counts.of(Category::Screenshot) == a.counts.screenshots);
    assert(a.counts.of(Category::UnknownTime) == a.counts.unknown);
    assert(a.counts.of(Category::Mkv) == a.counts.mkv);
}

/// A report that consists of a file name and rows has that name and those rows, in
/// that order.
pub proof fn law_report_shows_its_rows(report: Report, file_name: Seq<char>, list: Seq<Row>, i: int)
    requires
        report.consists_of(file_name, list),
    ensures
        report.file_name@ == file_name,
        report.rows.len() == list.len(),
        0 <= i < list.len() ==> row(report.rows[i]) == list[i],
{
}

/// Each report is on the files of its categories, as its name says.
pub proof fn law_reports_are_on_their_categories(files: Seq<Entry>, tally: Tally)
    ensures
        tally.reports()["photos.csv"@] == tally.photos,
        tally.reports()["videos.csv"@] == tally.videos,
        tally.reports()["unknown_time.csv"@] == tally.unknown,
        tally.reports()["mkv_files.csv"@] == tally.mkv,
        tally.reports()["failed_filename_guess.csv"@] == tally.failed_guess,
        Tally::of(files).reports()["videos.csv"@] == files.filter(
            |e: Entry| e.category == Category::Video,
        ).map_values(|e: Entry| e.row),
        Tally::of(files).reports()["mkv_files.csv"@] == files.filter(
            |e: Entry| e.category == Category::Mkv,
        ).map_values(|e: Entry| e.row),
{
    law_lists_hold_the_files_of_their_categories(files);
    reveal_strlit("photos.csv");
    reveal_strlit("videos.csv");
    reveal_strlit("unknown_time.csv");
    reveal_strlit("mkv_files.csv");
    reveal_strlit("failed_filename_guess.csv");
    assert("photos.csv"@[0] != "videos.csv"@[0]);
    assert("photos.csv"@.len() == "videos.csv"@.len());
    assert("photos.csv"@.len() == 10);
    assert("unknown_time.csv"@.len() == 16);
    assert("mkv_files.csv"@.len() == 13);
    assert("failed_filename_guess.csv"@.len() == 25);
}

} // verus!
