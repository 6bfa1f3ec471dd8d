//! A file of the export and its way through a sorting run: its date is sought,
//! the date decides on the folder, and a name is sought in that folder.
use vstd::prelude::*;
use vstd::utf8::is_ascii_chars;
use crate::dating::{DateSearch, DateStageText, DateState, SidecarPath, Subject};
use crate::dating_laws::{dated, law_search_finds_the_date, Surroundings};
use crate::exif::{output_fields, ExifFields, ExifTexts};
use crate::media::{
    folder_for, is_media_extension, is_media_file, law_case_of_an_extension_does_not_matter,
    lower_extension, Folder,
};
use crate::naming::{attempt_stem, file_name, Ledger, NameSearch, SearchState, Wanted};
use crate::naming_laws::{
    after_answers, is_run, is_step, law_files_of_a_run_get_different_names,
    law_first_of_its_number_is_no_second_half, law_live_halves_share_a_stem,
    law_live_photos_are_heic_and_mp4, law_new_name_was_free, law_search_finds_the_first_free_name,
    law_stems_of_other_pairs_are_untouched, ledger_before, Disk, Naming,
};
use crate::sidecar::{date_of_json, first_sidecar, SidecarDateText};
use crate::text::{lowered, opt_text, same_but_ascii_case};

verus! {

/// What is known of a file by its path. A part of the path that is not Unicode
/// is missing, except that the name is always there to be shown.
pub struct SourceFile {
    /// The file name.
    pub name: Option<String>,
    /// The file name, as far as it can be shown.
    pub shown_name: String,
    /// The file name without its extension.
    pub stem: Option<String>,
    /// The extension.
    pub ext: Option<String>,
    /// A number that files share if their paths differ in the extension only, and
    /// only then.
    pub live_key: u64,
}

impl SourceFile {
    /// The extension in lower case; empty if there is none.
    pub open spec fn lower_ext(self) -> Seq<char> {
        lower_extension(opt_text(self.ext))
    }

    /// The search for the file's date.
    pub open spec fn dating(self) -> DateState {
        DateState::start(
            match opt_text(self.name) {
                Some(n) => n,
                None => seq![],
            },
            opt_text(self.stem),
            self.lower_ext() == "mp4"@,
        )
    }

    /// What the new name of the file is made from, if it has this date. A file
    /// without a stem is called `file`.
    pub open spec fn wanted(self, date: Seq<char>) -> Wanted {
        Wanted {
            stem: match opt_text(self.stem) {
                Some(s) => s,
                None => "file"@,
            },
            ext: opt_text(self.ext),
            lower_ext: self.lower_ext(),
            folder: folder_for(date),
            key: self.live_key,
        }
    }

    /// Whether the file is sorted.
    pub fn is_media(&self) -> (b: bool)
        ensures
            b == is_media_extension(self.lower_ext()),
    {
        is_media_file(&self.ext)
    }

    /// Begins the search for the file's date.
    pub fn date_search(&self) -> (search: DateSearch)
        ensures
            search@ == self.dating(),
    {
        DateSearch::begin(self.name.clone(), self.stem.clone(), &self.ext)
    }

    /// The folder that the file goes to, given what has been found out about it.
    pub fn folder(&self, fields: &ExifFields) -> (folder: Folder)
        ensures
            folder == self.wanted(fields.date@).folder,
    {
        Folder::for_date(fields.date.as_str())
    }

    /// Begins the search for the file's new name, in the folder that its date
    /// sends it to.
    pub fn name_search(&self, fields: &ExifFields) -> (search: NameSearch)
        ensures
            search@ == SearchState::start(self.wanted(fields.date@)),
            search@.can_go_on(),
    {
        NameSearch::begin(
            self.stem.clone(),
            self.ext.clone(),
            self.folder(fields),
            self.live_key,
        )
    }
}

/// The folder of a file depends on whether a date was found: a file for which
/// there is none goes to the one for unknown times, and a file with a date to the
/// one for media files.
pub proof fn law_date_decides_on_the_folder(file: SourceFile, around: Surroundings, n: nat)
    requires
        n >= 12,
    ensures
        ({
            let folder = file.wanted(dated(file.dating(), around, n).fields.date).folder;
            match around.date_for(file.dating()) {
                SidecarDateText::Absent => folder == Folder::UnknownTime,
                SidecarDateText::Date(date) => date.len() > 0 ==> folder == Folder::Media,
                SidecarDateText::OutOfRange(_) => true,
            }
        }),
{
    let start = file.dating();
    law_search_finds_the_date(start.name, start.stem, start.is_mp4, around, n);
}

// ---------------------------------------------------------------------------
// Dates
// ---------------------------------------------------------------------------
/// A file whose own metadata holds a date has that date, and all else that the
/// metadata says, whatever lies beside it.
pub proof fn law_own_date_is_taken(file: SourceFile, around: Surroundings, n: nat)
    requires
        n >= 12,
        output_fields((around.output)(Subject::File)).date.len() > 0,
    ensures
        dated(file.dating(), around, n).stage is Finished,
        dated(file.dating(), around, n).fields == output_fields((around.output)(Subject::File)),
{
    let start = file.dating();
    law_search_finds_the_date(start.name, start.stem, start.is_mp4, around, n);
}

/// A file without a date in its own metadata has that of its JSON file: the one
/// named after the whole name, else the one that differs in the extension only,
/// else the first in the directory that is named after it. Without any the file has
/// no date, unless it is an MP4 video.
pub proof fn law_file_is_dated_by_its_sidecar(
    file: SourceFile,
    around: Surroundings,
    n: nat,
    name: Seq<char>,
    found: Option<SidecarPath>,
    says: SidecarDateText,
)
    requires
        n >= 12,
        output_fields((around.output)(Subject::File)).date.len() == 0,
        name == match file.name {
            Some(s) => s@,
            None => seq![],
        },
        found == (if (around.has_sidecar)(Subject::File, SidecarPath::Named(name + ".json"@)) {
            Some(SidecarPath::Named(name + ".json"@))
        } else if (around.has_sidecar)(Subject::File, SidecarPath::Extension("json"@)) {
            Some(SidecarPath::Extension("json"@))
        } else {
            match first_sidecar(name, (around.entries)(Subject::File)) {
                Some(entry) => Some(SidecarPath::Named(entry)),
                None => None,
            }
        }),
        says == (match found {
            Some(path) => match (around.content)(Subject::File, path) {
                Some(text) => date_of_json(text),
                None => SidecarDateText::Absent,
            },
            None => SidecarDateText::Absent,
        }),
    ensures
        ({
            let end = dated(file.dating(), around, n);
            let own = output_fields((around.output)(Subject::File));
            &&& says matches SidecarDateText::Date(date) ==> end.stage is Finished && end.fields
                == (ExifTexts { date, ..own })
            &&& says matches SidecarDateText::OutOfRange(t) ==> end.stage
                == DateStageText::NoSuchDate(t)
            &&& says is Absent && !(file.ext matches Some(ext) && lowered(ext@) == "mp4"@)
                ==> end.stage is Finished && end.fields == own
        }),
{
    let start = file.dating();
    law_search_finds_the_date(start.name, start.stem, start.is_mp4, around, n);
    lemma_no_extension_is_none_of_video();
    assert(output_fields((around.output)(Subject::File)).date =~= seq![]);
}

proof fn lemma_no_extension_is_none_of_video()
    ensures
        Seq::<char>::empty() != "mp4"@,
{
    reveal_strlit("mp4");
    assert("mp4"@.len() == 3);
}

/// An MP4 video, in capital or small letters, without a date of its own and of its
/// JSON file has the date of the `heic` file beside it, else of the `HEIC` file: that
/// of the image's metadata, else that of the image's JSON file. All else is that of
/// the video.
pub proof fn law_video_is_dated_by_the_image(
    file: SourceFile,
    around: Surroundings,
    n: nat,
    name: Seq<char>,
    found: Option<SidecarPath>,
    says: SidecarDateText,
    image: Subject,
    image_name: Seq<char>,
    image_found: Option<SidecarPath>,
    image_says: SidecarDateText,
)
    requires
        n >= 12,
        output_fields((around.output)(Subject::File)).date.len() == 0,
        name == match file.name {
            Some(s) => s@,
            None => seq![],
        },
        found == (if (around.has_sidecar)(Subject::File, SidecarPath::Named(name + ".json"@)) {
            Some(SidecarPath::Named(name + ".json"@))
        } else if (around.has_sidecar)(Subject::File, SidecarPath::Extension("json"@)) {
            Some(SidecarPath::Extension("json"@))
        } else {
            match first_sidecar(name, (around.entries)(Subject::File)) {
                Some(entry) => Some(SidecarPath::Named(entry)),
                None => None,
            }
        }),
        says == (match found {
            Some(path) => match (around.content)(Subject::File, path) {
                Some(text) => date_of_json(text),
                None => SidecarDateText::Absent,
            },
            None => SidecarDateText::Absent,
        }),
        says is Absent,
        file.ext matches Some(ext) && same_but_ascii_case("mp4"@, ext@),
        image == (if (around.has_subject)(Subject::LowerHeic) {
            Subject::LowerHeic
        } else {
            Subject::UpperHeic
        }),
        image_name == match file.stem {
            Some(stem) => if image == Subject::LowerHeic {
                stem@ + ".heic"@
            } else {
                stem@ + ".HEIC"@
            },
            None => seq![],
        },
        image_found == (if (around.has_sidecar)(image, SidecarPath::Named(image_name + ".json"@)) {
            Some(SidecarPath::Named(image_name + ".json"@))
        } else if (around.has_sidecar)(image, SidecarPath::Extension("json"@)) {
            Some(SidecarPath::Extension("json"@))
        } else {
            match first_sidecar(image_name, (around.entries)(image)) {
                Some(entry) => Some(SidecarPath::Named(entry)),
                None => None,
            }
        }),
        image_says == (match image_found {
            Some(path) => match (around.content)(image, path) {
                Some(text) => date_of_json(text),
                None => SidecarDateText::Absent,
            },
            None => SidecarDateText::Absent,
        }),
    ensures
        ({
            let end = dated(file.dating(), around, n);
            let own = output_fields((around.output)(Subject::File));
            let read = output_fields((around.output)(image)).date;
            &&& !(around.has_subject)(image) ==> end.stage is Finished && end.fields == own
            &&& (around.has_subject)(image) && read.len() > 0 ==> end.stage is Finished
                && end.fields == (ExifTexts { date: read, ..own })
            &&& (around.has_subject)(image) && read.len() == 0 ==> {
                &&& image_says matches SidecarDateText::Date(date) ==> end.stage is Finished
                    && end.fields == (ExifTexts { date, ..own })
                &&& image_says matches SidecarDateText::OutOfRange(t) ==> end.stage
                    == DateStageText::NoSuchDate(t)
                &&& image_says is Absent ==> end.stage is Finished && end.fields == own
            }
        }),
{
    let start = file.dating();
    reveal_strlit("mp4");
    law_case_of_an_extension_does_not_matter("mp4"@, file.ext.unwrap()@);
    assert(start.is_mp4);
    law_search_finds_the_date(start.name, start.stem, start.is_mp4, around, n);
    assert(output_fields((around.output)(Subject::File)).date =~= seq![]);
    reveal_strlit(".");
    reveal_strlit("heic");
    reveal_strlit("HEIC");
    reveal_strlit(".heic");
    reveal_strlit(".HEIC");
    assert(start.name_of(image) =~= image_name);
}

// ---------------------------------------------------------------------------
// Names
// ---------------------------------------------------------------------------
/// One file of a run: its date, the disk it met, how many answers its search got,
/// the name it was given, and what had been given out then.
pub struct FiledAs {
    pub file: SourceFile,
    pub date: Seq<char>,
    pub disk: Disk,
    pub answers: nat,
    pub name: Seq<char>,
    pub ledger: Ledger,
}

/// What had been given out before a file of a run.
pub open spec fn given_out_before(first: Ledger, run: Seq<FiledAs>, i: int) -> Ledger {
    if i <= 0 {
        first
    } else {
        run[i - 1].ledger
    }
}

/// The search for the name of a file of a run has ended with its name.
pub open spec fn is_filed(first: Ledger, run: Seq<FiledAs>, i: int) -> bool {
    let one = run[i];
    let end = after_answers(
        SearchState::start(one.file.wanted(one.date)),
        given_out_before(first, run, i),
        one.disk,
        one.answers,
    );
    &&& one.answers <= i32::MAX
    &&& end.0.stage is Assigned
    &&& end.0.name == one.name
    &&& end.1 == one.ledger
}

/// The files of a run were given their names one after the other.
pub open spec fn are_filed(first: Ledger, run: Seq<FiledAs>) -> bool {
    forall|i: int| 0 <= i < run.len() ==> #[trigger] is_filed(first, run, i)
}

spec fn namings(run: Seq<FiledAs>) -> Seq<Naming> {
    Seq::new(
        run.len(),
        |i: int|
            Naming {
                wanted: run[i].file.wanted(run[i].date),
                disk: run[i].disk,
                name: run[i].name,
                ledger: run[i].ledger,
            },
    )
}

proof fn lemma_filing_is_a_run(first: Ledger, run: Seq<FiledAs>)
    requires
        are_filed(first, run),
    ensures
        is_run(first, namings(run)),
        forall|i: int|
            0 <= i <= run.len() ==> #[trigger] ledger_before(first, namings(run), i)
                == given_out_before(first, run, i),
{
    let all = namings(run);
    assert forall|i: int| 0 <= i < all.len() implies #[trigger] is_step(first, all, i) by {
        assert(is_filed(first, run, i));
        law_search_finds_the_first_free_name(
            run[i].file.wanted(run[i].date),
            given_out_before(first, run, i),
            run[i].disk,
            run[i].answers,
        );
    }
}

/// The first file of a run with its number gets a name that no earlier file has in
/// the same folder and that does not exist there: Live Photos with different
/// numbers are never taken for one.
pub proof fn law_files_of_different_pairs_get_different_names(
    first: Ledger,
    run: Seq<FiledAs>,
    i: int,
    j: int,
)
    requires
        are_filed(first, run),
        0 <= i < j < run.len(),
        (run[i].date.len() == 0) == (run[j].date.len() == 0),
        !first.live_stems.contains_key(run[j].file.live_key),
        forall|k: int| 0 <= k < j ==> #[trigger] run[k].file.live_key != run[j].file.live_key,
    ensures
        run[i].name != run[j].name,
        !(run[j].disk.target)(run[j].name),
{
    let all = namings(run);
    lemma_filing_is_a_run(first, run);
    assert forall|k: int| 0 <= k < j implies #[trigger] all[k].wanted.key
        != run[j].file.live_key by {
        assert(run[k].file.live_key != run[j].file.live_key);
    }
    law_first_of_its_number_is_no_second_half(first, all, j, run[j].file.live_key);
    law_files_of_a_run_get_different_names(first, all, i, j);
    assert(is_step(first, all, j));
    law_new_name_was_free(
        all[j].wanted,
        ledger_before(first, all, j),
        all[j].disk,
        all[j].name,
        all[j].ledger,
    );
}

/// Giving a name to a file changes what is known of the Live Photo with its own
/// number only: no file with another number is made a second half by it.
pub proof fn law_pairs_are_kept_by_their_number(first: Ledger, run: Seq<FiledAs>, i: int, key: u64)
    requires
        are_filed(first, run),
        0 <= i < run.len(),
        key != run[i].file.live_key,
    ensures
        ({
            let before = given_out_before(first, run, i).live_stems;
            let after = run[i].ledger.live_stems;
            &&& after.contains_key(key) == before.contains_key(key)
            &&& before.contains_key(key) ==> after[key] == before[key]
        }),
{
    let all = namings(run);
    lemma_filing_is_a_run(first, run);
    assert(is_step(first, all, i));
    assert(ledger_before(first, all, i) == given_out_before(first, run, i));
    law_stems_of_other_pairs_are_untouched(
        all[i].wanted,
        ledger_before(first, all, i),
        all[i].disk,
        all[i].name,
        all[i].ledger,
        key,
    );
}

/// The two halves of a Live Photo, which have one number and each lie beside the
/// other, get names that differ in the extension only, whichever comes first and
/// whatever comes in between.
pub proof fn law_halves_of_a_pair_share_a_stem(first: Ledger, run: Seq<FiledAs>, i: int, j: int)
    requires
        are_filed(first, run),
        0 <= i < j < run.len(),
        run[i].file.live_key == run[j].file.live_key,
        run[i].file.ext matches Some(ext) && {
            ||| lowered(ext@) == "heic"@ && ((run[i].disk.beside)("mp4"@)
                || (run[i].disk.beside)("MP4"@))
            ||| lowered(ext@) == "mp4"@ && ((run[i].disk.beside)("heic"@)
                || (run[i].disk.beside)("HEIC"@))
        },
        run[j].file.ext matches Some(ext) && {
            ||| lowered(ext@) == "heic"@ && ((run[j].disk.beside)("mp4"@)
                || (run[j].disk.beside)("MP4"@))
            ||| lowered(ext@) == "mp4"@ && ((run[j].disk.beside)("heic"@)
                || (run[j].disk.beside)("HEIC"@))
        },
    ensures
        exists|stem: Seq<char>|
            run[i].name == #[trigger] (stem + "."@) + run[i].file.ext.unwrap()@ && run[j].name == (
            stem + "."@) + run[j].file.ext.unwrap()@,
{
    let all = namings(run);
    lemma_filing_is_a_run(first, run);
    lemma_halves_are_known(run[i].file, run[i].date, run[i].disk);
    lemma_halves_are_known(run[j].file, run[j].date, run[j].disk);
    law_live_halves_share_a_stem(first, all, i, j);
    let stem = choose|stem: Seq<char>|
        all[i].name == #[trigger] file_name(stem, all[i].wanted.ext) && all[j].name == file_name(
            stem,
            all[j].wanted.ext,
        );
    assert(run[i].name == (stem + "."@) + run[i].file.ext.unwrap()@);
}

proof fn lemma_halves_are_known(file: SourceFile, date: Seq<char>, disk: Disk)
    ensures
        file.wanted(date).is_live(disk) <==> (file.ext matches Some(ext) && {
            ||| lowered(ext@) == "heic"@ && ((disk.beside)("mp4"@)
                || (disk.beside)("MP4"@))
            ||| lowered(ext@) == "mp4"@ && ((disk.beside)("heic"@)
                || (disk.beside)("HEIC"@))
        }),
        file.wanted(date).has_beside(disk, false) <==> (file.ext matches Some(ext) && {
            ||| lowered(ext@) == "heic"@ && (disk.beside)("mp4"@)
            ||| lowered(ext@) == "mp4"@ && (disk.beside)("heic"@)
        }),
{
    reveal_strlit("heic");
    reveal_strlit("mp4");
    assert("heic"@.len() == 4);
    assert("mp4"@.len() == 3);
}

/// A name is taken in the folder of a file with this date: it has been given out
/// there or exists there.
pub open spec fn is_taken(ledger: Ledger, disk: Disk, date: Seq<char>, name: Seq<char>) -> bool {
    (disk.target)(name) || (if date.len() == 0 {
        ledger.unknown_time
    } else {
        ledger.media
    }).contains(name)
}

/// A file that is no half of a Live Photo gets its own name, or that with the first
/// number at which it is not taken in the folder for its date. The result is the
/// number. The name is given out there and nothing else changes.
pub proof fn law_ordinary_file_gets_the_first_free_name(
    first: Ledger,
    run: Seq<FiledAs>,
    i: int,
    stem: Seq<char>,
    ext: Option<Seq<char>>,
) -> (number: int)
    requires
        are_filed(first, run),
        0 <= i < run.len(),
        stem == match run[i].file.stem {
            Some(s) => s@,
            None => "file"@,
        },
        ext == opt_text(run[i].file.ext),
        !(run[i].file.ext matches Some(ext) && {
            ||| lowered(ext@) == "heic"@ && ((run[i].disk.beside)("mp4"@)
                || (run[i].disk.beside)("MP4"@))
            ||| lowered(ext@) == "mp4"@ && ((run[i].disk.beside)("heic"@)
                || (run[i].disk.beside)("HEIC"@))
        }),
    ensures
        ({
            let one = run[i];
            let before = given_out_before(first, run, i);
            &&& number >= 0
            &&& one.name == file_name(attempt_stem(stem, number), ext)
            &&& !is_taken(before, one.disk, one.date, one.name)
            &&& forall|k: int|
                0 <= k < number ==> is_taken(
                    before,
                    one.disk,
                    one.date,
                    #[trigger] file_name(attempt_stem(stem, k), ext),
                )
            &&& one.ledger.live_stems == before.live_stems
            &&& one.ledger.media == (if one.date.len() == 0 {
                before.media
            } else {
                before.media.insert(one.name)
            })
            &&& one.ledger.unknown_time == (if one.date.len() == 0 {
                before.unknown_time.insert(one.name)
            } else {
                before.unknown_time
            })
        }),
{
    let all = namings(run);
    lemma_filing_is_a_run(first, run);
    assert(is_step(first, all, i));
    let one = run[i];
    let before = given_out_before(first, run, i);
    assert(ledger_before(first, all, i) == before);
    lemma_halves_are_known(one.file, one.date, one.disk);
    let wanted = one.file.wanted(one.date);
    let number = choose|attempt: int| #[trigger]
        wanted.is_first_free(before, one.disk, attempt) && one.name == wanted.name_at(attempt)
            && one.ledger == wanted.ledger_with(before, one.disk, attempt);
    assert forall|k: int| 0 <= k < number implies is_taken(
        before,
        one.disk,
        one.date,
        #[trigger] file_name(attempt_stem(stem, k), ext),
    ) by {
        assert(!wanted.is_free(before, one.disk, k));
        assert(wanted.name_at(k) == file_name(attempt_stem(stem, k), ext));
    }
    number
}

/// The first half of a Live Photo gets its own name, or that with the first number
/// at which neither its name nor that of the other half is taken: the one in upper
/// case, and where the other half is found in lower case, that one too. The stem is
/// kept for the other half under the number of the pair.
pub proof fn law_first_half_gets_a_stem_that_is_free_for_both(
    first: Ledger,
    run: Seq<FiledAs>,
    i: int,
    stem: Seq<char>,
    own: Seq<char>,
    lower: Seq<char>,
    upper: Seq<char>,
) -> (number: int)
    requires
        are_filed(first, run),
        0 <= i < run.len(),
        stem == match run[i].file.stem {
            Some(s) => s@,
            None => "file"@,
        },
        opt_text(run[i].file.ext) == Some(own),
        !given_out_before(first, run, i).live_stems.contains_key(run[i].file.live_key),
        ({
            ||| lowered(own) == "heic"@ && lower == "mp4"@ && upper == "MP4"@
            ||| lowered(own) == "mp4"@ && lower == "heic"@ && upper == "HEIC"@
        }),
        (run[i].disk.beside)(lower) || (run[i].disk.beside)(upper),
    ensures
        ({
            let one = run[i];
            let before = given_out_before(first, run, i);
            &&& number >= 0
            &&& one.name == file_name(attempt_stem(stem, number), Some(own))
            &&& !is_taken(before, one.disk, one.date, one.name)
            &&& !is_taken(
                before,
                one.disk,
                one.date,
                file_name(attempt_stem(stem, number), Some(upper)),
            )
            &&& (one.disk.beside)(lower) ==> !is_taken(
                before,
                one.disk,
                one.date,
                file_name(attempt_stem(stem, number), Some(lower)),
            )
            &&& forall|k: int|
                #![trigger attempt_stem(stem, k)]
                0 <= k < number ==> {
                    let candidate = attempt_stem(stem, k);
                    ||| is_taken(before, one.disk, one.date, file_name(candidate, Some(own)))
                    ||| is_taken(before, one.disk, one.date, file_name(candidate, Some(upper)))
                    ||| (one.disk.beside)(lower) && is_taken(
                        before,
                        one.disk,
                        one.date,
                        file_name(candidate, Some(lower)),
                    )
                }
            &&& one.ledger.live_stems == before.live_stems.insert(
                one.file.live_key,
                attempt_stem(stem, number),
            )
            &&& one.ledger.media == (if one.date.len() == 0 {
                before.media
            } else {
                before.media.insert(one.name)
            })
            &&& one.ledger.unknown_time == (if one.date.len() == 0 {
                before.unknown_time.insert(one.name)
            } else {
                before.unknown_time
            })
        }),
{
    let all = namings(run);
    lemma_filing_is_a_run(first, run);
    assert(is_step(first, all, i));
    let one = run[i];
    let before = given_out_before(first, run, i);
    assert(ledger_before(first, all, i) == before);
    lemma_halves_are_known(one.file, one.date, one.disk);
    let wanted = one.file.wanted(one.date);
    law_live_photos_are_heic_and_mp4(wanted.lower_ext);
    let number = choose|attempt: int| #[trigger]
        wanted.is_first_free(before, one.disk, attempt) && one.name == wanted.name_at(attempt)
            && one.ledger == wanted.ledger_with(before, one.disk, attempt);
    assert(wanted.is_free(before, one.disk, number));
    assert forall|k: int|
        #![trigger attempt_stem(stem, k)]
        0 <= k < number implies {
        let candidate = attempt_stem(stem, k);
        ||| is_taken(before, one.disk, one.date, file_name(candidate, Some(own)))
        ||| is_taken(before, one.disk, one.date, file_name(candidate, Some(upper)))
        ||| (one.disk.beside)(lower) && is_taken(
            before,
            one.disk,
            one.date,
            file_name(candidate, Some(lower)),
        )
    } by {
        assert(!wanted.is_free(before, one.disk, k));
    }
    number
}

/// The second half of a Live Photo gets the stem that is kept under the number of
/// the pair, with its own extension; the stem stays.
pub proof fn law_second_half_gets_the_stem_of_the_pair(first: Ledger, run: Seq<FiledAs>, i: int)
    requires
        are_filed(first, run),
        0 <= i < run.len(),
        given_out_before(first, run, i).live_stems.contains_key(run[i].file.live_key),
        run[i].file.ext matches Some(ext) && {
            ||| lowered(ext@) == "heic"@ && ((run[i].disk.beside)("mp4"@)
                || (run[i].disk.beside)("MP4"@))
            ||| lowered(ext@) == "mp4"@ && ((run[i].disk.beside)("heic"@)
                || (run[i].disk.beside)("HEIC"@))
        },
    ensures
        run[i].name == file_name(
            given_out_before(first, run, i).live_stems[run[i].file.live_key],
            opt_text(run[i].file.ext),
        ),
        run[i].ledger.live_stems == given_out_before(first, run, i).live_stems,
        run[i].date.len() > 0 ==> run[i].ledger.media == given_out_before(
            first,
            run,
            i,
        ).media.insert(run[i].name),
        run[i].date.len() == 0 ==> run[i].ledger.unknown_time == given_out_before(
            first,
            run,
            i,
        ).unknown_time.insert(run[i].name),
{
    let all = namings(run);
    lemma_filing_is_a_run(first, run);
    assert(is_step(first, all, i));
    assert(ledger_before(first, all, i) == given_out_before(first, run, i));
    lemma_halves_are_known(run[i].file, run[i].date, run[i].disk);
}

// ---------------------------------------------------------------------------
// What is sorted
// ---------------------------------------------------------------------------
/// Whether a file is sorted depends on its extension alone, in capital or small
/// letters: a file whose extension differs from a known one in case only is sorted.
pub proof fn law_known_extensions_are_sorted_in_any_case(file: SourceFile, known: Seq<char>)
    requires
        is_ascii_chars(known),
        forall|i: int| 0 <= i < known.len() ==> !('A' <= #[trigger] known[i] <= 'Z'),
        file.ext matches Some(ext) && same_but_ascii_case(known, ext@),
    ensures
        file.lower_ext() == known,
        is_media_extension(known) ==> is_media_extension(file.lower_ext()),
{
    law_case_of_an_extension_does_not_matter(known, file.ext.unwrap()@);
}

/// An extension is read in lower case whatever its characters are, and a file
/// without one has an empty one.
pub proof fn law_extension_is_read_in_lower_case(file: SourceFile)
    ensures
        file.ext matches Some(ext) ==> file.lower_ext() == lowered(ext@),
        file.ext is None ==> file.lower_ext() == Seq::<char>::empty(),
{
}

/// A file goes to the folder for media files exactly if it has a date, whatever
/// else is known of it.
pub proof fn law_dated_files_go_to_the_media_folder(file: SourceFile, date: Seq<char>)
    ensures
        file.wanted(date).folder == Folder::Media <==> date.len() > 0,
        file.wanted(date).folder == Folder::UnknownTime <==> date.len() == 0,
{
}

} // verus!
