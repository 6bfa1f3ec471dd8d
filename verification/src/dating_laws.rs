//! What a search for a date comes to.
use vstd::prelude::*;
use crate::dating::{
    answers, DateAnswer, DateAnswerText, DateQuestion, DateQuestionText, DateStageText, DateState,
    Sidecar, SidecarPath, Subject,
};
use crate::exif::{output_fields, ExifTexts};
use crate::sidecar::{date_of_json, first_sidecar, SidecarDateText};
use crate::text::texts;

verus! {

/// What can be found out around a file: what ExifTool prints about each subject,
/// which JSON files exist, what the directories and the files hold, and whether
/// the image half of a Live Photo exists.
pub struct Surroundings {
    pub output: spec_fn(Subject) -> Option<Seq<u8>>,
    pub has_sidecar: spec_fn(Subject, SidecarPath) -> bool,
    pub entries: spec_fn(Subject) -> Seq<Seq<char>>,
    pub content: spec_fn(Subject, SidecarPath) -> Option<Seq<char>>,
    pub has_subject: spec_fn(Subject) -> bool,
}

impl Surroundings {
    /// The answer to a question.
    pub open spec fn answer(self, q: DateQuestionText) -> DateAnswerText {
        match q {
            DateQuestionText::Exif(s) => DateAnswerText::Output((self.output)(s)),
            DateQuestionText::SidecarExists(s, c) => DateAnswerText::Exists(
                (self.has_sidecar)(s, c),
            ),
            DateQuestionText::Entries(s) => DateAnswerText::Entries((self.entries)(s)),
            DateQuestionText::SidecarContent(s, c) => DateAnswerText::Content(
                (self.content)(s, c),
            ),
            DateQuestionText::SubjectExists(s) => DateAnswerText::Exists((self.has_subject)(s)),
            DateQuestionText::Finished => DateAnswerText::Exists(false),
            DateQuestionText::NoSuchDate(_) => DateAnswerText::Exists(false),
        }
    }

    /// The JSON file of a subject: the one named after its whole name, else the
    /// one that differs in the extension only, else the first one in the
    /// directory that is named after it.
    pub open spec fn sidecar_of(self, file: DateState, subject: Subject) -> Option<SidecarPath> {
        let full_name = file.full_name_sidecar(subject);
        let replaced = SidecarPath::Extension("json"@);
        if (self.has_sidecar)(subject, full_name) {
            Some(full_name)
        } else if (self.has_sidecar)(subject, replaced) {
            Some(replaced)
        } else {
            match first_sidecar(file.name_of(subject), (self.entries)(subject)) {
                Some(name) => Some(SidecarPath::Named(name)),
                None => None,
            }
        }
    }

    /// What the JSON file of a subject says.
    pub open spec fn sidecar_says(self, file: DateState, subject: Subject) -> SidecarDateText {
        match self.sidecar_of(file, subject) {
            Some(path) => match (self.content)(subject, path) {
                Some(text) => date_of_json(text),
                None => SidecarDateText::Absent,
            },
            None => SidecarDateText::Absent,
        }
    }

    /// The date of a subject: that of its own metadata, else that of its JSON
    /// file.
    pub open spec fn date_of(self, file: DateState, subject: Subject) -> SidecarDateText {
        let own = output_fields((self.output)(subject)).date;
        if own.len() > 0 {
            SidecarDateText::Date(own)
        } else {
            self.sidecar_says(file, subject)
        }
    }

    /// The date of a file: its own, else, for an MP4 video, that of the image
    /// beside it.
    pub open spec fn date_for(self, file: DateState) -> SidecarDateText {
        let own = self.date_of(file, Subject::File);
        if own is Absent && file.is_mp4 {
            if (self.has_subject)(Subject::LowerHeic) {
                self.date_of(file, Subject::LowerHeic)
            } else if (self.has_subject)(Subject::UpperHeic) {
                self.date_of(file, Subject::UpperHeic)
            } else {
                SidecarDateText::Absent
            }
        } else {
            own
        }
    }
}

/// A search after a number of true answers.
pub open spec fn dated(s: DateState, around: Surroundings, n: nat) -> DateState
    decreases n,
{
    if n == 0 {
        s
    } else {
        dated(s.after(around.answer(s.question())), around, (n - 1) as nat)
    }
}

/// The end of a search that came to this: a date, none, or a number of seconds
/// that has no date. All else that is known of the file comes from its own
/// metadata.
pub open spec fn is_end(s: DateState, around: Surroundings, date: SidecarDateText) -> bool {
    let own = output_fields((around.output)(Subject::File));
    match date {
        SidecarDateText::Absent => {
            &&& s.stage is Finished
            &&& s.fields == ExifTexts { date: seq![], ..own }
        },
        SidecarDateText::Date(text) => {
            &&& s.stage is Finished
            &&& s.fields == ExifTexts { date: text, ..own }
        },
        SidecarDateText::OutOfRange(t) => s.stage == DateStageText::NoSuchDate(t),
    }
}

spec fn is_over(s: DateState) -> bool {
    s.stage is Finished || s.stage is NoSuchDate
}

proof fn lemma_stays_over(s: DateState, around: Surroundings, n: nat)
    requires
        is_over(s),
    ensures
        dated(s, around, n) == s,
    decreases n,
{
    if n > 0 {
        lemma_stays_over(s, around, (n - 1) as nat);
    }
}

proof fn lemma_answers_add_up(s: DateState, around: Surroundings, m: nat, n: nat)
    ensures
        dated(s, around, m + n) == dated(dated(s, around, m), around, n),
    decreases m,
{
    if m > 0 {
        lemma_answers_add_up(
            s.after(around.answer(s.question())),
            around,
            (m - 1) as nat,
            n,
        );
    }
}

/// One more answer.
proof fn lemma_one_answer(s: DateState, around: Surroundings, n: nat)
    requires
        n > 0,
    ensures
        dated(s, around, n) == dated(
            s.after(around.answer(s.question())),
            around,
            (n - 1) as nat,
        ),
{
}

/// The search once it is done with its subject, given what the subject's date is.
spec fn done_with(s: DateState, around: Surroundings, date: SidecarDateText) -> DateState {
    let read = s.after_output((around.output)(s.subject));
    match date {
        SidecarDateText::Absent => read.without_date(),
        SidecarDateText::Date(text) => read.with_date(text),
        SidecarDateText::OutOfRange(t) => read.at(DateStageText::NoSuchDate(t)),
    }
}

proof fn lemma_one_subject(s: DateState, file: DateState, around: Surroundings)
    requires
        s.stage is Exif,
        s.name == file.name,
        s.stem == file.stem,
    ensures
        ({
            let end = done_with(s, around, around.date_of(file, s.subject));
            exists|n: nat| n <= 5 && #[trigger] dated(s, around, n) == end
        }),
{
    let date = around.date_of(file, s.subject);
    let end = done_with(s, around, date);
    let own = output_fields((around.output)(s.subject)).date;
    let s1 = s.after(around.answer(s.question()));
    assert(dated(s1, around, 0) == s1);
    lemma_one_answer(s, around, 1);
    if own.len() > 0 {
        assert(s1 == end);
        assert(dated(s, around, 1) == end);
    } else {
        let s2 = s1.after(around.answer(s1.question()));
        lemma_one_answer(s1, around, 1);
        lemma_one_answer(s, around, 2);
        assert(dated(s2, around, 0) == s2);
        let s3 = s2.after(around.answer(s2.question()));
        lemma_one_answer(s2, around, 1);
        lemma_one_answer(s1, around, 2);
        lemma_one_answer(s, around, 3);
        assert(dated(s3, around, 0) == s3);
        if (around.has_sidecar)(s.subject, file.full_name_sidecar(s.subject)) {
            assert(s3 == end);
            assert(dated(s, around, 3) == end);
        } else {
            let s4 = s3.after(around.answer(s3.question()));
            lemma_one_answer(s3, around, 1);
            lemma_one_answer(s2, around, 2);
            lemma_one_answer(s1, around, 3);
            lemma_one_answer(s, around, 4);
            assert(dated(s4, around, 0) == s4);
            if (around.has_sidecar)(s.subject, SidecarPath::Extension("json"@)) {
                assert(s4 == end);
                assert(dated(s, around, 4) == end);
            } else if first_sidecar(file.name_of(s.subject), (around.entries)(s.subject)) is None {
                assert(s4 == end);
                assert(dated(s, around, 4) == end);
            } else {
                let s5 = s4.after(around.answer(s4.question()));
                lemma_one_answer(s4, around, 1);
                lemma_one_answer(s3, around, 2);
                lemma_one_answer(s2, around, 3);
                lemma_one_answer(s1, around, 4);
                lemma_one_answer(s, around, 5);
                assert(dated(s5, around, 0) == s5);
                assert(s5 == end);
                assert(dated(s, around, 5) == end);
            }
        }
    }
}

/// A search ends within twelve answers, with the date that the file should have:
/// its own metadata comes before the JSON file beside it, and both come before
/// the image half of a Live Photo.
pub proof fn law_search_finds_the_date(
    name: Seq<char>,
    stem: Option<Seq<char>>,
    is_mp4: bool,
    around: Surroundings,
    n: nat,
)
    requires
        n >= 12,
    ensures
        ({
            let file = DateState::start(name, stem, is_mp4);
            is_end(dated(file, around, n), around, around.date_for(file))
        }),
{
    let file = DateState::start(name, stem, is_mp4);
    let own = around.date_of(file, Subject::File);
    lemma_one_subject(file, file, around);
    let end = done_with(file, around, own);
    let n1 = choose|n1: nat| n1 <= 5 && #[trigger] dated(file, around, n1) == end;
    lemma_answers_add_up(file, around, n1, (n - n1) as nat);
    if own is Absent && is_mp4 {
        let read = output_fields((around.output)(Subject::File));
        assert(read.date =~= seq![]);
        let s1 = end.after(around.answer(end.question()));
        lemma_one_answer(end, around, (n - n1) as nat);
        let s2 = s1.after(around.answer(s1.question()));
        lemma_one_answer(s1, around, (n - n1 - 1) as nat);
        let (s, used): (DateState, nat) = if (around.has_subject)(Subject::LowerHeic) {
            (s1, 1)
        } else {
            (s2, 2)
        };
        if s.stage is Finished {
            lemma_stays_over(s, around, (n - n1 - used) as nat);
        } else {
            lemma_one_subject(s, file, around);
            let date = around.date_of(file, s.subject);
            let last = done_with(s, around, date);
            let n2 = choose|n2: nat| n2 <= 5 && #[trigger] dated(s, around, n2) == last;
            lemma_answers_add_up(s, around, n2, (n - n1 - used - n2) as nat);
            if date is Absent {
                assert(output_fields((around.output)(s.subject)).date =~= seq![]);
            }
            lemma_stays_over(last, around, (n - n1 - used - n2) as nat);
        }
    } else {
        if own is Absent {
            assert(output_fields((around.output)(Subject::File)).date =~= seq![]);
        }
        lemma_stays_over(end, around, (n - n1) as nat);
    }
}

/// As long as a search is not over, the answer it gets is of the kind it asks
/// for.
pub proof fn law_every_question_can_be_answered(s: DateState, around: Surroundings)
    requires
        !(s.stage is Finished),
        !(s.stage is NoSuchDate),
    ensures
        answers(s.question(), around.answer(s.question())),
{
}

/// A file whose own metadata has a date gets that date, whatever else there is.
pub proof fn law_own_metadata_comes_first(file: DateState, around: Surroundings)
    requires
        output_fields((around.output)(Subject::File)).date.len() > 0,
    ensures
        around.date_for(file) == SidecarDateText::Date(
            output_fields((around.output)(Subject::File)).date,
        ),
{
}

/// Only an MP4 video borrows a date from another file.
pub proof fn law_only_videos_borrow(file: DateState, around: Surroundings)
    requires
        !file.is_mp4,
    ensures
        around.date_for(file) == around.date_of(file, Subject::File),
{
}

/// Of the file itself ExifTool is asked for all four fields, of the image beside it
/// for the date only.
pub proof fn law_images_are_asked_for_their_date_only(subject: Subject)
    ensures
        subject.options().contains("-DateTimeOriginal"@),
        subject == Subject::File <==> subject.replacement() is None,
        subject == Subject::File ==> subject.options() == seq![
            "-DateTimeOriginal"@,
            "-MIMEType"@,
            "-ImageSize"@,
            "-FileType"@,
        ],
        subject != Subject::File ==> subject.options() == seq!["-DateTimeOriginal"@],
        subject == Subject::LowerHeic ==> subject.replacement() == Some("heic"@),
        subject == Subject::UpperHeic ==> subject.replacement() == Some("HEIC"@),
{
    assert(subject.options()[0] == "-DateTimeOriginal"@);
}

/// A search says that it is over exactly when it is, and reports a number of
/// seconds that has no date as it was read.
pub proof fn law_end_of_a_search_is_told(s: DateState, t: i64)
    ensures
        s.question() is Finished <==> s.stage is Finished,
        s.question() == DateQuestionText::NoSuchDate(t) <==> s.stage
            == DateStageText::NoSuchDate(t),
{
}

/// Questions and answers are taken for what they are: no part of them is lost.
pub proof fn law_answers_are_taken_whole(
    output: Vec<u8>,
    entries: Vec<String>,
    content: String,
    subject: Subject,
)
    ensures
        (DateAnswer::Output(Some(output)))@ == DateAnswerText::Output(Some(output@)),
        (DateAnswer::Output(None))@ == DateAnswerText::Output(None),
        (DateAnswer::Exists(true))@ == DateAnswerText::Exists(true),
        (DateAnswer::Exists(false))@ == DateAnswerText::Exists(false),
        (DateAnswer::Entries(entries))@ == DateAnswerText::Entries(texts(entries@)),
        (DateAnswer::Content(Some(content)))@ == DateAnswerText::Content(Some(content@)),
        (DateAnswer::Content(None))@ == DateAnswerText::Content(None),
        (DateQuestion::SidecarExists(subject, Sidecar::Named(content)))@
            == DateQuestionText::SidecarExists(subject, SidecarPath::Named(content@)),
        (DateQuestion::SidecarExists(subject, Sidecar::Extension(content)))@
            == DateQuestionText::SidecarExists(subject, SidecarPath::Extension(content@)),
        (DateQuestion::SidecarContent(subject, Sidecar::Named(content)))@
            == DateQuestionText::SidecarContent(subject, SidecarPath::Named(content@)),
        (DateQuestion::SidecarContent(subject, Sidecar::Extension(content)))@
            == DateQuestionText::SidecarContent(subject, SidecarPath::Extension(content@)),
        (DateQuestion::Exif(subject))@ == DateQuestionText::Exif(subject),
        (DateQuestion::Entries(subject))@ == DateQuestionText::Entries(subject),
        (DateQuestion::SubjectExists(subject))@ == DateQuestionText::SubjectExists(subject),
{
}

} // verus!
