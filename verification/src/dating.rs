//! The date of a file. It is taken from the file's own metadata; failing that,
//! from the JSON file beside it; failing that too, and only for the video half
//! of a Live Photo, from the image half in the same two ways.
//!
//! Running ExifTool and looking at files is up to the caller. A [`DateSearch`]
//! says what it needs to know next, and goes on from the answer.
use vstd::prelude::*;
use crate::exif::{fields_of_lines, opt_bytes, output_fields, ExifFields, ExifTexts};
use crate::media::{extension_in_lower_case, lower_extension};
use crate::sidecar::{
    date_of_json, find_sidecar, first_sidecar, full_sidecar_name, sidecar_date, sidecar_name,
    SidecarDate, SidecarDateText,
};
use crate::text::{joined, opt_text, same_text, texts};

verus! {

// ---------------------------------------------------------------------------
// Questions and answers
// ---------------------------------------------------------------------------
/// The files that a date can come from: the file itself, and the image beside it
/// with the extension in lower or in upper case.
#[derive(Clone, Copy, PartialEq, Eq, Structural, Debug)]
pub enum Subject {
    File,
    LowerHeic,
    UpperHeic,
}

/// A JSON file of a subject.
pub enum Sidecar {
    /// The one of this name in the subject's directory.
    Named(String),
    /// The one with this extension in place of the subject's.
    Extension(String),
}

/// The text of a [`Sidecar`].
pub enum SidecarPath {
    Named(Seq<char>),
    Extension(Seq<char>),
}

impl View for Sidecar {
    type V = SidecarPath;

    open spec fn view(&self) -> SidecarPath {
        match *self {
            Sidecar::Named(s) => SidecarPath::Named(s@),
            Sidecar::Extension(s) => SidecarPath::Extension(s@),
        }
    }
}

/// What a search needs to know next.
pub enum DateQuestion {
    /// What does ExifTool print about this subject?
    Exif(Subject),
    /// Does this JSON file of the subject exist?
    SidecarExists(Subject, Sidecar),
    /// What are the entries of the subject's directory?
    Entries(Subject),
    /// What does this JSON file of the subject hold?
    SidecarContent(Subject, Sidecar),
    /// Does this subject exist?
    SubjectExists(Subject),
    /// Nothing: the search is over.
    Finished,
    /// Nothing: a JSON file records a number of seconds that has no date.
    NoSuchDate(i64),
}

/// The text of a [`DateQuestion`].
pub enum DateQuestionText {
    Exif(Subject),
    SidecarExists(Subject, SidecarPath),
    Entries(Subject),
    SidecarContent(Subject, SidecarPath),
    SubjectExists(Subject),
    Finished,
    NoSuchDate(i64),
}

impl View for DateQuestion {
    type V = DateQuestionText;

    open spec fn view(&self) -> DateQuestionText {
        match *self {
            DateQuestion::Exif(s) => DateQuestionText::Exif(s),
            DateQuestion::SidecarExists(s, c) => DateQuestionText::SidecarExists(s, c@),
            DateQuestion::Entries(s) => DateQuestionText::Entries(s),
            DateQuestion::SidecarContent(s, c) => DateQuestionText::SidecarContent(s, c@),
            DateQuestion::SubjectExists(s) => DateQuestionText::SubjectExists(s),
            DateQuestion::Finished => DateQuestionText::Finished,
            DateQuestion::NoSuchDate(t) => DateQuestionText::NoSuchDate(t),
        }
    }
}

/// An answer to a question.
pub enum DateAnswer {
    /// What a program printed, if it could be run.
    Output(Option<Vec<u8>>),
    /// Whether something exists.
    Exists(bool),
    /// The names of the entries of a directory, as far as it could be read.
    Entries(Vec<String>),
    /// What a file holds, if it could be read.
    Content(Option<String>),
}

/// The text of a [`DateAnswer`].
pub enum DateAnswerText {
    Output(Option<Seq<u8>>),
    Exists(bool),
    Entries(Seq<Seq<char>>),
    Content(Option<Seq<char>>),
}

impl View for DateAnswer {
    type V = DateAnswerText;

    open spec fn view(&self) -> DateAnswerText {
        match *self {
            DateAnswer::Output(o) => DateAnswerText::Output(opt_bytes(o)),
            DateAnswer::Exists(b) => DateAnswerText::Exists(b),
            DateAnswer::Entries(v) => DateAnswerText::Entries(texts(v@)),
            DateAnswer::Content(o) => DateAnswerText::Content(opt_text(o)),
        }
    }
}

/// The answer is of the kind that the question asks for.
pub open spec fn answers(q: DateQuestionText, a: DateAnswerText) -> bool {
    match q {
        DateQuestionText::Exif(_) => a is Output,
        DateQuestionText::SidecarExists(_, _) => a is Exists,
        DateQuestionText::Entries(_) => a is Entries,
        DateQuestionText::SidecarContent(_, _) => a is Content,
        DateQuestionText::SubjectExists(_) => a is Exists,
        DateQuestionText::Finished => false,
        DateQuestionText::NoSuchDate(_) => false,
    }
}

// ---------------------------------------------------------------------------
// The search
// ---------------------------------------------------------------------------
enum DateStage {
    Exif,
    FullName,
    Replaced,
    Listing,
    Reading(Sidecar),
    Sibling { upper: bool },
    Finished,
    NoSuchDate(i64),
}

/// How far a search is with its subject.
pub enum DateStageText {
    /// The metadata of the subject is asked for.
    Exif,
    /// A JSON file named after the subject's whole name is looked for.
    FullName,
    /// A JSON file that differs in the extension only is looked for.
    Replaced,
    /// A JSON file is looked for in the directory.
    Listing,
    /// A JSON file has been found.
    Reading(SidecarPath),
    /// The image half of a Live Photo is looked for.
    Sibling { upper: bool },
    /// The search is over.
    Finished,
    /// A number of seconds was found that has no date.
    NoSuchDate(i64),
}

impl View for DateStage {
    type V = DateStageText;

    closed spec fn view(&self) -> DateStageText {
        match *self {
            DateStage::Exif => DateStageText::Exif,
            DateStage::FullName => DateStageText::FullName,
            DateStage::Replaced => DateStageText::Replaced,
            DateStage::Listing => DateStageText::Listing,
            DateStage::Reading(c) => DateStageText::Reading(c@),
            DateStage::Sibling { upper } => DateStageText::Sibling { upper },
            DateStage::Finished => DateStageText::Finished,
            DateStage::NoSuchDate(t) => DateStageText::NoSuchDate(t),
        }
    }
}

/// A search for the date of one file.
pub struct DateSearch {
    name: String,
    stem: Option<String>,
    is_mp4: bool,
    subject: Subject,
    stage: DateStage,
    fields: ExifFields,
}

/// The state of a [`DateSearch`]: the name and stem of the file, whether it is an
/// MP4 video, the subject at hand, how far the search is with it, and what is
/// known of the file so far.
pub struct DateState {
    pub name: Seq<char>,
    pub stem: Option<Seq<char>>,
    pub is_mp4: bool,
    pub subject: Subject,
    pub stage: DateStageText,
    pub fields: ExifTexts,
}

impl View for DateSearch {
    type V = DateState;

    closed spec fn view(&self) -> DateState {
        DateState {
            name: self.name@,
            stem: opt_text(self.stem),
            is_mp4: self.is_mp4,
            subject: self.subject,
            stage: self.stage@,
            fields: self.fields@,
        }
    }
}

/// The name of the file that has another extension: empty where the stem is not
/// known.
pub open spec fn sibling_name(stem: Option<Seq<char>>, ext: Seq<char>) -> Seq<char> {
    match stem {
        Some(s) => s + "."@ + ext,
        None => seq![],
    }
}

impl Subject {
    /// The extension that takes the place of the file's; none for the file
    /// itself.
    pub open spec fn replacement(self) -> Option<Seq<char>> {
        match self {
            Subject::File => None,
            Subject::LowerHeic => Some("heic"@),
            Subject::UpperHeic => Some("HEIC"@),
        }
    }

    /// The extension that takes the place of the file's; none for the file
    /// itself.
    pub fn extension(&self) -> (ext: Option<&'static str>)
        ensures
            match ext {
                Some(e) => self.replacement() == Some(e@),
                None => self.replacement() is None,
            },
    {
        match self {
            Subject::File => None,
            Subject::LowerHeic => Some("heic"),
            Subject::UpperHeic => Some("HEIC"),
        }
    }

    /// The options with which ExifTool is asked about a subject: of another file
    /// than the one that is being dated only the date is asked for.
    pub open spec fn options(self) -> Seq<Seq<char>> {
        match self {
            Subject::File => seq![
                "-DateTimeOriginal"@,
                "-MIMEType"@,
                "-ImageSize"@,
                "-FileType"@,
            ],
            _ => seq!["-DateTimeOriginal"@],
        }
    }

    /// The options with which ExifTool is asked about a subject.
    pub fn exif_options(&self) -> (options: Vec<&'static str>)
        ensures
            options@.map_values(|s: &'static str| s@) == self.options(),
    {
        match self {
            Subject::File => {
                let options: Vec<&'static str> = vec![
                    "-DateTimeOriginal", "-MIMEType", "-ImageSize", "-FileType",
                ];
                assert(options@.map_values(|s: &'static str| s@) =~= self.options());
                options
            },
            _ => {
                let options: Vec<&'static str> = vec!["-DateTimeOriginal"];
                assert(options@.map_values(|s: &'static str| s@) =~= self.options());
                options
            },
        }
    }
}

impl DateState {
    /// The start of a search: nothing is known and the file itself is the
    /// subject.
    pub open spec fn start(name: Seq<char>, stem: Option<Seq<char>>, is_mp4: bool) -> DateState {
        DateState {
            name,
            stem,
            is_mp4,
            subject: Subject::File,
            stage: DateStageText::Exif,
            fields: fields_of_lines(seq![]),
        }
    }

    /// The file name of a subject.
    pub open spec fn name_of(self, subject: Subject) -> Seq<char> {
        match subject.replacement() {
            Some(ext) => sibling_name(self.stem, ext),
            None => self.name,
        }
    }

    /// The JSON file that is named after a subject's whole name.
    pub open spec fn full_name_sidecar(self, subject: Subject) -> SidecarPath {
        SidecarPath::Named(full_sidecar_name(self.name_of(subject)))
    }

    /// What the search needs to know next.
    pub open spec fn question(self) -> DateQuestionText {
        match self.stage {
            DateStageText::Exif => DateQuestionText::Exif(self.subject),
            DateStageText::FullName => DateQuestionText::SidecarExists(
                self.subject,
                self.full_name_sidecar(self.subject),
            ),
            DateStageText::Replaced => DateQuestionText::SidecarExists(
                self.subject,
                SidecarPath::Extension("json"@),
            ),
            DateStageText::Listing => DateQuestionText::Entries(self.subject),
            DateStageText::Reading(c) => DateQuestionText::SidecarContent(self.subject, c),
            DateStageText::Sibling { upper } => DateQuestionText::SubjectExists(
                if upper {
                    Subject::UpperHeic
                } else {
                    Subject::LowerHeic
                },
            ),
            DateStageText::Finished => DateQuestionText::Finished,
            DateStageText::NoSuchDate(t) => DateQuestionText::NoSuchDate(t),
        }
    }

    /// The same search at another stage.
    pub open spec fn at(self, stage: DateStageText) -> DateState {
        DateState { stage, ..self }
    }

    /// The search once its subject has turned out to have no date: an MP4 video
    /// goes on with the image beside it.
    pub open spec fn without_date(self) -> DateState {
        if self.subject == Subject::File && self.is_mp4 {
            self.at(DateStageText::Sibling { upper: false })
        } else {
            self.at(DateStageText::Finished)
        }
    }

    /// The search once a date has been found.
    pub open spec fn with_date(self, date: Seq<char>) -> DateState {
        DateState {
            stage: DateStageText::Finished,
            fields: ExifTexts { date, ..self.fields },
            ..self
        }
    }

    /// The search after what ExifTool printed about its subject. Only the date
    /// is taken from another file than the one that is being dated.
    pub open spec fn after_output(self, output: Option<Seq<u8>>) -> DateState {
        let read = output_fields(output);
        let fields = if self.subject == Subject::File {
            read
        } else {
            ExifTexts { date: read.date, ..self.fields }
        };
        DateState {
            stage: if read.date.len() == 0 {
                DateStageText::FullName
            } else {
                DateStageText::Finished
            },
            fields,
            ..self
        }
    }

    /// The search after the content of a JSON file.
    pub open spec fn after_content(self, content: Option<Seq<char>>) -> DateState {
        match content {
            Some(text) => match date_of_json(text) {
                SidecarDateText::Absent => self.without_date(),
                SidecarDateText::Date(date) => self.with_date(date),
                SidecarDateText::OutOfRange(t) => self.at(DateStageText::NoSuchDate(t)),
            },
            None => self.without_date(),
        }
    }

    /// The search after an answer to its question.
    pub open spec fn after(self, a: DateAnswerText) -> DateState {
        match (self.stage, a) {
            (DateStageText::Exif, DateAnswerText::Output(output)) => self.after_output(output),
            (DateStageText::FullName, DateAnswerText::Exists(found)) => if found {
                self.at(DateStageText::Reading(self.full_name_sidecar(self.subject)))
            } else {
                self.at(DateStageText::Replaced)
            },
            (DateStageText::Replaced, DateAnswerText::Exists(found)) => if found {
                self.at(DateStageText::Reading(SidecarPath::Extension("json"@)))
            } else {
                self.at(DateStageText::Listing)
            },
            (DateStageText::Listing, DateAnswerText::Entries(entries)) => match first_sidecar(
                self.name_of(self.subject),
                entries,
            ) {
                Some(name) => self.at(DateStageText::Reading(SidecarPath::Named(name))),
                None => self.without_date(),
            },
            (DateStageText::Reading(_), DateAnswerText::Content(content)) => self.after_content(
                content,
            ),
            (DateStageText::Sibling { upper }, DateAnswerText::Exists(found)) => if found {
                DateState {
                    subject: if upper {
                        Subject::UpperHeic
                    } else {
                        Subject::LowerHeic
                    },
                    stage: DateStageText::Exif,
                    ..self
                }
            } else if !upper {
                self.at(DateStageText::Sibling { upper: true })
            } else {
                self.at(DateStageText::Finished)
            },
            _ => self,
        }
    }
}

impl DateSearch {
    /// Begins the search for the date of a file with this name, stem and
    /// extension.
    pub fn begin(name: Option<String>, stem: Option<String>, ext: &Option<String>) -> (search:
        DateSearch)
        ensures
            search@ == DateState::start(
                match opt_text(name) {
                    Some(n) => n,
                    None => seq![],
                },
                opt_text(stem),
                lower_extension(opt_text(*ext)) == "mp4"@,
            ),
    {
        let ghost given = opt_text(name);
        let name = match name {
            Some(n) => n,
            None => String::new(),
        };
        assert(name@ =~= match given {
            Some(n) => n,
            None => seq![],
        });
        let is_mp4 = same_text(extension_in_lower_case(ext).as_str(), "mp4");
        DateSearch::begin_with(name, stem, is_mp4)
    }

    /// Begins the search for a file of which it is known whether it is an MP4
    /// video.
    pub fn begin_with(name: String, stem: Option<String>, is_mp4: bool) -> (search: DateSearch)
        ensures
            search@ == DateState::start(name@, opt_text(stem), is_mp4),
    {
        DateSearch {
            name,
            stem,
            is_mp4,
            subject: Subject::File,
            stage: DateStage::Exif,
            fields: ExifFields::empty(),
        }
    }

    fn subject_name(&self) -> (name: String)
        ensures
            name@ == self@.name_of(self@.subject),
    {
        match self.subject.extension() {
            Some(ext) => match &self.stem {
                Some(stem) => {
                    let mut name = joined(stem.as_str(), ".");
                    name.append(ext);
                    name
                },
                None => {
                    let name = String::new();
                    assert(name@ =~= seq![]);
                    name
                },
            },
            None => self.name.clone(),
        }
    }

    /// What the search needs to know next.
    pub fn question(&self) -> (q: DateQuestion)
        ensures
            q@ == self@.question(),
    {
        match &self.stage {
            DateStage::Exif => DateQuestion::Exif(self.subject),
            DateStage::FullName => DateQuestion::SidecarExists(
                self.subject,
                Sidecar::Named(sidecar_name(self.subject_name().as_str())),
            ),
            DateStage::Replaced => DateQuestion::SidecarExists(
                self.subject,
                Sidecar::Extension("json".to_owned()),
            ),
            DateStage::Listing => DateQuestion::Entries(self.subject),
            DateStage::Reading(sidecar) => {
                let copy = match sidecar {
                    Sidecar::Named(name) => Sidecar::Named(name.clone()),
                    Sidecar::Extension(ext) => Sidecar::Extension(ext.clone()),
                };
                DateQuestion::SidecarContent(self.subject, copy)
            },
            DateStage::Sibling { upper } => DateQuestion::SubjectExists(
                if *upper {
                    Subject::UpperHeic
                } else {
                    Subject::LowerHeic
                },
            ),
            DateStage::Finished => DateQuestion::Finished,
            DateStage::NoSuchDate(t) => DateQuestion::NoSuchDate(*t),
        }
    }

    fn give_up_subject(&mut self)
        ensures
            final(self)@ == old(self)@.without_date(),
    {
        if self.subject == Subject::File && self.is_mp4 {
            self.stage = DateStage::Sibling { upper: false };
        } else {
            self.stage = DateStage::Finished;
        }
    }

    fn take_output(&mut self, output: &Option<Vec<u8>>)
        ensures
            final(self)@ == old(self)@.after_output(opt_bytes(*output)),
    {
        let read = ExifFields::from_output(output);
        if read.date.as_str().is_empty() {
            self.stage = DateStage::FullName;
        } else {
            self.stage = DateStage::Finished;
        }
        if self.subject == Subject::File {
            self.fields = read;
        } else {
            self.fields.date = read.date;
        }
    }

    fn take_content(&mut self, content: &Option<String>)
        ensures
            final(self)@ == old(self)@.after_content(opt_text(*content)),
            content matches Some(text) && date_of_json(text@) is Date
                ==> final(self)@.fields.date.len() > 0,
    {
        match content {
            Some(text) => match sidecar_date(text.as_str()) {
                SidecarDate::Absent => self.give_up_subject(),
                SidecarDate::Date(date) => {
                    self.fields.date = date;
                    self.stage = DateStage::Finished;
                },
                SidecarDate::OutOfRange(t) => {
                    self.stage = DateStage::NoSuchDate(t);
                },
            },
            None => self.give_up_subject(),
        }
    }

    /// Goes on from the answer to the question.
    pub fn answer(&mut self, answer: DateAnswer)
        requires
            answers(old(self)@.question(), answer@),
        ensures
            final(self)@ == old(self)@.after(answer@),
            // A date that a JSON file records is never empty.
            answer@ matches DateAnswerText::Content(Some(text)) && date_of_json(text) is Date
                ==> final(self)@.fields.date.len() > 0,
    {
        match answer {
            DateAnswer::Output(output) => self.take_output(&output),
            DateAnswer::Entries(entries) => {
                let name = self.subject_name();
                match find_sidecar(name.as_str(), &entries) {
                    Some(entry) => {
                        self.stage = DateStage::Reading(Sidecar::Named(entry));
                    },
                    None => self.give_up_subject(),
                }
            },
            DateAnswer::Content(content) => self.take_content(&content),
            DateAnswer::Exists(found) => match &self.stage {
                DateStage::FullName => {
                    if found {
                        let name = self.subject_name();
                        self.stage = DateStage::Reading(Sidecar::Named(sidecar_name(name.as_str())));
                    } else {
                        self.stage = DateStage::Replaced;
                    }
                },
                DateStage::Replaced => {
                    if found {
                        self.stage = DateStage::Reading(Sidecar::Extension("json".to_owned()));
                    } else {
                        self.stage = DateStage::Listing;
                    }
                },
                DateStage::Sibling { upper } => {
                    let upper = *upper;
                    if found {
                        self.subject = if upper {
                            Subject::UpperHeic
                        } else {
                            Subject::LowerHeic
                        };
                        self.stage = DateStage::Exif;
                    } else if !upper {
                        self.stage = DateStage::Sibling { upper: true };
                    } else {
                        self.stage = DateStage::Finished;
                    }
                },
                _ => {},
            },
        }
    }

    /// What is known of the file once the search is over, with its date if one was
    /// found.
    pub fn into_fields(self) -> (fields: ExifFields)
        requires
            self@.stage is Finished,
        ensures
            fields@ == self@.fields,
    {
        self.fields
    }
}

} // verus!
