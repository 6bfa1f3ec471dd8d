//! Writing metadata back into a file: which date is written, what ExifTool is
//! told to do, and what follows from what it reports.
//!
//! Running ExifTool and renaming files is up to the caller. An [`EmbedJob`] says
//! what is to be done next, and goes on from how it ended.
use vstd::prelude::*;
use vstd::utf8::is_ascii_chars;
use crate::outside::{text_of_bytes, white_space};
use crate::text::{
    ascii_lower, chars_of, contains_text, first_at, joined, law_comparison_ignores_ascii_case,
    law_lower_case_changes_case_only, law_occurrence_cuts_the_text, law_part_occurs_in_the_whole,
    law_trimming_takes_off_white_space, letter, lowered, occurs_at, occurs_in, opt_text,
    same_but_ascii_case, same_ignoring_ascii_case, same_text, stands_at, string_of, text_in, texts,
    trim_text, trimmed,
};

verus! {

// ---------------------------------------------------------------------------
// The date
// ---------------------------------------------------------------------------
/// The reply to the question which date to use asks for the one in the file name.
pub open spec fn asks_for_filename(reply: Seq<char>) -> bool {
    trimmed(reply) == "2"@
}

/// Whether the reply to the question which date to use asks for the one in the
/// file name.
pub fn wants_filename(reply: &str) -> (b: bool)
    ensures
        b == asks_for_filename(reply@),
        b == (trimmed(reply@) == "2"@),
{
    same_text(trim_text(reply).as_str(), "2")
}

/// Whether files in a directory of this name are WhatsApp files or screenshots.
pub open spec fn is_chat_or_screenshot(parent: Seq<char>) -> bool {
    same_but_ascii_case(parent, "Whatsapp"@) || same_but_ascii_case(parent, "Screenshots"@)
}

/// The date of a file is to be guessed from its name: that is asked for, and the
/// directory it lies in is one for WhatsApp files or screenshots.
pub open spec fn date_is_guessed(use_filename: bool, parent: Option<Seq<char>>) -> bool {
    use_filename && (parent matches Some(p) && is_chat_or_screenshot(p))
}

/// Whether the date of a file is to be guessed from its name.
pub fn guesses_date(use_filename: bool, parent: &Option<String>) -> (b: bool)
    ensures
        b == date_is_guessed(use_filename, opt_text(*parent)),
        b == (use_filename && (opt_text(*parent) matches Some(p) && is_chat_or_screenshot(p))),
{
    match parent {
        Some(p) => use_filename && (same_ignoring_ascii_case(p.as_str(), "Whatsapp")
            || same_ignoring_ascii_case(p.as_str(), "Screenshots")),
        None => false,
    }
}

/// Where the date that is written comes from.
#[derive(Clone, Copy, PartialEq, Eq, Structural, Debug)]
pub enum DateSource {
    Metadata,
    Filename,
    /// There is no date.
    Fallback,
}

impl DateSource {
    /// The source in words.
    pub open spec fn words(self) -> Seq<char> {
        match self {
            DateSource::Metadata => "metadata"@,
            DateSource::Filename => "filename"@,
            DateSource::Fallback => "metadata (fallback)"@,
        }
    }

    /// The source in words.
    pub fn label(&self) -> (s: &'static str)
        ensures
            s@ == self.words(),
    {
        match self {
            DateSource::Metadata => "metadata",
            DateSource::Filename => "filename",
            DateSource::Fallback => "metadata (fallback)",
        }
    }
}

/// The date that is written, and where it comes from: a date guessed from the
/// name, if it is to be guessed, comes before the one in the metadata.
pub open spec fn date_to_embed(
    own: Option<Seq<char>>,
    guessing: bool,
    guess: Option<Seq<char>>,
) -> (Option<Seq<char>>, DateSource) {
    if guessing && guess is Some {
        (guess, DateSource::Filename)
    } else if own is Some {
        (own, DateSource::Metadata)
    } else {
        (None, DateSource::Fallback)
    }
}

/// Chooses the date that is written.
pub fn choose_date(own: Option<String>, guessing: bool, guess: Option<String>) -> (r: (
    Option<String>,
    DateSource,
))
    ensures
        (opt_text(r.0), r.1) == date_to_embed(opt_text(own), guessing, opt_text(guess)),
{
    if guessing {
        if let Some(date) = guess {
            return (Some(date), DateSource::Filename);
        }
    }
    match own {
        Some(date) => (Some(date), DateSource::Metadata),
        None => (None, DateSource::Fallback),
    }
}

// ---------------------------------------------------------------------------
// The arguments
// ---------------------------------------------------------------------------
/// What is known of a file and written into it. Numbers are given in decimal
/// notation.
pub struct Metadata {
    pub latitude: Option<String>,
    pub longitude: Option<String>,
    pub altitude: Option<String>,
    pub make: Option<String>,
    pub model: Option<String>,
}

/// The texts of [`Metadata`].
pub struct MetadataTexts {
    pub latitude: Option<Seq<char>>,
    pub longitude: Option<Seq<char>>,
    pub altitude: Option<Seq<char>>,
    pub make: Option<Seq<char>>,
    pub model: Option<Seq<char>>,
}

impl View for Metadata {
    type V = MetadataTexts;

    open spec fn view(&self) -> MetadataTexts {
        MetadataTexts {
            latitude: opt_text(self.latitude),
            longitude: opt_text(self.longitude),
            altitude: opt_text(self.altitude),
            make: opt_text(self.make),
            model: opt_text(self.model),
        }
    }
}

/// The argument for a value that may be missing.
pub open spec fn optional_argument(option: Seq<char>, value: Option<Seq<char>>) -> Seq<Seq<char>> {
    match value {
        Some(v) => seq![option + v],
        None => seq![],
    }
}

/// The arguments for a position, of which both coordinates have to be known.
pub open spec fn position_arguments(m: MetadataTexts) -> Seq<Seq<char>> {
    match (m.latitude, m.longitude) {
        (Some(lat), Some(lon)) => seq!["-GPSLatitude="@ + lat, "-GPSLongitude="@ + lon],
        _ => seq![],
    }
}

/// The arguments that say what is written.
pub open spec fn value_arguments(date: Option<Seq<char>>, m: MetadataTexts) -> Seq<Seq<char>> {
    optional_argument("-EXIF:DateTimeOriginal="@, date) + position_arguments(m)
        + optional_argument("-GPSAltitude="@, m.altitude) + optional_argument("-Make="@, m.make)
        + optional_argument("-Model="@, m.model)
}

/// The arguments that ExifTool gets: what is written, that the file is changed
/// in place, and the file.
pub open spec fn embed_arguments(
    date: Option<Seq<char>>,
    m: MetadataTexts,
    path: Seq<char>,
) -> Seq<Seq<char>> {
    value_arguments(date, m) + seq!["-overwrite_original"@, path]
}

fn push_optional(args: &mut Vec<String>, option: &str, value: &Option<String>)
    ensures
        texts(final(args)@) == texts(old(args)@) + optional_argument(option@, opt_text(*value)),
{
    match value {
        Some(v) => {
            args.push(joined(option, v.as_str()));
            assert(texts(args@) =~= texts(old(args)@) + seq![option@ + v@]);
        },
        None => {
            assert(texts(args@) =~= texts(old(args)@) + seq![]);
        },
    }
}

/// The arguments that ExifTool gets.
pub fn arguments(date: &Option<String>, m: &Metadata, path: String) -> (args: Vec<String>)
    ensures
        texts(args@) == embed_arguments(opt_text(*date), m@, path@),
{
    let mut args: Vec<String> = Vec::new();
    assert(texts(args@) =~= seq![]);
    push_optional(&mut args, "-EXIF:DateTimeOriginal=", date);
    let ghost so_far = optional_argument("-EXIF:DateTimeOriginal="@, opt_text(*date));
    assert(texts(args@) =~= so_far);
    if let (Some(lat), Some(lon)) = (&m.latitude, &m.longitude) {
        args.push(joined("-GPSLatitude=", lat.as_str()));
        args.push(joined("-GPSLongitude=", lon.as_str()));
    }
    assert(texts(args@) =~= so_far + position_arguments(m@));
    push_optional(&mut args, "-GPSAltitude=", &m.altitude);
    push_optional(&mut args, "-Make=", &m.make);
    push_optional(&mut args, "-Model=", &m.model);
    assert(texts(args@) =~= value_arguments(opt_text(*date), m@));
    args.push("-overwrite_original".to_owned());
    args.push(path);
    assert(texts(args@) =~= embed_arguments(opt_text(*date), m@, path@));
    args
}

// ---------------------------------------------------------------------------
// Reading what ExifTool complains of
// ---------------------------------------------------------------------------
/// What stands behind the first occurrence of a phrase.
pub open spec fn after_phrase(s: Seq<char>, phrase: Seq<char>) -> Option<Seq<char>>
    decreases s.len(),
{
    if occurs_at(s, phrase, 0) {
        Some(s.skip(phrase.len() as int))
    } else if s.len() == 0 {
        None
    } else {
        after_phrase(s.drop_first(), phrase)
    }
}

/// The letters that a text begins with.
pub open spec fn leading_letters(s: Seq<char>) -> Seq<char>
    decreases s.len(),
{
    if s.len() > 0 && letter(s[0]) {
        seq![s[0]] + leading_letters(s.drop_first())
    } else {
        seq![]
    }
}

/// Why ExifTool did not write into a file.
pub enum Complaint {
    /// The file looks like one with this extension.
    LooksLike(String),
    /// The file looks like something else, but the message breaks off before it
    /// says what.
    LooksOdd,
    /// Something else.
    Other,
}

/// The text of a [`Complaint`].
pub enum ComplaintText {
    LooksLike(Seq<char>),
    LooksOdd,
    Other,
}

impl View for Complaint {
    type V = ComplaintText;

    open spec fn view(&self) -> ComplaintText {
        match *self {
            Complaint::LooksLike(ext) => ComplaintText::LooksLike(ext@),
            Complaint::LooksOdd => ComplaintText::LooksOdd,
            Complaint::Other => ComplaintText::Other,
        }
    }
}

/// What an error message, in lower case, complains of.
pub open spec fn complaint_in(message: Seq<char>) -> ComplaintText {
    if occurs_in(message, "looks more like a"@) {
        match after_phrase(message, "looks more like a "@) {
            Some(rest) => ComplaintText::LooksLike(leading_letters(rest)),
            None => ComplaintText::LooksOdd,
        }
    } else {
        ComplaintText::Other
    }
}

/// What stands behind the first occurrence of a phrase.
pub fn text_after(s: &str, phrase: &str) -> (rest: Option<String>)
    ensures
        opt_text(rest) == after_phrase(s@, phrase@),
{
    let v = chars_of(s);
    let p = chars_of(phrase);
    let mut i: usize = 0;
    assert(v@.skip(0) =~= v@);
    loop
        invariant
            i <= v.len(),
            v@ == s@,
            p@ == phrase@,
            after_phrase(s@, phrase@) == after_phrase(v@.skip(i as int), phrase@),
        decreases v.len() - i,
    {
        let ghost here = v@.skip(i as int);
        if stands_at(&v, &p, i) {
            assert(here.subrange(0, p@.len() as int) =~= v@.subrange(i as int, i + p@.len()));
            let rest = string_of(&v, i + p.len(), v.len());
            assert(rest@ =~= here.skip(p@.len() as int));
            return Some(rest);
        }
        assert(!occurs_at(here, p@, 0)) by {
            if occurs_at(here, p@, 0) {
                assert(v@.subrange(i as int, i + p@.len()) =~= here.subrange(0, p@.len() as int));
            }
        }
        if i == v.len() {
            return None;
        }
        assert(here.drop_first() =~= v@.skip(i + 1));
        i = i + 1;
    }
}

/// The letters that a text begins with.
pub fn letters_of(s: &str) -> (letters: String)
    ensures
        letters@ == leading_letters(s@),
{
    let v = chars_of(s);
    let mut i: usize = 0;
    assert(v@.skip(0) =~= v@);
    assert(v@.take(0) + leading_letters(v@) =~= leading_letters(v@));
    while i < v.len() && v[i].is_alphabetic()
        invariant
            i <= v.len(),
            v@ == s@,
            leading_letters(s@) == v@.take(i as int) + leading_letters(v@.skip(i as int)),
        decreases v.len() - i,
    {
        let ghost here = v@.skip(i as int);
        assert(here.drop_first() =~= v@.skip(i + 1));
        assert(v@.take(i as int) + (seq![v@[i as int]] + leading_letters(v@.skip(i + 1)))
            =~= v@.take(i + 1) + leading_letters(v@.skip(i + 1)));
        i = i + 1;
    }
    assert(v@.take(i as int) + seq![] =~= v@.take(i as int));
    let letters = string_of(&v, 0, i);
    assert(letters@ =~= v@.take(i as int));
    letters
}

/// What an error message, in lower case, complains of.
pub fn read_complaint(message: &str) -> (complaint: Complaint)
    ensures
        complaint@ == complaint_in(message@),
{
    if contains_text(message, "looks more like a") {
        match text_after(message, "looks more like a ") {
            Some(rest) => Complaint::LooksLike(letters_of(rest.as_str())),
            None => Complaint::LooksOdd,
        }
    } else {
        Complaint::Other
    }
}

// ---------------------------------------------------------------------------
// The job
// ---------------------------------------------------------------------------
/// How a run of ExifTool ended.
pub enum ToolRun {
    /// It could not be run.
    NotRun,
    /// It was run, reported success or not, and printed this to its error
    /// output.
    Ended { success: bool, stderr: Vec<u8> },
}

/// The texts of a [`ToolRun`].
pub enum ToolRunText {
    NotRun,
    Ended { success: bool, stderr: Seq<u8> },
}

impl View for ToolRun {
    type V = ToolRunText;

    open spec fn view(&self) -> ToolRunText {
        match *self {
            ToolRun::NotRun => ToolRunText::NotRun,
            ToolRun::Ended { success, stderr } => ToolRunText::Ended { success, stderr: stderr@ },
        }
    }
}

/// How a job ended.
pub enum Outcome {
    Embedded,
    /// ExifTool failed, with this message in lower case.
    Failed(String),
    /// ExifTool complained of the file's type without naming one.
    LeftAlone,
    NotRun,
    /// The file could not be renamed to the extension that ExifTool named.
    NotRenamed,
    EmbeddedOnRetry,
    /// ExifTool failed once more, with this message.
    FailedOnRetry(String),
    NotRunOnRetry,
}

/// The text of an [`Outcome`].
pub enum OutcomeText {
    Embedded,
    Failed(Seq<char>),
    LeftAlone,
    NotRun,
    NotRenamed,
    EmbeddedOnRetry,
    FailedOnRetry(Seq<char>),
    NotRunOnRetry,
}

impl View for Outcome {
    type V = OutcomeText;

    open spec fn view(&self) -> OutcomeText {
        match *self {
            Outcome::Embedded => OutcomeText::Embedded,
            Outcome::Failed(s) => OutcomeText::Failed(s@),
            Outcome::LeftAlone => OutcomeText::LeftAlone,
            Outcome::NotRun => OutcomeText::NotRun,
            Outcome::NotRenamed => OutcomeText::NotRenamed,
            Outcome::EmbeddedOnRetry => OutcomeText::EmbeddedOnRetry,
            Outcome::FailedOnRetry(s) => OutcomeText::FailedOnRetry(s@),
            Outcome::NotRunOnRetry => OutcomeText::NotRunOnRetry,
        }
    }
}

/// What is to be done next.
pub enum Step {
    /// Run ExifTool with the job's arguments.
    Run,
    /// Rename the file so that it has this extension.
    Rename(String),
    /// Run ExifTool once more with the job's arguments, on the renamed file.
    RunAgain,
    /// Nothing: the job is over.
    Done(Outcome),
}

/// The text of a [`Step`].
pub enum StepText {
    Run,
    Rename(Seq<char>),
    RunAgain,
    Done(OutcomeText),
}

impl View for Step {
    type V = StepText;

    open spec fn view(&self) -> StepText {
        match *self {
            Step::Run => StepText::Run,
            Step::Rename(ext) => StepText::Rename(ext@),
            Step::RunAgain => StepText::RunAgain,
            Step::Done(outcome) => StepText::Done(outcome@),
        }
    }
}

/// Writing metadata into one file.
pub struct EmbedJob {
    pub args: Vec<String>,
    pub step: Step,
}

/// The texts of an [`EmbedJob`].
#[verifier::ext_equal]
pub struct JobState {
    pub args: Seq<Seq<char>>,
    pub step: StepText,
}

impl View for EmbedJob {
    type V = JobState;

    open spec fn view(&self) -> JobState {
        JobState { args: texts(self.args@), step: self.step@ }
    }
}

/// What follows from the first run.
pub open spec fn after_first_run(run: ToolRunText) -> StepText {
    match run {
        ToolRunText::NotRun => StepText::Done(OutcomeText::NotRun),
        ToolRunText::Ended { success, stderr } => if success {
            StepText::Done(OutcomeText::Embedded)
        } else {
            let message = lowered(text_in(stderr));
            match complaint_in(message) {
                ComplaintText::LooksLike(ext) => StepText::Rename(ext),
                ComplaintText::LooksOdd => StepText::Done(OutcomeText::LeftAlone),
                ComplaintText::Other => StepText::Done(OutcomeText::Failed(trimmed(message))),
            }
        },
    }
}

/// What follows from the second run.
pub open spec fn after_second_run(run: ToolRunText) -> StepText {
    match run {
        ToolRunText::NotRun => StepText::Done(OutcomeText::NotRunOnRetry),
        ToolRunText::Ended { success, stderr } => if success {
            StepText::Done(OutcomeText::EmbeddedOnRetry)
        } else {
            StepText::Done(OutcomeText::FailedOnRetry(trimmed(text_in(stderr))))
        },
    }
}

impl JobState {
    /// The job after a run.
    pub open spec fn after_run(self, run: ToolRunText) -> JobState {
        JobState {
            step: if self.step is Run {
                after_first_run(run)
            } else {
                after_second_run(run)
            },
            ..self
        }
    }

    /// The job after the file has been renamed, or could not be.
    pub open spec fn after_rename(self, new_path: Option<Seq<char>>) -> JobState {
        match new_path {
            Some(path) => JobState {
                args: if self.args.len() == 0 {
                    seq![path]
                } else {
                    self.args.drop_last().push(path)
                },
                step: StepText::RunAgain,
            },
            None => JobState { step: StepText::Done(OutcomeText::NotRenamed), ..self },
        }
    }
}

impl EmbedJob {
    /// A job that writes this date and metadata into a file.
    pub fn new(date: &Option<String>, m: &Metadata, path: String) -> (job: EmbedJob)
        ensures
            job@ == (JobState {
                args: embed_arguments(opt_text(*date), m@, path@),
                step: StepText::Run,
            }),
    {
        EmbedJob { args: arguments(date, m, path), step: Step::Run }
    }

    /// Goes on from how a run ended.
    pub fn tool_ended(&mut self, run: ToolRun)
        requires
            old(self)@.step is Run || old(self)@.step is RunAgain,
        ensures
            final(self)@ == old(self)@.after_run(run@),
    {
        let first = match &self.step {
            Step::Run => true,
            _ => false,
        };
        self.step = match run {
            ToolRun::NotRun => if first {
                Step::Done(Outcome::NotRun)
            } else {
                Step::Done(Outcome::NotRunOnRetry)
            },
            ToolRun::Ended { success, stderr } => if success {
                if first {
                    Step::Done(Outcome::Embedded)
                } else {
                    Step::Done(Outcome::EmbeddedOnRetry)
                }
            } else {
                let message = text_of_bytes(&stderr);
                if first {
                    let lower = message.as_str().to_lowercase();
                    match read_complaint(lower.as_str()) {
                        Complaint::LooksLike(ext) => Step::Rename(ext),
                        Complaint::LooksOdd => Step::Done(Outcome::LeftAlone),
                        Complaint::Other => Step::Done(Outcome::Failed(trim_text(lower.as_str()))),
                    }
                } else {
                    Step::Done(Outcome::FailedOnRetry(trim_text(message.as_str())))
                }
            },
        };
    }

    /// Goes on from a renaming, given the file's new path if it succeeded.
    pub fn renamed(&mut self, new_path: Option<String>)
        requires
            old(self)@.step is Rename,
        ensures
            final(self)@ == old(self)@.after_rename(opt_text(new_path)),
    {
        match new_path {
            Some(path) => {
                let _ = self.args.pop();
                self.args.push(path);
                self.step = Step::RunAgain;
                assert(texts(self.args@) =~= old(self)@.after_rename(Some(path@)).args);
            },
            None => {
                self.step = Step::Done(Outcome::NotRenamed);
            },
        }
    }
}

// ---------------------------------------------------------------------------
// The log
// ---------------------------------------------------------------------------
/// What is logged of how a job ended, given what was to be written, why ExifTool
/// could not be run, and the file that it was run on again. Nothing is logged of a
/// file that is left alone.
pub open spec fn logged(
    outcome: OutcomeText,
    details: Seq<char>,
    error: Seq<char>,
    retried: Seq<char>,
) -> Option<Seq<char>> {
    match outcome {
        OutcomeText::Embedded => Some("✅ Embedded metadata. "@ + details),
        OutcomeText::Failed(message) => Some(
            "❌ Failed to embed metadata. Stderr: "@ + message + ". "@ + details,
        ),
        OutcomeText::LeftAlone => None,
        OutcomeText::NotRun => Some(
            "❌ Error running exiftool. Error: "@ + error + ". "@ + details,
        ),
        OutcomeText::NotRenamed => Some(
            "❌ Failed to embed metadata. Could not rename mismatched file. "@ + details,
        ),
        OutcomeText::EmbeddedOnRetry => Some(
            "✅ Embedded metadata on retry after rename. File: "@ + retried,
        ),
        OutcomeText::FailedOnRetry(message) => Some(
            "❌ Failed to embed metadata on retry. Stderr: "@ + message + ". File: "@ + retried,
        ),
        OutcomeText::NotRunOnRetry => Some(
            "❌ Error running exiftool on retry. Error: "@ + error + ". File: "@ + retried,
        ),
    }
}

fn four_joined(a: &str, b: &str, c: &str, d: &str) -> (s: String)
    ensures
        s@ == a@ + b@ + c@ + d@,
{
    let mut s = joined(a, b);
    s.append(c);
    s.append(d);
    s
}

/// The line that is logged of how a job ended, if any.
pub fn log_line(outcome: &Outcome, details: &str, error: &str, retried: &str) -> (line: Option<
    String,
>)
    ensures
        opt_text(line) == logged(outcome@, details@, error@, retried@),
{
    match outcome {
        Outcome::Embedded => Some(joined("✅ Embedded metadata. ", details)),
        Outcome::Failed(message) => Some(
            four_joined(
                "❌ Failed to embed metadata. Stderr: ",
                message.as_str(),
                ". ",
                details,
            ),
        ),
        Outcome::LeftAlone => None,
        Outcome::NotRun => Some(
            four_joined("❌ Error running exiftool. Error: ", error, ". ", details),
        ),
        Outcome::NotRenamed => Some(
            joined(
                "❌ Failed to embed metadata. Could not rename mismatched file. ",
                details,
            ),
        ),
        Outcome::EmbeddedOnRetry => Some(
            joined("✅ Embedded metadata on retry after rename. File: ", retried),
        ),
        Outcome::FailedOnRetry(message) => Some(
            four_joined(
                "❌ Failed to embed metadata on retry. Stderr: ",
                message.as_str(),
                ". File: ",
                retried,
            ),
        ),
        Outcome::NotRunOnRetry => Some(
            four_joined(
                "❌ Error running exiftool on retry. Error: ",
                error,
                ". File: ",
                retried,
            ),
        ),
    }
}

// ---------------------------------------------------------------------------
// Laws
// ---------------------------------------------------------------------------
/// A date is taken from the file name only where it is to be guessed, and then it
/// takes the place of the one in the metadata; a date is written whenever there is
/// one to write.
pub proof fn law_guess_only_on_request(own: Option<Seq<char>>, guess: Option<Seq<char>>)
    ensures
        date_to_embed(own, false, guess).0 == own,
        guess is Some ==> date_to_embed(own, true, guess).0 == guess,
        guess is None ==> date_to_embed(own, true, guess).0 == own,
{
}

/// ExifTool is always told to change the file in place, and which file, last.
pub proof fn law_file_comes_last(date: Option<Seq<char>>, m: MetadataTexts, path: Seq<char>)
    ensures
        ({
            let args = embed_arguments(date, m, path);
            &&& args.len() >= 2
            &&& args.last() == path
            &&& args[args.len() - 2] == "-overwrite_original"@
        }),
{
}

/// A position is written whole or not at all.
pub proof fn law_position_is_whole(m: MetadataTexts)
    ensures
        position_arguments(m).len() == (if m.latitude is Some && m.longitude is Some {
            2int
        } else {
            0int
        }),
{
}

/// After a renaming the same things are written, into the renamed file.
pub proof fn law_retry_writes_the_same(
    date: Option<Seq<char>>,
    m: MetadataTexts,
    path: Seq<char>,
    step: StepText,
    new_path: Seq<char>,
)
    ensures
        (JobState { args: embed_arguments(date, m, path), step }).after_rename(Some(new_path))
            == (JobState { args: embed_arguments(date, m, new_path), step: StepText::RunAgain }),
{
    assert(embed_arguments(date, m, path).drop_last().push(new_path) =~= embed_arguments(
        date,
        m,
        new_path,
    ));
}

/// A job is over after two runs and one renaming at most, and it never runs
/// again after a run that succeeded.
pub proof fn law_job_ends(
    job: JobState,
    first: ToolRunText,
    new_path: Option<Seq<char>>,
    second: ToolRunText,
)
    requires
        job.step is Run,
    ensures
        job.after_run(first).step is Done || job.after_run(first).step is Rename,
        job.after_run(first).step is Rename ==> {
            let renamed = job.after_run(first).after_rename(new_path);
            &&& renamed.step is Done || renamed.step is RunAgain
            &&& renamed.after_run(second).step is Done
        },
        first matches ToolRunText::Ended { success: true, .. } ==> job.after_run(first).step
            == StepText::Done(OutcomeText::Embedded),
        job.after_run(first).args == job.args,
{
}

/// Everything that is known is written, whatever else is known, in this order: the
/// date, the position, the altitude, the make and the model; then come the option
/// to change the file in place and the file, and nothing else.
pub proof fn law_everything_known_is_written(date: Option<String>, m: Metadata, path: Seq<char>)
    ensures
        ({
            let args = embed_arguments(opt_text(date), m@, path);
            let dates: int = if date is Some {
                1
            } else {
                0
            };
            let positions: int = if m.latitude is Some && m.longitude is Some {
                2
            } else {
                0
            };
            let altitudes: int = if m.altitude is Some {
                1
            } else {
                0
            };
            let makes: int = if m.make is Some {
                1
            } else {
                0
            };
            let models: int = if m.model is Some {
                1
            } else {
                0
            };
            let before_altitude = dates + positions;
            let before_make = before_altitude + altitudes;
            let before_model = before_make + makes;
            let values = before_model + models;
            &&& date matches Some(d) ==> args[0] == "-EXIF:DateTimeOriginal="@ + d@
            &&& m.latitude matches Some(lat) ==> (m.longitude is Some ==> args[dates]
                == "-GPSLatitude="@ + lat@)
            &&& m.longitude matches Some(lon) ==> (m.latitude is Some ==> args[dates + 1]
                == "-GPSLongitude="@ + lon@)
            &&& m.altitude matches Some(alt) ==> args[before_altitude] == "-GPSAltitude="@ + alt@
            &&& m.make matches Some(make) ==> args[before_make] == "-Make="@ + make@
            &&& m.model matches Some(model) ==> args[before_model] == "-Model="@ + model@
            &&& args[values] == "-overwrite_original"@
            &&& args[values + 1] == path
            &&& args.len() == values + 2
        }),
{
    let d = optional_argument("-EXIF:DateTimeOriginal="@, opt_text(date));
    let p = position_arguments(m@);
    let a = optional_argument("-GPSAltitude="@, opt_text(m.altitude));
    let k = optional_argument("-Make="@, opt_text(m.make));
    let o = optional_argument("-Model="@, opt_text(m.model));
    lemma_places_in_a_list(d, p, a, k, o, seq!["-overwrite_original"@, path]);
}

proof fn lemma_places_in_a_list<T>(
    a: Seq<T>,
    b: Seq<T>,
    c: Seq<T>,
    d: Seq<T>,
    e: Seq<T>,
    f: Seq<T>,
)
    ensures
        ({
            let whole = (a + b + c + d + e) + f;
            let to_b = a.len() as int;
            let to_c = to_b + b.len();
            let to_d = to_c + c.len();
            let to_e = to_d + d.len();
            let to_f = to_e + e.len();
            &&& whole.len() == to_f + f.len()
            &&& forall|i: int| 0 <= i < a.len() ==> whole[i] == #[trigger] a[i]
            &&& forall|i: int| 0 <= i < b.len() ==> whole[to_b + i] == #[trigger] b[i]
            &&& forall|i: int| 0 <= i < c.len() ==> whole[to_c + i] == #[trigger] c[i]
            &&& forall|i: int| 0 <= i < d.len() ==> whole[to_d + i] == #[trigger] d[i]
            &&& forall|i: int| 0 <= i < e.len() ==> whole[to_e + i] == #[trigger] e[i]
            &&& forall|i: int| 0 <= i < f.len() ==> whole[to_f + i] == #[trigger] f[i]
        }),
{
}

/// The arguments contain every value that is known, whatever else is known of the
/// file.
pub proof fn law_known_values_are_among_the_arguments(
    date: Option<String>,
    m: Metadata,
    path: Seq<char>,
)
    ensures
        ({
            let args = embed_arguments(opt_text(date), m@, path);
            &&& date matches Some(d) ==> args.contains("-EXIF:DateTimeOriginal="@ + d@)
            &&& m.latitude matches Some(lat) ==> (m.longitude is Some ==> args.contains(
                "-GPSLatitude="@ + lat@,
            ))
            &&& m.longitude matches Some(lon) ==> (m.latitude is Some ==> args.contains(
                "-GPSLongitude="@ + lon@,
            ))
            &&& m.altitude matches Some(alt) ==> args.contains("-GPSAltitude="@ + alt@)
            &&& m.make matches Some(make) ==> args.contains("-Make="@ + make@)
            &&& m.model matches Some(model) ==> args.contains("-Model="@ + model@)
        }),
{
    law_everything_known_is_written(date, m, path);
}

/// Where a date comes from is told truly: from the name where a guess is written,
/// from the metadata where the file's own date is, and from nowhere where none is.
pub proof fn law_source_of_the_date_is_told(
    own: Option<Seq<char>>,
    guessing: bool,
    guess: Option<Seq<char>>,
)
    ensures
        ({
            let (date, source) = date_to_embed(own, guessing, guess);
            &&& source == DateSource::Filename <==> guessing && guess is Some
            &&& source == DateSource::Filename ==> date == guess
            &&& source == DateSource::Metadata ==> date == own && own is Some
            &&& source == DateSource::Fallback <==> date is None
            &&& date is None <==> own is None && !(guessing && guess is Some)
        }),
{
}

/// Directories for WhatsApp files and screenshots are told by their name, in
/// capital or small letters, and no other directory is one.
pub proof fn law_directories_are_told_by_their_name(parent: Seq<char>)
    requires
        is_ascii_chars(parent),
    ensures
        is_chat_or_screenshot(parent) <==> (lowered(parent) == "whatsapp"@ || lowered(parent)
            == "screenshots"@),
{
    reveal_strlit("whatsapp");
    reveal_strlit("screenshots");
    reveal_strlit("Whatsapp");
    reveal_strlit("Screenshots");
    law_comparison_ignores_ascii_case(parent, "Whatsapp"@);
    law_comparison_ignores_ascii_case(parent, "Screenshots"@);
    law_lower_case_changes_case_only(parent);
    let lower = parent.map_values(|c: char| ascii_lower(c));
    assert(lowered(parent) =~= lower);
    assert("Whatsapp"@.map_values(|c: char| ascii_lower(c)) =~= "whatsapp"@);
    assert("Screenshots"@.map_values(|c: char| ascii_lower(c)) =~= "screenshots"@);
}

/// A directory whose name is not ASCII is none for WhatsApp files or screenshots.
pub proof fn law_other_directories_are_not_meant(parent: Seq<char>)
    requires
        !is_ascii_chars(parent),
    ensures
        !is_chat_or_screenshot(parent),
{
    reveal_strlit("Whatsapp");
    reveal_strlit("Screenshots");
    if is_chat_or_screenshot(parent) {
        assert forall|i: int| 0 <= i < parent.len() implies '\0' <= #[trigger] parent[i]
            <= '\u{7f}' by {
            if same_but_ascii_case(parent, "Whatsapp"@) {
                assert(ascii_lower(parent[i]) == ascii_lower("Whatsapp"@[i]));
            } else {
                assert(ascii_lower(parent[i]) == ascii_lower("Screenshots"@[i]));
            }
        }
        assert(is_ascii_chars(parent));
    }
}

/// What is found behind a phrase is what stands behind its first occurrence, and
/// nothing is found only where the phrase does not occur.
pub proof fn law_rest_stands_behind_the_first_occurrence(s: Seq<char>, phrase: Seq<char>)
    ensures
        match after_phrase(s, phrase) {
            Some(rest) => {
                let i = s.len() - phrase.len() - rest.len();
                &&& first_at(s, phrase, i)
                &&& s == s.take(i) + phrase + rest
            },
            None => !occurs_in(s, phrase),
        },
    decreases s.len(),
{
    if occurs_at(s, phrase, 0) {
        law_occurrence_cuts_the_text(s, phrase, 0);
    } else if s.len() > 0 {
        let rest = s.drop_first();
        law_rest_stands_behind_the_first_occurrence(rest, phrase);
        assert forall|i: int| 1 <= i implies occurs_at(s, phrase, i) == occurs_at(
            rest,
            phrase,
            i - 1,
        ) by {
            if i + phrase.len() <= s.len() {
                assert(s.subrange(i, i + phrase.len()) =~= rest.subrange(
                    i - 1,
                    i - 1 + phrase.len(),
                ));
            }
        }
        match after_phrase(s, phrase) {
            Some(found) => {
                let i = s.len() - phrase.len() - found.len();
                assert(occurs_at(rest, phrase, i - 1));
                assert(occurs_at(s, phrase, i));
                assert forall|j: int| 0 <= j < i implies !occurs_at(s, phrase, j) by {
                    if j > 0 {
                        assert(!occurs_at(rest, phrase, j - 1));
                    }
                }
                assert(s =~= s.take(i) + phrase + found) by {
                    assert(s =~= seq![s[0]] + rest);
                    assert(s.take(i) =~= seq![s[0]] + rest.take(i - 1));
                }
            },
            None => {
                if occurs_in(s, phrase) {
                    let i = choose|i: int| occurs_at(s, phrase, i);
                    assert(occurs_at(rest, phrase, i - 1));
                }
            },
        }
    } else {
        if occurs_in(s, phrase) {
            let i = choose|i: int| occurs_at(s, phrase, i);
            assert(i == 0);
        }
    }
}

/// The letters that a text begins with are all that stand before the first
/// character that is none.
pub proof fn law_leading_letters_are_all_there_are(s: Seq<char>)
    ensures
        ({
            let n = leading_letters(s).len();
            &&& n <= s.len()
            &&& leading_letters(s) == s.take(n as int)
            &&& forall|i: int| 0 <= i < n ==> letter(#[trigger] s[i])
            &&& n < s.len() ==> !letter(s[n as int])
        }),
    decreases s.len(),
{
    if s.len() > 0 && letter(s[0]) {
        let rest = s.drop_first();
        law_leading_letters_are_all_there_are(rest);
        let n = leading_letters(s).len() as int;
        assert(leading_letters(s) =~= s.take(n));
        assert forall|i: int| 0 <= i < n implies letter(#[trigger] s[i]) by {
            if i > 0 {
                assert(rest[i - 1] == s[i]);
            }
        }
        if n < s.len() {
            assert(rest[n - 1] == s[n]);
        }
    } else {
        assert(s.take(0) =~= seq![]);
    }
}

/// A message says what a file looks like by the letters behind the first `looks
/// more like a` and a blank, whatever stands before and behind them.
pub proof fn law_message_names_what_the_file_looks_like(
    before: Seq<char>,
    name: Seq<char>,
    after: Seq<char>,
)
    requires
        first_at(
            before + "looks more like a "@ + name + after,
            "looks more like a "@,
            before.len() as int,
        ),
        forall|i: int| 0 <= i < name.len() ==> letter(#[trigger] name[i]),
        after.len() > 0 ==> !letter(after[0]),
    ensures
        complaint_in(before + "looks more like a "@ + name + after)
            == ComplaintText::LooksLike(name),
{
    reveal_strlit("looks more like a ");
    reveal_strlit("looks more like a");
    let phrase = "looks more like a "@;
    let short = "looks more like a"@;
    let s = before + phrase + name + after;
    assert(phrase =~= short + seq![' ']);
    law_part_occurs_in_the_whole(before, short, seq![' '] + name + after);
    assert(s =~= before + short + (seq![' '] + name + after));
    law_rest_stands_behind_the_first_occurrence(s, phrase);
    let rest = after_phrase(s, phrase).unwrap();
    let i = s.len() - phrase.len() - rest.len();
    assert(occurs_at(s, phrase, before.len() as int));
    assert(i == before.len());
    assert(rest =~= s.skip(i + phrase.len()));
    assert(rest =~= name + after);
    law_leading_letters_are_all_there_are(rest);
    let n = leading_letters(rest).len() as int;
    if n < name.len() {
        assert(rest[n] == name[n]);
    }
    if n > name.len() {
        assert(rest[name.len() as int] == after[0]);
    }
    assert(leading_letters(rest) =~= name);
}

/// A message complains of the type of a file exactly if `looks more like a` stands
/// in it, and names none exactly if no blank follows that anywhere.
pub proof fn law_other_messages_name_nothing(message: Seq<char>)
    ensures
        complaint_in(message) == ComplaintText::Other <==> !occurs_in(
            message,
            "looks more like a"@,
        ),
        complaint_in(message) == ComplaintText::LooksOdd <==> occurs_in(
            message,
            "looks more like a"@,
        ) && !occurs_in(message, "looks more like a "@),
{
    law_rest_stands_behind_the_first_occurrence(message, "looks more like a "@);
    if after_phrase(message, "looks more like a "@) is Some {
        let rest = after_phrase(message, "looks more like a "@).unwrap();
        let i = message.len() - "looks more like a "@.len() - rest.len();
        assert(occurs_at(message, "looks more like a "@, i));
    }
}

/// What follows from the first run: an end if it succeeded or could not be run, a
/// renaming if the message, in lower case, names what the file looks like, and
/// otherwise an end, with the message in lower case unless it only breaks off.
pub proof fn law_first_run_decides(job: JobState, stderr: Vec<u8>)
    requires
        job.step is Run,
    ensures
        ({
            let message = lowered(text_in(stderr@));
            let failed = job.after_run((ToolRun::Ended { success: false, stderr })@);
            &&& job.after_run((ToolRun::Ended { success: true, stderr })@).step == StepText::Done(
                OutcomeText::Embedded,
            )
            &&& job.after_run((ToolRun::NotRun)@).step == StepText::Done(OutcomeText::NotRun)
            &&& complaint_in(message) matches ComplaintText::LooksLike(ext) ==> failed.step
                == StepText::Rename(ext)
            &&& complaint_in(message) is LooksOdd ==> failed.step == StepText::Done(
                OutcomeText::LeftAlone,
            )
            &&& complaint_in(message) is Other ==> failed.step == StepText::Done(
                OutcomeText::Failed(trimmed(message)),
            )
            &&& failed.args == job.args
        }),
{
}

/// What follows from the second run is always an end: there is no second renaming,
/// and the message is reported as it is.
pub proof fn law_second_run_ends_the_job(job: JobState, stderr: Vec<u8>)
    requires
        job.step is RunAgain,
    ensures
        job.after_run((ToolRun::Ended { success: true, stderr })@).step == StepText::Done(
            OutcomeText::EmbeddedOnRetry,
        ),
        job.after_run((ToolRun::Ended { success: false, stderr })@).step == StepText::Done(
            OutcomeText::FailedOnRetry(trimmed(text_in(stderr@))),
        ),
        job.after_run((ToolRun::NotRun)@).step == StepText::Done(OutcomeText::NotRunOnRetry),
        job.after_run((ToolRun::NotRun)@).args == job.args,
{
}

/// A job goes on after a renaming only if the file could be renamed; only the last
/// argument changes then.
pub proof fn law_renaming_changes_the_file_only(job: JobState, new_path: Seq<char>)
    requires
        job.args.len() > 0,
    ensures
        job.after_rename(None).step == StepText::Done(OutcomeText::NotRenamed),
        job.after_rename(None).args == job.args,
        job.after_rename(Some(new_path)).step is RunAgain,
        job.after_rename(Some(new_path)).args == job.args.update(job.args.len() - 1, new_path),
{
    assert(job.args.drop_last().push(new_path) =~= job.args.update(job.args.len() - 1, new_path));
}

/// Of every outcome a line is logged but of a file that is left alone. A line tells
/// success from failure at its start, holds the message or the error there is, and
/// ends with what was to be written or, after a renaming, with the file.
pub proof fn law_outcomes_are_logged(
    outcome: Outcome,
    details: Seq<char>,
    error: Seq<char>,
    retried: Seq<char>,
)
    ensures
        logged(outcome@, details, error, retried) is None <==> outcome is LeftAlone,
        outcome is Embedded ==> logged(outcome@, details, error, retried) == Some(
            "✅ Embedded metadata. "@ + details,
        ),
        outcome is EmbeddedOnRetry ==> logged(outcome@, details, error, retried) == Some(
            "✅ Embedded metadata on retry after rename. File: "@ + retried,
        ),
        outcome matches Outcome::Failed(message) ==> logged(outcome@, details, error, retried)
            == Some("❌ Failed to embed metadata. Stderr: "@ + message@ + ". "@ + details),
        outcome matches Outcome::FailedOnRetry(message) ==> logged(
            outcome@,
            details,
            error,
            retried,
        ) == Some(
            "❌ Failed to embed metadata on retry. Stderr: "@ + message@ + ". File: "@ + retried,
        ),
        outcome is NotRun ==> logged(outcome@, details, error, retried) == Some(
            "❌ Error running exiftool. Error: "@ + error + ". "@ + details,
        ),
        outcome is NotRunOnRetry ==> logged(outcome@, details, error, retried) == Some(
            "❌ Error running exiftool on retry. Error: "@ + error + ". File: "@ + retried,
        ),
        outcome is NotRenamed ==> logged(outcome@, details, error, retried) == Some(
            "❌ Failed to embed metadata. Could not rename mismatched file. "@ + details,
        ),
{
}

/// What is to be done next is told truly, with the arguments for it.
pub proof fn law_steps_are_told(job: EmbedJob, text: String)
    ensures
        job@.args == texts(job.args@),
        job@.step is Run <==> job.step is Run,
        job@.step is RunAgain <==> job.step is RunAgain,
        job.step matches Step::Rename(ext) ==> job@.step == StepText::Rename(ext@),
        job.step matches Step::Done(outcome) ==> job@.step == StepText::Done(outcome@),
        job@.step is Done ==> job.step is Done,
        job@.step is Rename ==> job.step is Rename,
        Complaint::LooksLike(text)@ == ComplaintText::LooksLike(text@),
        Complaint::LooksOdd@ == ComplaintText::LooksOdd,
        Complaint::Other@ == ComplaintText::Other,
        Outcome::Failed(text)@ == OutcomeText::Failed(text@),
        Outcome::FailedOnRetry(text)@ == OutcomeText::FailedOnRetry(text@),
{
}

/// A `2` asks for the date in the file name, whatever white space is around it.
pub proof fn law_two_asks_for_the_filename(before: Seq<char>, after: Seq<char>)
    requires
        forall|i: int| 0 <= i < before.len() ==> white_space(#[trigger] before[i]),
        forall|i: int| 0 <= i < after.len() ==> white_space(#[trigger] after[i]),
    ensures
        asks_for_filename(before + "2"@ + after),
{
    reveal_strlit("2");
    let s = before + "2"@ + after;
    let n = before.len() as int;
    let cut = law_trimming_takes_off_white_space(s);
    assert(s[n] == '2');
    assert(!white_space(s[n]));
    if cut.0 < n {
        assert(s[cut.0] == before[cut.0]);
    }
    if cut.1 > n + 1 {
        assert(s[cut.1 - 1] == after[cut.1 - 1 - (n + 1)]);
    }
    assert(trimmed(s) =~= "2"@);
}

/// No other reply asks for the date in the file name. The result is where the `2`
/// stands.
pub proof fn law_nothing_else_asks_for_the_filename(reply: Seq<char>) -> (at: int)
    requires
        asks_for_filename(reply),
    ensures
        0 <= at < reply.len(),
        reply[at] == '2',
        forall|i: int| 0 <= i < reply.len() && i != at ==> white_space(#[trigger] reply[i]),
{
    reveal_strlit("2");
    let cut = law_trimming_takes_off_white_space(reply);
    assert(reply.subrange(cut.0, cut.1).len() == 1);
    assert(reply.subrange(cut.0, cut.1)[0] == reply[cut.0]);
    cut.0
}

/// A date is guessed only where that is asked for and the directory is known, and
/// then in the directories for WhatsApp files and screenshots.
pub proof fn law_dates_are_guessed_in_two_directories(use_filename: bool, parent: Seq<char>)
    ensures
        !date_is_guessed(false, Some(parent)),
        !date_is_guessed(use_filename, None),
        date_is_guessed(true, Some("Whatsapp"@)),
        date_is_guessed(true, Some("Screenshots"@)),
        is_ascii_chars(parent) ==> (date_is_guessed(true, Some(parent)) <==> (lowered(parent)
            == "whatsapp"@ || lowered(parent) == "screenshots"@)),
        !is_ascii_chars(parent) ==> !date_is_guessed(true, Some(parent)),
{
    if is_ascii_chars(parent) {
        law_directories_are_told_by_their_name(parent);
    } else {
        law_other_directories_are_not_meant(parent);
    }
}

} // verus!
