//! New names for copied files. A file keeps its name where that is free in the
//! folder it goes to and gets a numbered one otherwise; the two halves of an iOS
//! Live Photo are given one stem.
//!
//! Whether a name exists on disk only the caller can tell. A [`NameSearch`] says
//! what it needs to know next, and goes on from the answer.
use std::collections::HashMap;
use vstd::hash_set::StringHashSet;
use vstd::prelude::*;
use crate::media::{extension_in_lower_case, lower_extension, Folder};
use crate::number::{decimal, decimal_text};
use crate::text::{opt_text, same_text};

verus! {

broadcast use vstd::std_specs::hash::group_hash_axioms;

// ---------------------------------------------------------------------------
// The names given out so far
// ---------------------------------------------------------------------------
/// The names given out in each folder, and the stems given to Live Photos.
pub struct Claims {
    media: StringHashSet,
    unknown_time: StringHashSet,
    live_stems: HashMap<u64, String>,
}

/// What [`Claims`] holds. A Live Photo is known by a number that its two halves
/// share.
#[verifier::ext_equal]
pub struct Ledger {
    pub media: Set<Seq<char>>,
    pub unknown_time: Set<Seq<char>>,
    pub live_stems: Map<u64, Seq<char>>,
}

impl Ledger {
    /// The names given out in a folder.
    pub open spec fn names(self, folder: Folder) -> Set<Seq<char>> {
        match folder {
            Folder::Media => self.media,
            Folder::UnknownTime => self.unknown_time,
        }
    }

    /// The ledger with one more name given out.
    pub open spec fn claiming(self, folder: Folder, name: Seq<char>) -> Ledger {
        match folder {
            Folder::Media => Ledger { media: self.media.insert(name), ..self },
            Folder::UnknownTime => Ledger {
                unknown_time: self.unknown_time.insert(name),
                ..self
            },
        }
    }

    /// The ledger with the stem of one more Live Photo.
    pub open spec fn pairing(self, key: u64, stem: Seq<char>) -> Ledger {
        Ledger { live_stems: self.live_stems.insert(key, stem), ..self }
    }
}

impl View for Claims {
    type V = Ledger;

    closed spec fn view(&self) -> Ledger {
        Ledger {
            media: self.media@,
            unknown_time: self.unknown_time@,
            live_stems: self.live_stems@.map_values(|s: String| s@),
        }
    }
}

impl Claims {
    /// No name given out.
    pub fn new() -> (claims: Claims)
        ensures
            claims@ == (Ledger {
                media: Set::empty(),
                unknown_time: Set::empty(),
                live_stems: Map::empty(),
            }),
    {
        let claims = Claims {
            media: StringHashSet::new(),
            unknown_time: StringHashSet::new(),
            live_stems: HashMap::new(),
        };
        assert(claims@.live_stems =~= Map::empty());
        claims
    }

    /// Whether a name was given out in a folder.
    pub fn contains(&self, folder: Folder, name: &str) -> (b: bool)
        ensures
            b == self@.names(folder).contains(name@),
    {
        match folder {
            Folder::Media => self.media.contains(name),
            Folder::UnknownTime => self.unknown_time.contains(name),
        }
    }

    /// Gives out a name in a folder.
    pub fn claim(&mut self, folder: Folder, name: String)
        ensures
            final(self)@ == old(self)@.claiming(folder, name@),
    {
        match folder {
            Folder::Media => {
                let _ = self.media.insert(name);
            },
            Folder::UnknownTime => {
                let _ = self.unknown_time.insert(name);
            },
        }
    }

    /// The stem given to a Live Photo.
    pub fn live_stem(&self, key: u64) -> (stem: Option<String>)
        ensures
            match stem {
                Some(s) => self@.live_stems.contains_key(key) && self@.live_stems[key] == s@,
                None => !self@.live_stems.contains_key(key),
            },
    {
        match self.live_stems.get(&key) {
            Some(s) => Some(s.clone()),
            None => None,
        }
    }

    /// Gives a stem to a Live Photo.
    pub fn pair(&mut self, key: u64, stem: String)
        ensures
            final(self)@ == old(self)@.pairing(key, stem@),
    {
        let _ = self.live_stems.insert(key, stem);
        assert(self@ =~= old(self)@.pairing(key, stem@));
    }
}

// ---------------------------------------------------------------------------
// Candidates
// ---------------------------------------------------------------------------
/// The stem tried at an attempt: the stem itself at first, then numbered from
/// one on.
pub open spec fn attempt_stem(stem: Seq<char>, attempt: int) -> Seq<char> {
    if attempt <= 0 {
        stem
    } else {
        stem + "_"@ + decimal(attempt as nat)
    }
}

/// A file name made of a stem and an extension.
pub open spec fn file_name(stem: Seq<char>, ext: Option<Seq<char>>) -> Seq<char> {
    match ext {
        Some(e) => stem + "."@ + e,
        None => stem,
    }
}

/// The extension that the other half of a Live Photo can have, in lower or in
/// upper case, given the extension of one half in lower case.
pub open spec fn counterpart_extension(lower_ext: Seq<char>, upper: bool) -> Option<Seq<char>> {
    if lower_ext == "heic"@ {
        Some(if upper {
            "MP4"@
        } else {
            "mp4"@
        })
    } else if lower_ext == "mp4"@ {
        Some(if upper {
            "HEIC"@
        } else {
            "heic"@
        })
    } else {
        None
    }
}

/// What is sought: the stem and extension of the file, the extension in lower
/// case, the folder that the file goes to, and the number of the Live Photo it
/// would be part of.
pub struct Wanted {
    pub stem: Seq<char>,
    pub ext: Option<Seq<char>>,
    pub lower_ext: Seq<char>,
    pub folder: Folder,
    pub key: u64,
}

impl Wanted {
    /// The name that the file would get at an attempt.
    pub open spec fn name_at(self, attempt: int) -> Seq<char> {
        file_name(attempt_stem(self.stem, attempt), self.ext)
    }

    /// The name that the other half of a Live Photo would get at an attempt, with
    /// its extension in lower or in upper case.
    pub open spec fn counterpart_name_at(self, upper: bool, attempt: int) -> Seq<char> {
        file_name(
            attempt_stem(self.stem, attempt),
            counterpart_extension(self.lower_ext, upper),
        )
    }

    /// A name that is asked about at an attempt.
    pub open spec fn probe_at(self, probe: Probe, attempt: int) -> Seq<char> {
        match probe {
            Probe::Own => self.name_at(attempt),
            Probe::Lower => self.counterpart_name_at(false, attempt),
            Probe::Upper => self.counterpart_name_at(true, attempt),
        }
    }
}

/// The names that are asked about at an attempt: that of the file, and that of the
/// other half of a Live Photo with its extension in lower and in upper case.
#[derive(Clone, Copy, PartialEq, Eq, Structural, Debug)]
pub enum Probe {
    Own,
    Lower,
    Upper,
}

impl Probe {
    /// The name that is asked about next at the same attempt. Of a file that is no
    /// half of a Live Photo there is only one name. Where the other half was found
    /// under the extension in lower case, the disk may not tell cases apart, and
    /// the extension can still be one in upper case: both names count.
    pub open spec fn following(self, counterpart: Option<bool>) -> Option<Probe> {
        match (counterpart, self) {
            (Some(false), Probe::Own) => Some(Probe::Lower),
            (Some(false), Probe::Lower) => Some(Probe::Upper),
            (Some(true), Probe::Own) => Some(Probe::Upper),
            _ => None,
        }
    }

    fn next(self, counterpart: Option<bool>) -> (probe: Option<Probe>)
        ensures
            probe == self.following(counterpart),
    {
        match counterpart {
            Some(upper) => match self {
                Probe::Own => Some(
                    if upper {
                        Probe::Upper
                    } else {
                        Probe::Lower
                    },
                ),
                Probe::Lower => if upper {
                    None
                } else {
                    Some(Probe::Upper)
                },
                Probe::Upper => None,
            },
            None => None,
        }
    }
}

// ---------------------------------------------------------------------------
// The search
// ---------------------------------------------------------------------------
/// How far a search is.
#[derive(Clone, Copy, PartialEq, Eq, Structural, Debug)]
pub enum Stage {
    /// It is not known yet whether the file is half of a Live Photo.
    Counterpart { upper: bool },
    /// The names of an attempt are being asked about. For half of a Live Photo it
    /// is known whether the other half was found under its extension in lower case
    /// or, failing that, in upper case.
    Probe { counterpart: Option<bool>, attempt: i32, probe: Probe },
    /// A name has been given out.
    Assigned,
}

/// What a search needs to know next.
pub enum NameQuestion {
    /// Does the file exist beside the original that has this extension in place
    /// of the original's?
    SourceExists(String),
    /// Does a file of this name exist in the folder that the file goes to?
    TargetExists(String),
    /// Nothing: this name has been given out.
    Assigned(String),
}

/// The text of a [`NameQuestion`].
pub enum NameQuestionText {
    SourceExists(Seq<char>),
    TargetExists(Seq<char>),
    Assigned(Seq<char>),
}

impl View for NameQuestion {
    type V = NameQuestionText;

    open spec fn view(&self) -> NameQuestionText {
        match *self {
            NameQuestion::SourceExists(s) => NameQuestionText::SourceExists(s@),
            NameQuestion::TargetExists(s) => NameQuestionText::TargetExists(s@),
            NameQuestion::Assigned(s) => NameQuestionText::Assigned(s@),
        }
    }
}

/// A search for the name of one file.
pub struct NameSearch {
    stem: String,
    ext: Option<String>,
    lower_ext: String,
    folder: Folder,
    key: u64,
    stage: Stage,
    name: String,
}

/// The state of a [`NameSearch`]. The name is empty until one has been given
/// out.
pub struct SearchState {
    pub wanted: Wanted,
    pub stage: Stage,
    pub name: Seq<char>,
}

impl View for NameSearch {
    type V = SearchState;

    closed spec fn view(&self) -> SearchState {
        SearchState {
            wanted: Wanted {
                stem: self.stem@,
                ext: opt_text(self.ext),
                lower_ext: self.lower_ext@,
                folder: self.folder,
                key: self.key,
            },
            stage: self.stage,
            name: self.name@,
        }
    }
}

impl SearchState {
    /// The start of a search: only a file that may be half of a Live Photo is
    /// asked about for its counterpart.
    pub open spec fn start(wanted: Wanted) -> SearchState {
        SearchState {
            wanted,
            stage: if counterpart_extension(wanted.lower_ext, false) is Some {
                Stage::Counterpart { upper: false }
            } else {
                Stage::Probe { counterpart: None, attempt: 0, probe: Probe::Own }
            },
            name: seq![],
        }
    }

    /// What the search needs to know next.
    pub open spec fn question(self) -> NameQuestionText {
        match self.stage {
            Stage::Counterpart { upper } => NameQuestionText::SourceExists(
                match counterpart_extension(self.wanted.lower_ext, upper) {
                    Some(e) => e,
                    None => seq![],
                },
            ),
            Stage::Probe { attempt, probe, .. } => NameQuestionText::TargetExists(
                self.wanted.probe_at(probe, attempt as int),
            ),
            Stage::Assigned => NameQuestionText::Assigned(self.name),
        }
    }

    /// The same search at another stage.
    pub open spec fn at(self, stage: Stage) -> SearchState {
        SearchState { stage, ..self }
    }

    /// The search with a name given out.
    pub open spec fn assigned(self, name: Seq<char>) -> SearchState {
        SearchState { stage: Stage::Assigned, name, ..self }
    }

    /// Where a search is after an answer, and what has then been given out.
    pub open spec fn after(self, answer: bool, ledger: Ledger) -> (SearchState, Ledger) {
        let w = self.wanted;
        match self.stage {
            Stage::Counterpart { upper } => if answer {
                if ledger.live_stems.contains_key(w.key) {
                    let name = file_name(ledger.live_stems[w.key], w.ext);
                    (self.assigned(name), ledger.claiming(w.folder, name))
                } else {
                    (
                        self.at(
                            Stage::Probe { counterpart: Some(upper), attempt: 0, probe: Probe::Own },
                        ),
                        ledger,
                    )
                }
            } else if !upper {
                (self.at(Stage::Counterpart { upper: true }), ledger)
            } else {
                (self.at(Stage::Probe { counterpart: None, attempt: 0, probe: Probe::Own }), ledger)
            },
            Stage::Probe { counterpart, attempt, probe } => if answer || ledger.names(
                w.folder,
            ).contains(w.probe_at(probe, attempt as int)) {
                (
                    self.at(
                        Stage::Probe {
                            counterpart,
                            attempt: (attempt + 1) as i32,
                            probe: Probe::Own,
                        },
                    ),
                    ledger,
                )
            } else {
                match probe.following(counterpart) {
                    Some(next) => (
                        self.at(Stage::Probe { counterpart, attempt, probe: next }),
                        ledger,
                    ),
                    None => {
                        let paired = if counterpart is Some {
                            ledger.pairing(w.key, attempt_stem(w.stem, attempt as int))
                        } else {
                            ledger
                        };
                        let name = w.name_at(attempt as int);
                        (self.assigned(name), paired.claiming(w.folder, name))
                    },
                }
            },
            Stage::Assigned => (self, ledger),
        }
    }

    /// There is another number to try.
    pub open spec fn can_go_on(self) -> bool {
        match self.stage {
            Stage::Counterpart { .. } => true,
            Stage::Probe { attempt, .. } => 0 <= attempt < i32::MAX,
            Stage::Assigned => true,
        }
    }
}

fn numbered_stem(stem: &str, attempt: i32) -> (s: String)
    requires
        attempt >= 0,
    ensures
        s@ == attempt_stem(stem@, attempt as int),
{
    let mut s = String::new();
    s.append(stem);
    if attempt > 0 {
        let number = decimal_text(attempt as u64);
        s.append("_");
        s.append(number.as_str());
    }
    s
}

fn with_extension(stem: String, ext: &Option<String>) -> (s: String)
    ensures
        s@ == file_name(stem@, opt_text(*ext)),
{
    match ext {
        Some(e) => {
            let mut s = stem;
            s.append(".");
            s.append(e.as_str());
            s
        },
        None => stem,
    }
}

fn counterpart(lower_ext: &str, upper: bool) -> (ext: Option<&'static str>)
    ensures
        match ext {
            Some(e) => counterpart_extension(lower_ext@, upper) == Some(e@),
            None => counterpart_extension(lower_ext@, upper) is None,
        },
{
    if same_text(lower_ext, "heic") {
        if upper {
            Some("MP4")
        } else {
            Some("mp4")
        }
    } else if same_text(lower_ext, "mp4") {
        if upper {
            Some("HEIC")
        } else {
            Some("heic")
        }
    } else {
        None
    }
}

impl NameSearch {
    /// Begins the search for the name of a file with this stem and extension. A
    /// file without a stem is called `file`.
    pub fn begin(
        stem: Option<String>,
        ext: Option<String>,
        folder: Folder,
        key: u64,
    ) -> (search: NameSearch)
        ensures
            search@ == SearchState::start(
                Wanted {
                    stem: match opt_text(stem) {
                        Some(s) => s,
                        None => "file"@,
                    },
                    ext: opt_text(ext),
                    lower_ext: lower_extension(opt_text(ext)),
                    folder,
                    key,
                },
            ),
            search@.can_go_on(),
    {
        let stem = match stem {
            Some(s) => s,
            None => "file".to_owned(),
        };
        let lower_ext = extension_in_lower_case(&ext);
        NameSearch::begin_with(stem, ext, lower_ext, folder, key)
    }

    /// Begins the search for a file whose extension is also given in lower case.
    pub fn begin_with(
        stem: String,
        ext: Option<String>,
        lower_ext: String,
        folder: Folder,
        key: u64,
    ) -> (search: NameSearch)
        ensures
            search@ == SearchState::start(
                Wanted {
                    stem: stem@,
                    ext: opt_text(ext),
                    lower_ext: lower_ext@,
                    folder,
                    key,
                },
            ),
            search@.can_go_on(),
    {
        let stage = match counterpart(lower_ext.as_str(), false) {
            Some(_) => Stage::Counterpart { upper: false },
            None => Stage::Probe { counterpart: None, attempt: 0, probe: Probe::Own },
        };
        NameSearch { stem, ext, lower_ext, folder, key, stage, name: String::new() }
    }

    /// Whether there is another number to try.
    pub fn has_numbers_left(&self) -> (b: bool)
        ensures
            b == self@.can_go_on(),
    {
        match self.stage {
            Stage::Counterpart { .. } => true,
            Stage::Probe { attempt, .. } => 0 <= attempt && attempt < i32::MAX,
            Stage::Assigned => true,
        }
    }

    fn probed_name(&self, probe: Probe, attempt: i32) -> (name: String)
        requires
            attempt >= 0,
        ensures
            name@ == self@.wanted.probe_at(probe, attempt as int),
    {
        let stem = numbered_stem(self.stem.as_str(), attempt);
        let upper = match probe {
            Probe::Own => return with_extension(stem, &self.ext),
            Probe::Lower => false,
            Probe::Upper => true,
        };
        match counterpart(self.lower_ext.as_str(), upper) {
            Some(ext) => with_extension(stem, &Some(ext.to_owned())),
            None => stem,
        }
    }

    /// What the search needs to know next.
    pub fn question(&self) -> (q: NameQuestion)
        requires
            self@.can_go_on(),
        ensures
            q@ == self@.question(),
    {
        match self.stage {
            Stage::Counterpart { upper } => {
                let ext = match counterpart(self.lower_ext.as_str(), upper) {
                    Some(e) => e.to_owned(),
                    None => String::new(),
                };
                assert(ext@ =~= match counterpart_extension(self@.wanted.lower_ext, upper) {
                    Some(e) => e,
                    None => seq![],
                });
                NameQuestion::SourceExists(ext)
            },
            Stage::Probe { attempt, probe, .. } => NameQuestion::TargetExists(
                self.probed_name(probe, attempt),
            ),
            Stage::Assigned => NameQuestion::Assigned(self.name.clone()),
        }
    }

    /// Goes on from the answer to the question, giving out a name when one is
    /// found.
    pub fn answer(&mut self, found: bool, claims: &mut Claims)
        requires
            old(self)@.can_go_on(),
        ensures
            final(self)@ == old(self)@.after(found, old(claims)@).0,
            final(claims)@ == old(self)@.after(found, old(claims)@).1,
    {
        match self.stage {
            Stage::Counterpart { upper } => {
                if found {
                    match claims.live_stem(self.key) {
                        Some(stem) => {
                            let name = with_extension(stem, &self.ext);
                            claims.claim(self.folder, name.clone());
                            self.name = name;
                            self.stage = Stage::Assigned;
                        },
                        None => {
                            self.stage = Stage::Probe {
                                counterpart: Some(upper),
                                attempt: 0,
                                probe: Probe::Own,
                            };
                        },
                    }
                } else if !upper {
                    self.stage = Stage::Counterpart { upper: true };
                } else {
                    self.stage = Stage::Probe { counterpart: None, attempt: 0, probe: Probe::Own };
                }
            },
            Stage::Probe { counterpart, attempt, probe } => {
                if found || claims.contains(
                    self.folder,
                    self.probed_name(probe, attempt).as_str(),
                ) {
                    self.stage = Stage::Probe {
                        counterpart,
                        attempt: attempt + 1,
                        probe: Probe::Own,
                    };
                    return;
                }
                match probe.next(counterpart) {
                    Some(next) => {
                        self.stage = Stage::Probe { counterpart, attempt, probe: next };
                    },
                    None => {
                        if counterpart.is_some() {
                            claims.pair(self.key, numbered_stem(self.stem.as_str(), attempt));
                        }
                        let name = self.probed_name(Probe::Own, attempt);
                        claims.claim(self.folder, name.clone());
                        self.name = name;
                        self.stage = Stage::Assigned;
                    },
                }
            },
            Stage::Assigned => {},
        }
    }
}

} // verus!
