//! The JSON files that an export puts beside its photos: which of them belongs
//! to a file, and the date that it records.
use vstd::prelude::*;
use crate::number::{decimal, i64_of, law_decimal_integers_are_read, parse_i64};
use crate::outside::{
    exif_pattern, json_in, json_member, json_member_of, json_of, read_json, utc_date, utc_text,
    Json, FIRST_SECOND, LAST_SECOND,
};
use crate::text::{begins_with, finishes_with, joined, occurs_at, texts};

verus! {

// ---------------------------------------------------------------------------
// Names
// ---------------------------------------------------------------------------
/// The name of the JSON file that is named after a whole file name.
pub open spec fn full_sidecar_name(full: Seq<char>) -> Seq<char> {
    full + ".json"@
}

/// Whether a directory entry is a JSON file named after a whole file name, with
/// or without something in between.
pub open spec fn names_sidecar(full: Seq<char>, entry: Seq<char>) -> bool {
    &&& occurs_at(entry, full + "."@, 0)
    &&& occurs_at(entry, ".json"@, entry.len() - ".json"@.len())
}

/// The first of the entries that is a JSON file of the file.
pub open spec fn first_sidecar(full: Seq<char>, entries: Seq<Seq<char>>) -> Option<Seq<char>>
    decreases entries.len(),
{
    if entries.len() == 0 {
        None
    } else if names_sidecar(full, entries[0]) {
        Some(entries[0])
    } else {
        first_sidecar(full, entries.drop_first())
    }
}

/// The name of the JSON file that is named after a whole file name.
pub fn sidecar_name(full: &str) -> (name: String)
    ensures
        name@ == full_sidecar_name(full@),
{
    joined(full, ".json")
}

/// The first of the entries of a directory that is a JSON file of the file
/// called `full`.
pub fn find_sidecar(full: &str, entries: &Vec<String>) -> (found: Option<String>)
    ensures
        match found {
            Some(name) => first_sidecar(full@, texts(entries@)) == Some(name@),
            None => first_sidecar(full@, texts(entries@)) is None,
        },
{
    let prefix = joined(full, ".");
    let ghost all = texts(entries@);
    let mut i: usize = 0;
    assert(all.skip(0) =~= all);
    while i < entries.len()
        invariant
            i <= entries.len(),
            all == texts(entries@),
            prefix@ == full@ + "."@,
            first_sidecar(full@, all) == first_sidecar(full@, all.skip(i as int)),
        decreases entries.len() - i,
    {
        let entry = entries[i].as_str();
        assert(all.skip(i as int)[0] == entry@);
        assert(all.skip(i as int).drop_first() =~= all.skip(i + 1));
        if begins_with(entry, prefix.as_str()) && finishes_with(entry, ".json") {
            return Some(entries[i].clone());
        }
        i = i + 1;
    }
    assert(all.skip(i as int) =~= seq![]);
    None
}

// ---------------------------------------------------------------------------
// Dates
// ---------------------------------------------------------------------------
/// What a JSON file says of the time a photo was taken.
pub enum SidecarDate {
    /// Nothing.
    Absent,
    /// A date, as EXIF writes it.
    Date(String),
    /// A number of seconds that no date corresponds to.
    OutOfRange(i64),
}

/// The text of a [`SidecarDate`].
pub enum SidecarDateText {
    Absent,
    Date(Seq<char>),
    OutOfRange(i64),
}

impl View for SidecarDate {
    type V = SidecarDateText;

    open spec fn view(&self) -> SidecarDateText {
        match *self {
            SidecarDate::Absent => SidecarDateText::Absent,
            SidecarDate::Date(s) => SidecarDateText::Date(s@),
            SidecarDate::OutOfRange(t) => SidecarDateText::OutOfRange(t),
        }
    }
}

/// The text under `photoTakenTime` and `timestamp` of a JSON value.
pub open spec fn timestamp_text(j: Json) -> Option<Seq<char>> {
    match json_member(json_member(j, "photoTakenTime"@), "timestamp"@) {
        Json::Text(s) => Some(s),
        _ => None,
    }
}

/// What a timestamp says, given as text.
pub open spec fn date_of_text(timestamp: Seq<char>) -> SidecarDateText {
    match i64_of(timestamp) {
        Some(t) => if FIRST_SECOND <= t <= LAST_SECOND {
            SidecarDateText::Date(utc_text(t as int, exif_pattern()))
        } else {
            SidecarDateText::OutOfRange(t)
        },
        None => SidecarDateText::Absent,
    }
}

/// What the content of a JSON file says.
pub open spec fn date_of_json(content: Seq<char>) -> SidecarDateText {
    match json_in(content) {
        Some(j) => match timestamp_text(j) {
            Some(timestamp) => date_of_text(timestamp),
            None => SidecarDateText::Absent,
        },
        None => SidecarDateText::Absent,
    }
}

/// The date of a timestamp that is given as text.
pub fn timestamp_date(timestamp: &str) -> (date: SidecarDate)
    ensures
        date@ == date_of_text(timestamp@),
        date matches SidecarDate::Date(s) ==> s@.len() > 0,
{
    match parse_i64(timestamp) {
        Some(seconds) => match utc_date(seconds, "%Y:%m:%d %H:%M:%S") {
            Some(date) => SidecarDate::Date(date),
            None => SidecarDate::OutOfRange(seconds),
        },
        None => SidecarDate::Absent,
    }
}

/// The date that the content of a JSON file records.
pub fn sidecar_date(content: &str) -> (date: SidecarDate)
    ensures
        date@ == date_of_json(content@),
        date matches SidecarDate::Date(s) ==> s@.len() > 0,
{
    match read_json(content) {
        Ok(value) => {
            let taken = json_member_of(&value, "photoTakenTime");
            let timestamp = json_member_of(taken, "timestamp");
            match timestamp.as_str() {
                Some(text) => timestamp_date(text),
                None => SidecarDate::Absent,
            }
        },
        Err(_) => SidecarDate::Absent,
    }
}

// ---------------------------------------------------------------------------
// Laws
// ---------------------------------------------------------------------------
/// A JSON file is named after a file if its name begins with that of the file and
/// goes on with `.json`, or with a point, something in between and `.json`.
pub proof fn law_sidecars_are_named_after_their_file(full: Seq<char>, between: Seq<char>)
    ensures
        names_sidecar(full, full + ".json"@),
        names_sidecar(full, full + "."@ + between + ".json"@),
        full_sidecar_name(full) == full + ".json"@,
{
    reveal_strlit(".");
    reveal_strlit(".json");
    let short = full + ".json"@;
    let prefix = full + "."@;
    assert(short.subrange(0, (full.len() + 1) as int) =~= prefix);
    assert(short.subrange(short.len() - 5, short.len() as int) =~= ".json"@);
    let long = full + "."@ + between + ".json"@;
    assert(long.subrange(0, (full.len() + 1) as int) =~= prefix);
    assert(long.subrange(long.len() - 5, long.len() as int) =~= ".json"@);
}

/// No other file is taken for a JSON file of a file.
pub proof fn law_no_other_file_is_a_sidecar(full: Seq<char>, entry: Seq<char>)
    requires
        names_sidecar(full, entry),
    ensures
        entry == full + ".json"@ || exists|between: Seq<char>|
            entry == #[trigger] (full + "."@ + between) + ".json"@,
{
    reveal_strlit(".");
    reveal_strlit(".json");
    let n = full.len() as int;
    let prefix = full + "."@;
    let start = entry.len() - 5;
    assert forall|i: int| 0 <= i <= n implies entry[i] == prefix[i] by {
        assert(entry.subrange(0, n + 1)[i] == prefix[i]);
    }
    assert forall|i: int| 0 <= i < 5 implies entry[start + i] == ".json"@[i] by {
        assert(entry.subrange(start, start + 5)[i] == ".json"@[i]);
    }
    assert(entry[n] == '.');
    if start <= n {
        assert(entry[start + (n - start)] == ".json"@[n - start]);
        assert(start == n);
        assert(entry =~= full + ".json"@);
    } else {
        let between = entry.subrange(n + 1, start);
        assert(entry =~= (full + "."@ + between) + ".json"@);
    }
}

/// Of the entries of a directory the first that is a JSON file of the file is
/// taken, and none only if there is none.
pub proof fn law_first_sidecar_is_taken(full: Seq<char>, entries: Seq<Seq<char>>)
    ensures
        match first_sidecar(full, entries) {
            Some(name) => exists|i: int|
                0 <= i < entries.len() && #[trigger] entries[i] == name && names_sidecar(full, name)
                    && forall|j: int|
                    0 <= j < i ==> !names_sidecar(full, #[trigger] entries[j]),
            None => forall|i: int|
                0 <= i < entries.len() ==> !names_sidecar(full, #[trigger] entries[i]),
        },
    decreases entries.len(),
{
    if entries.len() > 0 {
        if names_sidecar(full, entries[0]) {
            assert(entries[0] == first_sidecar(full, entries).unwrap());
        } else {
            let rest = entries.drop_first();
            law_first_sidecar_is_taken(full, rest);
            match first_sidecar(full, rest) {
                Some(name) => {
                    let i = choose|i: int|
                        0 <= i < rest.len() && #[trigger] rest[i] == name && names_sidecar(
                            full,
                            name,
                        ) && forall|j: int|
                            0 <= j < i ==> !names_sidecar(full, #[trigger] rest[j]);
                    assert(entries[i + 1] == name);
                    assert forall|j: int| 0 <= j < i + 1 implies !names_sidecar(
                        full,
                        #[trigger] entries[j],
                    ) by {
                        if j > 0 {
                            assert(rest[j - 1] == entries[j]);
                        }
                    }
                },
                None => {
                    assert forall|i: int| 0 <= i < entries.len() implies !names_sidecar(
                        full,
                        #[trigger] entries[i],
                    ) by {
                        if i > 0 {
                            assert(rest[i - 1] == entries[i]);
                        }
                    }
                },
            }
        }
    }
}

/// The date that a JSON file records is that of the text under `timestamp` of the
/// object under `photoTakenTime`, whatever else the file holds.
pub proof fn law_date_is_that_of_the_time_taken(
    content: Seq<char>,
    members: Map<Seq<char>, Json>,
    taken: Map<Seq<char>, Json>,
    timestamp: Seq<char>,
)
    requires
        json_in(content) == Some(Json::Object(members)),
        members.contains_key("photoTakenTime"@),
        members["photoTakenTime"@] == Json::Object(taken),
        taken.contains_key("timestamp"@),
        taken["timestamp"@] == Json::Text(timestamp),
    ensures
        date_of_json(content) == date_of_text(timestamp),
{
}

/// Two JSON files with the same member under `photoTakenTime` record the same
/// date, however else they differ.
pub proof fn law_other_members_do_not_matter(
    content: Seq<char>,
    other_content: Seq<char>,
    members: Map<Seq<char>, Json>,
    other_members: Map<Seq<char>, Json>,
)
    requires
        json_in(content) == Some(Json::Object(members)),
        json_in(other_content) == Some(Json::Object(other_members)),
        members.contains_key("photoTakenTime"@) == other_members.contains_key("photoTakenTime"@),
        members.contains_key("photoTakenTime"@) ==> members["photoTakenTime"@]
            == other_members["photoTakenTime"@],
    ensures
        date_of_json(content) == date_of_json(other_content),
{
}

/// A file records no date if it is not JSON, is no object, has no object under
/// `photoTakenTime`, or if that has no text under `timestamp`.
pub proof fn law_without_time_taken_there_is_no_date(
    content: Seq<char>,
    members: Map<Seq<char>, Json>,
    taken: Map<Seq<char>, Json>,
)
    ensures
        json_in(content) is None ==> date_of_json(content) is Absent,
        json_in(content) matches Some(j) && !(j is Object) ==> date_of_json(content) is Absent,
        json_in(content) == Some(Json::Object(members)) ==> {
            &&& !members.contains_key("photoTakenTime"@) ==> date_of_json(content) is Absent
            &&& !(members["photoTakenTime"@] is Object) ==> date_of_json(content) is Absent
            &&& members["photoTakenTime"@] == Json::Object(taken) && (!taken.contains_key(
                "timestamp"@,
            ) || !(taken["timestamp"@] is Text)) ==> date_of_json(content) is Absent
        },
{
}

/// A timestamp counts the seconds since the start of 1970, forwards or, with a
/// minus sign, backwards; it is written as EXIF writes dates, and reported where
/// the calendar ends.
pub proof fn law_timestamp_counts_seconds(n: nat)
    ensures
        date_of_text(decimal(n)) == (if n <= 8210266876799 {
            SidecarDateText::Date(utc_text(n as int, "%Y:%m:%d %H:%M:%S"@))
        } else if n <= 0x7fff_ffff_ffff_ffff {
            SidecarDateText::OutOfRange(n as i64)
        } else {
            SidecarDateText::Absent
        }),
        date_of_text(seq!['-'] + decimal(n)) == (if n <= 8334601228800 {
            SidecarDateText::Date(utc_text(-n, "%Y:%m:%d %H:%M:%S"@))
        } else if n <= 0x8000_0000_0000_0000 {
            SidecarDateText::OutOfRange((-n) as i64)
        } else {
            SidecarDateText::Absent
        }),
{
    law_decimal_integers_are_read(n);
}

/// Timestamps that denote the same number have the same date, however they are
/// written; one that denotes no number has none.
pub proof fn law_date_depends_on_the_number(timestamp: Seq<char>, other: Seq<char>)
    ensures
        i64_of(timestamp) == i64_of(other) ==> date_of_text(timestamp) == date_of_text(other),
        i64_of(timestamp) is None <==> date_of_text(timestamp) is Absent,
{
}

/// What is reported of a date is taken for what it is.
pub proof fn law_recorded_dates_are_told(date: String, t: i64)
    ensures
        SidecarDate::Date(date)@ == SidecarDateText::Date(date@),
        SidecarDate::OutOfRange(t)@ == SidecarDateText::OutOfRange(t),
        SidecarDate::Absent@ == SidecarDateText::Absent,
{
}

} // verus!
