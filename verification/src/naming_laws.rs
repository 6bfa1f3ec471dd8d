//! What a search for a name comes to: which name it ends with, that the name
//! was free, that the halves of a Live Photo stay together, and that there is
//! always a free name to end with.
use vstd::prelude::*;
use vstd::set_lib::{lemma_int_range, lemma_len_subset, lemma_len_union, lemma_map_size, set_int_range};
use crate::naming::{
    attempt_stem, counterpart_extension, file_name, Ledger, NameQuestion, NameQuestionText, Probe,
    SearchState, Stage, Wanted,
};
use crate::media::Folder;
use crate::number::{decimal, law_decimal_reads_back};

verus! {

// ---------------------------------------------------------------------------
// Searching a disk that does not change
// ---------------------------------------------------------------------------
/// A disk that does not change during a search: which extensions name a file
/// beside the original, and which names exist in the folder that the file goes
/// to.
pub struct Disk {
    pub beside: spec_fn(Seq<char>) -> bool,
    pub target: spec_fn(Seq<char>) -> bool,
}

impl Disk {
    /// The answer to a question.
    pub open spec fn answer(self, q: NameQuestionText) -> bool {
        match q {
            NameQuestionText::SourceExists(ext) => (self.beside)(ext),
            NameQuestionText::TargetExists(name) => (self.target)(name),
            NameQuestionText::Assigned(_) => false,
        }
    }
}

/// A search and what has been given out, after a number of true answers.
pub open spec fn after_answers(s: SearchState, ledger: Ledger, disk: Disk, n: nat) -> (
    SearchState,
    Ledger,
)
    decreases n,
{
    if n == 0 {
        (s, ledger)
    } else {
        let next = s.after(disk.answer(s.question()), ledger);
        after_answers(next.0, next.1, disk, (n - 1) as nat)
    }
}

impl Wanted {
    /// The extension of the other half of a Live Photo, in lower or in upper case,
    /// names a file beside this one.
    pub open spec fn has_beside(self, disk: Disk, upper: bool) -> bool {
        match counterpart_extension(self.lower_ext, upper) {
            Some(e) => (disk.beside)(e),
            None => false,
        }
    }

    /// Whether the other half of a Live Photo is found under its extension in lower
    /// case or, failing that, in upper case; none if there is no other half beside
    /// the file.
    pub open spec fn other_half(self, disk: Disk) -> Option<bool> {
        if self.has_beside(disk, false) {
            Some(false)
        } else if self.has_beside(disk, true) {
            Some(true)
        } else {
            None
        }
    }

    /// The file is half of a Live Photo: the other half lies beside it.
    pub open spec fn is_live(self, disk: Disk) -> bool {
        self.other_half(disk) is Some
    }

    /// The file is half of a Live Photo whose other half has its name already.
    pub open spec fn is_second_half(self, ledger: Ledger, disk: Disk) -> bool {
        self.is_live(disk) && ledger.live_stems.contains_key(self.key)
    }

    /// A name is neither given out nor on disk.
    pub open spec fn name_is_free(self, ledger: Ledger, disk: Disk, name: Seq<char>) -> bool {
        !(disk.target)(name) && !ledger.names(self.folder).contains(name)
    }

    /// The names of an attempt are free: that of the file and, if it is half of a
    /// Live Photo, that of the other half, in upper case and, where it is found in
    /// lower case, in lower case as well.
    pub open spec fn is_free(self, ledger: Ledger, disk: Disk, attempt: int) -> bool {
        &&& self.name_is_free(ledger, disk, self.name_at(attempt))
        &&& self.has_beside(disk, false) ==> self.name_is_free(
            ledger,
            disk,
            self.counterpart_name_at(false, attempt),
        )
        &&& self.is_live(disk) ==> self.name_is_free(
            ledger,
            disk,
            self.counterpart_name_at(true, attempt),
        )
    }

    /// The names of an attempt are free, and those of no earlier attempt are.
    pub open spec fn is_first_free(self, ledger: Ledger, disk: Disk, attempt: int) -> bool {
        &&& 0 <= attempt
        &&& self.is_free(ledger, disk, attempt)
        &&& forall|j: int| 0 <= j < attempt ==> !self.is_free(ledger, disk, j)
    }

    /// What has been given out once the name of an attempt is.
    pub open spec fn ledger_with(self, ledger: Ledger, disk: Disk, attempt: int) -> Ledger {
        let paired = if self.is_live(disk) {
            ledger.pairing(self.key, attempt_stem(self.stem, attempt))
        } else {
            ledger
        };
        paired.claiming(self.folder, self.name_at(attempt))
    }

    /// The name of the file and what has been given out then: the second half of
    /// a Live Photo takes the stem of the first; any other file takes its name
    /// at the first attempt that is free.
    pub open spec fn is_outcome(
        self,
        ledger: Ledger,
        disk: Disk,
        name: Seq<char>,
        result: Ledger,
    ) -> bool {
        if self.is_second_half(ledger, disk) {
            &&& name == file_name(ledger.live_stems[self.key], self.ext)
            &&& result == ledger.claiming(self.folder, name)
        } else {
            exists|attempt: int| #[trigger]
                self.is_first_free(ledger, disk, attempt) && name == self.name_at(attempt)
                    && result == self.ledger_with(ledger, disk, attempt)
        }
    }
}

/// What a search that is under way has found out so far.
spec fn on_course(s: SearchState, ledger: Ledger, disk: Disk) -> bool {
    let w = s.wanted;
    match s.stage {
        Stage::Counterpart { upper } => {
            &&& counterpart_extension(w.lower_ext, false) is Some
            &&& upper ==> !w.has_beside(disk, false)
        },
        Stage::Probe { counterpart, attempt, probe } => {
            &&& 0 <= attempt
            &&& counterpart == w.other_half(disk)
            &&& !w.is_second_half(ledger, disk)
            &&& forall|j: int| 0 <= j < attempt ==> !w.is_free(ledger, disk, j)
            &&& probe == Probe::Lower ==> counterpart == Some(false)
            &&& probe == Probe::Upper ==> counterpart is Some
            &&& probe != Probe::Own ==> w.name_is_free(ledger, disk, w.name_at(attempt as int))
            &&& probe == Probe::Upper && counterpart == Some(false) ==> w.name_is_free(
                ledger,
                disk,
                w.counterpart_name_at(false, attempt as int),
            )
        },
        Stage::Assigned => false,
    }
}

spec fn tried(s: SearchState) -> int {
    match s.stage {
        Stage::Probe { attempt, .. } => attempt as int,
        _ => 0,
    }
}

proof fn lemma_stays_assigned(s: SearchState, ledger: Ledger, disk: Disk, n: nat)
    requires
        s.stage is Assigned,
    ensures
        after_answers(s, ledger, disk, n) == (s, ledger),
    decreases n,
{
    if n > 0 {
        lemma_stays_assigned(s, ledger, disk, (n - 1) as nat);
    }
}

proof fn lemma_search_ends_well(s: SearchState, ledger: Ledger, disk: Disk, n: nat)
    requires
        on_course(s, ledger, disk),
        tried(s) + n <= i32::MAX,
        after_answers(s, ledger, disk, n).0.stage is Assigned,
    ensures
        s.wanted.is_outcome(
            ledger,
            disk,
            after_answers(s, ledger, disk, n).0.name,
            after_answers(s, ledger, disk, n).1,
        ),
    decreases n,
{
    let w = s.wanted;
    if n > 0 {
        let yes = disk.answer(s.question());
        let next = s.after(yes, ledger);
        let rest = (n - 1) as nat;
        if next.0.stage is Assigned {
            lemma_stays_assigned(next.0, next.1, disk, rest);
            if let Stage::Probe { attempt, .. } = s.stage {
                assert(w.is_first_free(ledger, disk, attempt as int));
            }
        } else {
            assert(next.1 == ledger);
            if let Stage::Probe { attempt, .. } = s.stage {
                if let Stage::Probe { attempt: attempt2, .. } = next.0.stage {
                    if attempt2 != attempt {
                        assert(!w.is_free(ledger, disk, attempt as int));
                    }
                }
            }
            assert(on_course(next.0, next.1, disk));
            lemma_search_ends_well(next.0, next.1, disk, rest);
        }
    }
}

/// A search that has ended has given the file the name it should have: that of
/// its other half with its own extension if it is the second half of a Live
/// Photo, and otherwise the first that is free, of its own name and the numbered
/// ones.
pub proof fn law_search_finds_the_first_free_name(wanted: Wanted, ledger: Ledger, disk: Disk, n: nat)
    requires
        n <= i32::MAX,
        after_answers(SearchState::start(wanted), ledger, disk, n).0.stage is Assigned,
    ensures
        ({
            let end = after_answers(SearchState::start(wanted), ledger, disk, n);
            wanted.is_outcome(ledger, disk, end.0.name, end.1)
        }),
{
    lemma_search_ends_well(SearchState::start(wanted), ledger, disk, n);
}

// ---------------------------------------------------------------------------
// What follows for names
// ---------------------------------------------------------------------------
/// A file never gets a name that has been given out in its folder or that
/// exists there, unless it is the second half of a Live Photo.
pub proof fn law_new_name_was_free(
    wanted: Wanted,
    ledger: Ledger,
    disk: Disk,
    name: Seq<char>,
    result: Ledger,
)
    requires
        wanted.is_outcome(ledger, disk, name, result),
        !wanted.is_second_half(ledger, disk),
    ensures
        wanted.name_is_free(ledger, disk, name),
{
}

/// When the first half of a Live Photo gets its name, the name that the other
/// half will take is free in that folder as well, whether its extension is in
/// upper case or, where it was found so, in lower case: the pair is not split by a
/// file that was there before it.
pub proof fn law_name_of_other_half_was_free(
    first: Wanted,
    other: Wanted,
    upper: bool,
    ledger: Ledger,
    disk: Disk,
    name: Seq<char>,
    result: Ledger,
    later: Ledger,
    other_disk: Disk,
    other_name: Seq<char>,
    end: Ledger,
)
    requires
        first.is_live(disk),
        !first.is_second_half(ledger, disk),
        first.is_outcome(ledger, disk, name, result),
        other.key == first.key,
        upper || first.has_beside(disk, false),
        other.ext == counterpart_extension(first.lower_ext, upper),
        other.is_live(other_disk),
        later.live_stems.contains_key(first.key),
        later.live_stems[first.key] == result.live_stems[first.key],
        other.is_outcome(later, other_disk, other_name, end),
    ensures
        first.name_is_free(ledger, disk, name),
        first.name_is_free(ledger, disk, other_name),
{
    let attempt = choose|attempt: int| #[trigger]
        first.is_first_free(ledger, disk, attempt) && name == first.name_at(attempt) && result
            == first.ledger_with(ledger, disk, attempt);
    assert(other_name == first.counterpart_name_at(upper, attempt));
}

/// A name that is given out is on record from then on, and no name given out
/// before is forgotten, in any folder.
pub proof fn law_names_stay_given_out(
    wanted: Wanted,
    ledger: Ledger,
    disk: Disk,
    name: Seq<char>,
    result: Ledger,
)
    requires
        wanted.is_outcome(ledger, disk, name, result),
    ensures
        result.media == ledger.media || result.media == ledger.media.insert(name),
        result.unknown_time == ledger.unknown_time || result.unknown_time
            == ledger.unknown_time.insert(name),
        result.names(wanted.folder) == ledger.names(wanted.folder).insert(name),
{
}

/// The stem of a Live Photo, once given, is never changed by giving out further
/// names.
pub proof fn law_live_stem_is_kept(
    wanted: Wanted,
    ledger: Ledger,
    disk: Disk,
    name: Seq<char>,
    result: Ledger,
    key: u64,
)
    requires
        wanted.is_outcome(ledger, disk, name, result),
        ledger.live_stems.contains_key(key),
    ensures
        result.live_stems.contains_key(key),
        result.live_stems[key] == ledger.live_stems[key],
{
}

// ---------------------------------------------------------------------------
// Runs
// ---------------------------------------------------------------------------
/// One file of a run: what was sought for it, on which disk, the name it got, and
/// what had been given out then.
pub struct Naming {
    pub wanted: Wanted,
    pub disk: Disk,
    pub name: Seq<char>,
    pub ledger: Ledger,
}

/// What had been given out before a file of a run got its name.
pub open spec fn ledger_before(first: Ledger, run: Seq<Naming>, i: int) -> Ledger {
    if i <= 0 {
        first
    } else {
        run[i - 1].ledger
    }
}

/// A file of a run got its name, given what had been given out before.
pub open spec fn is_step(first: Ledger, run: Seq<Naming>, i: int) -> bool {
    run[i].wanted.is_outcome(
        ledger_before(first, run, i),
        run[i].disk,
        run[i].name,
        run[i].ledger,
    )
}

/// The files of a run got their names one after the other.
pub open spec fn is_run(first: Ledger, run: Seq<Naming>) -> bool {
    forall|i: int| 0 <= i < run.len() ==> #[trigger] is_step(first, run, i)
}

/// The file is the second half of a Live Photo in its run.
pub open spec fn comes_second(first: Ledger, run: Seq<Naming>, i: int) -> bool {
    run[i].wanted.is_second_half(ledger_before(first, run, i), run[i].disk)
}

/// In a run, a name stays given out to the end once a file has got it.
pub proof fn law_name_stays_in_run(first: Ledger, run: Seq<Naming>, i: int, j: int)
    requires
        is_run(first, run),
        0 <= i < j <= run.len(),
    ensures
        ledger_before(first, run, j).names(run[i].wanted.folder).contains(run[i].name),
    decreases j,
{
    let last = run[j - 1];
    assert(is_step(first, run, j - 1));
    law_names_stay_given_out(
        last.wanted,
        ledger_before(first, run, j - 1),
        last.disk,
        last.name,
        last.ledger,
    );
    if i < j - 1 {
        law_name_stays_in_run(first, run, i, j - 1);
    }
}

/// In a run, two files that go to one folder get different names, unless the
/// later one is the second half of a Live Photo.
pub proof fn law_files_of_a_run_get_different_names(
    first: Ledger,
    run: Seq<Naming>,
    i: int,
    j: int,
)
    requires
        is_run(first, run),
        0 <= i < j < run.len(),
        run[i].wanted.folder == run[j].wanted.folder,
        !comes_second(first, run, j),
    ensures
        run[i].name != run[j].name,
{
    law_name_stays_in_run(first, run, i, j);
    let later = run[j];
    assert(is_step(first, run, j));
    law_new_name_was_free(
        later.wanted,
        ledger_before(first, run, j),
        later.disk,
        later.name,
        later.ledger,
    );
}

proof fn lemma_stem_stays_in_run(first: Ledger, run: Seq<Naming>, i: int, j: int, key: u64)
    requires
        is_run(first, run),
        0 <= i < j <= run.len(),
        run[i].ledger.live_stems.contains_key(key),
    ensures
        ledger_before(first, run, j).live_stems.contains_key(key),
        ledger_before(first, run, j).live_stems[key] == run[i].ledger.live_stems[key],
    decreases j,
{
    if i < j - 1 {
        lemma_stem_stays_in_run(first, run, i, j - 1, key);
        let last = run[j - 1];
        assert(is_step(first, run, j - 1));
        law_live_stem_is_kept(
            last.wanted,
            ledger_before(first, run, j - 1),
            last.disk,
            last.name,
            last.ledger,
            key,
        );
    }
}

/// In a run, the two halves of a Live Photo get names that differ in the
/// extension only, whichever of them comes first and whatever comes in between.
pub proof fn law_live_halves_share_a_stem(first: Ledger, run: Seq<Naming>, i: int, j: int)
    requires
        is_run(first, run),
        0 <= i < j < run.len(),
        run[i].wanted.key == run[j].wanted.key,
        run[i].wanted.is_live(run[i].disk),
        run[j].wanted.is_live(run[j].disk),
    ensures
        exists|stem: Seq<char>|
            run[i].name == #[trigger] file_name(stem, run[i].wanted.ext) && run[j].name
                == file_name(stem, run[j].wanted.ext),
{
    assert(is_step(first, run, i));
    assert(is_step(first, run, j));
    let key = run[i].wanted.key;
    let stem = run[i].ledger.live_stems[key];
    assert(run[i].ledger.live_stems.contains_key(key));
    assert(run[i].name == file_name(stem, run[i].wanted.ext));
    lemma_stem_stays_in_run(first, run, i, j, key);
    assert(run[j].name == file_name(stem, run[j].wanted.ext));
}

/// In a run, the first half of a Live Photo gets a stem with which the name of the
/// other half is free as well, whether its extension is in upper case or, where it
/// was found so, in lower case, and whatever comes in between.
pub proof fn law_pair_of_a_run_finds_both_names_free(
    first: Ledger,
    run: Seq<Naming>,
    i: int,
    j: int,
    upper: bool,
)
    requires
        is_run(first, run),
        0 <= i < j < run.len(),
        run[i].wanted.key == run[j].wanted.key,
        run[i].wanted.is_live(run[i].disk),
        run[j].wanted.is_live(run[j].disk),
        !comes_second(first, run, i),
        upper || run[i].wanted.has_beside(run[i].disk, false),
        run[j].wanted.ext == counterpart_extension(run[i].wanted.lower_ext, upper),
    ensures
        ({
            let before = ledger_before(first, run, i);
            &&& run[i].wanted.name_is_free(before, run[i].disk, run[i].name)
            &&& run[i].wanted.name_is_free(before, run[i].disk, run[j].name)
        }),
{
    assert(is_step(first, run, i));
    assert(is_step(first, run, j));
    let key = run[i].wanted.key;
    assert(run[i].ledger.live_stems.contains_key(key));
    lemma_stem_stays_in_run(first, run, i, j, key);
    law_name_of_other_half_was_free(
        run[i].wanted,
        run[j].wanted,
        upper,
        ledger_before(first, run, i),
        run[i].disk,
        run[i].name,
        run[i].ledger,
        ledger_before(first, run, j),
        run[j].disk,
        run[j].name,
        run[j].ledger,
    );
}

// ---------------------------------------------------------------------------
// There is always a free name
// ---------------------------------------------------------------------------
/// Different attempts have different stems.
pub proof fn law_attempts_differ(stem: Seq<char>, i: int, j: int)
    requires
        0 <= i < j,
    ensures
        attempt_stem(stem, i) != attempt_stem(stem, j),
{
    reveal_strlit("_");
    let b = attempt_stem(stem, j);
    assert(b.skip((stem.len() + 1) as int) =~= decimal(j as nat));
    law_decimal_reads_back(j as nat);
    if i == 0 {
        assert(b.len() > stem.len());
    } else {
        let a = attempt_stem(stem, i);
        assert(a.skip((stem.len() + 1) as int) =~= decimal(i as nat));
        law_decimal_reads_back(i as nat);
    }
}

proof fn lemma_file_names_differ(a: Seq<char>, b: Seq<char>, ext: Option<Seq<char>>)
    requires
        a != b,
    ensures
        file_name(a, ext) != file_name(b, ext),
{
    if let Some(e) = ext {
        if file_name(a, ext) == file_name(b, ext) {
            assert(file_name(a, ext).take(a.len() as int) =~= a);
            assert(file_name(b, ext).take(b.len() as int) =~= b);
            assert(file_name(a, ext).len() == a.len() + "."@.len() + e.len());
            assert(file_name(b, ext).len() == b.len() + "."@.len() + e.len());
        }
    }
}

proof fn lemma_names_of_attempts_differ(stem: Seq<char>, ext: Option<Seq<char>>)
    ensures
        forall|i: int, j: int|
            0 <= i < j ==> #[trigger] file_name(attempt_stem(stem, i), ext)
                != #[trigger] file_name(attempt_stem(stem, j), ext),
{
    assert forall|i: int, j: int| 0 <= i < j implies #[trigger] file_name(
        attempt_stem(stem, i),
        ext,
    ) != #[trigger] file_name(attempt_stem(stem, j), ext) by {
        law_attempts_differ(stem, i, j);
        lemma_file_names_differ(attempt_stem(stem, i), attempt_stem(stem, j), ext);
    }
}

proof fn lemma_few_attempts_hit(
    f: spec_fn(int) -> Seq<char>,
    taken: Set<Seq<char>>,
    n: nat,
) -> (hits: Set<int>)
    requires
        taken.finite(),
        forall|i: int, j: int| 0 <= i < j ==> #[trigger] f(i) != #[trigger] f(j),
    ensures
        hits.finite(),
        hits.len() <= taken.len(),
        forall|i: int| 0 <= i < n && taken.contains(#[trigger] f(i)) ==> hits.contains(i),
{
    lemma_int_range(0, n as int);
    let range = set_int_range(0, n as int);
    let hits = range.filter(|i: int| taken.contains(f(i)));
    range.lemma_len_filter(|i: int| taken.contains(f(i)));
    let image = hits.map(f);
    hits.lemma_map_finite(f);
    assert forall|i: int, j: int| hits.contains(i) && hits.contains(j) && #[trigger] f(i)
        == #[trigger] f(j) implies i == j by {
        if i < j {
        } else if j < i {
            assert(f(j) != f(i));
        }
    }
    assert(vstd::relations::injective_on(f, hits));
    lemma_map_size(hits, image, f);
    assert(image.subset_of(taken));
    lemma_len_subset(image, taken);
    hits
}

/// However many names are given out or exist in a folder, three times as many
/// attempts and one more are enough to come to one that is free.
pub proof fn law_some_attempt_is_free(wanted: Wanted, ledger: Ledger, disk: Disk, taken: Set<Seq<char>>)
    requires
        taken.finite(),
        forall|name: Seq<char>| #[trigger]
            taken.contains(name) <==> !wanted.name_is_free(ledger, disk, name),
    ensures
        exists|attempt: int|
            0 <= attempt <= 3 * taken.len() && #[trigger] wanted.is_free(ledger, disk, attempt),
{
    let f = |i: int| wanted.name_at(i);
    let g = |i: int| wanted.counterpart_name_at(false, i);
    let h = |i: int| wanted.counterpart_name_at(true, i);
    lemma_names_of_attempts_differ(wanted.stem, wanted.ext);
    lemma_names_of_attempts_differ(wanted.stem, counterpart_extension(wanted.lower_ext, false));
    lemma_names_of_attempts_differ(wanted.stem, counterpart_extension(wanted.lower_ext, true));
    let n: nat = 3 * taken.len() + 1;
    let a = lemma_few_attempts_hit(f, taken, n);
    let b = lemma_few_attempts_hit(g, taken, n);
    let c = lemma_few_attempts_hit(h, taken, n);
    let hits = a.union(b).union(c);
    lemma_len_union(a, b);
    lemma_len_union(a.union(b), c);
    lemma_int_range(0, n as int);
    let range = set_int_range(0, n as int);
    if range.subset_of(hits) {
        lemma_len_subset(range, hits);
        assert(false);
    }
    let attempt = choose|i: int| range.contains(i) && !hits.contains(i);
    assert(!taken.contains(f(attempt)));
    assert(!taken.contains(g(attempt)));
    assert(!taken.contains(h(attempt)));
    assert(wanted.is_free(ledger, disk, attempt));
}

/// How many answers are enough for a search to come to an attempt and end there.
spec fn answers_to_go(s: SearchState, attempt: int) -> int {
    match s.stage {
        Stage::Counterpart { upper } => if upper {
            3 * attempt + 4
        } else {
            3 * attempt + 5
        },
        Stage::Probe { attempt: at, probe, .. } => 3 * (attempt - at) + (match probe {
            Probe::Own => 3int,
            Probe::Lower => 2,
            Probe::Upper => 1,
        }),
        Stage::Assigned => 0,
    }
}

proof fn lemma_search_comes_to_an_end(
    s: SearchState,
    ledger: Ledger,
    disk: Disk,
    attempt: int,
    n: nat,
)
    requires
        on_course(s, ledger, disk),
        s.wanted.is_free(ledger, disk, attempt),
        tried(s) <= attempt < i32::MAX,
        n >= answers_to_go(s, attempt),
    ensures
        after_answers(s, ledger, disk, n).0.stage is Assigned,
    decreases n,
{
    let w = s.wanted;
    let yes = disk.answer(s.question());
    let next = s.after(yes, ledger);
    let rest = (n - 1) as nat;
    if next.0.stage is Assigned {
        lemma_stays_assigned(next.0, next.1, disk, rest);
    } else {
        assert(next.1 == ledger);
        if let Stage::Probe { attempt: at, .. } = s.stage {
            if let Stage::Probe { attempt: at2, .. } = next.0.stage {
                if at2 != at {
                    assert(!w.is_free(ledger, disk, at as int));
                }
            }
        }
        assert(on_course(next.0, next.1, disk));
        lemma_search_comes_to_an_end(next.0, next.1, disk, attempt, rest);
    }
}

/// A search ends: nine answers for each name that is given out or exists in the
/// folder, and five more, are enough for any file to get a name.
pub proof fn law_search_ends(wanted: Wanted, ledger: Ledger, disk: Disk, taken: Set<Seq<char>>)
    requires
        taken.finite(),
        3 * taken.len() < i32::MAX,
        forall|name: Seq<char>| #[trigger]
            taken.contains(name) <==> !wanted.name_is_free(ledger, disk, name),
    ensures
        after_answers(
            SearchState::start(wanted),
            ledger,
            disk,
            9 * taken.len() + 5,
        ).0.stage is Assigned,
{
    law_some_attempt_is_free(wanted, ledger, disk, taken);
    let attempt = choose|attempt: int|
        0 <= attempt <= 3 * taken.len() && #[trigger] wanted.is_free(ledger, disk, attempt);
    lemma_search_comes_to_an_end(
        SearchState::start(wanted),
        ledger,
        disk,
        attempt,
        9 * taken.len() + 5,
    );
}

// ---------------------------------------------------------------------------
// What names are made of
// ---------------------------------------------------------------------------
/// A file name is the stem, and behind a point the extension if there is one.
pub proof fn law_name_is_stem_and_extension(stem: Seq<char>, ext: Seq<char>)
    ensures
        file_name(stem, None) == stem,
        file_name(stem, Some(ext)).len() == stem.len() + 1 + ext.len(),
        file_name(stem, Some(ext)).take(stem.len() as int) == stem,
        file_name(stem, Some(ext))[stem.len() as int] == '.',
        file_name(stem, Some(ext)).skip((stem.len() + 1) as int) == ext,
{
    reveal_strlit(".");
    let name = file_name(stem, Some(ext));
    assert(name.take(stem.len() as int) =~= stem);
    assert(name.skip((stem.len() + 1) as int) =~= ext);
}

/// The first stem that is tried is that of the file; at a later attempt it is
/// followed by an underscore and the number of the attempt.
pub proof fn law_later_attempts_are_numbered(stem: Seq<char>, attempt: int)
    ensures
        attempt_stem(stem, 0) == stem,
        attempt > 0 ==> {
            let numbered = attempt_stem(stem, attempt);
            &&& numbered.take(stem.len() as int) == stem
            &&& numbered[stem.len() as int] == '_'
            &&& numbered.skip((stem.len() + 1) as int) == decimal(attempt as nat)
            &&& numbered.len() == stem.len() + 1 + decimal(attempt as nat).len()
        },
{
    reveal_strlit("_");
    if attempt > 0 {
        let numbered = attempt_stem(stem, attempt);
        assert(numbered.take(stem.len() as int) =~= stem);
        assert(numbered.skip((stem.len() + 1) as int) =~= decimal(attempt as nat));
    }
}

/// The halves of a Live Photo are a `heic` and an `mp4` file; a file with another
/// extension has no other half.
pub proof fn law_live_photos_are_heic_and_mp4(lower_ext: Seq<char>)
    ensures
        counterpart_extension("heic"@, false) == Some("mp4"@),
        counterpart_extension("heic"@, true) == Some("MP4"@),
        counterpart_extension("mp4"@, false) == Some("heic"@),
        counterpart_extension("mp4"@, true) == Some("HEIC"@),
        lower_ext != "heic"@ && lower_ext != "mp4"@ ==> counterpart_extension(lower_ext, false)
            is None && counterpart_extension(lower_ext, true) is None,
{
    reveal_strlit("heic");
    reveal_strlit("mp4");
    assert("heic"@.len() != "mp4"@.len());
}

/// Giving a name to a file changes what is known of the Live Photo with its own
/// number only.
pub proof fn law_stems_of_other_pairs_are_untouched(
    wanted: Wanted,
    ledger: Ledger,
    disk: Disk,
    name: Seq<char>,
    result: Ledger,
    key: u64,
)
    requires
        wanted.is_outcome(ledger, disk, name, result),
        key != wanted.key,
    ensures
        result.live_stems.contains_key(key) == ledger.live_stems.contains_key(key),
        ledger.live_stems.contains_key(key) ==> result.live_stems[key] == ledger.live_stems[key],
{
}

/// In a run, a file whose number no earlier file has is not taken for the other
/// half of one.
pub proof fn law_first_of_its_number_is_no_second_half(
    first: Ledger,
    run: Seq<Naming>,
    j: int,
    key: u64,
)
    requires
        is_run(first, run),
        0 <= j <= run.len(),
        !first.live_stems.contains_key(key),
        forall|k: int| 0 <= k < j ==> #[trigger] run[k].wanted.key != key,
    ensures
        !ledger_before(first, run, j).live_stems.contains_key(key),
    decreases j,
{
    if j > 0 {
        law_first_of_its_number_is_no_second_half(first, run, j - 1, key);
        let last = run[j - 1];
        assert(is_step(first, run, j - 1));
        law_stems_of_other_pairs_are_untouched(
            last.wanted,
            ledger_before(first, run, j - 1),
            last.disk,
            last.name,
            last.ledger,
            key,
        );
    }
}

/// A name is given out in its folder only, and a stem is kept under its number
/// only.
pub proof fn law_ledger_keeps_folders_and_pairs_apart(
    ledger: Ledger,
    name: Seq<char>,
    key: u64,
    stem: Seq<char>,
)
    ensures
        ledger.names(Folder::Media) == ledger.media,
        ledger.names(Folder::UnknownTime) == ledger.unknown_time,
        ledger.claiming(Folder::Media, name) == (Ledger {
            media: ledger.media.insert(name),
            unknown_time: ledger.unknown_time,
            live_stems: ledger.live_stems,
        }),
        ledger.claiming(Folder::UnknownTime, name) == (Ledger {
            media: ledger.media,
            unknown_time: ledger.unknown_time.insert(name),
            live_stems: ledger.live_stems,
        }),
        ledger.pairing(key, stem) == (Ledger {
            media: ledger.media,
            unknown_time: ledger.unknown_time,
            live_stems: ledger.live_stems.insert(key, stem),
        }),
{
}

/// A search tells the name it has given out, asks as long as it has given out none,
/// and runs out of numbers at the largest only.
pub proof fn law_end_of_a_name_search_is_told(s: SearchState, name: String)
    ensures
        s.stage is Assigned ==> s.question() == NameQuestionText::Assigned(s.name),
        s.question() is Assigned ==> s.stage is Assigned,
        s.stage matches Stage::Probe { attempt, .. } ==> (0 <= attempt < 0x7fff_ffff
            ==> s.can_go_on()),
        !(s.stage is Probe) ==> s.can_go_on(),
        (NameQuestion::Assigned(name))@ == NameQuestionText::Assigned(name@),
        (NameQuestion::SourceExists(name))@ == NameQuestionText::SourceExists(name@),
        (NameQuestion::TargetExists(name))@ == NameQuestionText::TargetExists(name@),
{
}

} // verus!
