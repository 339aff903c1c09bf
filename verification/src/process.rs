//! Finding the processes of a server by the likeness of their names.
//!
//! When no PID record says which process is the server, every running
//! process is compared with the name of the server's executable. The
//! likeness of two names is their Jaro-Winkler similarity, which the
//! `strsim` crate computes as a number between 0 and 1. A process is taken
//! for the server when its similarity exceeds three quarters.
//!
//! Similarities are carried as the bit patterns of IEEE 754 double
//! precision numbers. For numbers that are not negative, and a similarity
//! never is, the order of the bit patterns as integers is the order of the
//! numbers.

use vstd::prelude::*;
use crate::errors::{ErrorModel, InstanceError};
use crate::text::{concat, lowercase, option_view, result_view, to_lowercase};

verus! {

/// The bit pattern of 0.75 as a double precision number. A process is a
/// target when its similarity exceeds this.
pub const SIMILARITY_THRESHOLD: u64 = 0x3FE8_0000_0000_0000;

/// The Jaro-Winkler similarity of `a` and `b` as the `strsim` crate
/// computes it, as the bit pattern of a double precision number.
pub uninterp spec fn jaro_winkler_bits(a: Seq<char>, b: Seq<char>) -> u64;

/// `strsim::jaro_winkler`, with the result taken by its bit pattern.
#[verifier::external_body]
fn similarity(a: &str, b: &str) -> (bits: u64)
    ensures
        bits == jaro_winkler_bits(a@, b@),
{
    strsim::jaro_winkler(a, b).to_bits()
}

/// One row of the host's process table.
#[derive(Debug)]
pub struct ProcessEntry {
    /// The process id.
    pub pid: u32,
    /// The name of the process, where it is valid Unicode.
    pub name: Option<String>,
}

/// The mathematical content of a [`ProcessEntry`].
pub struct ProcessModel {
    pub pid: u32,
    pub name: Option<Seq<char>>,
}

impl View for ProcessEntry {
    type V = ProcessModel;

    open spec fn view(&self) -> ProcessModel {
        ProcessModel { pid: self.pid, name: option_view(self.name) }
    }
}

/// The models of a process table, row by row.
pub open spec fn process_models(table: Seq<ProcessEntry>) -> Seq<ProcessModel> {
    Seq::new(table.len(), |i: int| table[i]@)
}

/// A process that was taken for the server, with its similarity.
#[derive(Clone, Copy, Debug, PartialEq, Eq, Structural)]
pub struct ProcessMatch {
    pub pid: u32,
    pub score: u64,
}

/// The name under which a process is compared: its name in ASCII lower
/// case, or `unknown` where the name is not valid Unicode.
pub open spec fn compared_name(entry: ProcessModel) -> Seq<char> {
    match entry.name {
        Some(name) => lowercase(name),
        None => "unknown"@,
    }
}

/// The similarity of a process with the executable, both in lower case.
pub open spec fn score_of(executable: Seq<char>, entry: ProcessModel) -> u64 {
    jaro_winkler_bits(lowercase(executable), compared_name(entry))
}

/// Whether a process is taken for the server: its similarity exceeds
/// three quarters.
pub open spec fn is_target(executable: Seq<char>, entry: ProcessModel) -> bool {
    score_of(executable, entry) > SIMILARITY_THRESHOLD
}

/// A process with its similarity.
pub open spec fn match_of(executable: Seq<char>, entry: ProcessModel) -> ProcessMatch {
    ProcessMatch { pid: entry.pid, score: score_of(executable, entry) }
}

/// Every process of `table` with its similarity, in the order of the table.
pub open spec fn scored(executable: Seq<char>, table: Seq<ProcessModel>) -> Seq<ProcessMatch> {
    Seq::new(table.len(), |i: int| match_of(executable, table[i]))
}

/// The matches whose similarity exceeds the threshold, in the order in
/// which they stand in `matches`.
pub open spec fn passing(matches: Seq<ProcessMatch>) -> Seq<ProcessMatch>
    decreases matches.len(),
{
    if matches.len() == 0 {
        Seq::empty()
    } else if matches.last().score > SIMILARITY_THRESHOLD {
        passing(matches.drop_last()).push(matches.last())
    } else {
        passing(matches.drop_last())
    }
}

/// The processes of `table` that are taken for the server, in the order of
/// the table.
pub open spec fn targets(executable: Seq<char>, table: Seq<ProcessModel>) -> Seq<ProcessMatch> {
    passing(scored(executable, table))
}

/// `found` put into `sorted` behind the last match whose similarity is not
/// smaller than its own.
pub open spec fn insert_by_score(sorted: Seq<ProcessMatch>, found: ProcessMatch) -> Seq<
    ProcessMatch,
>
    decreases sorted.len(),
{
    if sorted.len() == 0 {
        seq![found]
    } else if sorted.last().score >= found.score {
        sorted.push(found)
    } else {
        insert_by_score(sorted.drop_last(), found).push(sorted.last())
    }
}

/// The matches by descending similarity; matches of equal similarity stay
/// in the order in which they stand in `matches`.
pub open spec fn by_score(matches: Seq<ProcessMatch>) -> Seq<ProcessMatch>
    decreases matches.len(),
{
    if matches.len() == 0 {
        Seq::empty()
    } else {
        insert_by_score(by_score(matches.drop_last()), matches.last())
    }
}

/// Whether the similarities never increase along `matches`.
pub open spec fn descending(matches: Seq<ProcessMatch>) -> bool {
    forall|i: int, j: int| 0 <= i <= j < matches.len() ==> matches[i].score >= matches[j].score
}

/// The process ids of a list of matches.
pub open spec fn pids_of(matches: Seq<ProcessMatch>) -> Seq<u32> {
    Seq::new(matches.len(), |i: int| matches[i].pid)
}

/// Inserting at the position that a backward scan finds is
/// `insert_by_score`.
pub proof fn lemma_insert_by_score_at(sorted: Seq<ProcessMatch>, found: ProcessMatch, at: int)
    requires
        0 <= at <= sorted.len(),
        forall|k: int| at <= k < sorted.len() ==> sorted[k].score < found.score,
        at > 0 ==> sorted[at - 1].score >= found.score,
    ensures
        insert_by_score(sorted, found) == sorted.insert(at, found),
    decreases sorted.len() - at,
{
    if sorted.len() == 0 {
        assert(sorted.insert(at, found) =~= seq![found]);
    } else if at == sorted.len() {
        assert(sorted.insert(at, found) =~= sorted.push(found));
    } else {
        let shorter = sorted.drop_last();
        lemma_insert_by_score_at(shorter, found, at);
        assert(shorter.insert(at, found).push(sorted.last()) =~= sorted.insert(at, found));
    }
}

/// Inserting a match keeps every match and adds the new one.
pub proof fn lemma_insert_by_score_keeps(sorted: Seq<ProcessMatch>, found: ProcessMatch)
    ensures
        insert_by_score(sorted, found).len() == sorted.len() + 1,
        insert_by_score(sorted, found).to_multiset() == sorted.to_multiset().insert(found),
    decreases sorted.len(),
{
    broadcast use vstd::seq_lib::group_to_multiset_ensures;

    if sorted.len() == 0 {
        assert(sorted =~= Seq::empty());
    } else if sorted.last().score >= found.score {
    } else {
        let shorter = sorted.drop_last();
        lemma_insert_by_score_keeps(shorter, found);
        assert(shorter.push(sorted.last()) =~= sorted);
        assert(insert_by_score(sorted, found).to_multiset() =~= sorted.to_multiset().insert(
            found,
        ));
    }
}

/// Inserting a match into a descending list leaves it descending.
pub proof fn lemma_insert_by_score_descending(sorted: Seq<ProcessMatch>, found: ProcessMatch)
    requires
        descending(sorted),
    ensures
        descending(insert_by_score(sorted, found)),
    decreases sorted.len(),
{
    let out = insert_by_score(sorted, found);
    if sorted.len() == 0 {
    } else if sorted.last().score >= found.score {
        assert forall|i: int, j: int| 0 <= i <= j < out.len() implies out[i].score
            >= out[j].score by {
            if j < sorted.len() {
                assert(out[i] == sorted[i] && out[j] == sorted[j]);
            } else if i < sorted.len() {
                assert(out[i] == sorted[i]);
                assert(sorted[i].score >= sorted[sorted.len() - 1].score);
            }
        }
    } else {
        let shorter = sorted.drop_last();
        let last = sorted.last();
        assert(descending(shorter)) by {
            assert forall|i: int, j: int| 0 <= i <= j < shorter.len() implies shorter[i].score
                >= shorter[j].score by {
                assert(shorter[i] == sorted[i] && shorter[j] == sorted[j]);
            }
        }
        lemma_insert_by_score_descending(shorter, found);
        lemma_insert_by_score_keeps(shorter, found);
        let inner = insert_by_score(shorter, found);
        assert forall|k: int| 0 <= k < inner.len() implies inner[k].score >= last.score by {
            broadcast use vstd::seq_lib::group_to_multiset_ensures;

            assert(inner.to_multiset().contains(inner[k]));
            if inner[k] != found {
                assert(shorter.to_multiset().contains(inner[k]));
                assert(shorter.contains(inner[k]));
                let m = choose|m: int| 0 <= m < shorter.len() && shorter[m] == inner[k];
                assert(shorter[m] == sorted[m]);
                assert(sorted[m].score >= sorted[sorted.len() - 1].score);
            }
        }
        assert forall|i: int, j: int| 0 <= i <= j < out.len() implies out[i].score
            >= out[j].score by {
            if j < inner.len() {
                assert(out[i] == inner[i] && out[j] == inner[j]);
            } else if i < inner.len() {
                assert(out[i] == inner[i]);
            }
        }
    }
}

/// Ordering by similarity keeps every match exactly once and leaves the
/// similarities descending.
pub proof fn lemma_by_score_sorts(matches: Seq<ProcessMatch>)
    ensures
        by_score(matches).len() == matches.len(),
        by_score(matches).to_multiset() == matches.to_multiset(),
        descending(by_score(matches)),
    decreases matches.len(),
{
    broadcast use vstd::seq_lib::group_to_multiset_ensures;

    if matches.len() == 0 {
        assert(matches =~= Seq::empty());
    } else {
        let shorter = matches.drop_last();
        lemma_by_score_sorts(shorter);
        lemma_insert_by_score_keeps(by_score(shorter), matches.last());
        lemma_insert_by_score_descending(by_score(shorter), matches.last());
        assert(shorter.push(matches.last()) =~= matches);
    }
}

/// The matches that pass are those of `matches` whose similarity exceeds
/// the threshold, and nothing else.
pub proof fn lemma_passing_exact(matches: Seq<ProcessMatch>, m: ProcessMatch)
    ensures
        passing(matches).contains(m) <==> matches.contains(m) && m.score > SIMILARITY_THRESHOLD,
    decreases matches.len(),
{
    let kept = passing(matches);
    if matches.len() == 0 {
        assert(!kept.contains(m));
        assert(!matches.contains(m));
    } else {
        let shorter = matches.drop_last();
        let rest = passing(shorter);
        let last = matches.last();
        lemma_passing_exact(shorter, m);
        if kept.contains(m) {
            let k = choose|k: int| 0 <= k < kept.len() && kept[k] == m;
            if last.score > SIMILARITY_THRESHOLD && k == kept.len() - 1 {
                assert(matches[matches.len() - 1] == m);
            } else {
                assert(rest[k] == m);
                assert(rest.contains(m));
                let i = choose|i: int| 0 <= i < shorter.len() && shorter[i] == m;
                assert(matches[i] == m);
            }
        }
        if matches.contains(m) && m.score > SIMILARITY_THRESHOLD {
            let i = choose|i: int| 0 <= i < matches.len() && matches[i] == m;
            if i == matches.len() - 1 {
                assert(kept[kept.len() - 1] == m);
            } else {
                assert(shorter[i] == m);
                assert(shorter.contains(m));
                let k = choose|k: int| 0 <= k < rest.len() && rest[k] == m;
                assert(kept[k] == m);
            }
        }
    }
}

/// The targets are the rows of the table whose similarity exceeds the
/// threshold, and nothing else.
pub proof fn lemma_targets_exact(executable: Seq<char>, table: Seq<ProcessModel>, m: ProcessMatch)
    ensures
        targets(executable, table).contains(m) <==> exists|i: int|
            0 <= i < table.len() && is_target(executable, #[trigger] table[i]) && m == match_of(
                executable,
                table[i],
            ),
{
    let all = scored(executable, table);
    lemma_passing_exact(all, m);
    if all.contains(m) && m.score > SIMILARITY_THRESHOLD {
        let i = choose|i: int| 0 <= i < all.len() && all[i] == m;
        assert(is_target(executable, table[i]) && m == match_of(executable, table[i]));
    }
    if exists|i: int|
        0 <= i < table.len() && is_target(executable, #[trigger] table[i]) && m == match_of(
            executable,
            table[i],
        ) {
        let i = choose|i: int|
            0 <= i < table.len() && is_target(executable, #[trigger] table[i]) && m == match_of(
                executable,
                table[i],
            );
        assert(all[i] == m);
        assert(all.contains(m));
    }
}

/// Every process whose similarity exceeds the threshold is among those
/// that are found, and no other process is: a match is found exactly if
/// it is the match of such a row of the table.
pub proof fn lemma_found_exactly_targets(
    executable: Seq<char>,
    table: Seq<ProcessModel>,
    m: ProcessMatch,
)
    ensures
        by_score(targets(executable, table)).contains(m) <==> exists|i: int|
            0 <= i < table.len() && is_target(executable, #[trigger] table[i]) && m == match_of(
                executable,
                table[i],
            ),
        by_score(targets(executable, table)).len() == 0 <==> forall|i: int|
            0 <= i < table.len() ==> !is_target(executable, #[trigger] table[i]),
{
    broadcast use vstd::seq_lib::group_to_multiset_ensures;

    let plain = targets(executable, table);
    let sorted = by_score(plain);
    lemma_by_score_sorts(plain);
    lemma_targets_exact(executable, table, m);
    assert(sorted.contains(m) <==> plain.contains(m)) by {
        assert(sorted.to_multiset().contains(m) <==> plain.to_multiset().contains(m));
    }
    if plain.len() == 0 {
        assert forall|i: int| 0 <= i < table.len() implies !is_target(
            executable,
            #[trigger] table[i],
        ) by {
            if is_target(executable, table[i]) {
                lemma_targets_exact(executable, table, match_of(executable, table[i]));
            }
        }
    } else {
        lemma_targets_exact(executable, table, plain[0]);
        assert(plain.contains(plain[0]));
    }
}

/// The similarity of one process with the executable, which is given in
/// lower case.
pub fn score_entry(lowered: &str, entry: &ProcessEntry) -> (score: u64)
    ensures
        score == jaro_winkler_bits(lowered@, compared_name(entry@)),
{
    match &entry.name {
        Some(name) => {
            let name = to_lowercase(name.as_str());
            similarity(lowered, name.as_str())
        },
        None => similarity(lowered, "unknown"),
    }
}

/// Every process of the table with its similarity to `executable_name`.
/// Names are compared in ASCII lower case.
pub fn score_processes(executable_name: &str, table: &Vec<ProcessEntry>) -> (scores: Vec<
    ProcessMatch,
>)
    ensures
        scores@ == scored(executable_name@, process_models(table@)),
{
    let lowered = to_lowercase(executable_name);
    let mut scores: Vec<ProcessMatch> = Vec::new();
    let mut i: usize = 0;
    while i < table.len()
        invariant
            i <= table.len(),
            lowered@ == lowercase(executable_name@),
            scores@ == scored(executable_name@, process_models(table@)).subrange(0, i as int),
        decreases table.len() - i,
    {
        assert(process_models(table@)[i as int] == table@[i as int]@);
        let score = score_entry(lowered.as_str(), &table[i]);
        scores.push(ProcessMatch { pid: table[i].pid, score });
        i += 1;
        assert(scores@ =~= scored(executable_name@, process_models(table@)).subrange(
            0,
            i as int,
        ));
    }
    assert(scores@ =~= scored(executable_name@, process_models(table@)));
    scores
}

/// Of the given matches, those whose similarity exceeds the threshold,
/// ordered by descending similarity. Matches of equal similarity keep
/// their order.
pub fn rank_matches(candidates: &Vec<ProcessMatch>) -> (found: Vec<ProcessMatch>)
    ensures
        found@ == by_score(passing(candidates@)),
{
    let mut out: Vec<ProcessMatch> = Vec::new();
    let mut i: usize = 0;
    assert(candidates@.subrange(0, 0) =~= Seq::empty());
    while i < candidates.len()
        invariant
            i <= candidates.len(),
            out@ == by_score(passing(candidates@.subrange(0, i as int))),
        decreases candidates.len() - i,
    {
        let ghost prefix = candidates@.subrange(0, i as int);
        let ghost next = candidates@.subrange(0, i + 1);
        proof {
            assert(next.drop_last() =~= prefix);
            assert(next.last() == candidates@[i as int]);
        }
        let found = candidates[i];
        if found.score > SIMILARITY_THRESHOLD {
            let mut at: usize = out.len();
            while at > 0 && out[at - 1].score < found.score
                invariant
                    at <= out.len(),
                    forall|k: int| at <= k < out.len() ==> out@[k].score < found.score,
                decreases at,
            {
                at -= 1;
            }
            proof {
                let plain = passing(prefix).push(found);
                assert(plain.drop_last() =~= passing(prefix));
                assert(plain.last() == found);
                lemma_insert_by_score_at(out@, found, at as int);
            }
            out.insert(at, found);
        }
        i += 1;
    }
    assert(candidates@.subrange(0, candidates@.len() as int) =~= candidates@);
    out
}

/// The processes that are taken for the server whose executable is called
/// `executable_name`: those rows of the table whose name, in lower case,
/// has a similarity of more than three quarters with the name of the
/// executable, in lower case. They are ordered by descending similarity.
pub fn find_processes(executable_name: &str, table: &Vec<ProcessEntry>) -> (found: Vec<
    ProcessMatch,
>)
    ensures
        found@ == by_score(targets(executable_name@, process_models(table@))),
{
    let scores = score_processes(executable_name, table);
    rank_matches(&scores)
}

/// Whether any process of the table is taken for the server.
pub fn are_processes_running(executable_name: &str, table: &Vec<ProcessEntry>) -> (running: bool)
    ensures
        running == (by_score(targets(executable_name@, process_models(table@))).len() > 0),
        running == exists|i: int|
            0 <= i < table.len() && is_target(
                executable_name@,
                #[trigger] process_models(table@)[i],
            ),
{
    let found = find_processes(executable_name, table);
    proof {
        lemma_found_exactly_targets(
            executable_name@,
            process_models(table@),
            ProcessMatch { pid: 0, score: 0 },
        );
    }
    found.len() > 0
}

/// The error for a table without any process that is taken for the
/// server.
pub open spec fn not_found(executable: Seq<char>) -> ErrorModel {
    ErrorModel::Process("Failed to find process with executable name: "@ + executable)
}

/// The processes to interrupt, or the error where there is none.
pub open spec fn interrupt_targets(executable: Seq<char>, table: Seq<ProcessModel>) -> Result<
    Seq<u32>,
    ErrorModel,
> {
    let found = by_score(targets(executable, table));
    if found.len() == 0 {
        Err(not_found(executable))
    } else {
        Ok(pids_of(found))
    }
}

/// The processes that are sent an interrupt to stop the server: every
/// process that is taken for the server, the most similar first. A table
/// without such a process is an error, not a reason to give up the whole
/// program.
pub fn send_interrupt(executable_name: &str, table: &Vec<ProcessEntry>) -> (pids: Result<
    Vec<u32>,
    InstanceError,
>)
    ensures
        result_view(pids) == interrupt_targets(executable_name@, process_models(table@)),
{
    let found = find_processes(executable_name, table);
    if found.len() == 0 {
        return Err(
            InstanceError::ProcessError(
                concat("Failed to find process with executable name: ", executable_name),
            ),
        );
    }
    let mut pids: Vec<u32> = Vec::new();
    let mut i: usize = 0;
    while i < found.len()
        invariant
            i <= found.len(),
            pids@ == pids_of(found@).subrange(0, i as int),
        decreases found.len() - i,
    {
        pids.push(found[i].pid);
        i += 1;
        assert(pids@ =~= pids_of(found@).subrange(0, i as int));
    }
    assert(pids_of(found@).subrange(0, found@.len() as int) =~= pids_of(found@));
    Ok(pids)
}

/// Whether the process `pid` is in the table. A process that has gone is
/// not sent a signal.
pub fn send_interrupt_to_pid(pid: u32, table: &Vec<ProcessEntry>) -> (present: bool)
    ensures
        present == exists|i: int| 0 <= i < table.len() && (#[trigger] table@[i]).pid == pid,
{
    let mut i: usize = 0;
    while i < table.len()
        invariant
            i <= table.len(),
            forall|k: int| 0 <= k < i ==> (#[trigger] table@[k]).pid != pid,
        decreases table.len() - i,
    {
        if table[i].pid == pid {
            return true;
        }
        i += 1;
    }
    false
}

} // verus!
