//! Batch statistics: success and failure counts plus the failed file names
//! grouped by error category, for serial and for multi-threaded batches.

use crate::error::{category_index, category_of, AudioResult, ErrorCategory, CATEGORY_COUNT};
use std::sync::atomic::AtomicUsize;
use std::sync::{Arc, Mutex, MutexGuard};
use vstd::prelude::*;

verus! {

/// Total number of file names held across all categories.
pub open spec fn total_files(lists: Seq<Seq<String>>) -> nat
    decreases lists.len(),
{
    if lists.len() == 0 {
        0
    } else {
        total_files(lists.drop_last()) + lists.last().len()
    }
}

/// Number of categories that hold at least one file name.
pub open spec fn nonempty_count(lists: Seq<Seq<String>>) -> nat
    decreases lists.len(),
{
    if lists.len() == 0 {
        0
    } else {
        nonempty_count(lists.drop_last()) + if lists.last().len() > 0 { 1nat } else { 0nat }
    }
}

/// One empty file list per category.
pub open spec fn empty_lists() -> Seq<Seq<String>> {
    Seq::new(CATEGORY_COUNT as nat, |i: int| Seq::<String>::empty())
}

/// The per-category lists after filing `name` under `category`.
pub open spec fn filed(lists: Seq<Seq<String>>, category: ErrorCategory, name: String) -> Seq<
    Seq<String>,
> {
    let i = category_index(category) as int;
    lists.update(i, lists[i].push(name))
}

/// A failure as it was reported: its category and the file's name.
#[derive(Debug, Clone)]
pub struct FailureRecord {
    pub category: ErrorCategory,
    pub file_name: String,
}

/// The per-category lists that filing `records` in order produces.
pub open spec fn grouped(records: Seq<FailureRecord>) -> Seq<Seq<String>>
    decreases records.len(),
{
    if records.len() == 0 {
        empty_lists()
    } else {
        filed(grouped(records.drop_last()), records.last().category, records.last().file_name)
    }
}

proof fn lemma_total_files_update(lists: Seq<Seq<String>>, i: int, x: Seq<String>)
    requires
        0 <= i < lists.len(),
    ensures
        total_files(lists.update(i, x)) + lists[i].len() == total_files(lists) + x.len(),
    decreases lists.len(),
{
    let u = lists.update(i, x);
    if i == lists.len() - 1 {
        assert(u.drop_last() =~= lists.drop_last());
    } else {
        lemma_total_files_update(lists.drop_last(), i, x);
        assert(u.drop_last() =~= lists.drop_last().update(i, x));
    }
}

proof fn lemma_nonempty_count_update(lists: Seq<Seq<String>>, i: int, x: Seq<String>)
    requires
        0 <= i < lists.len(),
    ensures
        nonempty_count(lists.update(i, x)) + (if lists[i].len() > 0 { 1int } else { 0int })
            == nonempty_count(lists) + (if x.len() > 0 { 1int } else { 0int }),
    decreases lists.len(),
{
    let u = lists.update(i, x);
    if i == lists.len() - 1 {
        assert(u.drop_last() =~= lists.drop_last());
    } else {
        lemma_nonempty_count_update(lists.drop_last(), i, x);
        assert(u.drop_last() =~= lists.drop_last().update(i, x));
    }
}

proof fn lemma_empty_lists_counts(n: nat)
    requires
        n <= CATEGORY_COUNT,
    ensures
        total_files(empty_lists().take(n as int)) == 0,
        nonempty_count(empty_lists().take(n as int)) == 0,
    decreases n,
{
    if n > 0 {
        lemma_empty_lists_counts((n - 1) as nat);
        assert(empty_lists().take(n as int).drop_last() =~= empty_lists().take(n - 1));
    }
}

/// Filing one more name raises the total by one.
pub proof fn lemma_filed_total(lists: Seq<Seq<String>>, category: ErrorCategory, name: String)
    requires
        lists.len() == CATEGORY_COUNT,
    ensures
        total_files(filed(lists, category, name)) == total_files(lists) + 1,
{
    let i = category_index(category) as int;
    lemma_total_files_update(lists, i, lists[i].push(name));
}

/// The lists of an empty tally hold no names and no category is in use.
pub proof fn lemma_empty_lists_zero()
    ensures
        total_files(empty_lists()) == 0,
        nonempty_count(empty_lists()) == 0,
        empty_lists().len() == CATEGORY_COUNT,
{
    lemma_empty_lists_counts(CATEGORY_COUNT as nat);
    assert(empty_lists().take(CATEGORY_COUNT as int) =~= empty_lists());
}

/// Failed file names grouped by error category, each list in the order the
/// failures were filed. A category appears (counts towards `len`) once it holds
/// a name.
#[derive(Debug)]
pub struct ErrorStats {
    lists: Vec<Vec<String>>,
}

impl View for ErrorStats {
    type V = Seq<Seq<String>>;

    open spec fn view(&self) -> Seq<Seq<String>> {
        self.lists_view()
    }
}

impl ErrorStats {
    /// The file lists, indexed by `category_index`.
    pub closed spec fn lists_view(&self) -> Seq<Seq<String>> {
        self.lists@.map_values(|l: Vec<String>| l@)
    }

    /// An empty tally.
    pub fn new() -> (r: ErrorStats)
        ensures
            r@ == empty_lists(),
    {
        let mut lists: Vec<Vec<String>> = Vec::new();
        let mut i: usize = 0;
        while i < CATEGORY_COUNT
            invariant
                i <= CATEGORY_COUNT,
                lists@.len() == i,
                forall|j: int| 0 <= j < i ==> (#[trigger] lists@[j])@.len() == 0,
            decreases CATEGORY_COUNT - i,
        {
            lists.push(Vec::new());
            i = i + 1;
        }
        let r = ErrorStats { lists };
        assert forall|j: int| 0 <= j < CATEGORY_COUNT implies #[trigger] r@[j] =~= empty_lists()[j] by {
            assert(lists@[j]@.len() == 0);
        }
        assert(r@ =~= empty_lists());
        r
    }

    /// Files `file_name` under `category`.
    pub fn record(&mut self, category: ErrorCategory, file_name: String)
        requires
            old(self)@.len() == CATEGORY_COUNT,
        ensures
            final(self)@ == filed(old(self)@, category, file_name),
    {
        let i = category.index();
        self.lists[i].push(file_name);
        assert(self@ =~= filed(old(self)@, category, file_name));
    }

    /// The names filed under `category`, oldest first.
    pub fn files(&self, category: ErrorCategory) -> (r: &Vec<String>)
        requires
            self@.len() == CATEGORY_COUNT,
        ensures
            r@ == self@[category_index(category) as int],
    {
        &self.lists[category.index()]
    }

    /// The names filed under `category`, or `None` if there are none.
    pub fn get(&self, category: ErrorCategory) -> (r: Option<&Vec<String>>)
        requires
            self@.len() == CATEGORY_COUNT,
        ensures
            r is None <==> self@[category_index(category) as int].len() == 0,
            r matches Some(v) ==> v@ == self@[category_index(category) as int],
    {
        let v = &self.lists[category.index()];
        if v.len() == 0 {
            None
        } else {
            Some(v)
        }
    }

    /// Number of categories that hold at least one name.
    pub fn len(&self) -> (n: usize)
        requires
            self@.len() == CATEGORY_COUNT,
        ensures
            n == nonempty_count(self@),
    {
        let mut n: usize = 0;
        let mut i: usize = 0;
        while i < CATEGORY_COUNT
            invariant
                i <= CATEGORY_COUNT,
                self@.len() == CATEGORY_COUNT,
                n == nonempty_count(self@.take(i as int)),
                n <= i,
            decreases CATEGORY_COUNT - i,
        {
            assert(self@.take(i + 1).drop_last() =~= self@.take(i as int));
            if self.lists[i].len() > 0 {
                n = n + 1;
            }
            i = i + 1;
        }
        assert(self@.take(CATEGORY_COUNT as int) =~= self@);
        n
    }

    /// Whether no category holds a name.
    pub fn is_empty(&self) -> (b: bool)
        requires
            self@.len() == CATEGORY_COUNT,
        ensures
            b <==> nonempty_count(self@) == 0,
    {
        self.len() == 0
    }

    /// An independent copy with the same names.
    pub fn copy(&self) -> (r: ErrorStats)
        ensures
            r@ == self@,
    {
        let mut lists: Vec<Vec<String>> = Vec::new();
        let mut i: usize = 0;
        while i < self.lists.len()
            invariant
                i <= self.lists@.len(),
                lists@.len() == i,
                forall|j: int| 0 <= j < i ==> (#[trigger] lists@[j])@ == self.lists@[j]@,
            decreases self.lists@.len() - i,
        {
            let src = &self.lists[i];
            let mut copy: Vec<String> = Vec::new();
            let mut k: usize = 0;
            while k < src.len()
                invariant
                    k <= src@.len(),
                    copy@ == src@.take(k as int),
                decreases src@.len() - k,
            {
                copy.push(src[k].clone());
                k = k + 1;
                assert(copy@ =~= src@.take(k as int));
            }
            assert(copy@ =~= src@);
            lists.push(copy);
            i = i + 1;
        }
        let r = ErrorStats { lists };
        assert(r@ =~= self@);
        r
    }

    /// Files each record in order.
    pub fn from_records(records: &Vec<FailureRecord>) -> (r: ErrorStats)
        ensures
            r@ == grouped(records@),
    {
        let mut stats = ErrorStats::new();
        let mut i: usize = 0;
        while i < records.len()
            invariant
                i <= records@.len(),
                stats@ == grouped(records@.take(i as int)),
            decreases records@.len() - i,
        {
            proof {
                assert(records@.take(i + 1).drop_last() =~= records@.take(i as int));
                assert(grouped(records@.take(i as int)).len() == CATEGORY_COUNT) by {
                    lemma_grouped_len(records@.take(i as int));
                }
            }
            let rec = &records[i];
            stats.record(rec.category, rec.file_name.clone());
            i = i + 1;
        }
        assert(records@.take(records@.len() as int) =~= records@);
        stats
    }
}

/// Grouping always yields one list per category.
pub proof fn lemma_grouped_len(records: Seq<FailureRecord>)
    ensures
        grouped(records).len() == CATEGORY_COUNT,
    decreases records.len(),
{
    if records.len() > 0 {
        lemma_grouped_len(records.drop_last());
    }
}

/// Counts and failed files at one moment.
#[derive(Debug)]
pub struct BatchStatsSnapshot {
    /// Number of files processed successfully.
    pub processed: usize,
    /// Number of files that failed.
    pub failed: usize,
    /// Failed file names by error category.
    pub error_stats: ErrorStats,
}

/// Batch statistics for a single thread.
#[derive(Debug)]
pub struct SerialBatchStats {
    processed: usize,
    failed: usize,
    error_stats: ErrorStats,
}

impl SerialBatchStats {
    /// Number of successes counted so far.
    pub closed spec fn processed_count(&self) -> nat {
        self.processed as nat
    }

    /// Number of failures counted so far.
    pub closed spec fn failed_count(&self) -> nat {
        self.failed as nat
    }

    /// Failed file names by category.
    pub closed spec fn failures(&self) -> Seq<Seq<String>> {
        self.error_stats@
    }

    /// The statistics are consistent: one list per category, and exactly as many
    /// filed names as counted failures.
    pub closed spec fn wf(&self) -> bool {
        &&& self.error_stats@.len() == CATEGORY_COUNT
        &&& self.failed as nat == total_files(self.error_stats@)
    }

    /// Fresh statistics with nothing counted.
    pub fn new() -> (s: SerialBatchStats)
        ensures
            s.wf(),
            s.processed_count() == 0,
            s.failed_count() == 0,
            s.failures() == empty_lists(),
    {
        proof {
            lemma_empty_lists_zero();
        }
        SerialBatchStats { processed: 0, failed: 0, error_stats: ErrorStats::new() }
    }

    /// Counts one more success and returns the new success count.
    pub fn inc_processed(&mut self) -> (n: usize)
        requires
            old(self).wf(),
            old(self).processed_count() < usize::MAX,
        ensures
            final(self).wf(),
            final(self).processed_count() == old(self).processed_count() + 1,
            n == final(self).processed_count(),
            final(self).failed_count() == old(self).failed_count(),
            final(self).failures() == old(self).failures(),
    {
        self.processed = self.processed + 1;
        self.processed
    }

    /// Counts one more failure, files `filename` under `category`, and returns
    /// the new failure count.
    pub fn inc_failed(&mut self, category: ErrorCategory, filename: String) -> (n: usize)
        requires
            old(self).wf(),
            old(self).failed_count() < usize::MAX,
        ensures
            final(self).wf(),
            final(self).failed_count() == old(self).failed_count() + 1,
            n == final(self).failed_count(),
            final(self).processed_count() == old(self).processed_count(),
            final(self).failures() == filed(old(self).failures(), category, filename),
    {
        proof {
            lemma_filed_total(self.error_stats@, category, filename);
        }
        self.failed = self.failed + 1;
        self.error_stats.record(category, filename);
        self.failed
    }

    /// The current counts and failed files.
    pub fn snapshot(&self) -> (s: BatchStatsSnapshot)
        requires
            self.wf(),
        ensures
            s.processed == self.processed_count(),
            s.failed == self.failed_count(),
            s.error_stats@ == self.failures(),
            s.failed == total_files(s.error_stats@),
    {
        BatchStatsSnapshot {
            processed: self.processed,
            failed: self.failed,
            error_stats: self.error_stats.copy(),
        }
    }
}

/// Batch statistics shared between threads; clones share one state.
///
/// The counts live in atomics and the failures behind a lock, which the
/// verifier sees without their values and which other threads change at any
/// time, so the methods state no count.
#[derive(Debug, Clone)]
pub struct ParallelBatchStats {
    processed: Arc<AtomicUsize>,
    failed: Arc<AtomicUsize>,
    failures: Arc<Mutex<Vec<FailureRecord>>>,
}

/// Declares `std::sync::Mutex` to the verifier; its contents stay opaque.
#[verifier::external_type_specification]
#[verifier::external_body]
#[verifier::reject_recursive_types(T)]
pub struct ExMutex<T: ?Sized>(Mutex<T>);

/// `Mutex::new`: a lock around `records`.
#[verifier::external_body]
fn new_failure_log(records: Vec<FailureRecord>) -> Mutex<Vec<FailureRecord>> {
    Mutex::new(records)
}

/// Number of successful outcomes.
pub open spec fn success_count<R>(outcomes: Seq<AudioResult<R>>) -> nat
    decreases outcomes.len(),
{
    if outcomes.len() == 0 {
        0
    } else {
        success_count(outcomes.drop_last()) + if outcomes.last() is Ok { 1nat } else { 0nat }
    }
}

/// The failures among `outcomes`, in order, each filed under its error's
/// category with the name of its file (`names[i]` belongs to `outcomes[i]`).
pub open spec fn failed_records<R>(names: Seq<String>, outcomes: Seq<AudioResult<R>>) -> Seq<FailureRecord>
    decreases outcomes.len(),
{
    if outcomes.len() == 0 {
        Seq::empty()
    } else {
        let prev = failed_records(names, outcomes.drop_last());
        match outcomes.last() {
            Ok(_) => prev,
            Err(e) => prev.push(
                FailureRecord { category: category_of(e), file_name: names[outcomes.len() - 1] },
            ),
        }
    }
}

/// The statistics of a finished batch, from the outcome of every file in
/// order: every file is counted once, as a success or as a failure, and the
/// failures are filed by category in file order.
pub fn tally_outcomes<R>(names: &Vec<String>, outcomes: &Vec<AudioResult<R>>) -> (s: SerialBatchStats)
    requires
        names@.len() == outcomes@.len(),
    ensures
        s.wf(),
        s.processed_count() + s.failed_count() == outcomes@.len(),
        s.processed_count() == success_count(outcomes@),
        s.failed_count() == failed_records(names@, outcomes@).len(),
        s.failures() == grouped(failed_records(names@, outcomes@)),
{
    let mut stats = SerialBatchStats::new();
    let mut i: usize = 0;
    while i < outcomes.len()
        invariant
            i <= outcomes@.len(),
            names@.len() == outcomes@.len(),
            stats.wf(),
            stats.processed_count() + stats.failed_count() == i,
            stats.processed_count() == success_count(outcomes@.take(i as int)),
            stats.failed_count() == failed_records(names@, outcomes@.take(i as int)).len(),
            stats.failures() == grouped(failed_records(names@, outcomes@.take(i as int))),
        decreases outcomes@.len() - i,
    {
        let ghost prefix = outcomes@.take(i as int);
        let ghost next = outcomes@.take(i + 1);
        assert(next.drop_last() =~= prefix);
        assert(next.last() == outcomes@[i as int]);
        match &outcomes[i] {
            Ok(_) => {
                stats.inc_processed();
            },
            Err(e) => {
                let category = ErrorCategory::from_audio_error(e);
                let name = names[i].clone();
                let ghost records = failed_records(names@, prefix);
                let ghost record = FailureRecord { category, file_name: name };
                assert(records.push(record).drop_last() =~= records);
                stats.inc_failed(category, name);
            },
        }
        i = i + 1;
    }
    assert(outcomes@.take(outcomes@.len() as int) =~= outcomes@);
    stats
}

/// Declares `std::sync::MutexGuard` to the verifier; its contents stay opaque.
#[verifier::external_type_specification]
#[verifier::external_body]
#[verifier::reject_recursive_types(T)]
pub struct ExMutexGuard<'a, T: ?Sized + 'a>(MutexGuard<'a, T>);

/// `Mutex::lock`: the guard of the failure list, or `None` when the lock is
/// poisoned.
#[verifier::external_body]
fn lock_failure_log(log: &Mutex<Vec<FailureRecord>>) -> Option<MutexGuard<'_, Vec<FailureRecord>>> {
    log.lock().ok()
}

/// `Vec::push` on the guarded failure list. What the list holds is not
/// stated: other threads may append at any time.
#[verifier::external_body]
fn push_guarded(guard: &mut MutexGuard<'_, Vec<FailureRecord>>, record: FailureRecord) {
    guard.push(record);
}

/// `Vec::clone` of the guarded failure list. Its contents are not stated:
/// other threads may append at any time.
#[verifier::external_body]
fn copy_guarded(guard: &MutexGuard<'_, Vec<FailureRecord>>) -> Vec<FailureRecord> {
    (**guard).clone()
}

/// Appends `record` to the shared failure list; a poisoned lock skips it.
fn log_failure(log: &Mutex<Vec<FailureRecord>>, record: FailureRecord) {
    match lock_failure_log(log) {
        Some(mut guard) => push_guarded(&mut guard, record),
        None => {},
    }
}

/// A copy of the shared failure list, empty when the lock is poisoned.
fn read_failure_log(log: &Mutex<Vec<FailureRecord>>) -> Vec<FailureRecord> {
    match lock_failure_log(log) {
        Some(guard) => copy_guarded(&guard),
        None => Vec::new(),
    }
}

/// The count an atomic increment produced, given the value the counter held
/// just before it: one more, wrapping to zero past `usize::MAX` as the atomic does.
pub fn count_after_increment(before: usize) -> (n: usize)
    ensures
        n == (if before == usize::MAX {
            0
        } else {
            before + 1
        }),
{
    if before == usize::MAX {
        0
    } else {
        before + 1
    }
}

impl ParallelBatchStats {
    /// Fresh shared statistics with nothing counted.
    pub fn new() -> (s: ParallelBatchStats) {
        ParallelBatchStats {
            processed: Arc::new(AtomicUsize::new(0)),
            failed: Arc::new(AtomicUsize::new(0)),
            failures: Arc::new(new_failure_log(Vec::new())),
        }
    }

    /// Counts one more success; returns the count this increment produced:
    /// the counter's value just before it, plus one (see `count_after_increment`).
    /// Other threads may increment concurrently, so that value is not stated.
    pub fn inc_processed(&self) -> usize {
        let before = self.processed.fetch_add(1, std::sync::atomic::Ordering::Relaxed);
        count_after_increment(before)
    }

    /// Counts one more failure and files `filename` under `category`; returns
    /// the failure count this increment produced.
    pub fn inc_failed(&self, category: ErrorCategory, filename: String) -> usize {
        let before = self.failed.fetch_add(1, std::sync::atomic::Ordering::Relaxed);
        log_failure(&self.failures, FailureRecord { category, file_name: filename });
        count_after_increment(before)
    }

    /// The counts and failed files as read now; the failed files are the
    /// recorded failures grouped by category in the order they were filed.
    pub fn snapshot(&self) -> (s: BatchStatsSnapshot)
        ensures
            s.error_stats@.len() == CATEGORY_COUNT,
            exists|records: Seq<FailureRecord>| s.error_stats@ == grouped(records),
    {
        let records = read_failure_log(&self.failures);
        proof {
            lemma_grouped_len(records@);
        }
        let error_stats = ErrorStats::from_records(&records);
        assert(error_stats@ == grouped(records@));
        BatchStatsSnapshot {
            processed: self.processed.load(std::sync::atomic::Ordering::Relaxed),
            failed: self.failed.load(std::sync::atomic::Ordering::Relaxed),
            error_stats,
        }
    }
}

} // verus!
