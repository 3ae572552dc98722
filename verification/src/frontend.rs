//! Decisions of the desktop front end: throttling decode-progress updates,
//! grouping finished batch items, checking job identifiers, and the registry
//! of active jobs with their cancellation tokens.

use crate::utils::safety::{byte_len_exceeds, str_equals, utf8_len};
use vstd::prelude::*;

verus! {

/// Least time between two forwarded decode-progress updates, in nanoseconds (50 ms).
pub const DECODE_PROGRESS_INTERVAL_NS: u64 = 50000000;

/// Finished batch items are forwarded in groups of this many.
pub const BATCH_ITEM_CHUNK: usize = 8;

/// Longest job identifier accepted, in UTF-8 bytes.
pub const MAX_JOB_ID_BYTES: usize = 128;

/// Progress forwarding state of one job.
pub struct FrontendProgressState<I> {
    last_decode_progress: Option<u64>,
    batch_items: Vec<I>,
}

impl<I> FrontendProgressState<I> {
    /// When the last decode-progress update was forwarded (nanoseconds on a
    /// monotonic clock), if any was.
    pub closed spec fn last_forwarded(&self) -> Option<u64> {
        self.last_decode_progress
    }

    /// Finished items waiting to be forwarded, oldest first.
    pub closed spec fn pending_items(&self) -> Seq<I> {
        self.batch_items@
    }

    /// Nothing forwarded yet, nothing waiting.
    pub fn new() -> (s: Self)
        ensures
            s.last_forwarded() is None,
            s.pending_items().len() == 0,
    {
        FrontendProgressState { last_decode_progress: None, batch_items: Vec::new() }
    }

    /// Whether a decode-progress update at time `now` should be forwarded: always
    /// at the end of the stream or for the first update, else only once 50 ms
    /// have passed since the last forwarded one. A forwarded update's time is kept.
    pub fn should_emit_decode_progress(&mut self, now: u64, eof: bool) -> (emit: bool)
        ensures
            emit == (eof || match old(self).last_forwarded() {
                None => true,
                Some(prev) => (if now >= prev {
                    now - prev
                } else {
                    0
                }) >= DECODE_PROGRESS_INTERVAL_NS,
            }),
            emit ==> final(self).last_forwarded() == Some(now),
            !emit ==> final(self).last_forwarded() == old(self).last_forwarded(),
            final(self).pending_items() == old(self).pending_items(),
    {
        if !eof {
            if let Some(prev) = self.last_decode_progress {
                let elapsed = now.saturating_sub(prev);
                if elapsed < DECODE_PROGRESS_INTERVAL_NS {
                    return false;
                }
            }
        }
        self.last_decode_progress = Some(now);
        true
    }

    /// Adds a finished item; once eight are waiting, hands them all out.
    pub fn push_batch_item(&mut self, item: I) -> (out: Option<Vec<I>>)
        ensures
            old(self).pending_items().len() + 1 >= BATCH_ITEM_CHUNK ==> (out matches Some(v) && v@
                == old(self).pending_items().push(item) && final(self).pending_items().len() == 0),
            old(self).pending_items().len() + 1 < BATCH_ITEM_CHUNK ==> out is None
                && final(self).pending_items() == old(self).pending_items().push(item),
            final(self).last_forwarded() == old(self).last_forwarded(),
    {
        self.batch_items.push(item);
        if self.batch_items.len() >= BATCH_ITEM_CHUNK {
            let mut taken: Vec<I> = Vec::new();
            std::mem::swap(&mut taken, &mut self.batch_items);
            Some(taken)
        } else {
            None
        }
    }

    /// Hands out every waiting item.
    pub fn take_batch_items(&mut self) -> (out: Vec<I>)
        ensures
            out@ == old(self).pending_items(),
            final(self).pending_items().len() == 0,
            final(self).last_forwarded() == old(self).last_forwarded(),
    {
        let mut taken: Vec<I> = Vec::new();
        std::mem::swap(&mut taken, &mut self.batch_items);
        taken
    }
}

/// Whether `c` is Unicode white space (the `White_Space` property that
/// `char::is_whitespace` documents).
pub open spec fn is_white_space(c: char) -> bool {
    let u = c as u32;
    (0x09 <= u && u <= 0x0d) || u == 0x20 || u == 0x85 || u == 0xa0 || u == 0x1680 || (0x2000 <= u
        && u <= 0x200a) || u == 0x2028 || u == 0x2029 || u == 0x202f || u == 0x205f || u == 0x3000
}

/// Whether a job identifier is accepted: not blank, at most 128 bytes.
pub open spec fn job_id_ok(id: Seq<char>) -> bool {
    (exists|i: int| 0 <= i < id.len() && !is_white_space(#[trigger] id[i])) && utf8_len(id)
        <= MAX_JOB_ID_BYTES
}

/// Message for a refused job identifier.
pub open spec fn job_id_message() -> Seq<char> {
    "job id must contain between 1 and 128 characters"@
}

fn white_space(c: char) -> (b: bool)
    ensures
        b == is_white_space(c),
{
    let u = c as u32;
    (0x09 <= u && u <= 0x0d) || u == 0x20 || u == 0x85 || u == 0xa0 || u == 0x1680 || (0x2000 <= u
        && u <= 0x200a) || u == 0x2028 || u == 0x2029 || u == 0x202f || u == 0x205f || u == 0x3000
}

/// Checks a job identifier (see `job_id_ok`).
pub fn validate_job_id(id: &str) -> (r: Result<(), String>)
    ensures
        r is Ok <==> job_id_ok(id@),
        r matches Err(m) ==> m@ == job_id_message(),
{
    let n = id.unicode_len();
    let mut blank = true;
    let mut i: usize = 0;
    while i < n
        invariant
            n == id@.len(),
            i <= n,
            blank <==> forall|j: int| 0 <= j < i ==> is_white_space(#[trigger] id@[j]),
        decreases n - i,
    {
        if !white_space(id.get_char(i)) {
            blank = false;
        }
        i = i + 1;
    }
    if blank || byte_len_exceeds(id, MAX_JOB_ID_BYTES) {
        return Err(String::from_str("job id must contain between 1 and 128 characters"));
    }
    Ok(())
}

/// The jobs described by `entries`, each identifier mapped to its token (a
/// later entry for the same identifier wins).
pub open spec fn jobs_map<T>(entries: Seq<(Seq<char>, T)>) -> Map<Seq<char>, T>
    decreases entries.len(),
{
    if entries.len() == 0 {
        Map::empty()
    } else {
        jobs_map(entries.drop_last()).insert(entries.last().0, entries.last().1)
    }
}

/// No identifier occurs twice.
pub open spec fn distinct_ids<T>(entries: Seq<(Seq<char>, T)>) -> bool {
    forall|i: int, j: int|
        0 <= i < entries.len() && 0 <= j < entries.len() && i != j ==> entries[i].0 != entries[j].0
}

proof fn lemma_jobs_map_domain<T>(entries: Seq<(Seq<char>, T)>, id: Seq<char>)
    ensures
        jobs_map(entries).dom().contains(id) <==> exists|i: int|
            0 <= i < entries.len() && (#[trigger] entries[i]).0 == id,
    decreases entries.len(),
{
    if entries.len() > 0 {
        let front = entries.drop_last();
        lemma_jobs_map_domain(front, id);
        if jobs_map(front).dom().contains(id) {
            let i = choose|i: int| 0 <= i < front.len() && (#[trigger] front[i]).0 == id;
            assert(entries[i] == front[i]);
        }
        if exists|i: int| 0 <= i < entries.len() && (#[trigger] entries[i]).0 == id {
            let i = choose|i: int| 0 <= i < entries.len() && (#[trigger] entries[i]).0 == id;
            if i < entries.len() - 1 {
                assert(front[i] == entries[i]);
            }
        }
    }
}

proof fn lemma_jobs_map_value<T>(entries: Seq<(Seq<char>, T)>, i: int)
    requires
        distinct_ids(entries),
        0 <= i < entries.len(),
    ensures
        jobs_map(entries).dom().contains(entries[i].0),
        jobs_map(entries)[entries[i].0] == entries[i].1,
    decreases entries.len(),
{
    let front = entries.drop_last();
    if i < entries.len() - 1 {
        assert(front[i] == entries[i]);
        assert(distinct_ids(front)) by {
            assert forall|a: int, b: int|
                0 <= a < front.len() && 0 <= b < front.len() && a != b implies front[a].0
                != front[b].0 by {
                assert(front[a] == entries[a] && front[b] == entries[b]);
            }
        }
        lemma_jobs_map_value(front, i);
    }
}

proof fn lemma_jobs_map_remove<T>(entries: Seq<(Seq<char>, T)>, i: int)
    requires
        distinct_ids(entries),
        0 <= i < entries.len(),
    ensures
        jobs_map(entries.remove(i)) == jobs_map(entries).remove(entries[i].0),
        distinct_ids(entries.remove(i)),
    decreases entries.len(),
{
    let front = entries.drop_last();
    let k = entries[i].0;
    assert(distinct_ids(front)) by {
        assert forall|a: int, b: int|
            0 <= a < front.len() && 0 <= b < front.len() && a != b implies front[a].0 != front[b].0 by {
            assert(front[a] == entries[a] && front[b] == entries[b]);
        }
    }
    assert(distinct_ids(entries.remove(i))) by {
        let r = entries.remove(i);
        assert forall|a: int, b: int|
            0 <= a < r.len() && 0 <= b < r.len() && a != b implies r[a].0 != r[b].0 by {
            let ea = if a < i { a } else { a + 1 };
            let eb = if b < i { b } else { b + 1 };
            assert(r[a] == entries[ea] && r[b] == entries[eb]);
        }
    }
    if i == entries.len() - 1 {
        assert(entries.remove(i) =~= front);
        lemma_jobs_map_domain(front, k);
        assert forall|a: int| 0 <= a < front.len() implies (#[trigger] front[a]).0 != k by {
            assert(front[a] == entries[a]);
        }
        assert(jobs_map(front) =~= jobs_map(entries).remove(k));
    } else {
        lemma_jobs_map_remove(front, i);
        assert(front[i] == entries[i]);
        assert(entries.remove(i) =~= front.remove(i).push(entries.last()));
        assert(entries.remove(i).drop_last() =~= front.remove(i));
        assert(entries.last().0 != k);
        assert(jobs_map(entries.remove(i)) =~= jobs_map(entries).remove(k));
    }
}

/// A token that can be told to stop its job.
pub trait Cancellable {
    /// Asks the job that holds this token to stop.
    fn cancel(&self);
}

/// The active jobs of the front end, each with the token that cancels it.
/// An identifier is active at most once.
pub struct JobRegistry<T> {
    jobs: Vec<(String, T)>,
}

impl<T> JobRegistry<T> {
    /// Identifiers and tokens in the order they were registered.
    pub closed spec fn entries(&self) -> Seq<(Seq<char>, T)> {
        self.jobs@.map_values(|e: (String, T)| (e.0@, e.1))
    }

    /// The registry's invariant: no identifier twice.
    pub open spec fn wf(&self) -> bool {
        distinct_ids(self.entries())
    }

    /// The active jobs, each identifier mapped to its token.
    pub open spec fn active(&self) -> Map<Seq<char>, T> {
        jobs_map(self.entries())
    }

    /// No job active.
    pub fn new() -> (r: Self)
        ensures
            r.wf(),
            r.active() == Map::<Seq<char>, T>::empty(),
    {
        let r = JobRegistry { jobs: Vec::new() };
        assert(r.entries() =~= Seq::<(Seq<char>, T)>::empty());
        r
    }

    fn position(&self, id: &str) -> (p: Option<usize>)
        ensures
            match p {
                Some(i) => i < self.entries().len() && self.entries()[i as int].0 == id@,
                None => forall|i: int| 0 <= i < self.entries().len() ==> self.entries()[i].0 != id@,
            },
    {
        let mut i: usize = 0;
        while i < self.jobs.len()
            invariant
                i <= self.jobs@.len(),
                self.entries().len() == self.jobs@.len(),
                forall|j: int| 0 <= j < i ==> self.entries()[j].0 != id@,
            decreases self.jobs@.len() - i,
        {
            if str_equals(self.jobs[i].0.as_str(), id) {
                return Some(i);
            }
            i = i + 1;
        }
        None
    }

    /// Registers `id` with `token`; refused when `id` is already active.
    pub fn insert(&mut self, id: &str, token: T) -> (r: Result<(), String>)
        requires
            old(self).wf(),
        ensures
            final(self).wf(),
            r is Err <==> old(self).active().dom().contains(id@),
            r is Ok ==> final(self).active() == old(self).active().insert(id@, token),
            r is Err ==> final(self).active() == old(self).active(),
            r matches Err(m) ==> m@ == "job id is already active"@,
    {
        proof {
            lemma_jobs_map_domain(self.entries(), id@);
        }
        match self.position(id) {
            Some(_) => Err(String::from_str("job id is already active")),
            None => {
                let ghost before = self.entries();
                self.jobs.push((String::from_str(id), token));
                assert(self.entries() =~= before.push((id@, token)));
                assert(self.entries().drop_last() =~= before);
                Ok(())
            },
        }
    }

    /// Forgets `id`; nothing happens when it is not active.
    pub fn remove(&mut self, id: &str)
        requires
            old(self).wf(),
        ensures
            final(self).wf(),
            final(self).active() == old(self).active().remove(id@),
    {
        proof {
            lemma_jobs_map_domain(self.entries(), id@);
        }
        match self.position(id) {
            Some(i) => {
                let ghost before = self.entries();
                proof {
                    lemma_jobs_map_remove(before, i as int);
                }
                let _ = self.jobs.remove(i);
                assert(self.entries() =~= before.remove(i as int));
            },
            None => {
                assert(self.active() =~= old(self).active().remove(id@));
            },
        }
    }

    /// The token of `id`, if it is active.
    pub fn token(&self, id: &str) -> (t: Option<&T>)
        requires
            self.wf(),
        ensures
            t is Some <==> self.active().dom().contains(id@),
            t matches Some(v) ==> *v == self.active()[id@],
    {
        proof {
            lemma_jobs_map_domain(self.entries(), id@);
        }
        match self.position(id) {
            Some(i) => {
                proof {
                    lemma_jobs_map_value(self.entries(), i as int);
                }
                Some(&self.jobs[i].1)
            },
            None => None,
        }
    }

    /// Cancels the job `id`; whether it was active.
    pub fn cancel(&self, id: &str) -> (found: bool)
        where T: Cancellable,
        requires
            self.wf(),
        ensures
            found == self.active().dom().contains(id@),
    {
        match self.token(id) {
            Some(t) => {
                t.cancel();
                true
            },
            None => false,
        }
    }
}

/// Registering an identifier that is active is refused and changes nothing;
/// once it is removed, it can be registered again.
pub proof fn lemma_register_after_release<T>(active: Map<Seq<char>, T>, id: Seq<char>, token: T)
    ensures
        active.insert(id, token).dom().contains(id),
        !active.insert(id, token).remove(id).dom().contains(id),
{
}

} // verus!
