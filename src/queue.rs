//! The job queue: the store of jobs by identifier and the pending order,
//! highest priority first and first-come first-served within a priority.
//!
//! Dispatch pops the best pending token; a token whose job is no longer
//! pending (cancelled or removed) is discarded, so each token yields its job
//! at most once. Callers that share a queue between threads hold it behind a
//! lock: every method here runs to completion on its own.

use vstd::prelude::*;
use vstd::string::*;
use crate::error::TranscodeError;
use crate::job::{active, finished, id_string, id_text, rank, Job, JobId, JobStatus, Priority};
use crate::text::owned;

verus! {

#[verifier::external_type_specification]
#[verifier::external_body]
#[verifier::reject_recursive_types(K)]
#[verifier::reject_recursive_types(V)]
#[verifier::reject_recursive_types(S)]
pub struct ExDashMap<K, V, S>(dashmap::DashMap<K, V, S>);

/// The entries of a job table.
/// The job table: jobs by identifier.
pub type JobTable = dashmap::DashMap<JobId, Job>;

pub uninterp spec fn stored_jobs(m: JobTable) -> Map<JobId, Job>;

pub open spec fn no_jobs() -> Map<JobId, Job> {
    Map::empty()
}

/// Relies on `dashmap::DashMap::new`: an empty map.
#[verifier::external_body]
fn table_new() -> (r: JobTable)
    ensures
        stored_jobs(r) == no_jobs(),
{
    dashmap::DashMap::new()
}

/// Relies on `dashmap::DashMap::insert`: the key now maps to the value.
#[verifier::external_body]
fn table_insert(m: &mut JobTable, k: JobId, v: Job)
    ensures
        stored_jobs(*final(m)) == stored_jobs(*old(m)).insert(k, v),
{
    m.insert(k, v);
}

/// Relies on `dashmap::DashMap::get`: a copy of the value stored at the key.
#[verifier::external_body]
fn table_get(m: &JobTable, k: JobId) -> (r: Option<Job>)
    ensures
        r == stored_jobs(*m).get(k),
{
    m.get(&k).map(|e| e.value().clone())
}

/// Relies on `dashmap::DashMap::remove`: the entry leaves the map and its
/// value is returned.
#[verifier::external_body]
fn table_remove(m: &mut JobTable, k: JobId) -> (r: Option<Job>)
    ensures
        r == stored_jobs(*old(m)).get(k),
        stored_jobs(*final(m)) == stored_jobs(*old(m)).remove(k),
{
    m.remove(&k).map(|e| e.1)
}

/// Relies on `dashmap::DashMap::iter`: every entry once, in an order that
/// the map does not fix.
#[verifier::external_body]
fn table_entries(m: &JobTable) -> (r: Vec<(JobId, Job)>)
    ensures
        forall|i: int| 0 <= i < r@.len() ==> stored_jobs(*m).contains_key(#[trigger] r@[i].0)
            && stored_jobs(*m)[r@[i].0] == r@[i].1,
        forall|i: int, j: int| 0 <= i < j < r@.len() ==> #[trigger] r@[i].0 != #[trigger] r@[j].0,
        forall|k: JobId| stored_jobs(*m).contains_key(k) ==> exists|i: int| 0 <= i < r@.len() && #[trigger] r@[i].0 == k,
{
    m.iter().map(|e| (*e.key(), e.value().clone())).collect()
}

/// A pending job's place in the dispatch order.
#[derive(Debug, Clone, Copy, PartialEq, Eq, Structural)]
pub struct PendingToken {
    pub job_id: JobId,
    pub priority: Priority,
    pub created_at: i64,
}

/// `a` is dispatched before `b`: higher priority, or the same priority and
/// created earlier.
pub open spec fn outranks(a: PendingToken, b: PendingToken) -> bool {
    rank(a.priority) > rank(b.priority) || (rank(a.priority) == rank(b.priority) && a.created_at < b.created_at)
}

impl PendingToken {
    pub fn of(job: &Job) -> (r: PendingToken)
        ensures
            r == token_of(*job),
    {
        PendingToken { job_id: job.id, priority: job.priority, created_at: job.created_at }
    }

    /// Whether this token is dispatched before `other`.
    pub fn outranks(&self, other: &PendingToken) -> (r: bool)
        ensures
            r == outranks(*self, *other),
    {
        let a = self.priority.level();
        let b = other.priority.level();
        a > b || (a == b && self.created_at < other.created_at)
    }
}

pub open spec fn token_of(j: Job) -> PendingToken {
    PendingToken { job_id: j.id, priority: j.priority, created_at: j.created_at }
}

/// The first token that no other token outranks.
pub open spec fn best_index(s: Seq<PendingToken>) -> int
    decreases s.len(),
{
    if s.len() <= 1 {
        0
    } else {
        let b = best_index(s.drop_last());
        if outranks(s.last(), s[b]) { s.len() - 1 } else { b }
    }
}

pub proof fn lemma_best_index(s: Seq<PendingToken>)
    requires
        s.len() > 0,
    ensures
        0 <= best_index(s) < s.len(),
        forall|j: int| 0 <= j < s.len() ==> !outranks(#[trigger] s[j], s[best_index(s)]),
    decreases s.len(),
{
    if s.len() > 1 {
        let t = s.drop_last();
        lemma_best_index(t);
        let b = best_index(t);
        assert forall|j: int| 0 <= j < s.len() implies !outranks(#[trigger] s[j], s[best_index(s)]) by {
            if j < s.len() - 1 {
                assert(s[j] == t[j]);
                assert(!outranks(t[j], t[b]));
            }
        }
    }
}

/// What dispatch does: pop the best token; return its job when that job is
/// still pending, otherwise discard the token and go on. The second part is
/// the tokens left.
pub open spec fn next_pick(jobs: Map<JobId, Job>, tokens: Seq<PendingToken>) -> (Option<JobId>, Seq<PendingToken>)
    decreases tokens.len(),
{
    if tokens.len() == 0 {
        (None, tokens)
    } else {
        let i = best_index(tokens);
        if 0 <= i < tokens.len() {
            let t = tokens[i];
            let rest = tokens.remove(i);
            if jobs.contains_key(t.job_id) && jobs[t.job_id].status == JobStatus::Pending {
                (Some(t.job_id), rest)
            } else {
                next_pick(jobs, rest)
            }
        } else {
            (None, tokens)
        }
    }
}


pub proof fn lemma_remove_distinct(s: Seq<PendingToken>, i: int)
    requires
        distinct_ids(s),
        0 <= i < s.len(),
    ensures
        distinct_ids(s.remove(i)),
        forall|k: int| 0 <= k < s.remove(i).len() ==> #[trigger] s.remove(i)[k].job_id != s[i].job_id,
        forall|x: PendingToken| s.contains(x) && x != s[i] ==> s.remove(i).contains(x),
{
    let r = s.remove(i);
    assert forall|a: int, b: int| 0 <= a < b < r.len() implies #[trigger] r[a].job_id != #[trigger] r[b].job_id by {
        let a2 = if a < i { a } else { a + 1 };
        let b2 = if b < i { b } else { b + 1 };
        assert(r[a] == s[a2]);
        assert(r[b] == s[b2]);
    }
    assert forall|k: int| 0 <= k < r.len() implies #[trigger] r[k].job_id != s[i].job_id by {
        let k2 = if k < i { k } else { k + 1 };
        assert(r[k] == s[k2]);
    }
    assert forall|x: PendingToken| s.contains(x) && x != s[i] implies r.contains(x) by {
        let k = choose|k: int| 0 <= k < s.len() && s[k] == x;
        let k2 = if k < i { k } else { k - 1 };
        assert(r[k2] == x);
    }
}

/// Dispatch never hands out a job twice and never idles while a pending job
/// holds a token: the returned job has no token left, a pending job with a
/// token means some job is returned, and each call consumes at least one
/// token when there is one.
pub proof fn law_single_delivery(q: QueueModel)
    requires
        queue_wf(q),
    ensures
        distinct_ids(next_pick(q.jobs, q.tokens).1),
        next_pick(q.jobs, q.tokens).0 matches Some(id) ==> forall|k: int| 0 <= k < next_pick(q.jobs, q.tokens).1.len()
            ==> (#[trigger] next_pick(q.jobs, q.tokens).1[k]).job_id != id,
        (exists|a: int| 0 <= a < q.tokens.len() && q.jobs.contains_key(#[trigger] q.tokens[a].job_id)
            && q.jobs[q.tokens[a].job_id].status == JobStatus::Pending) ==> next_pick(q.jobs, q.tokens).0 is Some,
        q.tokens.len() > 0 ==> next_pick(q.jobs, q.tokens).1.len() < q.tokens.len(),
    decreases q.tokens.len(),
{
    if q.tokens.len() > 0 {
        lemma_best_index(q.tokens);
        let i = best_index(q.tokens);
        let t = q.tokens[i];
        let rest = q.tokens.remove(i);
        lemma_remove_distinct(q.tokens, i);
        let q2 = QueueModel { jobs: q.jobs, tokens: rest };
        if !(q.jobs.contains_key(t.job_id) && q.jobs[t.job_id].status == JobStatus::Pending) {
            law_single_delivery(q2);
            if exists|a: int| 0 <= a < q.tokens.len() && q.jobs.contains_key(#[trigger] q.tokens[a].job_id)
                && q.jobs[q.tokens[a].job_id].status == JobStatus::Pending {
                let a = choose|a: int| 0 <= a < q.tokens.len() && q.jobs.contains_key(#[trigger] q.tokens[a].job_id)
                    && q.jobs[q.tokens[a].job_id].status == JobStatus::Pending;
                assert(q.tokens.contains(q.tokens[a]));
                assert(rest.contains(q.tokens[a]));
                let b = choose|b: int| 0 <= b < rest.len() && rest[b] == q.tokens[a];
                assert(q.jobs.contains_key(rest[b].job_id));
            }
        }
    }
}

/// Dispatch respects priority, then creation time: a pending job whose
/// token is present is never passed over for a token that it outranks.
pub proof fn law_dispatch_order(q: QueueModel, ta: PendingToken)
    requires
        q.tokens.contains(ta),
        q.jobs.contains_key(ta.job_id),
        q.jobs[ta.job_id].status == JobStatus::Pending,
    ensures
        next_pick(q.jobs, q.tokens).0 is Some,
        exists|k: int| 0 <= k < q.tokens.len() && (#[trigger] q.tokens[k]).job_id == next_pick(q.jobs, q.tokens).0->0
            && !outranks(ta, q.tokens[k]),
    decreases q.tokens.len(),
{
    lemma_best_index(q.tokens);
    let i = best_index(q.tokens);
    let t = q.tokens[i];
    let rest = q.tokens.remove(i);
    let a = choose|a: int| 0 <= a < q.tokens.len() && q.tokens[a] == ta;
    assert(!outranks(q.tokens[a], t));
    if !(q.jobs.contains_key(t.job_id) && q.jobs[t.job_id].status == JobStatus::Pending) {
        assert(ta != t);
        assert(rest[if a < i { a } else { a - 1 }] == ta);
        assert(rest.contains(ta));
        law_dispatch_order(QueueModel { jobs: q.jobs, tokens: rest }, ta);
        let k = choose|k: int| 0 <= k < rest.len() && (#[trigger] rest[k]).job_id == next_pick(q.jobs, rest).0->0
            && !outranks(ta, rest[k]);
        let k2 = if k < i { k } else { k + 1 };
        assert(q.tokens[k2] == rest[k]);
    } else {
        assert(q.tokens[i].job_id == next_pick(q.jobs, q.tokens).0->0);
    }
}

/// A job that was added is found under its identifier, as given but pending.
pub proof fn law_job_identity(q: QueueModel, j: Job)
    ensures
        added(q, j).jobs.get(j.id) == Some(as_pending(j)),
{
}

pub open spec fn status_kept(keep: Option<JobStatus>, s: JobStatus) -> bool {
    match keep {
        Some(k) => s == k,
        None => true,
    }
}

/// Counts of the queue's jobs by status.
#[derive(Debug, Clone, Copy, PartialEq, Eq, Structural)]
pub struct QueueStats {
    pub total_count: usize,
    pub pending_count: usize,
    pub running_count: usize,
    pub completed_count: usize,
    pub failed_count: usize,
    pub cancelled_count: usize,
}

/// Number of stored jobs with status `s`.
pub open spec fn status_count(jobs: Map<JobId, Job>, s: JobStatus) -> nat {
    jobs.dom().filter(|k: JobId| jobs[k].status == s).len()
}

/// The queue as a value: its jobs by identifier and its pending tokens.
pub ghost struct QueueModel {
    pub jobs: Map<JobId, Job>,
    pub tokens: Seq<PendingToken>,
}

pub open spec fn distinct_ids(s: Seq<PendingToken>) -> bool {
    forall|i: int, j: int| 0 <= i < j < s.len() ==> #[trigger] s[i].job_id != #[trigger] s[j].job_id
}

pub proof fn lemma_filter_distinct(s: Seq<PendingToken>, p: spec_fn(PendingToken) -> bool)
    requires
        distinct_ids(s),
    ensures
        distinct_ids(s.filter(p)),
        forall|x: PendingToken| s.filter(p).contains(x) ==> s.contains(x),
    decreases s.len(),
{
    broadcast use vstd::seq_lib::group_filter_ensures;
    if s.len() > 0 {
        let t = s.drop_last();
        let last = s.last();
        assert(distinct_ids(t));
        lemma_filter_distinct(t, p);
        assert(s =~= t.push(last));
        t.lemma_filter_push(last, p);
        assert forall|x: PendingToken| s.filter(p).contains(x) implies s.contains(x) by {
            if t.filter(p).contains(x) {
                assert(t.contains(x));
                let k = choose|k: int| 0 <= k < t.len() && t[k] == x;
                assert(s[k] == t[k]);
            } else {
                assert(s[s.len() - 1] == x);
            }
        }
        if p(last) {
            let f = t.filter(p);
            assert forall|i: int, j: int| 0 <= i < j < f.len() + 1 implies #[trigger] f.push(last)[i].job_id != #[trigger] f.push(last)[j].job_id by {
                if j == f.len() {
                    assert(f.contains(f[i]));
                    assert(t.contains(f[i]));
                    let k = choose|k: int| 0 <= k < t.len() && t[k] == f[i];
                    assert(s[k] == t[k]);
                    assert(s[s.len() - 1] == last);
                }
            }
        }
    }
}

/// No job has two tokens, and each job is stored under its own identifier.
pub open spec fn queue_wf(q: QueueModel) -> bool {
    &&& distinct_ids(q.tokens)
    &&& forall|k: JobId| #[trigger] q.jobs.contains_key(k) ==> q.jobs[k].id == k
}

/// A job as the queue stores it: forced to Pending.
pub open spec fn as_pending(j: Job) -> Job {
    Job { status: JobStatus::Pending, ..j }
}

/// The queue after a successful `add_job`: the job stored as pending, and
/// its token replacing any earlier token of the same identifier.
pub open spec fn added(q: QueueModel, j: Job) -> QueueModel {
    QueueModel {
        jobs: q.jobs.insert(j.id, as_pending(j)),
        tokens: q.tokens.filter(|t: PendingToken| t.job_id != j.id).push(token_of(j)),
    }
}

/// The text of an error for a missing input path.
pub open spec fn missing_input_text(path: Seq<char>) -> Seq<char> {
    "Input file does not exist: \""@ + path + "\""@
}

/// The thread-safe-by-lock job store with priority dispatch.
pub struct JobQueue {
    jobs: JobTable,
    pending: Vec<PendingToken>,
}

impl View for JobQueue {
    type V = QueueModel;

    closed spec fn view(&self) -> QueueModel {
        QueueModel { jobs: stored_jobs(self.jobs), tokens: self.pending@ }
    }
}

fn find_best(v: &Vec<PendingToken>) -> (r: usize)
    requires
        v@.len() > 0,
    ensures
        r as int == best_index(v@),
        r < v@.len(),
{
    let mut b: usize = 0;
    let mut i: usize = 1;
    assert(v@.subrange(0, 1).len() == 1);
    while i < v.len()
        invariant
            1 <= i <= v@.len(),
            b < i,
            b as int == best_index(v@.subrange(0, i as int)),
        decreases v@.len() - i,
    {
        let ghost pre = v@.subrange(0, i as int);
        let ghost next = v@.subrange(0, i + 1);
        assert(next.drop_last() =~= pre);
        assert(next.last() == v@[i as int]);
        assert(pre[b as int] == v@[b as int]);
        if v[i].outranks(&v[b]) {
            b = i;
        }
        i = i + 1;
    }
    assert(v@.subrange(0, i as int) =~= v@);
    b
}

impl JobQueue {
    /// An empty queue.
    pub fn new() -> (r: JobQueue)
        ensures
            r@.jobs == Map::<JobId, Job>::empty(),
            r@.tokens == Seq::<PendingToken>::empty(),
            queue_wf(r@),
    {
        let r = JobQueue { jobs: table_new(), pending: Vec::new() };
        proof {
            assert(r@.jobs == Map::<JobId, Job>::empty());
            assert(r@.tokens =~= Seq::<PendingToken>::empty());
        }
        r
    }

    /// Whether a job is stored under `job_id`.
    pub fn contains(&self, job_id: JobId) -> (r: bool)
        ensures
            r == self@.jobs.contains_key(job_id),
    {
        table_get(&self.jobs, job_id).is_some()
    }

    /// Adds a job as pending. `input_exists` tells whether the job's input
    /// path exists. A job whose identifier is already stored is refused
    /// first, then one whose input is missing; the queue is then unchanged.
    pub fn add_job(&mut self, job: Job, input_exists: bool) -> (r: Result<JobId, TranscodeError>)
        ensures
            r is Ok <==> !old(self)@.jobs.contains_key(job.id) && input_exists,
            r matches Ok(id) ==> id == job.id && final(self)@ == added(old(self)@, job),
            r is Err ==> final(self)@ == old(self)@,
            old(self)@.jobs.contains_key(job.id) ==> (r matches Err(TranscodeError::JobAlreadyExists(m)) && m@ == id_text(job.id)),
            !old(self)@.jobs.contains_key(job.id) && !input_exists ==> (r matches Err(TranscodeError::InvalidInput(m)) && m@ == missing_input_text(job.input_path@)),
            queue_wf(old(self)@) ==> queue_wf(final(self)@),
    {
        let job_id = job.id;
        if self.contains(job_id) {
            return Err(TranscodeError::JobAlreadyExists(id_string(job_id)));
        }
        if !input_exists {
            let mut m = owned("Input file does not exist: \"");
            m.append(job.input_path.as_str());
            m.append("\"");
            return Err(TranscodeError::InvalidInput(m));
        }
        let mut job = job;
        job.status = JobStatus::Pending;
        let token = PendingToken::of(&job);
        let ghost p = |t: PendingToken| t.job_id != job_id;
        let mut kept: Vec<PendingToken> = Vec::new();
        let mut i: usize = 0;
        while i < self.pending.len()
            invariant
                i <= self.pending@.len(),
                kept@ == self.pending@.subrange(0, i as int).filter(p),
                p == (|t: PendingToken| t.job_id != job_id),
            decreases self.pending@.len() - i,
        {
            let t = self.pending[i];
            proof {
                let pre = self.pending@.subrange(0, i as int);
                assert(self.pending@.subrange(0, i + 1) =~= pre.push(t));
                pre.lemma_filter_push(t, p);
            }
            if t.job_id != job_id {
                kept.push(t);
            }
            i = i + 1;
        }
        assert(self.pending@.subrange(0, i as int) =~= self.pending@);
        kept.push(token);
        proof {
            if queue_wf(old(self)@) {
                lemma_filter_distinct(old(self)@.tokens, p);
                let f = old(self)@.tokens.filter(p);
                assert forall|a: int| 0 <= a < f.len() implies (#[trigger] f[a]).job_id != job_id by {
                    old(self)@.tokens.lemma_filter_pred(p, a);
                }
                assert(distinct_ids(kept@));
            }
        }
        self.pending = kept;
        table_insert(&mut self.jobs, job_id, job);
        proof {
            assert(self@.jobs == added(old(self)@, job).jobs);
            assert(self@.tokens == added(old(self)@, job).tokens);
        }
        Ok(job_id)
    }

    /// Hands out the pending job that comes first in the dispatch order,
    /// discarding tokens of jobs that are no longer pending.
    pub fn get_next_job(&mut self) -> (r: Option<JobId>)
        ensures
            (r, final(self)@.tokens) == next_pick(old(self)@.jobs, old(self)@.tokens),
            final(self)@.jobs == old(self)@.jobs,
            queue_wf(old(self)@) ==> queue_wf(final(self)@),
    {
        proof {
            if queue_wf(old(self)@) {
                law_single_delivery(old(self)@);
            }
        }
        while self.pending.len() > 0
            invariant
                next_pick(self@.jobs, self@.tokens) == next_pick(old(self)@.jobs, old(self)@.tokens),
                self@.jobs == old(self)@.jobs,
                queue_wf(old(self)@) ==> distinct_ids(next_pick(old(self)@.jobs, old(self)@.tokens).1),
            decreases self@.tokens.len(),
        {
            let i = find_best(&self.pending);
            let t = self.pending.remove(i);
            match table_get(&self.jobs, t.job_id) {
                Some(j) => {
                    if j.status == JobStatus::Pending {
                        return Some(t.job_id);
                    }
                },
                None => {},
            }
        }
        None
    }

    /// A copy of the job stored under `job_id`.
    pub fn get_job(&self, job_id: JobId) -> (r: Option<Job>)
        ensures
            r == self@.jobs.get(job_id),
    {
        table_get(&self.jobs, job_id)
    }

    /// Replaces a stored job by `job`; a job that is not stored is refused.
    pub fn update_job(&mut self, job: Job) -> (r: Result<(), TranscodeError>)
        ensures
            r is Ok <==> old(self)@.jobs.contains_key(job.id),
            r is Ok ==> final(self)@.jobs == old(self)@.jobs.insert(job.id, job),
            r is Err ==> (r matches Err(TranscodeError::JobNotFound(m)) && m@ == id_text(job.id)) && final(self)@.jobs == old(self)@.jobs,
            final(self)@.tokens == old(self)@.tokens,
            queue_wf(old(self)@) ==> queue_wf(final(self)@),
    {
        let job_id = job.id;
        if !self.contains(job_id) {
            return Err(TranscodeError::JobNotFound(id_string(job_id)));
        }
        table_insert(&mut self.jobs, job_id, job);
        Ok(())
    }

    /// Takes the job stored under `job_id` out of the queue.
    pub fn remove_job(&mut self, job_id: JobId) -> (r: Result<Job, TranscodeError>)
        ensures
            r is Ok <==> old(self)@.jobs.contains_key(job_id),
            r matches Ok(j) ==> j == old(self)@.jobs[job_id],
            r is Err ==> (r matches Err(TranscodeError::JobNotFound(m)) && m@ == id_text(job_id)),
            final(self)@.jobs == old(self)@.jobs.remove(job_id),
            final(self)@.tokens == old(self)@.tokens,
            queue_wf(old(self)@) ==> queue_wf(final(self)@),
    {
        match table_remove(&mut self.jobs, job_id) {
            Some(j) => Ok(j),
            None => {
                proof {
                    assert(self@.jobs =~= old(self)@.jobs.remove(job_id));
                }
                Err(TranscodeError::JobNotFound(id_string(job_id)))
            },
        }
    }

    /// Marks a stored job Cancelled when it is pending or running; a finished
    /// job is left as it is. A job that is not stored is refused.
    pub fn cancel_job(&mut self, job_id: JobId) -> (r: Result<(), TranscodeError>)
        ensures
            r is Ok <==> old(self)@.jobs.contains_key(job_id),
            !old(self)@.jobs.contains_key(job_id) ==> (r matches Err(TranscodeError::JobNotFound(m)) && m@ == id_text(job_id))
                && final(self)@ == old(self)@,
            old(self)@.jobs.contains_key(job_id) && finished(old(self)@.jobs[job_id].status) ==> final(self)@ == old(self)@,
            old(self)@.jobs.contains_key(job_id) && active(old(self)@.jobs[job_id].status) ==> {
                &&& final(self)@.jobs.contains_key(job_id)
                &&& final(self)@.jobs[job_id] == (Job {
                    status: JobStatus::Cancelled,
                    completed_at: final(self)@.jobs[job_id].completed_at,
                    ..old(self)@.jobs[job_id]
                })
                &&& final(self)@.jobs.remove(job_id) == old(self)@.jobs.remove(job_id)
                &&& final(self)@.tokens == old(self)@.tokens
            },
            queue_wf(old(self)@) ==> queue_wf(final(self)@),
    {
        match table_get(&self.jobs, job_id) {
            Some(j) => {
                if j.is_active() {
                    let mut j = j;
                    j.cancel();
                    table_insert(&mut self.jobs, job_id, j);
                    proof {
                        assert(self@.jobs.remove(job_id) =~= old(self)@.jobs.remove(job_id));
                    }
                }
                Ok(())
            },
            None => Err(TranscodeError::JobNotFound(id_string(job_id))),
        }
    }

    /// Copies of the stored jobs whose status satisfies `keep`: all of them
    /// when `keep` is `None`. Each such job appears once.
    fn collect_jobs(&self, keep: Option<JobStatus>) -> (r: Vec<Job>)
        requires
            queue_wf(self@),
        ensures
            forall|i: int| 0 <= i < r@.len() ==> self@.jobs.contains_key((#[trigger] r@[i]).id)
                && self@.jobs[r@[i].id] == r@[i] && status_kept(keep, r@[i].status),
            forall|i: int, j: int| 0 <= i < j < r@.len() ==> (#[trigger] r@[i]).id != (#[trigger] r@[j]).id,
            forall|k: JobId| #[trigger] self@.jobs.contains_key(k) && status_kept(keep, self@.jobs[k].status)
                ==> exists|i: int| 0 <= i < r@.len() && (#[trigger] r@[i]).id == k,
    {
        let mut entries = table_entries(&self.jobs);
        let ghost orig = entries@;
        let mut r: Vec<Job> = Vec::new();
        let ghost mut from: Seq<int> = Seq::empty();
        while entries.len() > 0
            invariant
                entries@.len() <= orig.len(),
                entries@ == orig.subrange(0, entries@.len() as int),
                queue_wf(self@),
                from.len() == r@.len(),
                forall|a: int| 0 <= a < r@.len() ==> entries@.len() <= #[trigger] from[a] < orig.len()
                    && orig[from[a]].1 == r@[a] && orig[from[a]].0 == r@[a].id,
                forall|a: int, b: int| 0 <= a < b < r@.len() ==> #[trigger] from[a] > #[trigger] from[b],
                forall|a: int| 0 <= a < r@.len() ==> self@.jobs.contains_key((#[trigger] r@[a]).id)
                    && self@.jobs[r@[a].id] == r@[a] && status_kept(keep, r@[a].status),
                forall|e: int| entries@.len() <= e < orig.len() && #[trigger] status_kept(keep, orig[e].1.status)
                    ==> exists|a: int| 0 <= a < r@.len() && #[trigger] from[a] == e,
                forall|x: int| 0 <= x < orig.len() ==> self@.jobs.contains_key(#[trigger] orig[x].0)
                    && self@.jobs[orig[x].0] == orig[x].1,
                forall|x: int, y: int| 0 <= x < y < orig.len() ==> #[trigger] orig[x].0 != #[trigger] orig[y].0,
                forall|k: JobId| self@.jobs.contains_key(k) ==> exists|x: int| 0 <= x < orig.len() && #[trigger] orig[x].0 == k,
            decreases entries@.len(),
        {
            let ghost n = entries@.len() - 1;
            let ghost from0 = from;
            let ghost len0 = r@.len();
            let e = entries.pop().unwrap();
            assert(e == orig[n]);
            let take = match keep {
                Some(s) => e.1.status == s,
                None => true,
            };
            assert(take == status_kept(keep, orig[n].1.status));
            if take {
                proof {
                    assert(self@.jobs[orig[n].0].id == orig[n].0);
                }
                r.push(e.1);
                proof {
                    from = from.push(n);
                }
            }
            proof {
                assert(entries@ =~= orig.subrange(0, entries@.len() as int));
                assert forall|x: int| entries@.len() <= x < orig.len() && #[trigger] status_kept(keep, orig[x].1.status)
                    implies exists|a: int| 0 <= a < r@.len() && #[trigger] from[a] == x by {
                    if x == n {
                        assert(from[r@.len() - 1] == x);
                    } else {
                        let a = choose|a: int| 0 <= a < len0 && #[trigger] from0[a] == x;
                        assert(from[a] == from0[a]);
                    }
                }
            }
        }
        proof {
            assert forall|a: int, b: int| 0 <= a < b < r@.len() implies (#[trigger] r@[a]).id != (#[trigger] r@[b]).id by {
                assert(from[a] > from[b]);
                assert(orig[from[b]].0 != orig[from[a]].0);
            }
            assert forall|k: JobId| #[trigger] self@.jobs.contains_key(k) && status_kept(keep, self@.jobs[k].status)
                implies exists|a: int| 0 <= a < r@.len() && (#[trigger] r@[a]).id == k by {
                let x = choose|x: int| 0 <= x < orig.len() && #[trigger] orig[x].0 == k;
                assert(status_kept(keep, orig[x].1.status));
                let a = choose|a: int| 0 <= a < r@.len() && #[trigger] from[a] == x;
                assert(r@[a].id == k);
            }
        }
        r
    }

    /// Copies of all stored jobs, each once, in no particular order.
    pub fn get_all_jobs(&self) -> (r: Vec<Job>)
        requires
            queue_wf(self@),
        ensures
            forall|i: int| 0 <= i < r@.len() ==> self@.jobs.contains_key((#[trigger] r@[i]).id)
                && self@.jobs[r@[i].id] == r@[i],
            forall|i: int, j: int| 0 <= i < j < r@.len() ==> (#[trigger] r@[i]).id != (#[trigger] r@[j]).id,
            forall|k: JobId| #[trigger] self@.jobs.contains_key(k) ==> exists|i: int| 0 <= i < r@.len() && (#[trigger] r@[i]).id == k,
    {
        self.collect_jobs(None)
    }

    /// Copies of the stored jobs with status `status`, each once.
    pub fn get_jobs_by_status(&self, status: JobStatus) -> (r: Vec<Job>)
        requires
            queue_wf(self@),
        ensures
            forall|i: int| 0 <= i < r@.len() ==> self@.jobs.contains_key((#[trigger] r@[i]).id)
                && self@.jobs[r@[i].id] == r@[i] && r@[i].status == status,
            forall|i: int, j: int| 0 <= i < j < r@.len() ==> (#[trigger] r@[i]).id != (#[trigger] r@[j]).id,
            forall|k: JobId| #[trigger] self@.jobs.contains_key(k) && self@.jobs[k].status == status
                ==> exists|i: int| 0 <= i < r@.len() && (#[trigger] r@[i]).id == k,
    {
        self.collect_jobs(Some(status))
    }

    /// Counts the stored jobs with a status that `keep` accepts.
    fn count_jobs(&self, list: &Vec<Job>, keep: Option<JobStatus>) -> (r: usize)
        requires
            forall|i: int| 0 <= i < list@.len() ==> self@.jobs.contains_key((#[trigger] list@[i]).id)
                && self@.jobs[list@[i].id] == list@[i],
            forall|i: int, j: int| 0 <= i < j < list@.len() ==> (#[trigger] list@[i]).id != (#[trigger] list@[j]).id,
            forall|k: JobId| #[trigger] self@.jobs.contains_key(k) ==> exists|i: int| 0 <= i < list@.len() && (#[trigger] list@[i]).id == k,
        ensures
            r == self@.jobs.dom().filter(|k: JobId| status_kept(keep, self@.jobs[k].status)).len(),
    {
        broadcast use vstd::set::group_set_axioms;
        let ghost jobs = self@.jobs;
        let ghost p = |k: JobId| status_kept(keep, jobs[k].status);
        let ghost mut seen: Set<JobId> = Set::empty();
        let mut n: usize = 0;
        let mut i: usize = 0;
        assert(seen.filter(p) =~= Set::<JobId>::empty());
        assert(seen =~= Set::new(|k: JobId| exists|a: int| 0 <= a < 0 && (#[trigger] list@[a]).id == k));
        while i < list.len()
            invariant
                i <= list@.len(),
                jobs == self@.jobs,
                p == (|k: JobId| status_kept(keep, jobs[k].status)),
                seen.finite(),
                seen == Set::new(|k: JobId| exists|a: int| 0 <= a < i && (#[trigger] list@[a]).id == k),
                n == seen.filter(p).len(),
                n <= i,
                forall|a: int| 0 <= a < list@.len() ==> jobs.contains_key((#[trigger] list@[a]).id)
                    && jobs[list@[a].id] == list@[a],
                forall|a: int, b: int| 0 <= a < b < list@.len() ==> (#[trigger] list@[a]).id != (#[trigger] list@[b]).id,
            decreases list@.len() - i,
        {
            let id = list[i].id;
            let take = match keep {
                Some(s) => list[i].status == s,
                None => true,
            };
            proof {
                assert(!seen.contains(id)) by {
                    if seen.contains(id) {
                        let a = choose|a: int| 0 <= a < i && (#[trigger] list@[a]).id == id;
                        assert(list@[a].id != list@[i as int].id);
                    }
                }
                let seen2 = seen.insert(id);
                assert(seen2 =~= Set::new(|k: JobId| exists|a: int| 0 <= a < i + 1 && (#[trigger] list@[a]).id == k)) by {
                    assert forall|k: JobId| seen2.contains(k) implies exists|a: int| 0 <= a < i + 1 && (#[trigger] list@[a]).id == k by {
                        if k == id {
                            assert(list@[i as int].id == k);
                        }
                    }
                }
                assert(take == p(id));
                if take {
                    assert(seen2.filter(p) =~= seen.filter(p).insert(id));
                } else {
                    assert(seen2.filter(p) =~= seen.filter(p));
                }
                seen = seen2;
            }
            if take {
                n = n + 1;
            }
            i = i + 1;
        }
        proof {
            assert(seen =~= jobs.dom()) by {
                assert forall|k: JobId| jobs.dom().contains(k) implies seen.contains(k) by {
                    let a = choose|a: int| 0 <= a < list@.len() && (#[trigger] list@[a]).id == k;
                }
            }
        }
        n
    }

    /// Counts of the stored jobs by status, and in all.
    pub fn get_stats(&self) -> (r: QueueStats)
        requires
            queue_wf(self@),
        ensures
            r.total_count == self@.jobs.dom().len(),
            r.pending_count == status_count(self@.jobs, JobStatus::Pending),
            r.running_count == status_count(self@.jobs, JobStatus::Running),
            r.completed_count == status_count(self@.jobs, JobStatus::Completed),
            r.failed_count == status_count(self@.jobs, JobStatus::Failed),
            r.cancelled_count == status_count(self@.jobs, JobStatus::Cancelled),
    {
        let list = self.get_all_jobs();
        let total_count = self.count_jobs(&list, None);
        let pending_count = self.count_jobs(&list, Some(JobStatus::Pending));
        let running_count = self.count_jobs(&list, Some(JobStatus::Running));
        let completed_count = self.count_jobs(&list, Some(JobStatus::Completed));
        let failed_count = self.count_jobs(&list, Some(JobStatus::Failed));
        let cancelled_count = self.count_jobs(&list, Some(JobStatus::Cancelled));
        proof {
            let jobs = self@.jobs;
            assert(jobs.dom().filter(|k: JobId| status_kept(None, jobs[k].status)) =~= jobs.dom());
            assert(jobs.dom().filter(|k: JobId| status_kept(Some(JobStatus::Pending), jobs[k].status))
                =~= jobs.dom().filter(|k: JobId| jobs[k].status == JobStatus::Pending));
            assert(jobs.dom().filter(|k: JobId| status_kept(Some(JobStatus::Running), jobs[k].status))
                =~= jobs.dom().filter(|k: JobId| jobs[k].status == JobStatus::Running));
            assert(jobs.dom().filter(|k: JobId| status_kept(Some(JobStatus::Completed), jobs[k].status))
                =~= jobs.dom().filter(|k: JobId| jobs[k].status == JobStatus::Completed));
            assert(jobs.dom().filter(|k: JobId| status_kept(Some(JobStatus::Failed), jobs[k].status))
                =~= jobs.dom().filter(|k: JobId| jobs[k].status == JobStatus::Failed));
            assert(jobs.dom().filter(|k: JobId| status_kept(Some(JobStatus::Cancelled), jobs[k].status))
                =~= jobs.dom().filter(|k: JobId| jobs[k].status == JobStatus::Cancelled));
        }
        QueueStats { total_count, pending_count, running_count, completed_count, failed_count, cancelled_count }
    }

    /// Removes every finished job (completed, failed or cancelled) and
    /// returns how many were removed.
    pub fn clear_completed(&mut self) -> (r: usize)
        requires
            queue_wf(old(self)@),
        ensures
            final(self)@.jobs == old(self)@.jobs.remove_keys(old(self)@.jobs.dom().filter(|k: JobId| finished(old(self)@.jobs[k].status))),
            r == old(self)@.jobs.dom().filter(|k: JobId| finished(old(self)@.jobs[k].status)).len(),
            final(self)@.tokens == old(self)@.tokens,
            queue_wf(final(self)@),
    {
        broadcast use vstd::set::group_set_axioms;
        let list = self.get_all_jobs();
        let ghost jobs = self@.jobs;
        let ghost p = |k: JobId| finished(jobs[k].status);
        let ghost mut seen: Set<JobId> = Set::empty();
        let mut n: usize = 0;
        let mut i: usize = 0;
        assert(seen.filter(p) =~= Set::<JobId>::empty());
        assert(seen =~= Set::new(|k: JobId| exists|a: int| 0 <= a < 0 && (#[trigger] list@[a]).id == k));
        assert(self@.jobs =~= jobs.remove_keys(seen.filter(p)));
        while i < list.len()
            invariant
                i <= list@.len(),
                queue_wf(old(self)@),
                jobs == old(self)@.jobs,
                self@.tokens == old(self)@.tokens,
                p == (|k: JobId| finished(jobs[k].status)),
                seen.finite(),
                seen == Set::new(|k: JobId| exists|a: int| 0 <= a < i && (#[trigger] list@[a]).id == k),
                n == seen.filter(p).len(),
                n <= i,
                self@.jobs == jobs.remove_keys(seen.filter(p)),
                forall|a: int| 0 <= a < list@.len() ==> jobs.contains_key((#[trigger] list@[a]).id)
                    && jobs[list@[a].id] == list@[a],
                forall|a: int, b: int| 0 <= a < b < list@.len() ==> (#[trigger] list@[a]).id != (#[trigger] list@[b]).id,
            decreases list@.len() - i,
        {
            let id = list[i].id;
            let take = list[i].is_finished();
            proof {
                assert(!seen.contains(id)) by {
                    if seen.contains(id) {
                        let a = choose|a: int| 0 <= a < i && (#[trigger] list@[a]).id == id;
                        assert(list@[a].id != list@[i as int].id);
                    }
                }
                let seen2 = seen.insert(id);
                assert(seen2 =~= Set::new(|k: JobId| exists|a: int| 0 <= a < i + 1 && (#[trigger] list@[a]).id == k)) by {
                    assert forall|k: JobId| seen2.contains(k) implies exists|a: int| 0 <= a < i + 1 && (#[trigger] list@[a]).id == k by {
                        if k == id {
                            assert(list@[i as int].id == k);
                        }
                    }
                }
                assert(take == p(id));
                if take {
                    assert(seen2.filter(p) =~= seen.filter(p).insert(id));
                } else {
                    assert(seen2.filter(p) =~= seen.filter(p));
                }
            }
            if take {
                table_remove(&mut self.jobs, id);
                n = n + 1;
            }
            proof {
                let seen2 = seen.insert(id);
                assert(self@.jobs =~= jobs.remove_keys(seen2.filter(p)));
                seen = seen2;
            }
            i = i + 1;
        }
        proof {
            assert(seen =~= jobs.dom()) by {
                assert forall|k: JobId| jobs.dom().contains(k) implies seen.contains(k) by {
                    let a = choose|a: int| 0 <= a < list@.len() && (#[trigger] list@[a]).id == k;
                }
            }
            assert(jobs.dom().filter(p) =~= jobs.dom().filter(|k: JobId| finished(old(self)@.jobs[k].status)));
        }
        n
    }
}

} // verus!
