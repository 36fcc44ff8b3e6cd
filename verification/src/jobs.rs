//! Publish jobs and the registry that tracks them.
//!
//! A job records one long-running publish operation: a status that moves
//! from in-progress to success or error exactly once, a message, append-only
//! log and error lines, and start and end times.  The registry maps job ids
//! to records; a caller keeps its own copy of the record returned at start,
//! and only the terminal calls write back into the registry.  Callers share
//! the registry behind a lock owned by the surrounding process.

use vstd::prelude::*;

use crate::sys::new_unique_id;
use crate::sys::now_millis;
use crate::text::str_eq;
use crate::text::strs_view;

verus! {

/// Unique identifier of a job.
pub type JobId = String;

/// Status of a tracked job.
#[derive(Debug, Clone, Copy, PartialEq, Eq, Structural)]
pub enum JobStatus {
    /// The job is currently running.
    InProgress,
    /// The job completed successfully.
    Success,
    /// The job failed.
    Error,
}

/// Basic job data: identifier, status, and a human-readable message.
#[derive(Debug)]
pub struct JobData {
    /// Unique job identifier.
    pub job_id: JobId,
    /// Current status.
    pub status: JobStatus,
    /// Human-readable status message.
    pub message: String,
}

/// Job data of a publication: the base data plus per-connector log and
/// error lines and the start and end times, as milliseconds since the Unix
/// epoch.
#[derive(Debug)]
pub struct PublicationJobData {
    /// Base job data.
    pub base: JobData,
    /// Log lines; the outer sequence is per connector.
    pub logs: Vec<Vec<String>>,
    /// Error lines; the outer sequence is per connector.
    pub errors: Vec<Vec<String>>,
    /// When the job started.
    pub start_time: Option<i64>,
    /// When the job ended; nothing while it runs.
    pub end_time: Option<i64>,
}

/// Mathematical model of a job record.
pub ghost struct JobV {
    pub job_id: Seq<char>,
    pub status: JobStatus,
    pub message: Seq<char>,
    pub logs: Seq<Seq<Seq<char>>>,
    pub errors: Seq<Seq<Seq<char>>>,
    pub start_time: Option<i64>,
    pub end_time: Option<i64>,
}

/// The model of per-connector line lists.
pub open spec fn line_lists_view(s: Seq<Vec<String>>) -> Seq<Seq<Seq<char>>> {
    Seq::new(s.len(), |i: int| strs_view(s[i]@))
}

impl View for PublicationJobData {
    type V = JobV;

    open spec fn view(&self) -> JobV {
        JobV {
            job_id: self.base.job_id@,
            status: self.base.status,
            message: self.base.message@,
            logs: line_lists_view(self.logs@),
            errors: line_lists_view(self.errors@),
            start_time: self.start_time,
            end_time: self.end_time,
        }
    }
}

/// Copy a list of lines.
fn copy_strs(s: &Vec<String>) -> (r: Vec<String>)
    ensures
        strs_view(r@) == strs_view(s@),
{
    let n: usize = s.len();
    let mut out: Vec<String> = Vec::new();
    let mut i: usize = 0;
    while i < n
        invariant
            i <= n,
            n == s@.len(),
            out@.len() == i,
            forall|j: int| 0 <= j < i ==> out@[j]@ == s@[j]@,
        decreases n - i,
    {
        out.push(s[i].clone());
        i = i + 1;
    }
    proof {
        assert(strs_view(out@) =~= strs_view(s@));
    }
    out
}

/// Copy per-connector line lists.
fn copy_line_lists(s: &Vec<Vec<String>>) -> (r: Vec<Vec<String>>)
    ensures
        line_lists_view(r@) == line_lists_view(s@),
{
    let n: usize = s.len();
    let mut out: Vec<Vec<String>> = Vec::new();
    let mut i: usize = 0;
    while i < n
        invariant
            i <= n,
            n == s@.len(),
            out@.len() == i,
            forall|j: int| 0 <= j < i ==> strs_view(out@[j]@) == strs_view(s@[j]@),
        decreases n - i,
    {
        let inner: Vec<String> = copy_strs(&s[i]);
        out.push(inner);
        i = i + 1;
    }
    proof {
        assert(line_lists_view(out@) =~= line_lists_view(s@));
    }
    out
}

impl PublicationJobData {
    /// Create a new in-progress job: the message opens the first log list,
    /// the error list starts empty, and the clock gives the start time.
    pub fn new(job_id: JobId, message: String) -> (r: Self)
        ensures
            r@.job_id == job_id@,
            r@.status == JobStatus::InProgress,
            r@.message == message@,
            r@.logs == seq![seq![message@]],
            r@.errors == seq![Seq::<Seq<char>>::empty()],
            r@.start_time is Some,
            r@.end_time is None,
    {
        let mut first_log: Vec<String> = Vec::new();
        first_log.push(message.clone());
        let mut logs: Vec<Vec<String>> = Vec::new();
        logs.push(first_log);
        let mut errors: Vec<Vec<String>> = Vec::new();
        errors.push(Vec::new());
        let r = PublicationJobData {
            base: JobData { job_id, status: JobStatus::InProgress, message },
            logs,
            errors,
            start_time: Option::Some(now_millis()),
            end_time: Option::None,
        };
        proof {
            assert(strs_view(r.logs@[0]@) =~= seq![r.base.message@]);
            assert(line_lists_view(r.logs@) =~= seq![seq![r.base.message@]]);
            assert(strs_view(r.errors@[0]@) =~= Seq::<Seq<char>>::empty());
            assert(line_lists_view(r.errors@) =~= seq![Seq::<Seq<char>>::empty()]);
        }
        r
    }

    /// Append a log line to the first log list, when one exists.
    pub fn log(&mut self, message: String)
        ensures
            old(self)@.logs.len() > 0 ==> final(self)@ == (JobV {
                logs: old(self)@.logs.update(0, old(self)@.logs[0].push(message@)),
                ..old(self)@
            }),
            old(self)@.logs.len() == 0 ==> final(self)@ == old(self)@,
    {
        if self.logs.len() > 0 {
            let ghost msg_v = message@;
            let mut first: Vec<String> = self.logs.remove(0);
            let ghost old_first = strs_view(first@);
            first.push(message);
            proof {
                assert(strs_view(first@) =~= old_first.push(msg_v));
            }
            self.logs.insert(0, first);
            proof {
                assert(line_lists_view(self.logs@) =~= old(self)@.logs.update(
                    0,
                    old(self)@.logs[0].push(msg_v),
                ));
            }
        }
    }

    /// Append an error line to the first error list, when one exists.
    pub fn error(&mut self, message: String)
        ensures
            old(self)@.errors.len() > 0 ==> final(self)@ == (JobV {
                errors: old(self)@.errors.update(0, old(self)@.errors[0].push(message@)),
                ..old(self)@
            }),
            old(self)@.errors.len() == 0 ==> final(self)@ == old(self)@,
    {
        if self.errors.len() > 0 {
            let ghost msg_v = message@;
            let mut first: Vec<String> = self.errors.remove(0);
            let ghost old_first = strs_view(first@);
            first.push(message);
            proof {
                assert(strs_view(first@) =~= old_first.push(msg_v));
            }
            self.errors.insert(0, first);
            proof {
                assert(line_lists_view(self.errors@) =~= old(self)@.errors.update(
                    0,
                    old(self)@.errors[0].push(msg_v),
                ));
            }
        }
    }

    /// Close the job successfully: the status becomes terminal, the message
    /// is replaced, and the clock gives the end time.
    pub fn success(&mut self, message: String)
        ensures
            final(self)@.status == JobStatus::Success,
            final(self)@.message == message@,
            final(self)@.end_time is Some,
            final(self)@.job_id == old(self)@.job_id,
            final(self)@.logs == old(self)@.logs,
            final(self)@.errors == old(self)@.errors,
            final(self)@.start_time == old(self)@.start_time,
    {
        self.base.status = JobStatus::Success;
        self.base.message = message;
        self.end_time = Option::Some(now_millis());
    }

    /// Close the job with an error: the status becomes terminal, the message
    /// is replaced and also appended to the error lines, and the clock gives
    /// the end time.
    pub fn fail(&mut self, message: String)
        ensures
            final(self)@.status == JobStatus::Error,
            final(self)@.message == message@,
            final(self)@.end_time is Some,
            final(self)@.job_id == old(self)@.job_id,
            final(self)@.logs == old(self)@.logs,
            final(self)@.start_time == old(self)@.start_time,
            old(self)@.errors.len() > 0 ==> final(self)@.errors == old(self)@.errors.update(
                0,
                old(self)@.errors[0].push(message@),
            ),
            old(self)@.errors.len() == 0 ==> final(self)@.errors == old(self)@.errors,
    {
        self.base.status = JobStatus::Error;
        self.base.message = message.clone();
        self.error(message);
        self.end_time = Option::Some(now_millis());
    }

    /// A record equal to this one, field by field.
    pub fn duplicate(&self) -> (r: Self)
        ensures
            r@ == self@,
    {
        PublicationJobData {
            base: JobData {
                job_id: self.base.job_id.clone(),
                status: self.base.status,
                message: self.base.message.clone(),
            },
            logs: copy_line_lists(&self.logs),
            errors: copy_line_lists(&self.errors),
            start_time: self.start_time,
            end_time: self.end_time,
        }
    }
}

/// The registry as a mapping from job id to record, read off the entry list
/// back to front; with distinct ids the direction does not matter.
pub open spec fn jobs_map(s: Seq<(String, PublicationJobData)>) -> Map<Seq<char>, JobV>
    decreases s.len(),
{
    if s.len() == 0 {
        Map::empty()
    } else {
        jobs_map(s.drop_last()).insert(s.last().0@, s.last().1@)
    }
}

/// No two entries carry the same id.
pub open spec fn distinct_ids(s: Seq<(String, PublicationJobData)>) -> bool {
    forall|i: int, j: int| 0 <= i < j < s.len() ==> s[i].0@ != s[j].0@
}

/// With distinct ids, the mapping holds exactly the listed entries.
pub proof fn lemma_jobs_map_props(s: Seq<(String, PublicationJobData)>)
    requires
        distinct_ids(s),
    ensures
        forall|k: Seq<char>|
            jobs_map(s).contains_key(k) <==> exists|i: int|
                0 <= i < s.len() && #[trigger] s[i].0@ == k,
        forall|i: int| 0 <= i < s.len() ==> jobs_map(s)[#[trigger] s[i].0@] == s[i].1@,
    decreases s.len(),
{
    if s.len() > 0 {
        let t = s.drop_last();
        let last = s.last();
        assert(forall|i: int| 0 <= i < t.len() ==> t[i] == s[i]);
        assert(distinct_ids(t));
        lemma_jobs_map_props(t);
        assert forall|i: int| 0 <= i < s.len() implies jobs_map(s)[#[trigger] s[i].0@] == s[i].1@
        by {
            if i < s.len() - 1 {
                assert(s[i].0@ != last.0@);
                assert(jobs_map(t)[s[i].0@] == t[i].1@);
            } else {
                assert(s[i] == last);
            }
        }
        assert forall|k: Seq<char>| #[trigger] jobs_map(s).contains_key(k) implies (exists|i: int|
            0 <= i < s.len() && #[trigger] s[i].0@ == k) by {
            if k == last.0@ {
                assert(s[s.len() - 1].0@ == k);
            } else {
                assert(jobs_map(t).contains_key(k));
                let i = choose|i: int| 0 <= i < t.len() && #[trigger] t[i].0@ == k;
                assert(s[i].0@ == k);
            }
        }
        assert forall|k: Seq<char>|
            (exists|i: int| 0 <= i < s.len() && #[trigger] s[i].0@ == k) implies #[trigger]
        jobs_map(s).contains_key(k) by {
            let i = choose|i: int| 0 <= i < s.len() && #[trigger] s[i].0@ == k;
            if i < s.len() - 1 {
                assert(t[i].0@ == k);
                assert(jobs_map(t).contains_key(k));
            }
        }
    }
}

/// Replacing the entry at one position, keeping its id, updates the mapping
/// at that id alone.
pub proof fn lemma_jobs_map_update(
    s: Seq<(String, PublicationJobData)>,
    i: int,
    p: (String, PublicationJobData),
)
    requires
        distinct_ids(s),
        0 <= i < s.len(),
        p.0@ == s[i].0@,
    ensures
        jobs_map(s.update(i, p)) == jobs_map(s).insert(p.0@, p.1@),
    decreases s.len(),
{
    if i == s.len() - 1 {
        assert(s.update(i, p).drop_last() =~= s.drop_last());
        assert(jobs_map(s.update(i, p)) =~= jobs_map(s).insert(p.0@, p.1@));
    } else {
        let t = s.drop_last();
        assert(distinct_ids(t));
        assert(t[i] == s[i]);
        lemma_jobs_map_update(t, i, p);
        assert(s.update(i, p).drop_last() =~= t.update(i, p));
        assert(s.update(i, p).last() == s.last());
        assert(s.last().0@ != p.0@);
        assert(jobs_map(s.update(i, p)) =~= jobs_map(s).insert(p.0@, p.1@));
    }
}

/// Appending an entry with a fresh id inserts it into the mapping.
pub proof fn lemma_jobs_map_push(s: Seq<(String, PublicationJobData)>, p: (
    String,
    PublicationJobData,
))
    ensures
        jobs_map(s.push(p)) == jobs_map(s).insert(p.0@, p.1@),
{
    assert(s.push(p).drop_last() =~= s);
    assert(jobs_map(s.push(p)) =~= jobs_map(s).insert(p.0@, p.1@));
}

/// Registry of publish jobs, owned by the surrounding process and shared by
/// its callers behind a lock.
pub struct JobManager {
    /// The stored records, keyed by id; ids are distinct (see [`Self::wf`]).
    pub jobs: Vec<(String, PublicationJobData)>,
}

impl View for JobManager {
    type V = Map<Seq<char>, JobV>;

    open spec fn view(&self) -> Map<Seq<char>, JobV> {
        jobs_map(self.jobs@)
    }
}

impl Default for JobManager {
    /// An empty registry.
    fn default() -> (r: Self)
        ensures
            r@ == Map::<Seq<char>, JobV>::empty(),
            r.wf(),
    {
        JobManager::new()
    }
}

impl JobManager {
    /// The registry's ids are distinct, so lookup is a function of the
    /// mapping.
    pub open spec fn wf(&self) -> bool {
        distinct_ids(self.jobs@)
    }

    /// Create an empty registry.
    pub fn new() -> (r: Self)
        ensures
            r@ == Map::<Seq<char>, JobV>::empty(),
            r.wf(),
    {
        JobManager { jobs: Vec::new() }
    }

    /// Position of a job id in the entry list, when it is present.
    fn find_index(&self, job_id: &str) -> (r: Option<usize>)
        ensures
            match r {
                Option::Some(i) => i < self.jobs@.len() && self.jobs@[i as int].0@ == job_id@,
                Option::None => forall|j: int|
                    0 <= j < self.jobs@.len() ==> self.jobs@[j].0@ != job_id@,
            },
    {
        let n: usize = self.jobs.len();
        let mut i: usize = 0;
        while i < n
            invariant
                i <= n,
                n == self.jobs@.len(),
                forall|j: int| 0 <= j < i ==> self.jobs@[j].0@ != job_id@,
            decreases n - i,
        {
            if str_eq(self.jobs[i].0.as_str(), job_id) {
                return Option::Some(i);
            }
            i = i + 1;
        }
        Option::None
    }

    /// Start a new job: a fresh id, an in-progress record stored under it,
    /// and an independent copy of that record returned to the caller.
    pub fn start_job(&mut self, message: String) -> (r: PublicationJobData)
        requires
            old(self).wf(),
        ensures
            final(self).wf(),
            r@.job_id.len() == 36,
            r@.status == JobStatus::InProgress,
            r@.message == message@,
            r@.logs == seq![seq![message@]],
            r@.errors == seq![Seq::<Seq<char>>::empty()],
            r@.start_time is Some,
            r@.end_time is None,
            final(self)@ == old(self)@.insert(r@.job_id, r@),
    {
        let job_id: String = new_unique_id();
        let job: PublicationJobData = PublicationJobData::new(job_id.clone(), message);
        let stored: PublicationJobData = job.duplicate();
        match self.find_index(job_id.as_str()) {
            Option::Some(i) => {
                proof {
                    lemma_jobs_map_update(self.jobs@, i as int, (job_id, stored));
                }
                let ghost s0 = self.jobs@;
                let _old_entry: (String, PublicationJobData) = self.jobs.remove(i);
                self.jobs.insert(i, (job_id, stored));
                proof {
                    assert(self.jobs@ =~= s0.update(i as int, self.jobs@[i as int]));
                    assert(distinct_ids(self.jobs@));
                }
            },
            Option::None => {
                proof {
                    lemma_jobs_map_push(self.jobs@, (job_id, stored));
                }
                let ghost s0 = self.jobs@;
                self.jobs.push((job_id, stored));
                proof {
                    assert(forall|j: int|
                        0 <= j < s0.len() ==> #[trigger] self.jobs@[j].0@ == s0[j].0@);
                    assert(distinct_ids(self.jobs@));
                }
            },
        }
        job
    }

    /// Look a job up by id; a copy of the stored record, or nothing when the
    /// id is unknown.
    pub fn get_job(&self, job_id: &JobId) -> (r: Option<PublicationJobData>)
        requires
            self.wf(),
        ensures
            match r {
                Option::Some(j) => self@.contains_key(job_id@) && j@ == self@[job_id@],
                Option::None => !self@.contains_key(job_id@),
            },
    {
        proof {
            lemma_jobs_map_props(self.jobs@);
        }
        match self.find_index(job_id.as_str()) {
            Option::Some(i) => Option::Some(self.jobs[i].1.duplicate()),
            Option::None => Option::None,
        }
    }

    /// Mark a job as completed: its status becomes success and the clock
    /// gives its end time; everything else, and every other job, stays as it
    /// was.  An unknown id is silently ignored.
    pub fn complete_job(&mut self, job_id: &JobId)
        requires
            old(self).wf(),
        ensures
            final(self).wf(),
            !old(self)@.contains_key(job_id@) ==> final(self)@ == old(self)@,
            old(self)@.contains_key(job_id@) ==> {
                &&& final(self)@.dom() == old(self)@.dom()
                &&& final(self)@[job_id@].status == JobStatus::Success
                &&& final(self)@[job_id@].end_time is Some
                &&& final(self)@[job_id@].job_id == old(self)@[job_id@].job_id
                &&& final(self)@[job_id@].message == old(self)@[job_id@].message
                &&& final(self)@[job_id@].logs == old(self)@[job_id@].logs
                &&& final(self)@[job_id@].errors == old(self)@[job_id@].errors
                &&& final(self)@[job_id@].start_time == old(self)@[job_id@].start_time
                &&& (forall|k: Seq<char>|
                    old(self)@.contains_key(k) && k != job_id@ ==> final(self)@[k] == old(
                        self,
                    )@[k])
            },
    {
        proof {
            lemma_jobs_map_props(self.jobs@);
        }
        match self.find_index(job_id.as_str()) {
            Option::Some(i) => {
                let ghost s0 = self.jobs@;
                let entry: (String, PublicationJobData) = self.jobs.remove(i);
                let id_string: String = entry.0;
                let mut job: PublicationJobData = entry.1;
                job.base.status = JobStatus::Success;
                job.end_time = Option::Some(now_millis());
                self.jobs.insert(i, (id_string, job));
                proof {
                    assert(self.jobs@ =~= s0.update(i as int, self.jobs@[i as int]));
                    lemma_jobs_map_update(s0, i as int, self.jobs@[i as int]);
                    assert(distinct_ids(self.jobs@));
                    assert(final(self)@.dom() =~= old(self)@.dom());
                }
            },
            Option::None => {},
        }
    }

    /// Mark a job as failed: its status becomes error, the message replaces
    /// the record's and joins its error lines, and the clock gives its end
    /// time; everything else, and every other job, stays as it was.  An
    /// unknown id is silently ignored.
    pub fn fail_job(&mut self, job_id: &JobId, error: &str)
        requires
            old(self).wf(),
        ensures
            final(self).wf(),
            !old(self)@.contains_key(job_id@) ==> final(self)@ == old(self)@,
            old(self)@.contains_key(job_id@) ==> {
                &&& final(self)@.dom() == old(self)@.dom()
                &&& final(self)@[job_id@].status == JobStatus::Error
                &&& final(self)@[job_id@].message == error@
                &&& final(self)@[job_id@].end_time is Some
                &&& final(self)@[job_id@].job_id == old(self)@[job_id@].job_id
                &&& final(self)@[job_id@].logs == old(self)@[job_id@].logs
                &&& final(self)@[job_id@].start_time == old(self)@[job_id@].start_time
                &&& (old(self)@[job_id@].errors.len() > 0 ==> final(self)@[job_id@].errors == old(
                    self,
                )@[job_id@].errors.update(0, old(self)@[job_id@].errors[0].push(error@)))
                &&& (old(self)@[job_id@].errors.len() == 0 ==> final(self)@[job_id@].errors == old(
                    self,
                )@[job_id@].errors)
                &&& (forall|k: Seq<char>|
                    old(self)@.contains_key(k) && k != job_id@ ==> final(self)@[k] == old(
                        self,
                    )@[k])
            },
    {
        proof {
            lemma_jobs_map_props(self.jobs@);
        }
        match self.find_index(job_id.as_str()) {
            Option::Some(i) => {
                let ghost s0 = self.jobs@;
                let entry: (String, PublicationJobData) = self.jobs.remove(i);
                let id_string: String = entry.0;
                let mut job: PublicationJobData = entry.1;
                job.base.status = JobStatus::Error;
                job.base.message = error.to_owned();
                job.error(error.to_owned());
                job.end_time = Option::Some(now_millis());
                self.jobs.insert(i, (id_string, job));
                proof {
                    assert(self.jobs@ =~= s0.update(i as int, self.jobs@[i as int]));
                    lemma_jobs_map_update(s0, i as int, self.jobs@[i as int]);
                    assert(distinct_ids(self.jobs@));
                    assert(final(self)@.dom() =~= old(self)@.dom());
                }
            },
            Option::None => {},
        }
    }
}

} // verus!
