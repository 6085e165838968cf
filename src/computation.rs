use vstd::prelude::*;
use crate::config::{EncaveConfig, KEY_MAX_CONCURRENT_JOBS};

verus! {

/// Where a computation job stands.
#[derive(Clone, Copy, Debug, PartialEq, Eq, Structural)]
pub enum JobStatus {
    Pending,
    Running,
    Completed,
    Failed,
    Timeout,
    SecurityViolation,
}

/// How closely a job is sandboxed and audited.
#[derive(Clone, Copy, Debug, PartialEq, Eq, Structural)]
pub enum SecurityLevel {
    Low,
    Medium,
    High,
    Critical,
}

/// A computation job and what became of it.
pub struct ComputationJob {
    pub id: String,
    pub code: String,
    pub parameters: String,
    pub created_at: u64,
    pub status: JobStatus,
    pub result: Option<String>,
    pub error: Option<String>,
    pub execution_time_ms: Option<u64>,
    pub memory_used_bytes: Option<usize>,
    pub security_level: SecurityLevel,
}

/// Why a job request was refused.
#[derive(Clone, Copy, Debug, PartialEq, Eq, Structural)]
pub enum JobError {
    /// No job has that id.
    NotFound,
    /// A job with that id is already recorded.
    DuplicateId,
    /// The job has finished and can no longer be cancelled.
    NotCancellable(JobStatus),
}

/// Jobs used when the configuration has no concurrent-job limit.
pub const DEFAULT_MAX_CONCURRENT_JOBS: usize = 10;

/// The error text recorded on a cancelled job.
pub const CANCELLED_ERROR: &'static str = "Job cancelled by user";

/// No two jobs share an id.
pub open spec fn ids_unique(s: Seq<ComputationJob>) -> bool {
    forall|i: int, j: int| 0 <= i < j < s.len() ==> s[i].id@ != s[j].id@
}

/// Some job has id `id`.
pub open spec fn has_job(s: Seq<ComputationJob>, id: Seq<char>) -> bool {
    exists|i: int| 0 <= i < s.len() && #[trigger] s[i].id@ == id
}

/// The position of the job with id `id`.
pub open spec fn job_position(s: Seq<ComputationJob>, id: Seq<char>) -> int {
    choose|i: int| 0 <= i < s.len() && #[trigger] s[i].id@ == id
}

/// The reply to a successful cancellation.
pub open spec fn cancel_reply_of(id: Seq<char>) -> Seq<char> {
    "{\"status\": \"cancelled\", \"job_id\": \""@ + id + "\"}"@
}

/// The job as cancellation leaves it: failed, with the cancellation text as
/// its error, and otherwise unchanged.
pub open spec fn is_cancelled_form(after: ComputationJob, before: ComputationJob) -> bool {
    &&& after.status == JobStatus::Failed
    &&& after.error matches Some(e) && e@ == CANCELLED_ERROR@
    &&& after.id == before.id
    &&& after.code == before.code
    &&& after.parameters == before.parameters
    &&& after.created_at == before.created_at
    &&& after.result == before.result
    &&& after.execution_time_ms == before.execution_time_ms
    &&& after.memory_used_bytes == before.memory_used_bytes
    &&& after.security_level == before.security_level
}

/// The jobs of the computation service.
pub struct ComputationService {
    jobs: Vec<ComputationJob>,
    max_concurrent_jobs: usize,
}

impl ComputationService {
    pub closed spec fn job_list(&self) -> Seq<ComputationJob> {
        self.jobs@
    }

    pub closed spec fn job_limit(&self) -> usize {
        self.max_concurrent_jobs
    }

    pub open spec fn wf(&self) -> bool {
        ids_unique(self.job_list())
    }

    /// A service without jobs, limited to the configured number of
    /// concurrent jobs, or to `DEFAULT_MAX_CONCURRENT_JOBS` when the setting
    /// cannot be read.
    pub fn new(config: &EncaveConfig) -> (r: ComputationService)
        ensures
            r.wf(),
            r.job_list().len() == 0,
            r.job_limit() == config.max_threads,
    {
        proof {
            reveal_strlit("computation.max_concurrent_jobs");
        }
        let limit = match config.get_number(KEY_MAX_CONCURRENT_JOBS) {
            Ok(n) => n,
            Err(_) => DEFAULT_MAX_CONCURRENT_JOBS,
        };
        ComputationService { jobs: Vec::new(), max_concurrent_jobs: limit }
    }

    /// The most jobs that run at once.
    pub fn max_concurrent_jobs(&self) -> (r: usize)
        ensures
            r == self.job_limit(),
    {
        self.max_concurrent_jobs
    }

    /// The position of the job with `id`, if any.
    fn find_job(&self, id: &str) -> (r: Option<usize>)
        requires
            self.wf(),
        ensures
            r matches Some(i) ==> i < self.job_list().len() && self.job_list()[i as int].id@ == id@
                && job_position(self.job_list(), id@) == i,
            r is None ==> !has_job(self.job_list(), id@),
    {
        let k = id.to_owned();
        let mut i: usize = 0;
        while i < self.jobs.len()
            invariant
                self.wf(),
                k@ == id@,
                i <= self.jobs@.len(),
                forall|j: int| 0 <= j < i ==> self.jobs@[j].id@ != id@,
            decreases self.jobs@.len() - i,
        {
            if self.jobs[i].id == k {
                proof {
                    let p = job_position(self.jobs@, id@);
                    assert(self.jobs@[i as int].id@ == id@);
                    if p != i as int {
                        if p < i {
                            assert(self.jobs@[p].id@ != self.jobs@[i as int].id@);
                        } else {
                            assert(self.jobs@[i as int].id@ != self.jobs@[p].id@);
                        }
                    }
                }
                return Some(i);
            }
            i = i + 1;
        }
        None
    }

    /// Records a job under an id not yet in use.
    pub fn record_job(&mut self, job: ComputationJob) -> (r: Result<(), JobError>)
        requires
            old(self).wf(),
        ensures
            final(self).wf(),
            final(self).job_limit() == old(self).job_limit(),
            has_job(old(self).job_list(), job.id@) ==> r == Err::<(), JobError>(
                JobError::DuplicateId,
            ) && final(self).job_list() == old(self).job_list(),
            !has_job(old(self).job_list(), job.id@) ==> r is Ok && final(self).job_list() == old(self).job_list().push(job),
    {
        if self.find_job(job.id.as_str()).is_some() {
            return Err(JobError::DuplicateId);
        }
        let ghost before = self.jobs@;
        self.jobs.push(job);
        proof {
            assert forall|a: int, b: int| 0 <= a < b < self.jobs@.len() implies self.jobs@[a].id@
                != self.jobs@[b].id@ by {
                if b == before.len() {
                    assert(self.jobs@[a] == before[a]);
                    assert(self.jobs@[a].id@ != job.id@);
                }
            }
        }
        Ok(())
    }

    /// Cancels a pending or running job: it becomes failed, with
    /// `CANCELLED_ERROR` as its error. Finished jobs cannot be cancelled.
    pub fn cancel_job(&mut self, job_id: &str) -> (r: Result<String, JobError>)
        requires
            old(self).wf(),
        ensures
            final(self).wf(),
            final(self).job_limit() == old(self).job_limit(),
            !has_job(old(self).job_list(), job_id@) ==> r == Err::<String, JobError>(
                JobError::NotFound,
            ) && final(self).job_list() == old(self).job_list(),
            has_job(old(self).job_list(), job_id@) ==> {
                let i = job_position(old(self).job_list(), job_id@);
                let before = old(self).job_list()[i];
                if before.status == JobStatus::Pending || before.status == JobStatus::Running {
                    &&& r matches Ok(reply) && reply@ == cancel_reply_of(job_id@)
                    &&& final(self).job_list().len() == old(self).job_list().len()
                    &&& is_cancelled_form(final(self).job_list()[i], before)
                    &&& forall|j: int|
                        0 <= j < old(self).job_list().len() && j != i ==> #[trigger] final(self).job_list()[j] == old(self).job_list()[j]
                } else {
                    &&& r == Err::<String, JobError>(JobError::NotCancellable(before.status))
                    &&& final(self).job_list() == old(self).job_list()
                }
            },
    {
        let i = match self.find_job(job_id) {
            Some(i) => i,
            None => return Err(JobError::NotFound),
        };
        let status = self.jobs[i].status;
        match status {
            JobStatus::Pending | JobStatus::Running => {
                let ghost before = self.jobs@;
                let mut job = self.jobs.remove(i);
                job.status = JobStatus::Failed;
                job.error = Some(CANCELLED_ERROR.to_owned());
                self.jobs.insert(i, job);
                proof {
                    assert forall|j: int| 0 <= j < before.len() && j != i implies #[trigger] self.jobs@[j]
                        == before[j] by {
                    }
                    assert forall|a: int, b: int| 0 <= a < b < self.jobs@.len() implies self.jobs@[a].id@
                        != self.jobs@[b].id@ by {
                        assert(self.jobs@[a].id@ == before[a].id@);
                        assert(self.jobs@[b].id@ == before[b].id@);
                    }
                }
                let mut reply = "{\"status\": \"cancelled\", \"job_id\": \"".to_owned();
                reply.append(job_id);
                reply.append("\"}");
                Ok(reply)
            },
            _ => Err(JobError::NotCancellable(status)),
        }
    }
}

} // verus!
