//! Registry of jobs. One job runs at a time (there is one GPU).

use vstd::prelude::*;
use tokio_util::sync::CancellationToken;
use crate::error::AppError;
use crate::ratio::Progress;
use crate::text::str_eq;

verus! {

/// Cancellation token of a running job (an opaque value shared with the task).
#[verifier::external_type_specification]
#[verifier::external_body]
pub struct ExCancellationToken(CancellationToken);

/// Another handle on the same cancellation token
/// (`tokio_util::sync::CancellationToken::clone`, documented as a token that
/// is cancelled together with the token it was cloned from): it stands for
/// the same token.
#[verifier::external_body]
fn share_token(t: &CancellationToken) -> (r: CancellationToken)
    ensures
        r == *t,
{
    t.clone()
}

/// State of a job.
#[derive(Clone, Copy, Debug, PartialEq, Eq, Structural)]
pub enum JobState {
    Running,
    Done,
    Error,
    Cancelled,
}

/// What the front end can ask about a job.
#[derive(Clone, Debug)]
pub struct JobStatus {
    pub job_id: String,
    pub state: JobState,
    pub overall_progress: Progress,
}

/// A registered job: its cancellation token and status.
pub struct JobHandle {
    pub cancel: CancellationToken,
    pub status: JobStatus,
}

/// Registry of jobs by id.
pub struct JobRegistry {
    jobs: Vec<JobHandle>,
}

/// State and progress of one job.
pub type JobEntry = (JobState, Progress);

/// The jobs of a list of handles, by id.
pub open spec fn entries_map(s: Seq<JobHandle>) -> Map<Seq<char>, JobEntry>
    decreases s.len(),
{
    if s.len() == 0 {
        Map::empty()
    } else {
        entries_map(s.drop_last()).insert(
            s.last().status.job_id@,
            (s.last().status.state, s.last().status.overall_progress),
        )
    }
}

/// The cancellation token of the handle registered under `id`.
pub open spec fn token_in(s: Seq<JobHandle>, id: Seq<char>) -> CancellationToken {
    s[choose|i: int| 0 <= i < s.len() && (#[trigger] s[i]).status.job_id@ == id].cancel
}

/// No id occurs twice.
pub open spec fn distinct_ids(s: Seq<JobHandle>) -> bool {
    forall|i: int, j: int|
        0 <= i < s.len() && 0 <= j < s.len() && i != j ==> (#[trigger] s[i]).status.job_id@ != (
        #[trigger] s[j]).status.job_id@
}

/// Some job of the map is running.
pub open spec fn some_running(m: Map<Seq<char>, JobEntry>) -> bool {
    exists|k: Seq<char>| m.contains_key(k) && (#[trigger] m[k]).0 == JobState::Running
}

/// At most one job of the map is running.
pub open spec fn at_most_one_running(m: Map<Seq<char>, JobEntry>) -> bool {
    forall|a: Seq<char>, b: Seq<char>|
        m.contains_key(a) && m.contains_key(b) && (#[trigger] m[a]).0 == JobState::Running && (
        #[trigger] m[b]).0 == JobState::Running ==> a == b
}

proof fn lemma_token_at(s: Seq<JobHandle>, i: int)
    requires
        distinct_ids(s),
        0 <= i < s.len(),
    ensures
        token_in(s, s[i].status.job_id@) == s[i].cancel,
{
    let id = s[i].status.job_id@;
    assert(0 <= i < s.len() && s[i].status.job_id@ == id);
    let j = choose|j: int| 0 <= j < s.len() && (#[trigger] s[j]).status.job_id@ == id;
    if j != i {
        assert(s[i].status.job_id@ != s[j].status.job_id@);
    }
}

/// Tokens of the ids registered in `before` are the same in `after`, when
/// every such id keeps its place and its handle's token.
proof fn lemma_tokens_kept(before: Seq<JobHandle>, after: Seq<JobHandle>, skip: Option<Seq<char>>)
    requires
        distinct_ids(before),
        distinct_ids(after),
        before.len() <= after.len(),
        forall|j: int|
            0 <= j < before.len() && skip != Some((#[trigger] before[j]).status.job_id@) ==> after[j].cancel
                == before[j].cancel && after[j].status.job_id@ == before[j].status.job_id@,
    ensures
        forall|k: Seq<char>|
            skip != Some(k) && #[trigger] entries_map(before).contains_key(k) ==> token_in(after, k)
                == token_in(before, k),
{
    lemma_entries_map(before);
    assert forall|k: Seq<char>|
        skip != Some(k) && #[trigger] entries_map(before).contains_key(k) implies token_in(after, k)
        == token_in(before, k) by {
        let j = choose|j: int| 0 <= j < before.len() && (#[trigger] before[j]).status.job_id@ == k;
        lemma_token_at(before, j);
        lemma_token_at(after, j);
    }
}

proof fn lemma_entries_map(s: Seq<JobHandle>)
    requires
        distinct_ids(s),
    ensures
        forall|k: Seq<char>|
            #[trigger] entries_map(s).contains_key(k) <==> exists|i: int|
                0 <= i < s.len() && (#[trigger] s[i]).status.job_id@ == k,
        forall|i: int|
            0 <= i < s.len() ==> entries_map(s)[(#[trigger] s[i]).status.job_id@] == (
                s[i].status.state,
                s[i].status.overall_progress,
            ),
    decreases s.len(),
{
    if s.len() > 0 {
        let p = s.drop_last();
        assert(distinct_ids(p)) by {
            assert forall|i: int, j: int|
                0 <= i < p.len() && 0 <= j < p.len() && i != j implies (#[trigger] p[i]).status.job_id@
                != (#[trigger] p[j]).status.job_id@ by {
                assert(p[i] == s[i] && p[j] == s[j]);
            }
        }
        lemma_entries_map(p);
        assert forall|k: Seq<char>| #[trigger]
            entries_map(s).contains_key(k) implies exists|i: int|
            0 <= i < s.len() && (#[trigger] s[i]).status.job_id@ == k by {
            if k != s.last().status.job_id@ {
                assert(entries_map(p).contains_key(k));
                let i = choose|i: int| 0 <= i < p.len() && (#[trigger] p[i]).status.job_id@ == k;
                assert(s[i] == p[i]);
            } else {
                assert(s[s.len() - 1] == s.last());
            }
        }
        assert forall|k: Seq<char>|
            (exists|i: int| 0 <= i < s.len() && (#[trigger] s[i]).status.job_id@ == k)
                implies #[trigger] entries_map(s).contains_key(k) by {
            let i = choose|i: int| 0 <= i < s.len() && (#[trigger] s[i]).status.job_id@ == k;
            if i < s.len() - 1 {
                assert(p[i] == s[i]);
            }
        }
        assert forall|i: int| 0 <= i < s.len() implies entries_map(s)[(
        #[trigger] s[i]).status.job_id@] == (s[i].status.state, s[i].status.overall_progress) by {
            if i < s.len() - 1 {
                assert(p[i] == s[i]);
                assert(s[i].status.job_id@ != s[s.len() - 1].status.job_id@);
            }
        }
    }
}

impl JobRegistry {
    #[verifier::type_invariant]
    spec fn registry_inv(self) -> bool {
        distinct_ids(self.jobs@)
    }

    /// The jobs by id: state and progress.
    pub closed spec fn view(&self) -> Map<Seq<char>, JobEntry> {
        entries_map(self.jobs@)
    }

    /// The cancellation token registered for job `id`.
    pub closed spec fn token(&self, id: Seq<char>) -> CancellationToken {
        token_in(self.jobs@, id)
    }

    /// An empty registry.
    pub fn new() -> (r: JobRegistry)
        ensures
            r@ == Map::<Seq<char>, JobEntry>::empty(),
    {
        JobRegistry { jobs: Vec::new() }
    }

    fn position(&self, job_id: &str) -> (r: Option<usize>)
        ensures
            match r {
                Some(i) => i < self.jobs@.len() && self.jobs@[i as int].status.job_id@ == job_id@,
                None => forall|i: int|
                    0 <= i < self.jobs@.len() ==> (#[trigger] self.jobs@[i]).status.job_id@
                        != job_id@,
            },
    {
        let mut i: usize = 0;
        while i < self.jobs.len()
            invariant
                i <= self.jobs@.len(),
                forall|j: int|
                    0 <= j < i ==> (#[trigger] self.jobs@[j]).status.job_id@ != job_id@,
            decreases self.jobs@.len() - i,
        {
            if str_eq(self.jobs[i].status.job_id.as_str(), job_id) {
                return Some(i);
            }
            i = i + 1;
        }
        None
    }

    /// Whether some job is running.
    pub fn any_running(&self) -> (b: bool)
        ensures
            b == some_running(self@),
    {
        proof {
            use_type_invariant(self);
            lemma_entries_map(self.jobs@);
        }
        let mut i: usize = 0;
        while i < self.jobs.len()
            invariant
                i <= self.jobs@.len(),
                distinct_ids(self.jobs@),
                forall|j: int|
                    0 <= j < i ==> (#[trigger] self.jobs@[j]).status.state != JobState::Running,
            decreases self.jobs@.len() - i,
        {
            if self.jobs[i].status.state == JobState::Running {
                proof {
                    lemma_entries_map(self.jobs@);
                    let k = self.jobs@[i as int].status.job_id@;
                    assert(self@.contains_key(k));
                    assert(self@[k].0 == JobState::Running);
                }
                return true;
            }
            i = i + 1;
        }
        proof {
            lemma_entries_map(self.jobs@);
            assert forall|k: Seq<char>| self@.contains_key(k) implies (#[trigger] self@[k]).0
                != JobState::Running by {
                let j = choose|j: int|
                    0 <= j < self.jobs@.len() && (#[trigger] self.jobs@[j]).status.job_id@ == k;
            }
        }
        false
    }

    /// Registers a running job with no progress yet under `job_id`
    /// (replacing a job with the same id).
    pub fn insert(&mut self, job_id: String, cancel: CancellationToken)
        ensures
            final(self)@ == old(self)@.insert(job_id@, (JobState::Running, Progress { num: 0, den: 1 })),
            final(self).token(job_id@) == cancel,
            forall|k: Seq<char>|
                k != job_id@ && #[trigger] old(self)@.contains_key(k) ==> final(self).token(k) == old(
                    self,
                ).token(k),
    {
        proof {
            use_type_invariant(&*self);
            lemma_entries_map(self.jobs@);
        }
        let ghost old_map = self@;
        let ghost id = job_id@;
        let handle = JobHandle {
            cancel,
            status: JobStatus {
                job_id,
                state: JobState::Running,
                overall_progress: Progress { num: 0, den: 1 },
            },
        };
        match self.position(handle.status.job_id.as_str()) {
            Some(i) => {
                let mut jobs = Vec::new();
                std::mem::swap(&mut jobs, &mut self.jobs);
                let ghost before = jobs@;
                jobs.set(i, handle);
                proof {
                    assert(distinct_ids(jobs@)) by {
                        assert forall|a: int, b: int|
                            0 <= a < jobs@.len() && 0 <= b < jobs@.len() && a != b implies (
                            #[trigger] jobs@[a]).status.job_id@ != (
                            #[trigger] jobs@[b]).status.job_id@ by {
                            if a != i && b != i {
                                assert(jobs@[a] == before[a] && jobs@[b] == before[b]);
                            } else if a == i {
                                assert(jobs@[b] == before[b]);
                                assert(before[i as int].status.job_id@ == id);
                            } else {
                                assert(jobs@[a] == before[a]);
                                assert(before[i as int].status.job_id@ == id);
                            }
                        }
                    }
                    lemma_entries_map(jobs@);
                    assert(entries_map(jobs@) =~= old_map.insert(
                        id,
                        (JobState::Running, Progress { num: 0, den: 1 }),
                    )) by {
                        assert forall|k: Seq<char>| #[trigger]
                            entries_map(jobs@).contains_key(k) <==> old_map.insert(
                                id,
                                (JobState::Running, Progress { num: 0, den: 1 }),
                            ).contains_key(k) by {
                            if entries_map(jobs@).contains_key(k) {
                                let j = choose|j: int|
                                    0 <= j < jobs@.len() && (#[trigger] jobs@[j]).status.job_id@
                                        == k;
                                if j != i {
                                    assert(jobs@[j] == before[j]);
                                }
                            }
                            if old_map.contains_key(k) && k != id {
                                let j = choose|j: int|
                                    0 <= j < before.len() && (#[trigger] before[j]).status.job_id@
                                        == k;
                                assert(j != i);
                                assert(jobs@[j] == before[j]);
                            }
                            if k == id {
                                assert(jobs@[i as int].status.job_id@ == id);
                            }
                        }
                        assert forall|k: Seq<char>| #[trigger]
                            entries_map(jobs@).contains_key(k) implies entries_map(jobs@)[k]
                            == old_map.insert(
                            id,
                            (JobState::Running, Progress { num: 0, den: 1 }),
                        )[k] by {
                            let j = choose|j: int|
                                0 <= j < jobs@.len() && (#[trigger] jobs@[j]).status.job_id@ == k;
                            if j != i {
                                assert(jobs@[j] == before[j]);
                            }
                        }
                    }
                    lemma_token_at(jobs@, i as int);
                    assert forall|j: int|
                        0 <= j < before.len() && Some(id) != Some((#[trigger] before[j]).status.job_id@) implies jobs@[j].cancel
                        == before[j].cancel && jobs@[j].status.job_id@ == before[j].status.job_id@ by {
                        assert(j != i);
                    }
                    lemma_tokens_kept(before, jobs@, Some(id));
                }
                self.jobs = jobs;
            },
            None => {
                let mut jobs = Vec::new();
                std::mem::swap(&mut jobs, &mut self.jobs);
                let ghost before = jobs@;
                jobs.push(handle);
                proof {
                    assert(jobs@.drop_last() =~= before);
                    assert(distinct_ids(jobs@)) by {
                        assert forall|a: int, b: int|
                            0 <= a < jobs@.len() && 0 <= b < jobs@.len() && a != b implies (
                            #[trigger] jobs@[a]).status.job_id@ != (
                            #[trigger] jobs@[b]).status.job_id@ by {
                            if a < before.len() {
                                assert(jobs@[a] == before[a]);
                            }
                            if b < before.len() {
                                assert(jobs@[b] == before[b]);
                            }
                        }
                    }
                    lemma_token_at(jobs@, before.len() as int);
                    assert forall|j: int|
                        0 <= j < before.len() && Some(id) != Some((#[trigger] before[j]).status.job_id@) implies jobs@[j].cancel
                        == before[j].cancel && jobs@[j].status.job_id@ == before[j].status.job_id@ by {
                        assert(jobs@[j] == before[j]);
                    }
                    lemma_tokens_kept(before, jobs@, Some(id));
                }
                self.jobs = jobs;
            },
        }
    }

    /// Starts job `job_id` as [`JobRegistry::insert`] does, unless a job is
    /// already running: then it answers `JobAlreadyRunning` and changes
    /// nothing. The check and the registration happen in one call, so a
    /// caller holding the registry's lock for the call cannot start two jobs.
    pub fn try_start(&mut self, job_id: String, cancel: CancellationToken) -> (r: Result<(), AppError>)
        ensures
            some_running(old(self)@) ==> (r matches Err(e) && e is JobAlreadyRunning) && final(self)@
                == old(self)@ && forall|k: Seq<char>| #[trigger]
                old(self)@.contains_key(k) ==> final(self).token(k) == old(self).token(k),
            !some_running(old(self)@) ==> r is Ok && final(self)@ == old(self)@.insert(
                job_id@,
                (JobState::Running, Progress { num: 0, den: 1 }),
            ) && final(self).token(job_id@) == cancel && forall|k: Seq<char>|
                k != job_id@ && #[trigger] old(self)@.contains_key(k) ==> final(self).token(k) == old(
                    self,
                ).token(k),
            at_most_one_running(old(self)@) ==> at_most_one_running(final(self)@),
            r is Ok ==> at_most_one_running(final(self)@),
    {
        if self.any_running() {
            return Err(AppError::JobAlreadyRunning);
        }
        let ghost before = self@;
        let ghost id = job_id@;
        self.insert(job_id, cancel);
        proof {
            law_single_running_job(before, id);
        }
        Ok(())
    }

    /// Sets the state of job `job_id`, if it is registered.
    pub fn set_state(&mut self, job_id: &str, state: JobState)
        ensures
            old(self)@.contains_key(job_id@) ==> final(self)@ == old(self)@.insert(
                job_id@,
                (state, old(self)@[job_id@].1),
            ),
            !old(self)@.contains_key(job_id@) ==> final(self)@ == old(self)@,
            forall|k: Seq<char>| #[trigger]
                old(self)@.contains_key(k) ==> final(self).token(k) == old(self).token(k),
    {
        proof {
            use_type_invariant(&*self);
            lemma_entries_map(self.jobs@);
        }
        match self.position(job_id) {
            Some(i) => {
                let mut jobs = Vec::new();
                std::mem::swap(&mut jobs, &mut self.jobs);
                let ghost before = jobs@;
                let ghost old_map = entries_map(before);
                let ghost pr = before[i as int].status.overall_progress;
                let mut h = jobs.remove(i);
                h.status.state = state;
                jobs.insert(i, h);
                proof {
                    Self::lemma_replace_entry(before, jobs@, i as int, job_id@);
                    assert forall|j: int|
                        0 <= j < before.len() && None::<Seq<char>> != Some((#[trigger] before[j]).status.job_id@) implies jobs@[j].cancel
                        == before[j].cancel && jobs@[j].status.job_id@ == before[j].status.job_id@ by {
                        if j != i {
                            assert(jobs@[j] == before[j]);
                        }
                    }
                    lemma_tokens_kept(before, jobs@, None);
                }
                self.jobs = jobs;
            },
            None => {
                proof {
                    assert(!self@.contains_key(job_id@));
                }
            },
        }
    }

    /// Sets the overall progress of job `job_id`, if it is registered.
    pub fn set_progress(&mut self, job_id: &str, progress: Progress)
        ensures
            old(self)@.contains_key(job_id@) ==> final(self)@ == old(self)@.insert(
                job_id@,
                (old(self)@[job_id@].0, progress),
            ),
            !old(self)@.contains_key(job_id@) ==> final(self)@ == old(self)@,
            forall|k: Seq<char>| #[trigger]
                old(self)@.contains_key(k) ==> final(self).token(k) == old(self).token(k),
    {
        proof {
            use_type_invariant(&*self);
            lemma_entries_map(self.jobs@);
        }
        match self.position(job_id) {
            Some(i) => {
                let mut jobs = Vec::new();
                std::mem::swap(&mut jobs, &mut self.jobs);
                let ghost before = jobs@;
                let mut h = jobs.remove(i);
                h.status.overall_progress = progress;
                jobs.insert(i, h);
                proof {
                    Self::lemma_replace_entry(before, jobs@, i as int, job_id@);
                    assert forall|j: int|
                        0 <= j < before.len() && None::<Seq<char>> != Some((#[trigger] before[j]).status.job_id@) implies jobs@[j].cancel
                        == before[j].cancel && jobs@[j].status.job_id@ == before[j].status.job_id@ by {
                        if j != i {
                            assert(jobs@[j] == before[j]);
                        }
                    }
                    lemma_tokens_kept(before, jobs@, None);
                }
                self.jobs = jobs;
            },
            None => {
                proof {
                    assert(!self@.contains_key(job_id@));
                }
            },
        }
    }

    proof fn lemma_replace_entry(before: Seq<JobHandle>, after: Seq<JobHandle>, i: int, id: Seq<char>)
        requires
            distinct_ids(before),
            0 <= i < before.len(),
            after.len() == before.len(),
            before[i].status.job_id@ == id,
            after[i].status.job_id@ == id,
            forall|j: int| 0 <= j < before.len() && j != i ==> after[j] == before[j],
        ensures
            distinct_ids(after),
            entries_map(after) == entries_map(before).insert(
                id,
                (after[i].status.state, after[i].status.overall_progress),
            ),
    {
        assert(distinct_ids(after)) by {
            assert forall|a: int, b: int|
                0 <= a < after.len() && 0 <= b < after.len() && a != b implies (
                #[trigger] after[a]).status.job_id@ != (#[trigger] after[b]).status.job_id@ by {
                if a != i {
                    assert(after[a] == before[a]);
                }
                if b != i {
                    assert(after[b] == before[b]);
                }
                assert(before[a].status.job_id@ != before[b].status.job_id@);
            }
        }
        lemma_entries_map(before);
        lemma_entries_map(after);
        let target = entries_map(before).insert(
            id,
            (after[i].status.state, after[i].status.overall_progress),
        );
        assert forall|k: Seq<char>| #[trigger]
            entries_map(after).contains_key(k) <==> target.contains_key(k) by {
            if entries_map(after).contains_key(k) {
                let j = choose|j: int| 0 <= j < after.len() && (#[trigger] after[j]).status.job_id@ == k;
                if j != i {
                    assert(after[j] == before[j]);
                }
            }
            if entries_map(before).contains_key(k) {
                let j = choose|j: int|
                    0 <= j < before.len() && (#[trigger] before[j]).status.job_id@ == k;
                if j != i {
                    assert(after[j] == before[j]);
                }
            }
        }
        assert forall|k: Seq<char>| #[trigger]
            entries_map(after).contains_key(k) implies entries_map(after)[k] == target[k] by {
            let j = choose|j: int| 0 <= j < after.len() && (#[trigger] after[j]).status.job_id@ == k;
            if j != i {
                assert(after[j] == before[j]);
            }
        }
        assert(entries_map(after) =~= target);
    }

    /// A handle on the cancellation token of job `job_id`, if it is registered.
    pub fn cancel_token(&self, job_id: &str) -> (t: Option<CancellationToken>)
        ensures
            t is Some <==> self@.contains_key(job_id@),
            self@.contains_key(job_id@) ==> t == Some(self.token(job_id@)),
    {
        proof {
            use_type_invariant(self);
            lemma_entries_map(self.jobs@);
        }
        match self.position(job_id) {
            Some(i) => {
                proof {
                    lemma_token_at(self.jobs@, i as int);
                }
                Some(share_token(&self.jobs[i].cancel))
            },
            None => None,
        }
    }

    /// Status of job `job_id`, if it is registered.
    pub fn status(&self, job_id: &str) -> (s: Option<JobStatus>)
        ensures
            match s {
                Some(st) => self@.contains_key(job_id@) && st.job_id@ == job_id@ && (
                    st.state,
                    st.overall_progress,
                ) == self@[job_id@],
                None => !self@.contains_key(job_id@),
            },
    {
        proof {
            use_type_invariant(self);
            lemma_entries_map(self.jobs@);
        }
        match self.position(job_id) {
            Some(i) => {
                let st = &self.jobs[i].status;
                Some(
                    JobStatus {
                        job_id: st.job_id.clone(),
                        state: st.state,
                        overall_progress: st.overall_progress,
                    },
                )
            },
            None => None,
        }
    }
}

/// Starting a job only when none is running keeps at most one job running.
pub proof fn law_single_running_job(m: Map<Seq<char>, JobEntry>, id: Seq<char>)
    requires
        !some_running(m),
    ensures
        at_most_one_running(m.insert(id, (JobState::Running, Progress { num: 0, den: 1 }))),
{
    let m2 = m.insert(id, (JobState::Running, Progress { num: 0, den: 1 }));
    assert forall|a: Seq<char>, b: Seq<char>|
        m2.contains_key(a) && m2.contains_key(b) && (#[trigger] m2[a]).0 == JobState::Running && (
        #[trigger] m2[b]).0 == JobState::Running implies a == b by {
        if a != id {
            assert(m.contains_key(a) && m[a].0 == JobState::Running);
        }
        if b != id {
            assert(m.contains_key(b) && m[b].0 == JobState::Running);
        }
    }
}

/// Finishing a job (any state other than running) keeps at most one job
/// running, and after it none is running if it was the running one.
pub proof fn law_finishing_keeps_single_running(
    m: Map<Seq<char>, JobEntry>,
    id: Seq<char>,
    state: JobState,
)
    requires
        at_most_one_running(m),
        m.contains_key(id),
        state != JobState::Running,
    ensures
        at_most_one_running(m.insert(id, (state, m[id].1))),
        m[id].0 == JobState::Running ==> !some_running(m.insert(id, (state, m[id].1))),
{
    let m2 = m.insert(id, (state, m[id].1));
    assert forall|a: Seq<char>, b: Seq<char>|
        m2.contains_key(a) && m2.contains_key(b) && (#[trigger] m2[a]).0 == JobState::Running && (
        #[trigger] m2[b]).0 == JobState::Running implies a == b by {
        assert(m[a] == m2[a] && m[b] == m2[b]);
    }
    if m[id].0 == JobState::Running {
        if some_running(m2) {
            let k = choose|k: Seq<char>| m2.contains_key(k) && (#[trigger] m2[k]).0 == JobState::Running;
            assert(m[k] == m2[k]);
        }
    }
}

} // verus!
