//! In-memory job store and working-directory resolution.

use vstd::prelude::*;
use vstd::string::*;

use crate::error::{Error, ErrorView};
use crate::job::log::{JobReplayLog, LogBuffer, LogEventView, DEFAULT_LOG_BYTE_CAP};
use crate::job::status::{JobStatus, StatusView};
use crate::path::{
    absolute_paths_start_with_the_root, closing_slash_and_dot_add_nothing, is_absolute, path_parts,
    path_within, paths_below_lie_within, starts_at_root,
};
use crate::proto::ids::{JobId, SessionId};
use crate::proto::job::JobPayload;
use crate::text::{chars_of, finishes_with, same_text};
use crate::textmap::TextMap;
use crate::time::Timestamp;
use crate::workspace::Workspace;

verus! {

/// A job bound to a session, with its runtime state and log buffer.
#[derive(Debug)]
pub struct Job {
    /// The unique identifier of this job.
    pub id: JobId,
    /// The session this job belongs to.
    pub session_id: SessionId,
    /// The work this job executes.
    pub payload: JobPayload,
    /// The resolved working directory within the workspace.
    pub cwd: String,
    /// Current lifecycle status of the job.
    pub status: JobStatus,
    /// Wall-clock time at which this job was created.
    pub created_at: Timestamp,
    /// Wall-clock time at which the process started, if it has started.
    pub started_at: Option<Timestamp>,
    /// Wall-clock time at which the process finished, if it has finished.
    pub finished_at: Option<Timestamp>,
    /// Accumulated stdout and stderr chunks.
    pub log_buffer: LogBuffer,
}

impl Job {
    /// Create a job in the pending state, with an empty log.
    ///
    /// The working directory has to be one that was checked against the workspace.
    pub fn new(
        id: JobId,
        session_id: SessionId,
        payload: JobPayload,
        cwd: String,
        now: Timestamp,
    ) -> (r: Self)
        ensures
            r.id == id,
            r.session_id == session_id,
            r.payload == payload,
            r.cwd == cwd,
            r.status@ == StatusView::Pending,
            r.created_at == now,
            r.started_at is None,
            r.finished_at is None,
            r.log_buffer.wf(),
            r.log_buffer.log() == Seq::<LogEventView>::empty(),
            r.log_buffer.cap() == DEFAULT_LOG_BYTE_CAP,
    {
        Job {
            id,
            session_id,
            payload,
            cwd,
            status: JobStatus::Pending,
            created_at: now,
            started_at: None,
            finished_at: None,
            log_buffer: LogBuffer::new(),
        }
    }
}

/// The ids of a list.
pub open spec fn id_texts(ids: Seq<JobId>) -> Seq<Seq<char>> {
    Seq::new(ids.len(), |i: int| ids[i]@)
}

/// The jobs by their ids, and the ids that were inserted for each session.
#[verifier::ext_equal]
pub struct JobIndices {
    pub jobs: Map<Seq<char>, Job>,
    pub by_session: Map<Seq<char>, Seq<Seq<char>>>,
}

/// The ids under a session; none for one without an entry.
pub open spec fn ids_of(indices: JobIndices, session: Seq<char>) -> Seq<Seq<char>> {
    if indices.by_session.contains_key(session) {
        indices.by_session[session]
    } else {
        Seq::empty()
    }
}

/// The indices after an insertion: the job under its id, and its id last under
/// its session.
pub open spec fn with_job(indices: JobIndices, job: Job) -> JobIndices {
    JobIndices {
        jobs: indices.jobs.insert(job.id@, job),
        by_session: indices.by_session.insert(
            job.session_id@,
            ids_of(indices, job.session_id@).push(job.id@),
        ),
    }
}

/// The ids of a list that are not the given one.
pub open spec fn ids_besides(ids: Seq<Seq<char>>, gone: Seq<char>) -> Seq<Seq<char>> {
    ids.filter(|other: Seq<char>| other != gone)
}

/// The indices after a removal: the job is gone, and its id is gone from under
/// its session.
pub open spec fn without_job(indices: JobIndices, id: Seq<char>) -> JobIndices {
    if indices.jobs.contains_key(id) {
        let session = indices.jobs[id].session_id@;
        JobIndices {
            jobs: indices.jobs.remove(id),
            by_session: if indices.by_session.contains_key(session) {
                indices.by_session.insert(
                    session,
                    ids_besides(indices.by_session[session], id),
                )
            } else {
                indices.by_session
            },
        }
    } else {
        indices
    }
}

/// Whether the two indices agree: under each session stand exactly the ids of
/// the jobs that belong to it.
pub open spec fn indices_agree(indices: JobIndices) -> bool {
    forall|session: Seq<char>, id: Seq<char>| #[trigger]
        ids_of(indices, session).contains(id) <==> indices.jobs.contains_key(id)
            && indices.jobs[id].session_id@ == session
}

/// The store of jobs, indexed by id and session.
#[derive(Debug)]
pub struct JobStore {
    jobs: TextMap<Job>,
    by_session: TextMap<Vec<JobId>>,
}

impl View for JobStore {
    type V = JobIndices;

    closed spec fn view(&self) -> JobIndices {
        JobIndices {
            jobs: self.jobs@,
            by_session: self.by_session@.map_values(|ids: Vec<JobId>| id_texts(ids@)),
        }
    }
}

impl Default for JobStore {
    fn default() -> (r: Self)
        ensures
            r.wf(),
            r@ == (JobIndices { jobs: Map::empty(), by_session: Map::empty() }),
    {
        Self::new()
    }
}

impl JobStore {
    /// What holds of every store: each job stands under its own id.
    pub closed spec fn wf(&self) -> bool {
        &&& self.jobs.wf()
        &&& self.by_session.wf()
        &&& forall|id: Seq<char>| #[trigger]
            self.jobs@.contains_key(id) ==> self.jobs@[id].id@ == id
    }

    /// In a well-formed store each job stands under its own id.
    pub proof fn jobs_stand_under_their_ids(&self)
        requires
            self.wf(),
        ensures
            forall|id: Seq<char>| #[trigger]
                self@.jobs.contains_key(id) ==> self@.jobs[id].id@ == id,
    {
    }

    /// Create an empty store.
    pub fn new() -> (r: Self)
        ensures
            r.wf(),
            r@ == (JobIndices { jobs: Map::empty(), by_session: Map::empty() }),
    {
        let r = JobStore { jobs: TextMap::new(), by_session: TextMap::new() };
        assert(r@.by_session =~= Map::<Seq<char>, Seq<Seq<char>>>::empty());
        r
    }

    /// Insert a job. A job that had its id is replaced.
    pub fn insert(&mut self, job: Job)
        requires
            old(self).wf(),
        ensures
            final(self).wf(),
            final(self)@ == with_job(old(self)@, job),
    {
        let ghost before = self@;
        let ghost sessions_before = self.by_session@;
        let id = job.id.clone();
        let session = job.session_id.0.clone();
        let mut ids: Vec<JobId> = match self.by_session.remove(session.as_str()) {
            Some(ids) => ids,
            None => Vec::new(),
        };
        proof {
            assert(id_texts(ids@) =~= ids_of(before, job.session_id@));
        }
        let ghost ids_before = ids@;
        let key = id.0.clone();
        ids.push(id);
        assert(id_texts(ids@) =~= id_texts(ids_before).push(job.id@));
        let _ = self.by_session.insert(session, ids);
        let _ = self.jobs.insert(key, job);
        proof {
            assert(self@.by_session =~= with_job(before, job).by_session);
        }
    }

    /// Look up a job.
    pub fn get(&self, id: &JobId) -> (r: Option<&Job>)
        requires
            self.wf(),
        ensures
            match r {
                Some(job) => self@.jobs.contains_key(id@) && *job == self@.jobs[id@],
                None => !self@.jobs.contains_key(id@),
            },
    {
        self.jobs.get(id.as_str())
    }

    /// A job, to be changed in place; its id has to stay.
    pub fn get_mut(&mut self, id: &JobId) -> (r: Option<&mut Job>)
        requires
            old(self).wf(),
        ensures
            match r {
                Some(job) => {
                    &&& old(self)@.jobs.contains_key(id@)
                    &&& *job == old(self)@.jobs[id@]
                    &&& final(job).id == job.id ==> final(self).wf()
                    &&& final(self)@ == (JobIndices {
                        jobs: old(self)@.jobs.insert(id@, *final(job)),
                        by_session: old(self)@.by_session,
                    })
                },
                None => !old(self)@.jobs.contains_key(id@) && *final(self) == *old(self),
            },
    {
        self.jobs.get_mut(id.as_str())
    }

    /// The ids that were inserted for a session and not removed, oldest first.
    pub fn list_for_session(&self, sid: &SessionId) -> (r: Vec<JobId>)
        requires
            self.wf(),
        ensures
            id_texts(r@) == ids_of(self@, sid@),
    {
        match self.by_session.get(sid.as_str()) {
            None => {
                let r: Vec<JobId> = Vec::new();
                assert(id_texts(r@) =~= Seq::<Seq<char>>::empty());
                r
            },
            Some(ids) => {
                let r = ids.clone();
                assert(id_texts(r@) =~= id_texts(ids@));
                r
            },
        }
    }

    /// Remove a job from the store and from under its session. The removed job
    /// comes back.
    pub fn remove(&mut self, id: &JobId) -> (r: Option<Job>)
        requires
            old(self).wf(),
        ensures
            final(self).wf(),
            final(self)@ == without_job(old(self)@, id@),
            match r {
                Some(job) => old(self)@.jobs.contains_key(id@) && job == old(self)@.jobs[id@],
                None => !old(self)@.jobs.contains_key(id@),
            },
    {
        let ghost before = self@;
        match self.jobs.remove(id.as_str()) {
            None => {
                assert(self@.jobs =~= before.jobs);
                None
            },
            Some(job) => {
                match self.by_session.remove(job.session_id.as_str()) {
                    None => {
                        assert(self@.by_session =~= before.by_session);
                    },
                    Some(ids) => {
                        let kept = ids_without(&ids, id);
                        let _ = self.by_session.insert(job.session_id.0.clone(), kept);
                        assert(self@.by_session =~= without_job(before, id@).by_session);
                    },
                }
                Some(job)
            },
        }
    }
}

fn ids_without(ids: &Vec<JobId>, id: &JobId) -> (kept: Vec<JobId>)
    ensures
        id_texts(kept@) == ids_besides(id_texts(ids@), id@),
{
    let ghost keep = |other: Seq<char>| other != id@;
    let mut kept: Vec<JobId> = Vec::new();
    proof {
        reveal(Seq::filter);
        assert(id_texts(ids@).take(0) =~= Seq::empty());
        assert(id_texts(kept@) =~= id_texts(ids@).take(0).filter(keep));
    }
    let mut i: usize = 0;
    while i < ids.len()
        invariant
            i <= ids@.len(),
            keep == (|other: Seq<char>| other != id@),
            id_texts(kept@) == id_texts(ids@).take(i as int).filter(keep),
        decreases ids@.len() - i,
    {
        let ghost all = id_texts(ids@);
        let ghost kept_before = id_texts(kept@);
        proof {
            reveal(Seq::filter);
            assert(all.take(i + 1).drop_last() =~= all.take(i as int));
            assert(all.take(i + 1).last() == ids@[i as int]@);
        }
        if !same_text(ids[i].as_str(), id.as_str()) {
            kept.push(ids[i].clone());
            assert(id_texts(kept@) =~= kept_before.push(ids@[i as int]@));
        }
        i = i + 1;
    }
    assert(id_texts(ids@).take(ids@.len() as int) =~= id_texts(ids@));
    kept
}

/// Inserting a job with a fresh id keeps the indices in agreement.
pub proof fn inserting_keeps_the_indices_in_agreement(indices: JobIndices, job: Job)
    requires
        indices_agree(indices),
        !indices.jobs.contains_key(job.id@),
    ensures
        indices_agree(with_job(indices, job)),
{
    let after = with_job(indices, job);
    assert forall|session: Seq<char>, id: Seq<char>| #[trigger]
        ids_of(after, session).contains(id) <==> after.jobs.contains_key(id)
            && after.jobs[id].session_id@ == session by {
        let ids = ids_of(indices, session);
        assert(ids.contains(id) <==> indices.jobs.contains_key(id)
            && indices.jobs[id].session_id@ == session);
        if session == job.session_id@ {
            let now = ids.push(job.id@);
            assert(now[ids.len() as int] == job.id@);
            if ids.contains(id) {
                let k = choose|k: int| 0 <= k < ids.len() && ids[k] == id;
                assert(now[k] == id);
            }
        }
    }
}

proof fn lemma_ids_besides(ids: Seq<Seq<char>>, gone: Seq<char>, id: Seq<char>)
    ensures
        ids_besides(ids, gone).contains(id) <==> ids.contains(id) && id != gone,
    decreases ids.len(),
{
    reveal(Seq::filter);
    if ids.len() > 0 {
        let earlier = ids.drop_last();
        let kept = ids_besides(earlier, gone);
        lemma_ids_besides(earlier, gone, id);
        assert(ids_besides(ids, gone) == if ids.last() != gone {
            kept.push(ids.last())
        } else {
            kept
        });
        if kept.contains(id) {
            let k = choose|k: int| 0 <= k < kept.len() && kept[k] == id;
            assert(kept.push(ids.last())[k] == id);
        }
        assert(kept.push(ids.last())[kept.len() as int] == ids.last());
        if earlier.contains(id) {
            let k = choose|k: int| 0 <= k < earlier.len() && earlier[k] == id;
            assert(ids[k] == id);
        }
        if ids.contains(id) && id != ids.last() {
            let k = choose|k: int| 0 <= k < ids.len() && ids[k] == id;
            assert(earlier[k] == id);
        }
        assert(ids[ids.len() - 1] == ids.last());
    }
}

/// Removing a job keeps the indices in agreement.
pub proof fn removing_keeps_the_indices_in_agreement(indices: JobIndices, gone: Seq<char>)
    requires
        indices_agree(indices),
    ensures
        indices_agree(without_job(indices, gone)),
{
    let after = without_job(indices, gone);
    if indices.jobs.contains_key(gone) {
        let owner = indices.jobs[gone].session_id@;
        assert(ids_of(indices, owner).contains(gone));
        assert forall|session: Seq<char>, id: Seq<char>| #[trigger]
            ids_of(after, session).contains(id) <==> after.jobs.contains_key(id)
                && after.jobs[id].session_id@ == session by {
            let ids = ids_of(indices, session);
            assert(ids.contains(id) <==> indices.jobs.contains_key(id)
                && indices.jobs[id].session_id@ == session);
            lemma_ids_besides(ids, gone, id);
        }
    }
}

/// A base path joined with another: an absolute one stands alone, any other
/// follows the base after a slash.
pub open spec fn joined_path(base: Seq<char>, rel: Seq<char>) -> Seq<char> {
    if is_absolute(rel) {
        rel
    } else if base.len() == 0 || base.last() == '/' {
        base + rel
    } else {
        base + "/"@ + rel
    }
}

/// The path that a requested working directory names, before symbolic links
/// are resolved.
pub open spec fn cwd_target(rel: Option<Seq<char>>, root: Seq<char>) -> Seq<char> {
    match rel {
        None => root,
        Some(r) => joined_path(root, r),
    }
}

/// A base path joined with another.
pub fn join_path(base: &str, rel: &str) -> (r: String)
    ensures
        r@ == joined_path(base@, rel@),
{
    if starts_at_root(rel) {
        return rel.to_owned();
    }
    let v = chars_of(base);
    let mut r = base.to_owned();
    if v.len() > 0 && v[v.len() - 1] != '/' {
        r.append("/");
    }
    r.append(rel);
    r
}

/// The path that has to be resolved for a requested working directory.
pub fn cwd_to_resolve(rel: Option<&str>, workspace: &Workspace) -> (r: String)
    ensures
        r@ == cwd_target(
            match rel {
                Some(text) => Some(text@),
                None => None,
            },
            workspace@,
        ),
{
    match rel {
        None => workspace.root().to_owned(),
        Some(text) => join_path(workspace.root(), text),
    }
}

/// The outcome of resolving a working directory: the resolved path where it
/// lies within the workspace, otherwise a violation.
pub open spec fn confined_cwd(
    target: Seq<char>,
    canonical: Option<Seq<char>>,
    root: Seq<char>,
) -> Result<Seq<char>, ErrorView> {
    match canonical {
        None => Err(ErrorView::WorkspaceViolation { path: target }),
        Some(path) => if path_within(path, root) {
            Ok(path)
        } else {
            Err(ErrorView::WorkspaceViolation { path })
        },
    }
}

/// Resolve a requested working directory against a workspace, given what
/// resolving [`cwd_to_resolve`] gave: the path without symbolic links, or
/// nothing where there is no such path.
pub fn resolve_cwd(rel: Option<&str>, canonical: Option<String>, workspace: &Workspace) -> (r:
    Result<String, Error>)
    ensures
        ({
            let target = cwd_target(
                match rel {
                    Some(text) => Some(text@),
                    None => None,
                },
                workspace@,
            );
            let resolved = match canonical {
                Some(path) => Some(path@),
                None => None,
            };
            match r {
                Ok(path) => confined_cwd(target, resolved, workspace@) == Ok::<
                    Seq<char>,
                    ErrorView,
                >(path@),
                Err(e) => confined_cwd(target, resolved, workspace@) == Err::<
                    Seq<char>,
                    ErrorView,
                >(e@),
            }
        }),
{
    match canonical {
        None => Err(Error::WorkspaceViolation { path: cwd_to_resolve(rel, workspace) }),
        Some(path) => {
            if workspace.contains(path.as_str()) {
                Ok(path)
            } else {
                Err(Error::WorkspaceViolation { path })
            }
        },
    }
}

/// A working directory is taken exactly as it resolves, and only where it begins
/// with the components of the workspace's root; a violation names the path that
/// lies outside.
pub proof fn working_directories_stay_inside(
    target: Seq<char>,
    canonical: Option<Seq<char>>,
    root: Seq<char>,
    path: Seq<char>,
)
    ensures
        confined_cwd(target, canonical, root) == Ok::<Seq<char>, ErrorView>(path) <==> canonical
            == Some(path) && path_parts(root).is_prefix_of(path_parts(path)),
        confined_cwd(target, canonical, root) matches Err(e) ==> e == (
        ErrorView::WorkspaceViolation {
            path: match canonical {
                Some(outside) => outside,
                None => target,
            },
        }),
{
}

/// A working directory that is not named is the root; a relative one is sought
/// below the root, an absolute one where it says.
pub proof fn working_directories_are_sought_from_the_root(root: Seq<char>, rel: Seq<char>)
    ensures
        cwd_target(None, root) == root,
        is_absolute(rel) ==> cwd_target(Some(rel), root) == rel,
        !is_absolute(rel) && root.len() > 0 ==> path_within(cwd_target(Some(rel), root), root),
        !is_absolute(rel) ==> finishes_with(cwd_target(Some(rel), root), rel),
{
    reveal_strlit("/");
    let target = cwd_target(Some(rel), root);
    if !is_absolute(rel) {
        assert(target.skip(target.len() - rel.len()) =~= rel);
        if root.len() > 0 {
            if root.last() == '/' {
                let base = root.drop_last();
                assert(target =~= base + "/"@ + rel);
                if base.len() > 0 {
                    paths_below_lie_within(base, rel);
                    closing_slash_and_dot_add_nothing(base);
                    assert(root =~= base + "/"@);
                } else {
                    assert(root =~= "/"@);
                    absolute_paths_start_with_the_root(target);
                    assert(target[0] == '/');
                }
            } else {
                paths_below_lie_within(root, rel);
            }
        }
    }
}

/// Inserting a job changes what is under its own id and its own session alone:
/// the job is found under its id, its id comes last under its session, and every
/// other job and session stays as it was.
pub proof fn inserting_touches_one_job(
    indices: JobIndices,
    job: Job,
    id: Seq<char>,
    session: Seq<char>,
)
    ensures
        with_job(indices, job).jobs.contains_key(job.id@),
        with_job(indices, job).jobs[job.id@] == job,
        ids_of(with_job(indices, job), job.session_id@) == ids_of(indices, job.session_id@).push(
            job.id@,
        ),
        id != job.id@ ==> with_job(indices, job).jobs.contains_key(id) == indices.jobs.contains_key(
            id,
        ) && with_job(indices, job).jobs[id] == indices.jobs[id],
        session != job.session_id@ ==> ids_of(with_job(indices, job), session) == ids_of(
            indices,
            session,
        ),
{
}

/// Removing a job takes away that job and its id alone: every other job stays, and
/// the other ids of its session stay in their order.
pub proof fn removing_touches_one_job(
    indices: JobIndices,
    gone: Seq<char>,
    id: Seq<char>,
    session: Seq<char>,
)
    ensures
        !without_job(indices, gone).jobs.contains_key(gone),
        id != gone ==> without_job(indices, gone).jobs.contains_key(id)
            == indices.jobs.contains_key(id) && without_job(indices, gone).jobs[id]
            == indices.jobs[id],
        indices.jobs.contains_key(gone) && session != indices.jobs[gone].session_id@ ==> ids_of(
            without_job(indices, gone),
            session,
        ) == ids_of(indices, session),
        !indices.jobs.contains_key(gone) ==> without_job(indices, gone) == indices,
{
}

/// One slash stands between a base and what is sought below it: none is added to
/// a base that ends in one.
pub proof fn one_slash_joins_a_path(base: Seq<char>, rel: Seq<char>)
    requires
        !is_absolute(rel),
        base.len() > 0,
    ensures
        base.is_prefix_of(joined_path(base, rel)),
        base.last() == '/' ==> joined_path(base, rel).len() == base.len() + rel.len(),
        base.last() != '/' ==> joined_path(base, rel).len() == base.len() + 1 + rel.len()
            && joined_path(base, rel)[base.len() as int] == '/',
{
    reveal_strlit("/");
    assert(joined_path(base, rel).take(base.len() as int) =~= base);
}

/// A session lists the jobs that it keeps: removing one takes its id from the
/// list, wherever it stands, and no other.
pub proof fn removing_takes_one_id_from_its_session(
    indices: JobIndices,
    gone: Seq<char>,
    id: Seq<char>,
)
    requires
        indices.jobs.contains_key(gone),
    ensures
        ({
            let session = indices.jobs[gone].session_id@;
            ids_of(without_job(indices, gone), session).contains(id) <==> ids_of(
                indices,
                session,
            ).contains(id) && id != gone
        }),
{
    let session = indices.jobs[gone].session_id@;
    lemma_ids_besides(ids_of(indices, session), gone, id);
}

} // verus!
