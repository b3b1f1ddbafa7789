use crate::docker_api::{job_views, JobConfig, JobConfigView};
use crate::job_map::JobMap;
use crate::text::text_eq;
use vstd::prelude::*;

verus! {

// ---------------------------------------------------------------------------
// Which discovered jobs count: for each job id, the last one.
// ---------------------------------------------------------------------------

/// A later discovered job has the same id as job `i`.
pub open spec fn superseded(d: Seq<JobConfigView>, i: int) -> bool {
    exists|j: int| i < j < d.len() && #[trigger] d[j].job_id == d[i].job_id
}

/// The jobs among the first `n` of `d` that no later job supersedes, in order.
pub open spec fn latest_prefix(d: Seq<JobConfigView>, n: int) -> Seq<JobConfigView>
    decreases n,
{
    if n <= 0 {
        Seq::empty()
    } else {
        let prev = latest_prefix(d, n - 1);
        if superseded(d, n - 1) {
            prev
        } else {
            prev.push(d[n - 1])
        }
    }
}

/// The discovered jobs that count: for each job id, the last job with it.
pub open spec fn latest_jobs(d: Seq<JobConfigView>) -> Seq<JobConfigView> {
    latest_prefix(d, d.len() as int)
}

/// The job ids of `d`.
pub open spec fn job_ids(d: Seq<JobConfigView>) -> Set<Seq<char>> {
    Set::new(|id: Seq<char>| exists|i: int| 0 <= i < d.len() && (#[trigger] d[i]).job_id == id)
}

/// No two jobs of `t` share a job id.
pub open spec fn ids_distinct(t: Seq<JobConfigView>) -> bool {
    forall|a: int, b: int| 0 <= a < b < t.len() ==> (#[trigger] t[a]).job_id != (#[trigger] t[b]).job_id
}

proof fn lemma_latest_prefix(d: Seq<JobConfigView>, n: int)
    requires
        0 <= n <= d.len(),
    ensures
        latest_prefix(d, n).len() <= n,
        ids_distinct(latest_prefix(d, n)),
        forall|a: int|
            0 <= a < latest_prefix(d, n).len() ==> exists|k: int|
                0 <= k < n && !superseded(d, k) && #[trigger] latest_prefix(d, n)[a] == d[k],
        forall|k: int|
            0 <= k < n && !superseded(d, k) ==> exists|a: int|
                0 <= a < latest_prefix(d, n).len() && #[trigger] latest_prefix(d, n)[a] == d[k],
    decreases n,
{
    if n > 0 {
        lemma_latest_prefix(d, n - 1);
        let prev = latest_prefix(d, n - 1);
        let cur = latest_prefix(d, n);
        if !superseded(d, n - 1) {
            assert(cur == prev.push(d[n - 1]));
            assert forall|a: int, b: int| 0 <= a < b < cur.len() implies (#[trigger] cur[a]).job_id
                != (#[trigger] cur[b]).job_id by {
                if b == cur.len() - 1 {
                    let k = choose|k: int| 0 <= k < n - 1 && !superseded(d, k) && prev[a] == d[k];
                    assert(cur[a] == prev[a]);
                    if cur[a].job_id == cur[b].job_id {
                        assert(d[n - 1].job_id == d[k].job_id);
                        assert(superseded(d, k));
                    }
                } else {
                    assert(cur[a] == prev[a]);
                    assert(cur[b] == prev[b]);
                }
            }
            assert forall|a: int| 0 <= a < cur.len() implies exists|k: int|
                0 <= k < n && !superseded(d, k) && #[trigger] cur[a] == d[k] by {
                if a < prev.len() {
                    assert(cur[a] == prev[a]);
                } else {
                    assert(cur[a] == d[n - 1]);
                }
            }
            assert forall|k: int| 0 <= k < n && !superseded(d, k) implies exists|a: int|
                0 <= a < cur.len() && #[trigger] cur[a] == d[k] by {
                if k < n - 1 {
                    let a = choose|a: int| 0 <= a < prev.len() && prev[a] == d[k];
                    assert(cur[a] == prev[a]);
                } else {
                    assert(cur[prev.len() as int] == d[k]);
                }
            }
        }
    }
}

proof fn lemma_last_with_id(d: Seq<JobConfigView>, k: int) -> (m: int)
    requires
        0 <= k < d.len(),
    ensures
        k <= m < d.len(),
        d[m].job_id == d[k].job_id,
        !superseded(d, m),
    decreases d.len() - k,
{
    if superseded(d, k) {
        let j = choose|j: int| k < j < d.len() && #[trigger] d[j].job_id == d[k].job_id;
        lemma_last_with_id(d, j)
    } else {
        k
    }
}

/// The jobs that count have distinct job ids, and they are those of all the
/// discovered jobs.
pub proof fn lemma_latest_jobs(d: Seq<JobConfigView>)
    ensures
        ids_distinct(latest_jobs(d)),
        job_ids(latest_jobs(d)) == job_ids(d),
{
    let t = latest_jobs(d);
    lemma_latest_prefix(d, d.len() as int);
    assert forall|id: Seq<char>| job_ids(t).contains(id) <==> job_ids(d).contains(id) by {
        if job_ids(t).contains(id) {
            let a = choose|a: int| 0 <= a < t.len() && (#[trigger] t[a]).job_id == id;
            let k = choose|k: int| 0 <= k < d.len() && !superseded(d, k) && t[a] == d[k];
            assert(d[k].job_id == id);
        }
        if job_ids(d).contains(id) {
            let k = choose|k: int| 0 <= k < d.len() && (#[trigger] d[k]).job_id == id;
            let m = lemma_last_with_id(d, k);
            let a = choose|a: int| 0 <= a < t.len() && #[trigger] t[a] == d[m];
            assert(t[a].job_id == id);
        }
    }
    assert(job_ids(t) =~= job_ids(d));
}

// ---------------------------------------------------------------------------
// What one cycle does to the tracked jobs.
// ---------------------------------------------------------------------------

/// The job `k` stays under its earlier UUID: it was tracked, and no removal of
/// it has succeeded.
pub open spec fn keeps_earlier(
    earlier: Map<Seq<char>, u128>,
    removals: Map<Seq<char>, bool>,
    k: Seq<char>,
) -> bool {
    earlier.contains_key(k) && !(removals.contains_key(k) && removals[k])
}

/// The tracked jobs after a cycle, from those before it (`earlier`), the
/// outcome of each removal attempted (`removals`: whether it succeeded) and
/// of each addition attempted (`additions`: the new UUID, or `None` when the
/// scheduler refused the job). A job is tracked under its earlier UUID while
/// no removal of it has succeeded; otherwise under the UUID of its successful
/// addition, if there is one; otherwise not at all.
pub open spec fn reconciled(
    earlier: Map<Seq<char>, u128>,
    removals: Map<Seq<char>, bool>,
    additions: Map<Seq<char>, Option<u128>>,
) -> Map<Seq<char>, u128> {
    Map::new(
        |k: Seq<char>|
            keeps_earlier(earlier, removals, k) || (additions.contains_key(k)
                && additions[k] is Some),
        |k: Seq<char>|
            if keeps_earlier(earlier, removals, k) {
                earlier[k]
            } else {
                additions[k]->0
            },
    )
}

/// A discovered job that has been dealt with: if it was tracked, its removal
/// was attempted; its addition was attempted exactly when it was new or its
/// removal succeeded.
pub open spec fn finished_job(
    earlier: Map<Seq<char>, u128>,
    removals: Map<Seq<char>, bool>,
    additions: Map<Seq<char>, Option<u128>>,
    id: Seq<char>,
) -> bool {
    &&& (earlier.contains_key(id) ==> removals.contains_key(id))
    &&& (additions.contains_key(id) <==> (!earlier.contains_key(id) || removals[id]))
}

/// Nothing has been attempted for the job `id`.
pub open spec fn untouched(
    removals: Map<Seq<char>, bool>,
    additions: Map<Seq<char>, Option<u128>>,
    id: Seq<char>,
) -> bool {
    !removals.contains_key(id) && !additions.contains_key(id)
}

/// The stale jobs `st`: each tracked job that was not discovered, once, with
/// its UUID.
pub open spec fn stale_list_ok(
    st: Seq<(Seq<char>, u128)>,
    earlier: Map<Seq<char>, u128>,
    active: Set<Seq<char>>,
) -> bool {
    &&& forall|a: int, b: int| 0 <= a < b < st.len() ==> (#[trigger] st[a]).0 != (#[trigger] st[b]).0
    &&& forall|a: int|
        0 <= a < st.len() ==> earlier.contains_key((#[trigger] st[a]).0) && earlier[st[a].0]
            == st[a].1 && !active.contains(st[a].0)
    &&& forall|k: Seq<char>|
        earlier.contains_key(k) && !active.contains(k) ==> exists|a: int|
            0 <= a < st.len() && (#[trigger] st[a]).0 == k
}

/// What the driver of a cycle is asked to do next.
pub enum SyncAction {
    /// Remove the job `job_id` (UUID `uuid`) from the scheduler, so that it
    /// can be added again with its current settings.
    RemoveJob { job_id: String, uuid: u128 },
    /// Add `job` to the scheduler; `replacing` says whether it replaces a
    /// job just removed.
    AddJob { job: JobConfig, replacing: bool },
    /// Remove the job `job_id` (UUID `uuid`), which no container asks for
    /// any more.
    RemoveStaleJob { job_id: String, uuid: u128 },
    /// The cycle is over; `removal_errors` says whether the removal of some
    /// stale job failed.
    Finished { removal_errors: bool },
}

/// A [`SyncAction`] as values.
pub enum SyncActionView {
    RemoveJob(Seq<char>, u128),
    AddJob(JobConfigView, bool),
    RemoveStaleJob(Seq<char>, u128),
    Finished(bool),
}

impl View for SyncAction {
    type V = SyncActionView;

    open spec fn view(&self) -> SyncActionView {
        match self {
            SyncAction::RemoveJob { job_id, uuid } => SyncActionView::RemoveJob(job_id@, *uuid),
            SyncAction::AddJob { job, replacing } => SyncActionView::AddJob(job@, *replacing),
            SyncAction::RemoveStaleJob { job_id, uuid } => SyncActionView::RemoveStaleJob(
                job_id@,
                *uuid,
            ),
            SyncAction::Finished { removal_errors } => SyncActionView::Finished(*removal_errors),
        }
    }
}

/// What became of the last action.
pub enum SyncEvent {
    /// The scheduler removed the job.
    Removed,
    /// The scheduler failed to remove the job.
    RemoveFailed,
    /// The scheduler added the job under this UUID.
    Added(u128),
    /// The scheduler refused the job.
    AddFailed,
}

/// `event` answers `action`: a removal is answered by `Removed` or
/// `RemoveFailed`, an addition by `Added` or `AddFailed`; a finished cycle
/// takes no event.
pub open spec fn answers(action: SyncActionView, event: SyncEvent) -> bool {
    match action {
        SyncActionView::RemoveJob(..) | SyncActionView::RemoveStaleJob(..) => event is Removed
            || event is RemoveFailed,
        SyncActionView::AddJob(..) => event is Added || event is AddFailed,
        SyncActionView::Finished(..) => false,
    }
}

/// One cycle of bringing the scheduler's jobs in line with the jobs that the
/// containers ask for. Each discovered job (the last one of each job id) is
/// added; one that is already tracked is first removed, and if that removal
/// fails the job keeps its earlier UUID and is not added again. Then each
/// tracked job that was not discovered is removed. The driver performs each
/// action and reports back what became of it.
pub struct ScheduleSync {
    tasks: Vec<JobConfig>,
    cursor: usize,
    stale: Vec<(String, u128)>,
    stale_cursor: usize,
    pending: SyncAction,
    job_map: JobMap,
    removal_errors: bool,
    discovered: Ghost<Seq<JobConfigView>>,
    earlier: Ghost<Map<Seq<char>, u128>>,
    removals: Ghost<Map<Seq<char>, bool>>,
    additions: Ghost<Map<Seq<char>, Option<u128>>>,
}

impl ScheduleSync {
    /// The jobs discovered at the start of the cycle.
    pub closed spec fn discovered(&self) -> Seq<JobConfigView> {
        self.discovered@
    }

    /// The discovered jobs that count, in the order in which they are handled.
    pub closed spec fn tasks(&self) -> Seq<JobConfigView> {
        job_views(self.tasks@)
    }

    /// How many of the discovered jobs have been dealt with, or are being.
    pub closed spec fn cursor(&self) -> int {
        self.cursor as int
    }

    /// The stale jobs, once the discovered ones are dealt with.
    pub closed spec fn stale(&self) -> Seq<(Seq<char>, u128)> {
        self.stale@.map_values(|e: (String, u128)| (e.0@, e.1))
    }

    /// How many stale jobs have been dealt with, or are being.
    pub closed spec fn stale_cursor(&self) -> int {
        self.stale_cursor as int
    }

    /// The action that the driver has been asked to perform.
    pub closed spec fn pending(&self) -> SyncActionView {
        self.pending@
    }

    /// The tracked jobs now.
    pub closed spec fn job_map_view(&self) -> Map<Seq<char>, u128> {
        self.job_map@
    }

    /// Whether the removal of some stale job has failed.
    pub closed spec fn removal_errors(&self) -> bool {
        self.removal_errors
    }

    /// The tracked jobs at the start of the cycle.
    pub closed spec fn earlier(&self) -> Map<Seq<char>, u128> {
        self.earlier@
    }

    /// The removals reported so far: whether each succeeded.
    pub closed spec fn removals(&self) -> Map<Seq<char>, bool> {
        self.removals@
    }

    /// The additions reported so far: the new UUID, or `None`.
    pub closed spec fn additions(&self) -> Map<Seq<char>, Option<u128>> {
        self.additions@
    }

    /// The discovered jobs are still being dealt with: no stale job has been
    /// looked at yet.
    pub open spec fn in_job_phase(&self) -> bool {
        &&& self.removals().dom().subset_of(job_ids(self.tasks()))
        &&& self.stale().len() == 0
        &&& self.stale_cursor() == 0
        &&& !self.removal_errors()
    }

    /// The discovered jobs are dealt with and the stale jobs are listed.
    pub open spec fn in_stale_phase(&self) -> bool {
        let st = self.stale();
        let sc = self.stale_cursor();
        &&& self.cursor() == self.tasks().len()
        &&& stale_list_ok(st, self.earlier(), job_ids(self.tasks()))
        &&& st.len() <= self.earlier().dom().len()
        &&& 0 <= sc <= st.len()
        &&& forall|a: int| 0 <= a < sc ==> self.removals().contains_key(#[trigger] st[a].0)
        &&& forall|a: int| sc <= a < st.len() ==> !self.removals().contains_key(#[trigger] st[a].0)
        &&& (self.removal_errors() <==> exists|a: int|
            0 <= a < sc && !self.removals()[(#[trigger] st[a]).0])
    }

    /// The state of a cycle is consistent: the tracked jobs are what the
    /// outcomes reported so far make of the earlier ones, and the pending
    /// action is the one due.
    pub open spec fn wf(&self) -> bool {
        let t = self.tasks();
        let c = self.cursor();
        let o = self.earlier();
        let rm = self.removals();
        let ad = self.additions();
        &&& t == latest_jobs(self.discovered())
        &&& ids_distinct(t)
        &&& o.dom().finite()
        &&& self.job_map_view() == reconciled(o, rm, ad)
        &&& rm.dom().subset_of(o.dom())
        &&& ad.dom().subset_of(job_ids(t))
        &&& 0 <= c <= t.len()
        &&& forall|k: int| 0 <= k < c ==> finished_job(o, rm, ad, (#[trigger] t[k]).job_id)
        &&& forall|k: int| c < k < t.len() ==> untouched(rm, ad, (#[trigger] t[k]).job_id)
        &&& match self.pending() {
            SyncActionView::RemoveJob(id, u) => {
                &&& c < t.len()
                &&& id == t[c].job_id
                &&& o.contains_key(id)
                &&& u == o[id]
                &&& untouched(rm, ad, id)
                &&& self.in_job_phase()
            },
            SyncActionView::AddJob(j, replacing) => {
                &&& c < t.len()
                &&& j == t[c]
                &&& !ad.contains_key(j.job_id)
                &&& replacing == o.contains_key(j.job_id)
                &&& (replacing ==> rm.contains_key(j.job_id) && rm[j.job_id])
                &&& (!replacing ==> !rm.contains_key(j.job_id))
                &&& self.in_job_phase()
            },
            SyncActionView::RemoveStaleJob(id, u) => {
                &&& self.in_stale_phase()
                &&& self.stale_cursor() < self.stale().len()
                &&& self.stale()[self.stale_cursor()] == (id, u)
            },
            SyncActionView::Finished(e) => {
                &&& self.in_stale_phase()
                &&& self.stale_cursor() == self.stale().len()
                &&& e == self.removal_errors()
            },
        }
    }

    /// An upper bound on the actions still to come: each step lowers it, and
    /// it is 0 once the cycle is finished.
    pub open spec fn steps_left(&self) -> int {
        match self.pending() {
            SyncActionView::RemoveJob(..) => self.earlier().dom().len() + 2 * (self.tasks().len()
                - self.cursor()) + 1,
            SyncActionView::AddJob(..) => self.earlier().dom().len() + 2 * (self.tasks().len()
                - self.cursor()),
            SyncActionView::RemoveStaleJob(..) => self.stale().len() - self.stale_cursor(),
            SyncActionView::Finished(..) => 0,
        }
    }

    /// The state between two discovered jobs: those before the cursor are
    /// dealt with, the others untouched, and no action is due yet.
    pub open spec fn between_jobs(&self) -> bool {
        let t = self.tasks();
        let c = self.cursor();
        let o = self.earlier();
        let rm = self.removals();
        let ad = self.additions();
        &&& t == latest_jobs(self.discovered())
        &&& ids_distinct(t)
        &&& o.dom().finite()
        &&& self.job_map_view() == reconciled(o, rm, ad)
        &&& rm.dom().subset_of(o.dom())
        &&& ad.dom().subset_of(job_ids(t))
        &&& 0 <= c <= t.len()
        &&& forall|k: int| 0 <= k < c ==> finished_job(o, rm, ad, (#[trigger] t[k]).job_id)
        &&& forall|k: int| c <= k < t.len() ==> untouched(rm, ad, (#[trigger] t[k]).job_id)
        &&& self.in_job_phase()
    }

    /// Begins a cycle over the jobs tracked so far (`job_map`) and the jobs
    /// that the containers ask for (`discovered`); gives the first action.
    pub fn start(job_map: JobMap, discovered: Vec<JobConfig>) -> (r: (ScheduleSync, SyncAction))
        ensures
            r.0.wf(),
            r.1@ == r.0.pending(),
            r.0.discovered() == job_views(discovered@),
            r.0.earlier() == job_map@,
            r.0.job_map_view() == job_map@,
            r.0.removals() == Map::<Seq<char>, bool>::empty(),
            r.0.additions() == Map::<Seq<char>, Option<u128>>::empty(),
            r.0.cursor() == 0,
            r.0.steps_left() <= job_map@.len() + 2 * discovered@.len() + 1,
    {
        proof {
            job_map.lemma_dom_finite();
        }
        let tasks = latest_of(&discovered);
        proof {
            lemma_latest_jobs(job_views(discovered@));
            lemma_latest_prefix(job_views(discovered@), discovered@.len() as int);
        }
        let ghost earlier = job_map@;
        let mut sync = ScheduleSync {
            tasks,
            cursor: 0,
            stale: Vec::new(),
            stale_cursor: 0,
            pending: SyncAction::Finished { removal_errors: false },
            job_map,
            removal_errors: false,
            discovered: Ghost(job_views(discovered@)),
            earlier: Ghost(earlier),
            removals: Ghost(Map::empty()),
            additions: Ghost(Map::empty()),
        };
        proof {
            assert(sync.stale() =~= Seq::<(Seq<char>, u128)>::empty());
            assert(reconciled(earlier, Map::empty(), Map::empty()) =~= earlier);
        }
        sync.advance();
        let action = sync.current_action();
        (sync, action)
    }

    /// A copy of the pending action.
    fn current_action(&self) -> (r: SyncAction)
        ensures
            r@ == self.pending(),
    {
        match &self.pending {
            SyncAction::RemoveJob { job_id, uuid } => SyncAction::RemoveJob {
                job_id: job_id.clone(),
                uuid: *uuid,
            },
            SyncAction::AddJob { job, replacing } => SyncAction::AddJob {
                job: job.clone(),
                replacing: *replacing,
            },
            SyncAction::RemoveStaleJob { job_id, uuid } => SyncAction::RemoveStaleJob {
                job_id: job_id.clone(),
                uuid: *uuid,
            },
            SyncAction::Finished { removal_errors } => SyncAction::Finished {
                removal_errors: *removal_errors,
            },
        }
    }

    /// The tracked jobs, once the cycle is over (or at any point of it).
    pub fn into_job_map(self) -> (r: JobMap)
        ensures
            r@ == self.job_map_view(),
    {
        self.job_map
    }

    /// Takes in what became of the pending action and gives the next one.
    /// The tracked jobs change as the outcome says: a successful removal
    /// forgets the job, a successful addition records it under its new UUID,
    /// and a failure changes nothing. After a successful removal of a
    /// discovered job comes its addition; after anything else the next job
    /// is taken up.
    #[verifier::spinoff_prover]
    #[verifier::rlimit(40)]
    pub fn step(&mut self, event: SyncEvent) -> (r: SyncAction)
        requires
            old(self).wf(),
            answers(old(self).pending(), event),
        ensures
            final(self).wf(),
            r@ == final(self).pending(),
            final(self).discovered() == old(self).discovered(),
            final(self).earlier() == old(self).earlier(),
            final(self).tasks() == old(self).tasks(),
            0 <= final(self).steps_left() < old(self).steps_left(),
            match old(self).pending() {
                SyncActionView::RemoveJob(id, _) => if event is Removed {
                    &&& final(self).job_map_view() == old(self).job_map_view().remove(id)
                    &&& final(self).removals() == old(self).removals().insert(id, true)
                    &&& final(self).additions() == old(self).additions()
                    &&& final(self).cursor() == old(self).cursor()
                } else {
                    &&& final(self).job_map_view() == old(self).job_map_view()
                    &&& final(self).removals() == old(self).removals().insert(id, false)
                    &&& final(self).additions() == old(self).additions()
                    &&& final(self).cursor() == old(self).cursor() + 1
                },
                SyncActionView::AddJob(j, _) => {
                    &&& final(self).removals() == old(self).removals()
                    &&& final(self).cursor() == old(self).cursor() + 1
                    &&& match event {
                        SyncEvent::Added(u) => {
                            &&& final(self).job_map_view() == old(self).job_map_view().insert(
                                j.job_id,
                                u,
                            )
                            &&& final(self).additions() == old(self).additions().insert(
                                j.job_id,
                                Some(u),
                            )
                        },
                        _ => {
                            &&& final(self).job_map_view() == old(self).job_map_view()
                            &&& final(self).additions() == old(self).additions().insert(
                                j.job_id,
                                None,
                            )
                        },
                    }
                },
                SyncActionView::RemoveStaleJob(id, _) => {
                    &&& final(self).additions() == old(self).additions()
                    &&& final(self).stale_cursor() == old(self).stale_cursor() + 1
                    &&& if event is Removed {
                        &&& final(self).job_map_view() == old(self).job_map_view().remove(id)
                        &&& final(self).removals() == old(self).removals().insert(id, true)
                    } else {
                        &&& final(self).job_map_view() == old(self).job_map_view()
                        &&& final(self).removals() == old(self).removals().insert(id, false)
                    }
                },
                SyncActionView::Finished(_) => false,
            },
    {
        let ghost o = self.earlier();
        let ghost rm = self.removals();
        let ghost ad = self.additions();
        let ghost t = self.tasks();
        let pending = self.current_action();
        match pending {
            SyncAction::RemoveJob { job_id, uuid } => {
                let ghost id = job_id@;
                let ok = match event {
                    SyncEvent::Removed => true,
                    _ => false,
                };
                if ok {
                    self.job_map.remove(job_id.as_str());
                    self.removals = Ghost(rm.insert(id, true));
                    proof {
                        assert(reconciled(o, rm.insert(id, true), ad) =~= reconciled(
                            o,
                            rm,
                            ad,
                        ).remove(id));
                        assert forall|k: int| 0 <= k < self.cursor() implies finished_job(
                            o,
                            rm.insert(id, true),
                            ad,
                            (#[trigger] t[k]).job_id,
                        ) by {
                            assert(t[k].job_id != t[self.cursor()].job_id);
                        }
                        assert forall|k: int| self.cursor() < k < t.len() implies untouched(
                            rm.insert(id, true),
                            ad,
                            (#[trigger] t[k]).job_id,
                        ) by {
                            assert(t[k].job_id != t[self.cursor()].job_id);
                        }
                    }
                    let c = self.cursor;
                    assert(t[c as int] == self.tasks@[c as int]@);
                    self.pending = SyncAction::AddJob { job: self.tasks[c].clone(), replacing: true };
                } else {
                    self.removals = Ghost(rm.insert(id, false));
                    proof {
                        assert(reconciled(o, rm.insert(id, false), ad) =~= reconciled(o, rm, ad));
                        assert forall|k: int| 0 <= k < self.cursor() + 1 implies finished_job(
                            o,
                            rm.insert(id, false),
                            ad,
                            (#[trigger] t[k]).job_id,
                        ) by {
                            if k < self.cursor() {
                                assert(t[k].job_id != t[self.cursor()].job_id);
                            }
                        }
                        assert forall|k: int| self.cursor() + 1 <= k < t.len() implies untouched(
                            rm.insert(id, false),
                            ad,
                            (#[trigger] t[k]).job_id,
                        ) by {
                            assert(t[k].job_id != t[self.cursor()].job_id);
                        }
                        assert(job_ids(t).contains(id)) by {
                            assert(t[self.cursor()].job_id == id);
                        }
                    }
                    assert(self.cursor < self.tasks.len());
                    self.cursor = self.cursor + 1;
                    self.advance();
                }
            },
            SyncAction::AddJob { job, replacing } => {
                let ghost id = job@.job_id;
                let ghost entry = match event {
                    SyncEvent::Added(u) => Some(u),
                    _ => None::<u128>,
                };
                if let SyncEvent::Added(u) = event {
                    self.job_map.insert(job.job_id, u);
                }
                self.additions = Ghost(ad.insert(id, entry));
                proof {
                    match event {
                        SyncEvent::Added(u) => {
                            assert(reconciled(o, rm, ad.insert(id, entry)) =~= reconciled(
                                o,
                                rm,
                                ad,
                            ).insert(id, u));
                        },
                        _ => {
                            assert(reconciled(o, rm, ad.insert(id, entry)) =~= reconciled(
                                o,
                                rm,
                                ad,
                            ));
                        },
                    }
                    assert(job_ids(t).contains(id)) by {
                        assert(t[self.cursor()].job_id == id);
                    }
                    assert forall|k: int| 0 <= k < self.cursor() + 1 implies finished_job(
                        o,
                        rm,
                        ad.insert(id, entry),
                        (#[trigger] t[k]).job_id,
                    ) by {
                        if k < self.cursor() {
                            assert(t[k].job_id != t[self.cursor()].job_id);
                        }
                    }
                    assert forall|k: int| self.cursor() + 1 <= k < t.len() implies untouched(
                        rm,
                        ad.insert(id, entry),
                        (#[trigger] t[k]).job_id,
                    ) by {
                        assert(t[k].job_id != t[self.cursor()].job_id);
                    }
                }
                assert(self.cursor < self.tasks.len());
                self.cursor = self.cursor + 1;
                self.advance();
            },
            SyncAction::RemoveStaleJob { job_id, uuid } => {
                let ghost id = job_id@;
                let ghost st = self.stale();
                let ok = match event {
                    SyncEvent::Removed => true,
                    _ => false,
                };
                if ok {
                    self.job_map.remove(job_id.as_str());
                } else {
                    self.removal_errors = true;
                }
                self.removals = Ghost(rm.insert(id, ok));
                proof {
                    let sc = self.stale_cursor();
                    assert(st[sc].0 == id);
                    assert(!job_ids(t).contains(id));
                    assert(!ad.contains_key(id));
                    if ok {
                        assert(reconciled(o, rm.insert(id, ok), ad) =~= reconciled(o, rm, ad).remove(
                            id,
                        ));
                    } else {
                        assert(reconciled(o, rm.insert(id, ok), ad) =~= reconciled(o, rm, ad));
                    }
                    assert forall|k: int| 0 <= k < t.len() implies finished_job(
                        o,
                        rm.insert(id, ok),
                        ad,
                        (#[trigger] t[k]).job_id,
                    ) by {
                        assert(job_ids(t).contains(t[k].job_id));
                    }
                    assert forall|a: int| 0 <= a < sc + 1 implies rm.insert(id, ok).contains_key(
                        #[trigger] st[a].0,
                    ) by {}
                    assert forall|a: int| sc + 1 <= a < st.len() implies !rm.insert(
                        id,
                        ok,
                    ).contains_key(#[trigger] st[a].0) by {
                        assert(st[a].0 != st[sc].0);
                    }
                    assert(self.removal_errors() <==> exists|a: int|
                        0 <= a < sc + 1 && !rm.insert(id, ok)[(#[trigger] st[a]).0]) by {
                        if exists|a: int| 0 <= a < sc && !rm[(#[trigger] st[a]).0] {
                            let a = choose|a: int| 0 <= a < sc && !rm[(#[trigger] st[a]).0];
                            assert(st[a].0 != st[sc].0);
                            assert(!rm.insert(id, ok)[st[a].0]);
                        }
                        if exists|a: int| 0 <= a < sc + 1 && !rm.insert(id, ok)[(#[trigger] st[a]).0] {
                            let a = choose|a: int| 0 <= a < sc + 1 && !rm.insert(id, ok)[(#[trigger] st[a]).0];
                            if a < sc {
                                assert(st[a].0 != st[sc].0);
                            }
                        }
                    }
                }
                assert(self.stale_cursor < self.stale.len());
                self.stale_cursor = self.stale_cursor + 1;
                if self.stale_cursor < self.stale.len() {
                    let sc = self.stale_cursor;
                    assert(self.stale()[sc as int] == (self.stale@[sc as int].0@, self.stale@[sc as int].1));
                    self.pending = SyncAction::RemoveStaleJob {
                        job_id: self.stale[sc].0.clone(),
                        uuid: self.stale[sc].1,
                    };
                } else {
                    self.pending = SyncAction::Finished { removal_errors: self.removal_errors };
                }
            },
            SyncAction::Finished { .. } => {},
        }
        self.current_action()
    }

    /// Sets the action that is due when the cursor is between jobs: the next
    /// discovered job's removal or addition, else the first stale removal,
    /// else the end of the cycle.
    #[verifier::spinoff_prover]
    #[verifier::rlimit(40)]
    fn advance(&mut self)
        requires
            old(self).between_jobs(),
        ensures
            final(self).wf(),
            final(self).tasks() == old(self).tasks(),
            final(self).cursor() == old(self).cursor(),
            final(self).discovered() == old(self).discovered(),
            final(self).job_map_view() == old(self).job_map_view(),
            final(self).earlier() == old(self).earlier(),
            final(self).removals() == old(self).removals(),
            final(self).additions() == old(self).additions(),
            final(self).steps_left() <= old(self).earlier().dom().len() + 2 * (old(self).tasks().len()
                - old(self).cursor()) + 1,
            old(self).cursor() < old(self).tasks().len() ==> final(self).steps_left() >= old(
                self,
            ).earlier().dom().len() + 2 * (old(self).tasks().len() - old(self).cursor()),
    {
        let ghost t = self.tasks();
        let ghost o = self.earlier();
        let ghost rm = self.removals();
        let ghost ad = self.additions();
        if self.cursor < self.tasks.len() {
            let c = self.cursor;
            assert(t[c as int] == self.tasks@[c as int]@);
            let found = self.job_map.get(self.tasks[c].job_id.as_str());
            let ghost id = t[c as int].job_id;
            assert(untouched(rm, ad, id));
            match found {
                Some(uuid) => {
                    assert(keeps_earlier(o, rm, id));
                    self.pending = SyncAction::RemoveJob {
                        job_id: self.tasks[c].job_id.clone(),
                        uuid,
                    };
                },
                None => {
                    assert(!o.contains_key(id));
                    self.pending = SyncAction::AddJob { job: self.tasks[c].clone(), replacing: false };
                },
            }
        } else {
            let stale = stale_entries(&self.job_map, &self.tasks);
            let ghost sv = stale@.map_values(|e: (String, u128)| (e.0@, e.1));
            proof {
                let m = self.job_map_view();
                let active = job_ids(t);
                assert forall|k: Seq<char>| !active.contains(k) implies (m.contains_key(k)
                    == o.contains_key(k) && (o.contains_key(k) ==> m[k] == o[k])) by {
                    assert(!ad.contains_key(k));
                    assert(!rm.contains_key(k));
                }
                assert forall|a: int| 0 <= a < sv.len() implies o.contains_key(
                    (#[trigger] sv[a]).0,
                ) && o[sv[a].0] == sv[a].1 && !active.contains(sv[a].0) by {
                    assert(sv[a] == (stale@[a].0@, stale@[a].1));
                }
                assert forall|k: Seq<char>| o.contains_key(k) && !active.contains(k) implies exists|
                    a: int,
                | 0 <= a < sv.len() && (#[trigger] sv[a]).0 == k by {
                    assert(m.contains_key(k));
                    let a = choose|a: int| 0 <= a < stale@.len() && (#[trigger] stale@[a]).0@ == k;
                    assert(sv[a].0 == k);
                }
                assert forall|a: int, b: int| 0 <= a < b < sv.len() implies (#[trigger] sv[a]).0
                    != (#[trigger] sv[b]).0 by {
                    assert(sv[a].0 == stale@[a].0@);
                    assert(sv[b].0 == stale@[b].0@);
                }
                assert forall|a: int| 0 <= a < sv.len() implies !rm.contains_key(
                    (#[trigger] sv[a]).0,
                ) by {
                    assert(!active.contains(sv[a].0));
                }
                let names = sv.map_values(|e: (Seq<char>, u128)| e.0);
                assert forall|a: int, b: int| 0 <= a < names.len() && 0 <= b < names.len() && a != b implies names[a] != names[b] by {
                    if a < b {
                        assert(sv[a].0 != sv[b].0);
                    } else {
                        assert(sv[b].0 != sv[a].0);
                    }
                }
                assert(names.no_duplicates());
                names.unique_seq_to_set();
                assert forall|k: Seq<char>| names.to_set().contains(k) implies o.dom().contains(k) by {
                    let a = choose|a: int| 0 <= a < names.len() && names[a] == k;
                    assert(sv[a].0 == k);
                }
                vstd::set_lib::lemma_len_subset(names.to_set(), o.dom());
            }
            self.stale = stale;
            assert(self.stale() == sv);
            if self.stale.len() > 0 {
                assert(self.stale()[0] == (self.stale@[0].0@, self.stale@[0].1));
                self.pending = SyncAction::RemoveStaleJob {
                    job_id: self.stale[0].0.clone(),
                    uuid: self.stale[0].1,
                };
            } else {
                self.pending = SyncAction::Finished { removal_errors: false };
            }
        }
    }
}

/// At the end of a cycle every job tracked before it has had its removal
/// attempted, and a discovered job has had its addition attempted exactly
/// when it was new or its earlier job was removed.
pub proof fn law_finished_cycle_attempts_everything(s: ScheduleSync)
    requires
        s.wf(),
        s.pending() is Finished,
    ensures
        s.removals().dom() == s.earlier().dom(),
        forall|id: Seq<char>|
            #[trigger] s.additions().contains_key(id) <==> (job_ids(s.discovered()).contains(id)
                && (!s.earlier().contains_key(id) || s.removals()[id])),
        s.job_map_view() == reconciled(s.earlier(), s.removals(), s.additions()),
{
    let t = s.tasks();
    let o = s.earlier();
    let rm = s.removals();
    let ad = s.additions();
    let st = s.stale();
    lemma_latest_jobs(s.discovered());
    assert forall|k: Seq<char>| o.contains_key(k) implies rm.contains_key(k) by {
        if job_ids(t).contains(k) {
            let a = choose|a: int| 0 <= a < t.len() && (#[trigger] t[a]).job_id == k;
            assert(finished_job(o, rm, ad, t[a].job_id));
        } else {
            let a = choose|a: int| 0 <= a < st.len() && (#[trigger] st[a]).0 == k;
        }
    }
    assert(rm.dom() =~= o.dom());
    assert forall|id: Seq<char>| #[trigger]
        ad.contains_key(id) <==> (job_ids(s.discovered()).contains(id) && (!o.contains_key(id)
            || rm[id])) by {
        if job_ids(t).contains(id) {
            let a = choose|a: int| 0 <= a < t.len() && (#[trigger] t[a]).job_id == id;
            assert(finished_job(o, rm, ad, t[a].job_id));
        }
    }
}

/// When every removal and every addition of a cycle succeeds, the jobs
/// tracked afterwards are exactly the discovered ones, each under the UUID
/// that its addition returned.
pub proof fn law_all_calls_succeed(s: ScheduleSync)
    requires
        s.wf(),
        s.pending() is Finished,
        forall|k: Seq<char>| #[trigger] s.removals().contains_key(k) ==> s.removals()[k],
        forall|k: Seq<char>| #[trigger] s.additions().contains_key(k) ==> s.additions()[k] is Some,
    ensures
        s.job_map_view().dom() == job_ids(s.discovered()),
        forall|id: Seq<char>|
            #[trigger] job_ids(s.discovered()).contains(id) ==> s.additions().contains_key(id)
                && s.job_map_view()[id] == s.additions()[id]->0,
{
    law_finished_cycle_attempts_everything(s);
    let o = s.earlier();
    let rm = s.removals();
    let ad = s.additions();
    assert forall|k: Seq<char>| !keeps_earlier(o, rm, k) by {
        if o.contains_key(k) {
            assert(rm.contains_key(k));
        }
    }
    assert(s.job_map_view().dom() =~= job_ids(s.discovered()));
}

/// A job whose removal failed stays tracked under its earlier UUID, for the
/// rest of the cycle.
pub proof fn law_failed_removal_keeps_job(s: ScheduleSync, id: Seq<char>)
    requires
        s.wf(),
        s.removals().contains_key(id),
        !s.removals()[id],
    ensures
        s.job_map_view().contains_key(id),
        s.job_map_view()[id] == s.earlier()[id],
{
}

/// At any point of a cycle, every tracked job was either tracked before or
/// discovered; a job that was not discovered is tracked only under its
/// earlier UUID.
pub proof fn law_no_unknown_jobs(s: ScheduleSync)
    requires
        s.wf(),
    ensures
        forall|k: Seq<char>|
            #[trigger] s.job_map_view().contains_key(k) ==> s.earlier().contains_key(k)
                || job_ids(s.discovered()).contains(k),
        forall|k: Seq<char>|
            #[trigger] s.job_map_view().contains_key(k) && !job_ids(s.discovered()).contains(k)
                ==> s.job_map_view()[k] == s.earlier()[k],
{
    lemma_latest_jobs(s.discovered());
}

/// The cycle ends reporting removal errors exactly when the removal of some
/// job that was not discovered failed.
pub proof fn law_removal_errors_reported(s: ScheduleSync)
    requires
        s.wf(),
        s.pending() is Finished,
    ensures
        s.pending() == SyncActionView::Finished(
            exists|k: Seq<char>|
                #[trigger] s.removals().contains_key(k) && !s.removals()[k] && !job_ids(
                    s.discovered(),
                ).contains(k),
        ),
{
    lemma_latest_jobs(s.discovered());
    let st = s.stale();
    let rm = s.removals();
    let t = s.tasks();
    let found = exists|k: Seq<char>|
        #[trigger] rm.contains_key(k) && !rm[k] && !job_ids(s.discovered()).contains(k);
    if s.removal_errors() {
        let a = choose|a: int| 0 <= a < st.len() && !rm[(#[trigger] st[a]).0];
        assert(rm.contains_key(st[a].0));
    }
    if found {
        let k = choose|k: Seq<char>|
            #[trigger] rm.contains_key(k) && !rm[k] && !job_ids(s.discovered()).contains(k);
        let a = choose|a: int| 0 <= a < st.len() && (#[trigger] st[a]).0 == k;
        assert(!rm[st[a].0]);
    }
}

/// A job whose addition has been attempted is no longer kept under an
/// earlier UUID: it was new, or its removal succeeded.
proof fn lemma_added_not_kept(s: ScheduleSync, k: Seq<char>)
    requires
        s.wf(),
        s.additions().contains_key(k),
    ensures
        !keeps_earlier(s.earlier(), s.removals(), k),
{
    let t = s.tasks();
    let c = s.cursor();
    assert(job_ids(t).contains(k));
    let a = choose|a: int| 0 <= a < t.len() && (#[trigger] t[a]).job_id == k;
    if a < c {
        assert(finished_job(s.earlier(), s.removals(), s.additions(), t[a].job_id));
    } else if a > c {
        assert(untouched(s.removals(), s.additions(), t[a].job_id));
    }
}

/// Every job whose addition succeeded is tracked, under the UUID that the
/// scheduler gave it: no job added in a cycle is left untracked.
pub proof fn law_added_jobs_tracked(s: ScheduleSync, k: Seq<char>)
    requires
        s.wf(),
        s.additions().contains_key(k),
        s.additions()[k] is Some,
    ensures
        s.job_map_view().contains_key(k),
        s.job_map_view()[k] == s.additions()[k]->0,
{
    lemma_added_not_kept(s, k);
}

/// No two jobs of `m` share a UUID.
pub open spec fn uuids_distinct(m: Map<Seq<char>, u128>) -> bool {
    forall|k1: Seq<char>, k2: Seq<char>|
        #[trigger] m.contains_key(k1) && #[trigger] m.contains_key(k2) && k1 != k2 ==> m[k1]
            != m[k2]
}

/// Each successful addition gave a UUID that no job of the scheduler had
/// (`jobs`) and that no other addition gave.
pub open spec fn fresh_additions(jobs: Set<u128>, additions: Map<Seq<char>, Option<u128>>) -> bool {
    &&& forall|k: Seq<char>|
        #[trigger] additions.contains_key(k) && additions[k] is Some ==> !jobs.contains(
            additions[k]->0,
        )
    &&& forall|k1: Seq<char>, k2: Seq<char>|
        #[trigger] additions.contains_key(k1) && #[trigger] additions.contains_key(k2) && k1 != k2
            && additions[k1] is Some && additions[k2] is Some ==> additions[k1] != additions[k2]
}

/// The scheduler's jobs after the removals and additions reported, from its
/// jobs before (`jobs`): a successful removal deletes the job under the
/// earlier UUID of its id, a failed one leaves it, and a successful addition
/// adds a job under the UUID it gave.
pub open spec fn scheduler_jobs_after(
    jobs: Set<u128>,
    earlier: Map<Seq<char>, u128>,
    removals: Map<Seq<char>, bool>,
    additions: Map<Seq<char>, Option<u128>>,
) -> Set<u128> {
    Set::new(
        |u: u128|
            (jobs.contains(u) && !(exists|k: Seq<char>|
                #[trigger] earlier.contains_key(k) && removals.contains_key(k) && removals[k]
                    && earlier[k] == u)) || (exists|k: Seq<char>|
                #[trigger] additions.contains_key(k) && additions[k] == Some(u)),
    )
}

/// If every job tracked before the cycle is a job of the scheduler under a
/// UUID of its own, and each successful addition gives a fresh UUID, then at
/// every point of the cycle the tracked jobs have distinct UUIDs, and each of
/// them is a job of the scheduler.
pub proof fn law_tracked_jobs_match_scheduler(s: ScheduleSync, jobs: Set<u128>)
    requires
        s.wf(),
        forall|k: Seq<char>| #[trigger] s.earlier().contains_key(k) ==> jobs.contains(s.earlier()[k]),
        uuids_distinct(s.earlier()),
        fresh_additions(jobs, s.additions()),
    ensures
        uuids_distinct(s.job_map_view()),
        forall|k: Seq<char>|
            #[trigger] s.job_map_view().contains_key(k) ==> scheduler_jobs_after(
                jobs,
                s.earlier(),
                s.removals(),
                s.additions(),
            ).contains(s.job_map_view()[k]),
{
    let e = s.earlier();
    let rm = s.removals();
    let ad = s.additions();
    let m = s.job_map_view();
    assert forall|k1: Seq<char>, k2: Seq<char>|
        #[trigger] m.contains_key(k1) && #[trigger] m.contains_key(k2) && k1 != k2 implies m[k1]
        != m[k2] by {
        let kept1 = keeps_earlier(e, rm, k1);
        let kept2 = keeps_earlier(e, rm, k2);
        if !kept1 {
            assert(ad.contains_key(k1) && ad[k1] is Some);
        }
        if !kept2 {
            assert(ad.contains_key(k2) && ad[k2] is Some);
        }
        if kept1 && !kept2 {
            assert(!jobs.contains(ad[k2]->0));
        }
        if !kept1 && kept2 {
            assert(!jobs.contains(ad[k1]->0));
        }
    }
    assert forall|k: Seq<char>| #[trigger] m.contains_key(k) implies scheduler_jobs_after(
        jobs,
        e,
        rm,
        ad,
    ).contains(m[k]) by {
        if keeps_earlier(e, rm, k) {
            let u = e[k];
            if exists|k2: Seq<char>|
                #[trigger] e.contains_key(k2) && rm.contains_key(k2) && rm[k2] && e[k2] == u {
                let k2 = choose|k2: Seq<char>|
                    #[trigger] e.contains_key(k2) && rm.contains_key(k2) && rm[k2] && e[k2] == u;
                assert(k2 != k);
            }
        } else {
            assert(ad.contains_key(k) && ad[k] == Some(m[k]));
        }
    }
}

/// Whether a later job of `d` than the one at `i` has the same job id.
fn superseded_exec(d: &Vec<JobConfig>, i: usize) -> (r: bool)
    requires
        i < d@.len(),
    ensures
        r == superseded(job_views(d@), i as int),
{
    let ghost dv = job_views(d@);
    assert(i < d.len());
    let mut j: usize = i + 1;
    while j < d.len()
        invariant
            dv == job_views(d@),
            i < j <= d@.len(),
            forall|q: int| i < q < j ==> dv[q].job_id != dv[i as int].job_id,
        decreases d@.len() - j,
    {
        if d[j].job_id == d[i].job_id {
            assert(dv[j as int].job_id == dv[i as int].job_id);
            return true;
        }
        j = j + 1;
    }
    false
}

/// The discovered jobs that count: for each job id, the last job with it.
fn latest_of(discovered: &Vec<JobConfig>) -> (r: Vec<JobConfig>)
    ensures
        job_views(r@) == latest_jobs(job_views(discovered@)),
{
    let ghost dv = job_views(discovered@);
    let mut r: Vec<JobConfig> = Vec::new();
    let mut i: usize = 0;
    while i < discovered.len()
        invariant
            dv == job_views(discovered@),
            i <= discovered@.len(),
            job_views(r@) == latest_prefix(dv, i as int),
        decreases discovered@.len() - i,
    {
        if !superseded_exec(discovered, i) {
            r.push(discovered[i].clone());
            assert(job_views(r@) =~= latest_prefix(dv, i as int).push(dv[i as int]));
        }
        i = i + 1;
    }
    r
}

/// Whether some job of `tasks` has the job id `id`.
fn has_job_id(tasks: &Vec<JobConfig>, id: &String) -> (r: bool)
    ensures
        r == job_ids(job_views(tasks@)).contains(id@),
{
    let ghost tv = job_views(tasks@);
    let mut i: usize = 0;
    while i < tasks.len()
        invariant
            tv == job_views(tasks@),
            i <= tasks@.len(),
            forall|q: int| 0 <= q < i ==> tv[q].job_id != id@,
        decreases tasks@.len() - i,
    {
        if tasks[i].job_id == *id {
            assert(tv[i as int].job_id == id@);
            return true;
        }
        i = i + 1;
    }
    false
}

/// The tracked jobs that `tasks` does not ask for, each once, with its UUID.
fn stale_entries(map: &JobMap, tasks: &Vec<JobConfig>) -> (r: Vec<(String, u128)>)
    ensures
        forall|a: int, b: int| 0 <= a < b < r@.len() ==> (#[trigger] r@[a]).0@ != (#[trigger] r@[b]).0@,
        forall|a: int|
            0 <= a < r@.len() ==> map@.contains_key((#[trigger] r@[a]).0@) && map@[r@[a].0@]
                == r@[a].1 && !job_ids(job_views(tasks@)).contains(r@[a].0@),
        forall|k: Seq<char>|
            map@.contains_key(k) && !job_ids(job_views(tasks@)).contains(k) ==> exists|a: int|
                0 <= a < r@.len() && (#[trigger] r@[a]).0@ == k,
{
    let entries = map.to_vec();
    let ghost active = job_ids(job_views(tasks@));
    let ghost keys = entries@.map_values(|e: (String, u128)| e.0@);
    let mut r: Vec<(String, u128)> = Vec::new();
    let mut i: usize = 0;
    while i < entries.len()
        invariant
            keys == entries@.map_values(|e: (String, u128)| e.0@),
            keys.no_duplicates(),
            active == job_ids(job_views(tasks@)),
            i <= entries@.len(),
            forall|a: int|
                0 <= a < entries@.len() ==> map@.contains_key((#[trigger] entries@[a]).0@)
                    && map@[entries@[a].0@] == entries@[a].1,
            forall|a: int|
                0 <= a < r@.len() ==> map@.contains_key((#[trigger] r@[a]).0@) && map@[r@[a].0@]
                    == r@[a].1 && !active.contains(r@[a].0@),
            forall|a: int| 0 <= a < r@.len() ==> exists|j: int| 0 <= j < i && keys[j] == (#[trigger] r@[a]).0@,
            forall|j: int|
                0 <= j < i && !active.contains(#[trigger] keys[j]) ==> exists|a: int|
                    0 <= a < r@.len() && r@[a].0@ == keys[j],
            forall|a: int, b: int| 0 <= a < b < r@.len() ==> (#[trigger] r@[a]).0@ != (#[trigger] r@[b]).0@,
        decreases entries@.len() - i,
    {
        let ghost before = r@;
        assert(keys[i as int] == entries@[i as int].0@);
        if !has_job_id(tasks, &entries[i].0) {
            r.push((entries[i].0.clone(), entries[i].1));
            proof {
                let n = before.len() as int;
                assert(r@[n].0@ == keys[i as int]);
                assert forall|a: int, b: int| 0 <= a < b < r@.len() implies (#[trigger] r@[a]).0@
                    != (#[trigger] r@[b]).0@ by {
                    assert(r@[a] == before[a]);
                    if b == n {
                        let j = choose|j: int| 0 <= j < i && keys[j] == (#[trigger] before[a]).0@;
                    } else {
                        assert(r@[b] == before[b]);
                    }
                }
                assert forall|a: int| 0 <= a < r@.len() implies exists|j: int|
                    0 <= j < i + 1 && keys[j] == (#[trigger] r@[a]).0@ by {
                    if a < n {
                        assert(r@[a] == before[a]);
                        let j = choose|j: int| 0 <= j < i && keys[j] == (#[trigger] before[a]).0@;
                    }
                }
                assert forall|j: int|
                    0 <= j < i + 1 && !active.contains(#[trigger] keys[j]) implies exists|a: int|
                    0 <= a < r@.len() && r@[a].0@ == keys[j] by {
                    if j < i {
                        let a = choose|a: int| 0 <= a < before.len() && before[a].0@ == keys[j];
                        assert(r@[a] == before[a]);
                    }
                }
            }
        }
        i = i + 1;
    }
    proof {
        assert forall|k: Seq<char>| map@.contains_key(k) && !active.contains(k) implies exists|a: int|
            0 <= a < r@.len() && (#[trigger] r@[a]).0@ == k by {
            let j = choose|j: int| 0 <= j < entries@.len() && (#[trigger] entries@[j]).0@ == k;
            assert(keys[j] == k);
        }
    }
    r
}

} // verus!
