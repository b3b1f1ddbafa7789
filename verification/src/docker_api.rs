use crate::config::Config;
use crate::errors::SchedulerError;
use crate::text::{count_words, text_eq, word_count};
use vstd::prelude::*;

verus! {

/// Prefix of every label that this scheduler reads.
pub const LABEL_PREFIX: &'static str = "custom.scheduler.";

/// Label that turns scheduling on for a container when it is `true`.
pub const LABEL_ENABLE: &'static str = "custom.scheduler.enable";

/// Label that names the action: `exec`, `run` or `run-rm`.
pub const LABEL_ACTION: &'static str = "custom.scheduler.action";

/// Label that holds the command to run.
pub const LABEL_COMMAND: &'static str = "custom.scheduler.command";

/// Label that holds the cron schedule.
pub const LABEL_CRON: &'static str = "custom.scheduler.cron";

/// The label in which Docker Compose records a container's service.
pub const COMPOSE_SERVICE_LABEL: &'static str = "com.docker.compose.service";

/// The label in which Docker Compose records a container's project.
pub const COMPOSE_PROJECT_LABEL: &'static str = "com.docker.compose.project";

/// The job that a container's labels ask for.
#[derive(Debug, PartialEq, Eq)]
pub struct JobConfig {
    pub service_name: String,
    /// The id of the container whose labels described the job.
    pub container_id: String,
    pub action: String,
    pub command: String,
    pub cron_schedule: String,
    /// The scheduler's name for the job, derived from the service name.
    pub job_id: String,
}

/// A [`JobConfig`] as text values.
pub struct JobConfigView {
    pub service_name: Seq<char>,
    pub container_id: Seq<char>,
    pub action: Seq<char>,
    pub command: Seq<char>,
    pub cron_schedule: Seq<char>,
    pub job_id: Seq<char>,
}

impl View for JobConfig {
    type V = JobConfigView;

    open spec fn view(&self) -> JobConfigView {
        JobConfigView {
            service_name: self.service_name@,
            container_id: self.container_id@,
            action: self.action@,
            command: self.command@,
            cron_schedule: self.cron_schedule@,
            job_id: self.job_id@,
        }
    }
}

impl Clone for JobConfig {
    fn clone(&self) -> (r: Self)
        ensures
            r@ == self@,
    {
        JobConfig {
            service_name: self.service_name.clone(),
            container_id: self.container_id.clone(),
            action: self.action.clone(),
            command: self.command.clone(),
            cron_schedule: self.cron_schedule.clone(),
            job_id: self.job_id.clone(),
        }
    }
}

/// What the scheduler reads of a container: its id and its labels, each
/// label a `(key, value)` pair. The keys of one container are distinct, as
/// in Docker's label map.
#[derive(Debug)]
pub struct ContainerInfo {
    pub id: Option<String>,
    pub labels: Option<Vec<(String, String)>>,
}

/// A [`ContainerInfo`] as text values.
pub struct ContainerInfoView {
    pub id: Option<Seq<char>>,
    pub labels: Option<Seq<(Seq<char>, Seq<char>)>>,
}

impl View for ContainerInfo {
    type V = ContainerInfoView;

    open spec fn view(&self) -> ContainerInfoView {
        ContainerInfoView { id: self.id.deep_view(), labels: self.labels.deep_view() }
    }
}

/// The value of the first label named `key`.
pub open spec fn label_lookup(labels: Seq<(Seq<char>, Seq<char>)>, key: Seq<char>) -> Option<
    Seq<char>,
>
    decreases labels.len(),
{
    if labels.len() == 0 {
        None
    } else if labels[0].0 == key {
        Some(labels[0].1)
    } else {
        label_lookup(labels.drop_first(), key)
    }
}

/// The actions that a scheduled job may take.
pub open spec fn is_supported_action(a: Seq<char>) -> bool {
    a == "exec"@ || a == "run"@ || a == "run-rm"@
}

/// The fewest fields that a cron schedule may have.
pub open spec fn min_cron_fields() -> nat {
    5
}

/// The scheduler's name for the job of a service.
pub open spec fn job_id_for(service_name: Seq<char>) -> Seq<char> {
    "compose_job_"@ + service_name
}

/// What a container's labels decide.
pub enum LabelVerdict {
    /// Scheduling is off, or a label that a job needs is missing.
    Skip,
    /// A job is asked for.
    Schedule(JobConfigView),
    /// Scheduling is on, but the action is not one of the supported ones.
    BadAction(Seq<char>),
    /// Scheduling is on, but the cron schedule has too few fields.
    BadCron(Seq<char>),
}

/// What the labels of `c` decide. Scheduling is on when the enable label is
/// exactly `true`; then the service, action, command and cron labels must all
/// be present, the action must be supported and the schedule must have at
/// least five white-space separated fields.
pub open spec fn label_verdict(c: ContainerInfoView) -> LabelVerdict {
    match c.labels {
        None => LabelVerdict::Skip,
        Some(l) => if label_lookup(l, LABEL_ENABLE@) != Some("true"@) {
            LabelVerdict::Skip
        } else {
            match (
                label_lookup(l, COMPOSE_SERVICE_LABEL@),
                label_lookup(l, LABEL_ACTION@),
                label_lookup(l, LABEL_COMMAND@),
                label_lookup(l, LABEL_CRON@),
            ) {
                (Some(sn), Some(a), Some(cmd), Some(cron)) => if !is_supported_action(a) {
                    LabelVerdict::BadAction(a)
                } else if word_count(cron) < min_cron_fields() {
                    LabelVerdict::BadCron(cron)
                } else {
                    LabelVerdict::Schedule(
                        JobConfigView {
                            service_name: sn,
                            container_id: match c.id {
                                Some(id) => id,
                                None => Seq::empty(),
                            },
                            action: a,
                            command: cmd,
                            cron_schedule: cron,
                            job_id: job_id_for(sn),
                        },
                    )
                },
                _ => LabelVerdict::Skip,
            }
        },
    }
}

/// The message for an unsupported action.
pub open spec fn bad_action_message(a: Seq<char>) -> Seq<char> {
    "Invalid action '"@ + a + "'. Must be 'exec', 'run', or 'run-rm'."@
}

/// The message for a cron schedule with too few fields.
pub open spec fn bad_cron_message(cron: Seq<char>) -> Seq<char> {
    "Invalid cron string '"@ + cron + "'. Too few fields."@
}

/// `e` is the label error of container `id` with the text `message`.
pub open spec fn is_label_error(e: SchedulerError, id: Seq<char>, message: Seq<char>) -> bool {
    e matches SchedulerError::LabelParse { container_id, message: m } && container_id@ == id
        && m@ == message
}

/// The value of the label `key`, if the container has it.
pub fn find_label(labels: &Vec<(String, String)>, key: &str) -> (r: Option<String>)
    ensures
        r.deep_view() == label_lookup(labels.deep_view(), key@),
{
    let ghost all = labels.deep_view();
    let mut i: usize = 0;
    assert(all.skip(0) == all);
    while i < labels.len()
        invariant
            all == labels.deep_view(),
            i <= labels.len(),
            label_lookup(all, key@) == label_lookup(all.skip(i as int), key@),
        decreases labels.len() - i,
    {
        let ghost rest = all.skip(i as int);
        assert(rest[0] == all[i as int]);
        if text_eq(labels[i].0.as_str(), key) {
            return Some(labels[i].1.clone());
        }
        assert(rest.drop_first() == all.skip(i + 1));
        i = i + 1;
    }
    assert(all.skip(i as int).len() == 0);
    None
}

/// Reads the scheduling labels of `container`. `container_id_short` names the
/// container in error messages.
pub fn parse_labels(container: &ContainerInfo, container_id_short: &str) -> (r: Result<
    Option<JobConfig>,
    SchedulerError,
>)
    ensures
        match label_verdict(container@) {
            LabelVerdict::Skip => r matches Ok(None),
            LabelVerdict::Schedule(j) => r matches Ok(Some(job)) && job@ == j,
            LabelVerdict::BadAction(a) => r matches Err(e) && is_label_error(
                e,
                container_id_short@,
                bad_action_message(a),
            ),
            LabelVerdict::BadCron(c) => r matches Err(e) && is_label_error(
                e,
                container_id_short@,
                bad_cron_message(c),
            ),
        },
{
    let labels = match &container.labels {
        Some(l) => l,
        None => {
            return Ok(None);
        },
    };
    let enable = find_label(labels, LABEL_ENABLE);
    let enabled = match &enable {
        Some(v) => text_eq(v.as_str(), "true"),
        None => false,
    };
    if !enabled {
        return Ok(None);
    }
    let service_name = find_label(labels, COMPOSE_SERVICE_LABEL);
    let action = find_label(labels, LABEL_ACTION);
    let command = find_label(labels, LABEL_COMMAND);
    let cron_schedule = find_label(labels, LABEL_CRON);
    match (service_name, action, command, cron_schedule) {
        (Some(sn), Some(a), Some(cmd), Some(cron)) => {
            let supported = text_eq(a.as_str(), "exec") || text_eq(a.as_str(), "run") || text_eq(
                a.as_str(),
                "run-rm",
            );
            if !supported {
                let message = "Invalid action '".to_owned().concat(a.as_str()).concat(
                    "'. Must be 'exec', 'run', or 'run-rm'.",
                );
                return Err(
                    SchedulerError::LabelParse {
                        container_id: container_id_short.to_owned(),
                        message,
                    },
                );
            }
            if count_words(cron.as_str()) < 5 {
                let message = "Invalid cron string '".to_owned().concat(cron.as_str()).concat(
                    "'. Too few fields.",
                );
                return Err(
                    SchedulerError::LabelParse {
                        container_id: container_id_short.to_owned(),
                        message,
                    },
                );
            }
            let job_id = "compose_job_".to_owned().concat(sn.as_str());
            let container_id = match &container.id {
                Some(id) => id.clone(),
                None => String::new(),
            };
            Ok(
                Some(
                    JobConfig {
                        service_name: sn,
                        container_id,
                        action: a,
                        command: cmd,
                        cron_schedule: cron,
                        job_id,
                    },
                ),
            )
        },
        _ => Ok(None),
    }
}

/// How a container is named in messages: the first twelve characters of its
/// id, or `unknown` when it has none.
pub open spec fn short_container_id(c: ContainerInfoView) -> Seq<char> {
    let id = match c.id {
        Some(id) => id,
        None => "unknown"@,
    };
    if id.len() <= 12 {
        id
    } else {
        id.take(12)
    }
}

/// Some job of `jobs` belongs to the service `name`.
pub open spec fn has_service(jobs: Seq<JobConfigView>, name: Seq<char>) -> bool {
    exists|i: int| 0 <= i < jobs.len() && (#[trigger] jobs[i]).service_name == name
}

/// The jobs that a scan of `cs` finds, in order: for each service only the
/// job of the first container that asks for one.
pub open spec fn discovered_jobs(cs: Seq<ContainerInfoView>) -> Seq<JobConfigView>
    decreases cs.len(),
{
    if cs.len() == 0 {
        Seq::empty()
    } else {
        let prev = discovered_jobs(cs.drop_last());
        match label_verdict(cs.last()) {
            LabelVerdict::Schedule(j) => if has_service(prev, j.service_name) {
                prev
            } else {
                prev.push(j)
            },
            _ => prev,
        }
    }
}

/// The label errors that a scan of `cs` meets, in order: the container's
/// short id and the message.
pub open spec fn label_problems(cs: Seq<ContainerInfoView>) -> Seq<(Seq<char>, Seq<char>)>
    decreases cs.len(),
{
    if cs.len() == 0 {
        Seq::empty()
    } else {
        let prev = label_problems(cs.drop_last());
        let c = cs.last();
        match label_verdict(c) {
            LabelVerdict::BadAction(a) => prev.push((short_container_id(c), bad_action_message(a))),
            LabelVerdict::BadCron(cron) => prev.push((short_container_id(c), bad_cron_message(cron))),
            _ => prev,
        }
    }
}

/// The views of a list of containers.
pub open spec fn container_views(cs: Seq<ContainerInfo>) -> Seq<ContainerInfoView> {
    cs.map_values(|c: ContainerInfo| c@)
}

/// The views of a list of jobs.
pub open spec fn job_views(js: Seq<JobConfig>) -> Seq<JobConfigView> {
    js.map_values(|j: JobConfig| j@)
}

/// The jobs found by a scan belong to distinct services; each has the job id
/// of its service, a supported action, a schedule with at least five fields,
/// and comes from a container whose labels ask for it.
pub proof fn law_discovered_jobs_well_formed(cs: Seq<ContainerInfoView>)
    ensures
        forall|a: int, b: int|
            0 <= a < b < discovered_jobs(cs).len() ==> (#[trigger] discovered_jobs(cs)[a]).service_name
                != (#[trigger] discovered_jobs(cs)[b]).service_name,
        forall|a: int|
            0 <= a < discovered_jobs(cs).len() ==> {
                let j = #[trigger] discovered_jobs(cs)[a];
                &&& j.job_id == job_id_for(j.service_name)
                &&& is_supported_action(j.action)
                &&& word_count(j.cron_schedule) >= min_cron_fields()
                &&& exists|i: int| 0 <= i < cs.len() && label_verdict(cs[i]) == LabelVerdict::Schedule(j)
            },
    decreases cs.len(),
{
    if cs.len() > 0 {
        let prev_cs = cs.drop_last();
        law_discovered_jobs_well_formed(prev_cs);
        let prev = discovered_jobs(prev_cs);
        let cur = discovered_jobs(cs);
        assert forall|a: int| 0 <= a < prev.len() implies exists|i: int|
            0 <= i < cs.len() && label_verdict(cs[i]) == LabelVerdict::Schedule(#[trigger] prev[a]) by {
            let i = choose|i: int| 0 <= i < prev_cs.len() && label_verdict(prev_cs[i]) == LabelVerdict::Schedule(prev[a]);
            assert(cs[i] == prev_cs[i]);
        }
        match label_verdict(cs.last()) {
            LabelVerdict::Schedule(j) => {
                if !has_service(prev, j.service_name) {
                    assert(cur == prev.push(j));
                    assert forall|a: int, b: int|
                        0 <= a < b < cur.len() implies (#[trigger] cur[a]).service_name
                        != (#[trigger] cur[b]).service_name by {
                        assert(cur[a] == prev[a]);
                        if b < prev.len() {
                            assert(cur[b] == prev[b]);
                        }
                    }
                    assert(label_verdict(cs[cs.len() - 1]) == LabelVerdict::Schedule(j));
                }
            },
            _ => {},
        }
    }
}

/// A label found by `label_lookup` is one of the labels.
proof fn lemma_lookup_found(l: Seq<(Seq<char>, Seq<char>)>, key: Seq<char>)
    ensures
        label_lookup(l, key) matches Some(v) ==> exists|i: int|
            0 <= i < l.len() && #[trigger] l[i] == (key, v),
    decreases l.len(),
{
    if l.len() > 0 && l[0].0 != key {
        lemma_lookup_found(l.drop_first(), key);
        if let Some(v) = label_lookup(l, key) {
            let i = choose|i: int| 0 <= i < l.drop_first().len() && #[trigger] l.drop_first()[i] == (key, v);
            assert(l[i + 1] == (key, v));
        }
    }
}

/// A job is asked for only by labels that hold, each as one of the
/// container's labels: the enable label set to `true`, and the service,
/// action, command and cron labels with the job's service, action, command
/// and schedule. The action is `exec`, `run` or `run-rm`, the job id is
/// `compose_job_` followed by the service, and the container id is the
/// container's own (empty when it has none).
pub proof fn law_job_only_from_its_labels(c: ContainerInfoView)
    ensures
        label_verdict(c) matches LabelVerdict::Schedule(j) ==> c.labels matches Some(l) && {
            &&& exists|i: int| 0 <= i < l.len() && #[trigger] l[i] == (LABEL_ENABLE@, "true"@)
            &&& exists|i: int|
                0 <= i < l.len() && #[trigger] l[i] == (COMPOSE_SERVICE_LABEL@, j.service_name)
            &&& exists|i: int| 0 <= i < l.len() && #[trigger] l[i] == (LABEL_ACTION@, j.action)
            &&& exists|i: int| 0 <= i < l.len() && #[trigger] l[i] == (LABEL_COMMAND@, j.command)
            &&& exists|i: int|
                0 <= i < l.len() && #[trigger] l[i] == (LABEL_CRON@, j.cron_schedule)
            &&& (j.action == "exec"@ || j.action == "run"@ || j.action == "run-rm"@)
            &&& j.job_id == "compose_job_"@ + j.service_name
            &&& j.container_id == match c.id {
                Some(id) => id,
                None => Seq::<char>::empty(),
            }
        },
{
    if let Some(l) = c.labels {
        lemma_lookup_found(l, LABEL_ENABLE@);
        lemma_lookup_found(l, COMPOSE_SERVICE_LABEL@);
        lemma_lookup_found(l, LABEL_ACTION@);
        lemma_lookup_found(l, LABEL_COMMAND@);
        lemma_lookup_found(l, LABEL_CRON@);
    }
}

/// Labels without the enable label set to `true`, or without any one of the
/// service, action, command and cron labels, ask for nothing and are no
/// error: the container is skipped.
pub proof fn law_skipped_without_labels(c: ContainerInfoView)
    ensures
        c.labels is None ==> label_verdict(c) == LabelVerdict::Skip,
        c.labels matches Some(l) && !(exists|i: int|
            0 <= i < l.len() && #[trigger] l[i] == (LABEL_ENABLE@, "true"@)) ==> label_verdict(c)
            == LabelVerdict::Skip,
        c.labels matches Some(l) && (forall|i: int|
            0 <= i < l.len() ==> (#[trigger] l[i]).0 != COMPOSE_SERVICE_LABEL@) ==> label_verdict(
            c,
        ) == LabelVerdict::Skip,
        c.labels matches Some(l) && (forall|i: int|
            0 <= i < l.len() ==> (#[trigger] l[i]).0 != LABEL_ACTION@) ==> label_verdict(c)
            == LabelVerdict::Skip,
        c.labels matches Some(l) && (forall|i: int|
            0 <= i < l.len() ==> (#[trigger] l[i]).0 != LABEL_COMMAND@) ==> label_verdict(c)
            == LabelVerdict::Skip,
        c.labels matches Some(l) && (forall|i: int|
            0 <= i < l.len() ==> (#[trigger] l[i]).0 != LABEL_CRON@) ==> label_verdict(c)
            == LabelVerdict::Skip,
{
    if let Some(l) = c.labels {
        lemma_lookup_found(l, LABEL_ENABLE@);
        lemma_lookup_found(l, COMPOSE_SERVICE_LABEL@);
        lemma_lookup_found(l, LABEL_ACTION@);
        lemma_lookup_found(l, LABEL_COMMAND@);
        lemma_lookup_found(l, LABEL_CRON@);
    }
}

/// Each container that asks for a job has a job of its service among those
/// found.
proof fn lemma_discovery_covers(cs: Seq<ContainerInfoView>)
    ensures
        forall|i: int|
            0 <= i < cs.len() && (#[trigger] label_verdict(cs[i]) is Schedule) ==> exists|k: int|
                0 <= k < discovered_jobs(cs).len() && (#[trigger] discovered_jobs(cs)[k]).service_name
                    == label_verdict(cs[i])->Schedule_0.service_name,
    decreases cs.len(),
{
    if cs.len() > 0 {
        let prev_cs = cs.drop_last();
        lemma_discovery_covers(prev_cs);
        let prev = discovered_jobs(prev_cs);
        let cur = discovered_jobs(cs);
        let last = cs.len() - 1;
        assert(cs.last() == cs[last]);
        assert(forall|k: int| 0 <= k < prev.len() ==> 0 <= k < cur.len() && #[trigger] cur[k] == prev[k]);
        assert forall|i: int|
            0 <= i < cs.len() && (#[trigger] label_verdict(cs[i]) is Schedule)
                implies exists|k: int|
                0 <= k < cur.len() && (#[trigger] cur[k]).service_name == label_verdict(cs[i])->Schedule_0.service_name by {
            let j = label_verdict(cs[i])->Schedule_0;
            if i < last {
                assert(cs[i] == prev_cs[i]);
                let k = choose|k: int| 0 <= k < prev.len() && (#[trigger] prev[k]).service_name == j.service_name;
                assert(cur[k] == prev[k]);
            } else if has_service(prev, j.service_name) {
                let k = choose|k: int| 0 <= k < prev.len() && (#[trigger] prev[k]).service_name == j.service_name;
                assert(cur[k] == prev[k]);
            } else {
                assert(cur == prev.push(j));
                assert(cur[prev.len() as int] == j);
            }
        }
    }
}

/// The job found for a service is the one that the first container asking
/// for a job of that service asks for.
proof fn lemma_discovery_first_wins(cs: Seq<ContainerInfoView>)
    ensures
        forall|i: int|
            0 <= i < cs.len() && (#[trigger] label_verdict(cs[i]) is Schedule) && (forall|e: int|
                0 <= e < i && (#[trigger] label_verdict(cs[e]) is Schedule) ==> label_verdict(
                    cs[e],
                )->Schedule_0.service_name != label_verdict(cs[i])->Schedule_0.service_name)
                ==> exists|k: int|
                0 <= k < discovered_jobs(cs).len() && #[trigger] discovered_jobs(cs)[k]
                    == label_verdict(cs[i])->Schedule_0,
    decreases cs.len(),
{
    if cs.len() > 0 {
        let prev_cs = cs.drop_last();
        lemma_discovery_first_wins(prev_cs);
        law_discovered_jobs_well_formed(prev_cs);
        let prev = discovered_jobs(prev_cs);
        let cur = discovered_jobs(cs);
        let last = cs.len() - 1;
        assert(cs.last() == cs[last]);
        assert(forall|k: int| 0 <= k < prev.len() ==> 0 <= k < cur.len() && #[trigger] cur[k] == prev[k]);
        assert forall|i: int|
            0 <= i < cs.len() && (#[trigger] label_verdict(cs[i]) is Schedule) && (forall|e: int|
                0 <= e < i && (#[trigger] label_verdict(cs[e]) is Schedule) ==> label_verdict(
                    cs[e],
                )->Schedule_0.service_name != label_verdict(cs[i])->Schedule_0.service_name)
                implies exists|k: int|
                0 <= k < cur.len() && #[trigger] cur[k] == label_verdict(cs[i])->Schedule_0 by {
            let j = label_verdict(cs[i])->Schedule_0;
            if i < last {
                assert(cs[i] == prev_cs[i]);
                assert forall|e: int| 0 <= e < i && (#[trigger] label_verdict(prev_cs[e]) is Schedule) implies label_verdict(
                    prev_cs[e],
                )->Schedule_0.service_name != j.service_name by {
                    assert(cs[e] == prev_cs[e]);
                }
                let k = choose|k: int| 0 <= k < prev.len() && #[trigger] prev[k] == j;
                assert(cur[k] == prev[k]);
            } else {
                if has_service(prev, j.service_name) {
                    let k = choose|k: int| 0 <= k < prev.len() && (#[trigger] prev[k]).service_name == j.service_name;
                    let e = choose|e: int| 0 <= e < prev_cs.len() && label_verdict(prev_cs[e]) == LabelVerdict::Schedule(prev[k]);
                    assert(cs[e] == prev_cs[e]);
                    assert(label_verdict(cs[e]) is Schedule);
                    assert(false);
                }
                assert(cur == prev.push(j));
                assert(cur[prev.len() as int] == j);
            }
        }
    }
}

/// A scan misses no service: whenever a container asks for a job, a job of
/// exactly its service is found; and the job found for a service is the one
/// asked for by the first container that asks for a job of that service.
pub proof fn law_discovery_complete(cs: Seq<ContainerInfoView>)
    ensures
        forall|i: int|
            0 <= i < cs.len() && (#[trigger] label_verdict(cs[i]) is Schedule) ==> exists|k: int|
                0 <= k < discovered_jobs(cs).len() && (#[trigger] discovered_jobs(cs)[k]).service_name
                    == label_verdict(cs[i])->Schedule_0.service_name,
        forall|i: int|
            0 <= i < cs.len() && (#[trigger] label_verdict(cs[i]) is Schedule) && (forall|e: int|
                0 <= e < i && (#[trigger] label_verdict(cs[e]) is Schedule) ==> label_verdict(
                    cs[e],
                )->Schedule_0.service_name != label_verdict(cs[i])->Schedule_0.service_name)
                ==> exists|k: int|
                0 <= k < discovered_jobs(cs).len() && #[trigger] discovered_jobs(cs)[k]
                    == label_verdict(cs[i])->Schedule_0,
{
    lemma_discovery_covers(cs);
    lemma_discovery_first_wins(cs);
}

/// The short id of `container`, as messages name it.
pub fn container_id_short(container: &ContainerInfo) -> (r: String)
    ensures
        r@ == short_container_id(container@),
{
    let id: &str = match &container.id {
        Some(id) => id.as_str(),
        None => "unknown",
    };
    let n = id.unicode_len();
    let end: usize = if n <= 12 {
        n
    } else {
        12
    };
    let r = id.substring_char(0, end).to_owned();
    assert(n <= 12 ==> id@.subrange(0, end as int) == id@);
    r
}

/// Whether some job of `jobs` belongs to the service `name`.
fn has_service_exec(jobs: &Vec<JobConfig>, name: &String) -> (r: bool)
    ensures
        r == has_service(job_views(jobs@), name@),
{
    let mut i: usize = 0;
    while i < jobs.len()
        invariant
            i <= jobs.len(),
            forall|j: int| 0 <= j < i ==> jobs@[j].service_name@ != name@,
        decreases jobs.len() - i,
    {
        if jobs[i].service_name == *name {
            assert(job_views(jobs@)[i as int].service_name == name@);
            return true;
        }
        i = i + 1;
    }
    assert forall|j: int| 0 <= j < job_views(jobs@).len() implies (#[trigger] job_views(
        jobs@,
    )[j]).service_name != name@ by {
        assert(job_views(jobs@)[j] == jobs@[j]@);
    }
    false
}

/// Scans the containers in order and collects the job of each service that
/// one of them asks for (the first container wins), and the label errors of
/// those whose labels are not valid.
pub fn jobs_from_containers(containers: &Vec<ContainerInfo>) -> (r: (
    Vec<JobConfig>,
    Vec<SchedulerError>,
))
    ensures
        job_views(r.0@) == discovered_jobs(container_views(containers@)),
        r.1.len() == label_problems(container_views(containers@)).len(),
        forall|i: int|
            0 <= i < r.1.len() ==> is_label_error(
                #[trigger] r.1@[i],
                label_problems(container_views(containers@))[i].0,
                label_problems(container_views(containers@))[i].1,
            ),
{
    let ghost all = container_views(containers@);
    let mut jobs: Vec<JobConfig> = Vec::new();
    let mut problems: Vec<SchedulerError> = Vec::new();
    let mut i: usize = 0;
    while i < containers.len()
        invariant
            all == container_views(containers@),
            i <= containers.len(),
            job_views(jobs@) == discovered_jobs(all.take(i as int)),
            problems.len() == label_problems(all.take(i as int)).len(),
            forall|k: int|
                0 <= k < problems.len() ==> is_label_error(
                    #[trigger] problems@[k],
                    label_problems(all.take(i as int))[k].0,
                    label_problems(all.take(i as int))[k].1,
                ),
        decreases containers.len() - i,
    {
        let container = &containers[i];
        let ghost prefix = all.take(i + 1);
        assert(prefix.drop_last() == all.take(i as int));
        assert(prefix.last() == container@);
        let short = container_id_short(container);
        match parse_labels(container, short.as_str()) {
            Ok(Some(job)) => {
                if !has_service_exec(&jobs, &job.service_name) {
                    jobs.push(job);
                    assert(job_views(jobs@) == discovered_jobs(all.take(i as int)).push(job@));
                }
            },
            Ok(None) => {},
            Err(e) => {
                problems.push(e);
            },
        }
        i = i + 1;
    }
    assert(all.take(i as int) == all);
    (jobs, problems)
}

/// The container filter that restricts a scan to the configured Compose
/// project: the label `com.docker.compose.project=<project>`, or no filter
/// when no project is configured.
pub fn project_label_filter(config: &Config) -> (r: Option<String>)
    ensures
        match config.compose_project_name {
            Some(p) => r matches Some(f) && f@ == COMPOSE_PROJECT_LABEL@ + "="@ + p@,
            None => r is None,
        },
{
    match &config.compose_project_name {
        Some(project) => Some(COMPOSE_PROJECT_LABEL.to_owned().concat("=").concat(project.as_str())),
        None => None,
    }
}

} // verus!
