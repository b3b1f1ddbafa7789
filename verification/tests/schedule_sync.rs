use scheduler_rs::docker_api::JobConfig;
use scheduler_rs::job_map::JobMap;
use scheduler_rs::scheduler::{ScheduleSync, SyncAction, SyncEvent};

fn job(service: &str, cron: &str) -> JobConfig {
    JobConfig {
        service_name: service.to_string(),
        container_id: format!("id-{}", service),
        action: "exec".to_string(),
        command: "true".to_string(),
        cron_schedule: cron.to_string(),
        job_id: format!("compose_job_{}", service),
    }
}

fn map(entries: &[(&str, u128)]) -> JobMap {
    let mut m = JobMap::new();
    for (k, v) in entries {
        m.insert(k.to_string(), *v);
    }
    m
}

fn sorted(m: &JobMap) -> Vec<(String, u128)> {
    let mut v = m.to_vec();
    v.sort();
    v
}

#[test]
fn job_map_insert_get_remove() {
    let mut m = JobMap::new();
    assert_eq!(m.len(), 0);
    m.insert("a".to_string(), 1);
    m.insert("b".to_string(), 2);
    m.insert("a".to_string(), 3);
    assert_eq!(m.len(), 2);
    assert_eq!(m.get("a"), Some(3));
    assert!(m.contains_key("b"));
    assert_eq!(m.remove("b"), Some(2));
    assert_eq!(m.remove("b"), None);
    assert_eq!(m.get("b"), None);
    assert_eq!(sorted(&m), vec![("a".to_string(), 3)]);
}

#[test]
fn cycle_with_every_call_succeeding() {
    let before = map(&[("compose_job_web", 1), ("compose_job_old", 2)]);
    let (mut sync, mut action) = ScheduleSync::start(before, vec![job("web", "* * * * *"), job("db", "0 0 * * *")]);
    match &action {
        SyncAction::RemoveJob { job_id, uuid } => {
            assert_eq!(job_id, "compose_job_web");
            assert_eq!(*uuid, 1);
        }
        _ => panic!("expected removal first"),
    }
    action = sync.step(SyncEvent::Removed);
    match &action {
        SyncAction::AddJob { job, replacing } => {
            assert_eq!(job.job_id, "compose_job_web");
            assert!(*replacing);
        }
        _ => panic!("expected re-addition"),
    }
    action = sync.step(SyncEvent::Added(10));
    match &action {
        SyncAction::AddJob { job, replacing } => {
            assert_eq!(job.job_id, "compose_job_db");
            assert!(!*replacing);
        }
        _ => panic!("expected addition"),
    }
    action = sync.step(SyncEvent::Added(11));
    match &action {
        SyncAction::RemoveStaleJob { job_id, uuid } => {
            assert_eq!(job_id, "compose_job_old");
            assert_eq!(*uuid, 2);
        }
        _ => panic!("expected stale removal"),
    }
    action = sync.step(SyncEvent::Removed);
    assert!(matches!(action, SyncAction::Finished { removal_errors: false }));
    let after = sync.into_job_map();
    assert_eq!(
        sorted(&after),
        vec![("compose_job_db".to_string(), 11), ("compose_job_web".to_string(), 10)]
    );
}

#[test]
fn failed_removal_keeps_the_earlier_job() {
    let before = map(&[("compose_job_web", 1)]);
    let (mut sync, action) = ScheduleSync::start(before, vec![job("web", "* * * * *")]);
    assert!(matches!(action, SyncAction::RemoveJob { .. }));
    let action = sync.step(SyncEvent::RemoveFailed);
    assert!(matches!(action, SyncAction::Finished { removal_errors: false }));
    assert_eq!(sorted(&sync.into_job_map()), vec![("compose_job_web".to_string(), 1)]);
}

#[test]
fn failed_readdition_forgets_the_job() {
    let before = map(&[("compose_job_web", 1)]);
    let (mut sync, _) = ScheduleSync::start(before, vec![job("web", "* * * * *")]);
    let action = sync.step(SyncEvent::Removed);
    assert!(matches!(action, SyncAction::AddJob { replacing: true, .. }));
    let action = sync.step(SyncEvent::AddFailed);
    assert!(matches!(action, SyncAction::Finished { removal_errors: false }));
    assert_eq!(sync.into_job_map().len(), 0);
}

#[test]
fn failed_stale_removal_is_reported_and_kept() {
    let before = map(&[("compose_job_gone", 5)]);
    let (mut sync, action) = ScheduleSync::start(before, vec![]);
    assert!(matches!(action, SyncAction::RemoveStaleJob { uuid: 5, .. }));
    let action = sync.step(SyncEvent::RemoveFailed);
    assert!(matches!(action, SyncAction::Finished { removal_errors: true }));
    assert_eq!(sorted(&sync.into_job_map()), vec![("compose_job_gone".to_string(), 5)]);
}

#[test]
fn nothing_to_do_finishes_at_once() {
    let (sync, action) = ScheduleSync::start(JobMap::new(), vec![]);
    assert!(matches!(action, SyncAction::Finished { removal_errors: false }));
    assert_eq!(sync.into_job_map().len(), 0);
}

#[test]
fn last_discovered_job_of_an_id_counts() {
    let (mut sync, action) =
        ScheduleSync::start(JobMap::new(), vec![job("web", "1 * * * *"), job("web", "2 * * * *")]);
    match &action {
        SyncAction::AddJob { job, replacing } => {
            assert_eq!(job.cron_schedule, "2 * * * *");
            assert!(!*replacing);
        }
        _ => panic!("expected addition"),
    }
    let action = sync.step(SyncEvent::Added(7));
    assert!(matches!(action, SyncAction::Finished { removal_errors: false }));
    assert_eq!(sorted(&sync.into_job_map()), vec![("compose_job_web".to_string(), 7)]);
}
