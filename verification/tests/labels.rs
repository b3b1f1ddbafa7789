use scheduler_rs::config::config_from_settings;
use scheduler_rs::docker_api::{
    container_id_short, find_label, jobs_from_containers, parse_labels, project_label_filter,
    ContainerInfo, JobConfig,
};
use scheduler_rs::errors::SchedulerError;

fn labels(pairs: &[(&str, &str)]) -> Option<Vec<(String, String)>> {
    Some(pairs.iter().map(|(k, v)| (k.to_string(), v.to_string())).collect())
}

fn scheduled(id: &str, service: &str, action: &str, cron: &str) -> ContainerInfo {
    ContainerInfo {
        id: Some(id.to_string()),
        labels: labels(&[
            ("custom.scheduler.enable", "true"),
            ("com.docker.compose.service", service),
            ("custom.scheduler.action", action),
            ("custom.scheduler.command", "echo hello"),
            ("custom.scheduler.cron", cron),
        ]),
    }
}

#[test]
fn find_label_gives_the_value() {
    let l = labels(&[("a", "1"), ("b", "2")]).unwrap();
    assert_eq!(find_label(&l, "b"), Some("2".to_string()));
    assert_eq!(find_label(&l, "c"), None);
}

#[test]
fn complete_labels_give_a_job() {
    let c = scheduled("abc", "web", "exec", "0 */5 * * * *");
    let job = parse_labels(&c, "abc").unwrap().unwrap();
    assert_eq!(
        job,
        JobConfig {
            service_name: "web".to_string(),
            container_id: "abc".to_string(),
            action: "exec".to_string(),
            command: "echo hello".to_string(),
            cron_schedule: "0 */5 * * * *".to_string(),
            job_id: "compose_job_web".to_string(),
        }
    );
}

#[test]
fn missing_id_gives_an_empty_container_id() {
    let mut c = scheduled("x", "db", "run-rm", "* * * * *");
    c.id = None;
    let job = parse_labels(&c, "unknown").unwrap().unwrap();
    assert_eq!(job.container_id, "");
    assert_eq!(job.action, "run-rm");
}

#[test]
fn scheduling_is_off_unless_enabled_is_exactly_true() {
    let none = ContainerInfo { id: Some("a".to_string()), labels: None };
    assert_eq!(parse_labels(&none, "a").unwrap(), None);
    for value in ["false", "TRUE", "yes", ""] {
        let c = ContainerInfo {
            id: Some("a".to_string()),
            labels: labels(&[
                ("custom.scheduler.enable", value),
                ("com.docker.compose.service", "web"),
                ("custom.scheduler.action", "exec"),
                ("custom.scheduler.command", "ls"),
                ("custom.scheduler.cron", "* * * * *"),
            ]),
        };
        assert_eq!(parse_labels(&c, "a").unwrap(), None);
    }
}

#[test]
fn missing_label_skips_the_container() {
    let c = ContainerInfo {
        id: Some("a".to_string()),
        labels: labels(&[
            ("custom.scheduler.enable", "true"),
            ("com.docker.compose.service", "web"),
            ("custom.scheduler.action", "exec"),
            ("custom.scheduler.cron", "* * * * *"),
        ]),
    };
    assert_eq!(parse_labels(&c, "a").unwrap(), None);
}

#[test]
fn unsupported_action_is_a_label_error() {
    let c = scheduled("a", "web", "restart", "* * * * *");
    let e = parse_labels(&c, "short").unwrap_err();
    assert_eq!(
        e,
        SchedulerError::LabelParse {
            container_id: "short".to_string(),
            message: "Invalid action 'restart'. Must be 'exec', 'run', or 'run-rm'.".to_string(),
        }
    );
}

#[test]
fn short_cron_is_a_label_error() {
    let c = scheduled("a", "web", "run", "* * * *");
    let e = parse_labels(&c, "short").unwrap_err();
    assert_eq!(
        e,
        SchedulerError::LabelParse {
            container_id: "short".to_string(),
            message: "Invalid cron string '* * * *'. Too few fields.".to_string(),
        }
    );
}

#[test]
fn short_id_takes_twelve_characters() {
    let long = ContainerInfo { id: Some("0123456789abcdef".to_string()), labels: None };
    assert_eq!(container_id_short(&long), "0123456789ab");
    let short = ContainerInfo { id: Some("abc".to_string()), labels: None };
    assert_eq!(container_id_short(&short), "abc");
    let none = ContainerInfo { id: None, labels: None };
    assert_eq!(container_id_short(&none), "unknown");
}

#[test]
fn first_container_of_a_service_wins() {
    let cs = vec![
        scheduled("c1", "web", "exec", "* * * * *"),
        scheduled("c2", "web", "run", "0 0 * * *"),
        scheduled("c3", "db", "run", "0 0 * * *"),
        ContainerInfo { id: None, labels: None },
    ];
    let (jobs, errors) = jobs_from_containers(&cs);
    assert!(errors.is_empty());
    assert_eq!(jobs.len(), 2);
    assert_eq!(jobs[0].container_id, "c1");
    assert_eq!(jobs[0].action, "exec");
    assert_eq!(jobs[1].service_name, "db");
}

#[test]
fn label_errors_are_collected_and_scanning_goes_on() {
    let cs = vec![
        scheduled("0123456789abcdefgh", "web", "bogus", "* * * * *"),
        scheduled("c2", "web", "exec", "* * * * *"),
    ];
    let (jobs, errors) = jobs_from_containers(&cs);
    assert_eq!(jobs.len(), 1);
    assert_eq!(jobs[0].container_id, "c2");
    assert_eq!(
        errors,
        vec![SchedulerError::LabelParse {
            container_id: "0123456789ab".to_string(),
            message: "Invalid action 'bogus'. Must be 'exec', 'run', or 'run-rm'.".to_string(),
        }]
    );
}

#[test]
fn project_filter_names_the_project_label() {
    let with = config_from_settings(None, None, None, Some("shop".to_string()), None).unwrap();
    assert_eq!(project_label_filter(&with), Some("com.docker.compose.project=shop".to_string()));
    let without = config_from_settings(None, None, None, None, None).unwrap();
    assert_eq!(project_label_filter(&without), None);
}
