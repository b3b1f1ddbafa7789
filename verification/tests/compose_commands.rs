use scheduler_rs::commands::{build_compose_command, command_result, CommandOutcome};
use scheduler_rs::config::{config_from_settings, Config};
use scheduler_rs::errors::SchedulerError;
use std::time::Duration;

fn config(project: Option<&str>, context: Option<&str>) -> Config {
    config_from_settings(None, None, None, project.map(String::from), context.map(String::from)).unwrap()
}

fn words(v: &[&str]) -> Vec<String> {
    v.iter().map(|s| s.to_string()).collect()
}

#[test]
fn exec_line_without_project_or_context() {
    let line = build_compose_command(&config(None, None), "exec", "web", "ls -la").unwrap();
    assert_eq!(line, words(&["docker", "compose", "exec", "web", "ls", "-la"]));
}

#[test]
fn run_line_with_project_and_context() {
    let line = build_compose_command(&config(Some("shop"), Some("remote")), "run", "db", "psql -c 'select 1'").unwrap();
    assert_eq!(
        line,
        words(&["docker", "--context", "remote", "compose", "-p", "shop", "run", "db", "psql", "-c", "select 1"])
    );
}

#[test]
fn run_rm_line_adds_rm_flag() {
    let line = build_compose_command(&config(Some("p"), None), "run-rm", "job", "sh -c \"echo hi\"").unwrap();
    assert_eq!(line, words(&["docker", "compose", "-p", "p", "run", "--rm", "job", "sh", "-c", "echo hi"]));
}

#[test]
fn bad_quoting_is_refused() {
    let e = build_compose_command(&config(None, None), "exec", "web", "echo \"open").unwrap_err();
    assert_eq!(
        e,
        SchedulerError::CommandParse {
            command_str: "echo \"open".to_string(),
            details: "Failed to split command string using shlex.".to_string(),
        }
    );
}

#[test]
fn empty_command_is_refused_for_supported_actions() {
    let e = build_compose_command(&config(None, None), "run", "web", "   ").unwrap_err();
    assert_eq!(
        e,
        SchedulerError::CommandParse {
            command_str: "   ".to_string(),
            details: "Command string is empty or resulted in no arguments.".to_string(),
        }
    );
}

#[test]
fn unsupported_action_is_refused() {
    let e = build_compose_command(&config(None, None), "up", "web", "").unwrap_err();
    assert_eq!(e, SchedulerError::Other("Unsupported action 'up'".to_string()));
    let e = build_compose_command(&config(None, None), "down", "web", "x").unwrap_err();
    assert_eq!(e, SchedulerError::Other("Unsupported action 'down'".to_string()));
}

#[test]
fn command_result_success() {
    let r = command_result("web", Duration::from_secs(600), CommandOutcome::Exited { success: true, code: Some(0), stderr: "warn".to_string() });
    assert_eq!(r, Ok(()));
}

#[test]
fn command_result_failure_keeps_code_and_stderr() {
    let r = command_result("web", Duration::from_secs(600), CommandOutcome::Exited { success: false, code: Some(3), stderr: "boom".to_string() });
    assert_eq!(
        r,
        Err(SchedulerError::CommandFailed { service_name: "web".to_string(), code: 3, stderr: "boom".to_string() })
    );
    let r = command_result("web", Duration::from_secs(600), CommandOutcome::Exited { success: false, code: None, stderr: String::new() });
    assert_eq!(
        r,
        Err(SchedulerError::CommandFailed { service_name: "web".to_string(), code: -1, stderr: String::new() })
    );
}

#[test]
fn command_result_timeout_and_spawn_failure() {
    assert_eq!(
        command_result("db", Duration::from_secs(30), CommandOutcome::TimedOut),
        Err(SchedulerError::CommandTimeout { service_name: "db".to_string(), duration: Duration::from_secs(30) })
    );
    assert_eq!(
        command_result("db", Duration::from_secs(30), CommandOutcome::Failed("no such file".to_string())),
        Err(SchedulerError::CommandExec { service_name: "db".to_string(), source: "no such file".to_string() })
    );
}

#[test]
fn line_from_given_words() {
    let c = config(Some("p"), None);
    let line = scheduler_rs::commands::compose_command_with_words(&c, "exec", "web", "ignored", Some(words(&["a b", "c"]))).unwrap();
    assert_eq!(line, words(&["docker", "compose", "-p", "p", "exec", "web", "a b", "c"]));
    let e = scheduler_rs::commands::compose_command_with_words(&c, "exec", "web", "x \"", None).unwrap_err();
    assert_eq!(
        e,
        SchedulerError::CommandParse {
            command_str: "x \"".to_string(),
            details: "Failed to split command string using shlex.".to_string(),
        }
    );
}
