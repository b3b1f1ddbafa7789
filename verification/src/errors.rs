use std::time::Duration;
use vstd::prelude::*;

verus! {

/// Everything that can go wrong while loading the configuration, reading
/// container labels, building or running a scheduled command, or talking to
/// the job scheduler. Errors that come from outside libraries are carried as
/// their rendered messages.
#[derive(Debug, Clone, PartialEq, Eq)]
pub enum SchedulerError {
    /// The configuration could not be loaded.
    Config(String),
    /// The Docker daemon reported an error.
    Docker(String),
    /// An input/output error.
    Io(String),
    /// A cron expression was refused by the job scheduler.
    CronParse { cron_str: String, source: String },
    /// The command process could not be started or awaited.
    CommandExec { service_name: String, source: String },
    /// The command ran longer than the configured timeout.
    CommandTimeout { service_name: String, duration: Duration },
    /// The command exited unsuccessfully.
    CommandFailed { service_name: String, code: i32, stderr: String },
    /// The command string could not be split into arguments.
    CommandParse { command_str: String, details: String },
    /// The job scheduler refused a new job.
    JobAdd { job_id: String, source: String },
    /// The job scheduler refused to change a job.
    JobModify { job_id: String, source: String },
    /// The job scheduler refused to remove a job.
    JobRemove { job_id: String, source: String },
    /// An unknown time zone name.
    InvalidTimezone(String),
    /// A container carries scheduling labels that are not valid.
    LabelParse { container_id: String, message: String },
    /// Anything else.
    Other(String),
}

} // verus!
