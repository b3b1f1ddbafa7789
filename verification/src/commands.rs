use crate::config::Config;
use crate::docker_api::is_supported_action;
use crate::errors::SchedulerError;
use crate::text::text_eq;
use std::time::Duration;
use vstd::prelude::*;

verus! {

/// The words into which `shlex::split` breaks `s` with POSIX shell quoting,
/// or `None` when the quoting is not valid.
pub uninterp spec fn shlex_words(s: Seq<char>) -> Option<Seq<Seq<char>>>;

/// `shlex::split`: splits `s` into words as a POSIX shell would, or fails on
/// bad quoting. The outcome depends on `s` alone.
#[verifier::external_body]
fn shlex_split(s: &str) -> (r: Option<Vec<String>>)
    ensures
        r is None <==> shlex_words(s@) is None,
        r matches Some(v) ==> shlex_words(s@) == Some(v.deep_view()),
{
    shlex::split(s)
}

/// The start of every command line: `docker`, the Docker context if one is
/// configured, `compose`, and the project if one is configured.
pub open spec fn compose_prefix(
    docker_context: Option<Seq<char>>,
    compose_project_name: Option<Seq<char>>,
) -> Seq<Seq<char>> {
    seq!["docker"@] + match docker_context {
        Some(c) => seq!["--context"@, c],
        None => Seq::empty(),
    } + seq!["compose"@] + match compose_project_name {
        Some(p) => seq!["-p"@, p],
        None => Seq::empty(),
    }
}

/// The sub-command of an action applied to a service: `exec <service>`,
/// `run <service>` or `run --rm <service>`.
pub open spec fn action_words(action: Seq<char>, service_name: Seq<char>) -> Seq<Seq<char>> {
    if action == "exec"@ {
        seq!["exec"@, service_name]
    } else if action == "run"@ {
        seq!["run"@, service_name]
    } else {
        seq!["run"@, "--rm"@, service_name]
    }
}

/// Why a command line cannot be built.
pub enum CommandRefusal {
    /// The command's quoting is not valid.
    Unsplittable,
    /// The command has no words, for an action that needs some.
    Empty,
    /// The action is not one of `exec`, `run` and `run-rm`.
    UnsupportedAction,
}

/// The command line that runs a command, split into `split` (`None` when its
/// quoting is not valid), with `action` on `service_name` under `config`, or
/// why there is none. The checks come in this order: the quoting, then an
/// empty command, then the action.
pub open spec fn compose_command_from(
    config: Config,
    action: Seq<char>,
    service_name: Seq<char>,
    split: Option<Seq<Seq<char>>>,
) -> Result<Seq<Seq<char>>, CommandRefusal> {
    match split {
        None => Err(CommandRefusal::Unsplittable),
        Some(words) => if words.len() == 0 && is_supported_action(action) {
            Err(CommandRefusal::Empty)
        } else if !is_supported_action(action) {
            Err(CommandRefusal::UnsupportedAction)
        } else {
            Ok(
                compose_prefix(
                    config.docker_context.deep_view(),
                    config.compose_project_name.deep_view(),
                ) + action_words(action, service_name) + words,
            )
        },
    }
}

/// The command line that runs `command` with `action` on `service_name`
/// under `config`, the command split as a POSIX shell would, or why there is
/// none.
pub open spec fn compose_command(
    config: Config,
    action: Seq<char>,
    service_name: Seq<char>,
    command: Seq<char>,
) -> Result<Seq<Seq<char>>, CommandRefusal> {
    compose_command_from(config, action, service_name, shlex_words(command))
}

/// `e` is the error with which a command line is refused for `reason`.
pub open spec fn is_refusal_error(
    e: SchedulerError,
    reason: CommandRefusal,
    action: Seq<char>,
    command: Seq<char>,
) -> bool {
    match reason {
        CommandRefusal::Unsplittable => e matches SchedulerError::CommandParse {
            command_str,
            details,
        } && command_str@ == command && details@
            == "Failed to split command string using shlex."@,
        CommandRefusal::Empty => e matches SchedulerError::CommandParse { command_str, details }
            && command_str@ == command && details@
            == "Command string is empty or resulted in no arguments."@,
        CommandRefusal::UnsupportedAction => e matches SchedulerError::Other(m) && m@
            == "Unsupported action '"@ + action + "'"@,
    }
}

/// Appends `words` to `line`.
fn append_words(line: &mut Vec<String>, words: Vec<String>)
    ensures
        final(line).deep_view() == old(line).deep_view() + words.deep_view(),
{
    let ghost start = line.deep_view();
    let mut i: usize = 0;
    while i < words.len()
        invariant
            i <= words.len(),
            line.deep_view() == start + words.deep_view().take(i as int),
        decreases words.len() - i,
    {
        let ghost before = line.deep_view();
        line.push(words[i].clone());
        assert(line.deep_view() =~= before.push(words[i as int]@));
        assert(words.deep_view().take(i + 1) == words.deep_view().take(i as int).push(
            words[i as int]@,
        ));
        i = i + 1;
    }
    assert(words.deep_view().take(i as int) == words.deep_view());
}

/// Builds the `docker compose` command line that runs `command_str` with
/// `action` (`exec`, `run` or `run-rm`) on the service `service_name`: the
/// program and its arguments, program first.
pub fn build_compose_command(
    config: &Config,
    action: &str,
    service_name: &str,
    command_str: &str,
) -> (r: Result<Vec<String>, SchedulerError>)
    ensures
        match compose_command(*config, action@, service_name@, command_str@) {
            Ok(line) => r matches Ok(v) && v.deep_view() == line,
            Err(reason) => r matches Err(e) && is_refusal_error(
                e,
                reason,
                action@,
                command_str@,
            ),
        },
{
    let words = shlex_split(command_str);
    compose_command_with_words(config, action, service_name, command_str, words)
}

/// The command line for `command_str` once it has been split into `words`
/// (`None` when its quoting is not valid): as [`build_compose_command`],
/// for the given split.
pub fn compose_command_with_words(
    config: &Config,
    action: &str,
    service_name: &str,
    command_str: &str,
    words: Option<Vec<String>>,
) -> (r: Result<Vec<String>, SchedulerError>)
    ensures
        match compose_command_from(*config, action@, service_name@, words.deep_view()) {
            Ok(line) => r matches Ok(v) && v.deep_view() == line,
            Err(reason) => r matches Err(e) && is_refusal_error(
                e,
                reason,
                action@,
                command_str@,
            ),
        },
{
    let mut line: Vec<String> = Vec::new();
    line.push("docker".to_owned());
    if let Some(context) = &config.docker_context {
        line.push("--context".to_owned());
        line.push(context.clone());
    }
    line.push("compose".to_owned());
    if let Some(project) = &config.compose_project_name {
        line.push("-p".to_owned());
        line.push(project.clone());
    }
    assert(line.deep_view() == compose_prefix(
        config.docker_context.deep_view(),
        config.compose_project_name.deep_view(),
    ));
    let words = match words {
        Some(words) => words,
        None => {
            return Err(
                SchedulerError::CommandParse {
                    command_str: command_str.to_owned(),
                    details: "Failed to split command string using shlex.".to_owned(),
                },
            );
        },
    };
    let is_exec = text_eq(action, "exec");
    let is_run = text_eq(action, "run");
    let is_run_rm = text_eq(action, "run-rm");
    if words.len() == 0 && (is_exec || is_run || is_run_rm) {
        return Err(
            SchedulerError::CommandParse {
                command_str: command_str.to_owned(),
                details: "Command string is empty or resulted in no arguments.".to_owned(),
            },
        );
    }
    let ghost prefix = line.deep_view();
    if is_exec {
        line.push("exec".to_owned());
        line.push(service_name.to_owned());
    } else if is_run {
        line.push("run".to_owned());
        line.push(service_name.to_owned());
    } else if is_run_rm {
        line.push("run".to_owned());
        line.push("--rm".to_owned());
        line.push(service_name.to_owned());
    } else {
        return Err(
            SchedulerError::Other("Unsupported action '".to_owned().concat(action).concat("'")),
        );
    }
    assert(line.deep_view() == prefix + action_words(action@, service_name@));
    append_words(&mut line, words);
    Ok(line)
}

/// A command that splits into one or more words, under a supported action,
/// always gets a command line, and that line ends with exactly those words,
/// after at least `docker`, `compose`, the sub-command and the service.
pub proof fn law_command_keeps_words(
    config: Config,
    action: Seq<char>,
    service_name: Seq<char>,
    words: Seq<Seq<char>>,
)
    requires
        action == "exec"@ || action == "run"@ || action == "run-rm"@,
        words.len() > 0,
    ensures
        compose_command_from(config, action, service_name, Some(words)) matches Ok(line)
            && line.len() >= words.len() + 4 && line.subrange(
            line.len() - words.len(),
            line.len() as int,
        ) == words,
{
    let line = compose_prefix(config.docker_context.deep_view(), config.compose_project_name.deep_view())
        + action_words(action, service_name) + words;
    assert(line.subrange(line.len() - words.len(), line.len() as int) =~= words);
}

/// A command is refused for bad quoting exactly when it cannot be split; as
/// empty exactly when it splits into no words under a supported action; and
/// for its action exactly when it splits but the action is none of `exec`,
/// `run` and `run-rm`.
pub proof fn law_command_refusals(
    config: Config,
    action: Seq<char>,
    service_name: Seq<char>,
    split: Option<Seq<Seq<char>>>,
)
    ensures
        compose_command_from(config, action, service_name, split) == Err::<
            Seq<Seq<char>>,
            CommandRefusal,
        >(CommandRefusal::Unsplittable) <==> split is None,
        compose_command_from(config, action, service_name, split) == Err::<
            Seq<Seq<char>>,
            CommandRefusal,
        >(CommandRefusal::Empty) <==> (split == Some(Seq::<Seq<char>>::empty()) && (action
            == "exec"@ || action == "run"@ || action == "run-rm"@)),
        compose_command_from(config, action, service_name, split) == Err::<
            Seq<Seq<char>>,
            CommandRefusal,
        >(CommandRefusal::UnsupportedAction) <==> (split is Some && !(action == "exec"@
            || action == "run"@ || action == "run-rm"@)),
{
    match split {
        Some(words) => {
            if words.len() == 0 {
                assert(words =~= Seq::<Seq<char>>::empty());
            }
        },
        None => {},
    }
}

/// The layout of a command line: `docker`; `--context` and the context
/// whenever one is configured, whether or not a project is; `compose`;
/// `-p` and the project whenever one is configured; then `exec <service>`,
/// `run <service>` or `run --rm <service>` for the actions `exec`, `run` and
/// `run-rm`; then the command's words.
pub proof fn law_command_line_layout(
    config: Config,
    action: Seq<char>,
    service_name: Seq<char>,
    words: Seq<Seq<char>>,
)
    ensures
        compose_command_from(config, action, service_name, Some(words)) matches Ok(line) ==> {
            let k: int = if config.docker_context is Some { 3 } else { 1 };
            let m: int = if config.compose_project_name is Some { k + 3 } else { k + 1 };
            &&& line[0] == "docker"@
            &&& (config.docker_context matches Some(c) ==> line[1] == "--context"@ && line[2]
                == c@)
            &&& line[k] == "compose"@
            &&& (config.compose_project_name matches Some(p) ==> line[k + 1] == "-p"@ && line[k
                + 2] == p@)
            &&& (action == "exec"@ ==> line[m] == "exec"@ && line[m + 1] == service_name
                && line.len() == m + 2 + words.len())
            &&& (action == "run"@ ==> line[m] == "run"@ && line[m + 1] == service_name
                && line.len() == m + 2 + words.len())
            &&& (action == "run-rm"@ ==> line[m] == "run"@ && line[m + 1] == "--rm"@ && line[m
                + 2] == service_name && line.len() == m + 3 + words.len())
        },
{
    let ctx = match config.docker_context {
        Some(c) => seq!["--context"@, c@],
        None => Seq::<Seq<char>>::empty(),
    };
    let proj = match config.compose_project_name {
        Some(p) => seq!["-p"@, p@],
        None => Seq::<Seq<char>>::empty(),
    };
    let pre = compose_prefix(config.docker_context.deep_view(), config.compose_project_name.deep_view());
    assert(pre =~= seq!["docker"@] + ctx + seq!["compose"@] + proj);
    let act = action_words(action, service_name);
    let line = pre + act + words;
    let k: int = if config.docker_context is Some { 3 } else { 1 };
    let m: int = if config.compose_project_name is Some { k + 3 } else { k + 1 };
    assert(pre.len() == m);
    assert(line[0] == pre[0]);
    assert(line[k] == pre[k]);
    if config.docker_context is Some {
        assert(line[1] == pre[1] && line[2] == pre[2]);
    }
    if config.compose_project_name is Some {
        assert(line[k + 1] == pre[k + 1] && line[k + 2] == pre[k + 2]);
    }
    assert(line[m] == act[0]);
    assert(line[m + 1] == act[1]);
    if action == "run-rm"@ {
        reveal_strlit("run-rm");
        reveal_strlit("exec");
        reveal_strlit("run");
        assert(action.len() != "exec"@.len() && action.len() != "run"@.len());
        assert(act.len() == 3);
        assert(line[m + 2] == act[2]);
    }
}

/// How a command run ended, as the runner saw it.
pub enum CommandOutcome {
    /// The command did not finish within the timeout.
    TimedOut,
    /// The command could not be started or awaited; the message says why.
    Failed(String),
    /// The command exited: whether it succeeded, its exit code if it has one,
    /// and what it wrote to its error output.
    Exited { success: bool, code: Option<i32>, stderr: String },
}

/// What the run of a command for `service_name`, with a timeout of
/// `timeout`, amounts to: success exactly when the command exited
/// successfully; otherwise the error that says how it ended (an exit code of
/// -1 stands for none).
pub fn command_result(service_name: &str, timeout: Duration, outcome: CommandOutcome) -> (r: Result<
    (),
    SchedulerError,
>)
    ensures
        match outcome {
            CommandOutcome::TimedOut => r matches Err(
                SchedulerError::CommandTimeout { service_name: s, duration },
            ) && s@ == service_name@ && duration == timeout,
            CommandOutcome::Failed(m) => r matches Err(
                SchedulerError::CommandExec { service_name: s, source },
            ) && s@ == service_name@ && source@ == m@,
            CommandOutcome::Exited { success, code, stderr } => if success {
                r is Ok
            } else {
                r matches Err(SchedulerError::CommandFailed { service_name: s, code: c, stderr: e })
                    && s@ == service_name@ && c == code.unwrap_or(-1i32) && e@ == stderr@
            },
        },
{
    match outcome {
        CommandOutcome::TimedOut => Err(
            SchedulerError::CommandTimeout { service_name: service_name.to_owned(), duration: timeout },
        ),
        CommandOutcome::Failed(m) => Err(
            SchedulerError::CommandExec { service_name: service_name.to_owned(), source: m },
        ),
        CommandOutcome::Exited { success, code, stderr } => if success {
            Ok(())
        } else {
            Err(
                SchedulerError::CommandFailed {
                    service_name: service_name.to_owned(),
                    code: code.unwrap_or(-1),
                    stderr,
                },
            )
        },
    }
}

} // verus!
