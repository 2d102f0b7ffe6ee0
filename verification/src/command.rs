//! The command executor: which process it starts, and which events it
//! publishes for what the process gave.

use crate::event::{Event, EventView};
use crate::headers::{headers_view, Header};
use crate::json::{members_view, Json, JsonView, Member};
use crate::text::{
    is_blank, is_blank_str, opt_str_view, opt_string_view, signed_decimal, signed_decimal_string,
    split_words, strings_view, utf8_lossy, utf8_to_string_lossy, words,
};
use vstd::prelude::*;
use vstd::string::*;

verus! {

/// The settings of a command executor, fixed when it starts.
#[derive(Clone, Debug, PartialEq, Eq)]
pub struct ExecConfig {
    /// The command to run.
    pub command: String,
    /// Its arguments, separated by white space.
    pub args: Option<String>,
    /// Milliseconds between two runs; zero for a single run.
    pub interval_ms: u64,
    /// The directory to run in.
    pub working_dir: Option<String>,
    /// A shell to hand the command to.
    pub shell: Option<String>,
}

/// A process to start.
#[derive(Clone, Debug, PartialEq, Eq)]
pub struct CommandPlan {
    pub program: String,
    pub args: Vec<String>,
    pub working_dir: Option<String>,
}

/// What a finished process gave.
#[derive(Clone, Debug, PartialEq, Eq)]
pub struct CommandOutput {
    pub stdout: Vec<u8>,
    pub stderr: Vec<u8>,
    /// The exit code; none where a signal ended the process.
    pub exit_code: Option<i32>,
}

/// How often the command runs.
#[derive(Clone, Copy, Debug, PartialEq, Eq, Structural)]
pub enum Schedule {
    Once,
    /// Again and again, this many milliseconds apart.
    Every(u64),
}

/// The mathematical value of a [`CommandPlan`].
pub struct CommandPlanView {
    pub program: Seq<char>,
    pub args: Seq<Seq<char>>,
    pub working_dir: Option<Seq<char>>,
}

impl View for CommandPlan {
    type V = CommandPlanView;

    open spec fn view(&self) -> CommandPlanView {
        CommandPlanView {
            program: self.program@,
            args: strings_view(self.args@),
            working_dir: opt_string_view(self.working_dir),
        }
    }
}

/// The command line that a shell is given: the command and, behind one
/// space, the arguments as they were written.
pub open spec fn command_line(command: Seq<char>, args: Option<Seq<char>>) -> Seq<char> {
    match args {
        Some(a) => command + " "@ + a,
        None => command,
    }
}

/// The process that hands a command line to a shell: the shell, with `-c`
/// and the line.
pub open spec fn shell_plan(
    shell: Seq<char>,
    command: Seq<char>,
    args: Option<Seq<char>>,
    working_dir: Option<Seq<char>>,
) -> CommandPlanView {
    CommandPlanView { program: shell, args: seq!["-c"@, command_line(command, args)], working_dir }
}

/// The process for a configuration. With a shell, the shell is given the
/// whole command line. Without one, the command is started with the words of
/// the arguments.
pub open spec fn plan_of(
    command: Seq<char>,
    args: Option<Seq<char>>,
    working_dir: Option<Seq<char>>,
    shell: Option<Seq<char>>,
) -> CommandPlanView {
    match shell {
        Some(sh) => shell_plan(sh, command, args, working_dir),
        None => CommandPlanView {
            program: command,
            args: match args {
                Some(a) => words(a),
                None => Seq::empty(),
            },
            working_dir,
        },
    }
}

/// The exit code that is reported: `-1` where the process had none.
pub open spec fn reported_code(exit_code: Option<i32>) -> int {
    match exit_code {
        Some(code) => code as int,
        None => -1,
    }
}

/// The payload of an event about a run: the command, then the captured
/// text under the name of its stream if there is one, then the exit code.
pub open spec fn run_payload(
    command: Seq<char>,
    captured: Option<(Seq<char>, Seq<char>)>,
    code: int,
) -> JsonView {
    match captured {
        Some((stream, text)) => JsonView::Object(
            seq![
                ("command"@, JsonView::Text(command)),
                (stream, JsonView::Text(text)),
                ("exit_code"@, JsonView::Number(signed_decimal(code))),
            ],
        ),
        None => JsonView::Object(
            seq![
                ("command"@, JsonView::Text(command)),
                ("exit_code"@, JsonView::Number(signed_decimal(code))),
            ],
        ),
    }
}

/// An event about a run.
pub open spec fn run_event(
    event_type: Seq<char>,
    command: Seq<char>,
    captured: Option<(Seq<char>, Seq<char>)>,
    code: int,
) -> EventView {
    EventView {
        event_type,
        payload: run_payload(command, captured, code),
        headers: Seq::empty(),
    }
}

/// The event for one output stream, if there is text to show.
pub open spec fn stream_events(
    event_type: Seq<char>,
    stream: Seq<char>,
    command: Seq<char>,
    text: Option<Seq<char>>,
    code: int,
) -> Seq<EventView> {
    match text {
        Some(t) => seq![run_event(event_type, command, Some((stream, t)), code)],
        None => Seq::empty(),
    }
}

/// The events of one run, in the order in which they are published:
/// `exec.output` with the standard output and `exec.error` with the standard
/// error, each only if there is text to show, then `exec.exit`.
pub open spec fn run_events(
    command: Seq<char>,
    stdout: Option<Seq<char>>,
    stderr: Option<Seq<char>>,
    code: int,
) -> Seq<EventView> {
    stream_events("exec.output"@, "stdout"@, command, stdout, code) + stream_events(
        "exec.error"@,
        "stderr"@,
        command,
        stderr,
        code,
    ) + seq![run_event("exec.exit"@, command, None, code)]
}

/// The text of an output stream that is shown: the bytes read as UTF-8, with
/// U+FFFD in place of what is not; none where that is white space only.
pub open spec fn shown_text(bytes: Seq<u8>) -> Option<Seq<char>> {
    if is_blank(utf8_lossy(bytes)) {
        None
    } else {
        Some(utf8_lossy(bytes))
    }
}

/// The events for what a process gave.
pub open spec fn events_of(
    command: Seq<char>,
    stdout: Seq<u8>,
    stderr: Seq<u8>,
    exit_code: Option<i32>,
) -> Seq<EventView> {
    run_events(command, shown_text(stdout), shown_text(stderr), reported_code(exit_code))
}

/// The views of a list of events, in order.
pub open spec fn events_view(events: Seq<Event>) -> Seq<EventView> {
    events.map_values(|e: Event| e@)
}

/// The name of a stream and the text captured from it.
pub open spec fn captured_view(captured: Option<(&str, String)>) -> Option<(Seq<char>, Seq<char>)> {
    match captured {
        Some((stream, text)) => Some((stream@, text@)),
        None => None,
    }
}

impl ExecConfig {
    /// How often the command runs: once where the interval is zero.
    pub fn schedule(&self) -> (schedule: Schedule)
        ensures
            schedule == if self.interval_ms == 0 {
                Schedule::Once
            } else {
                Schedule::Every(self.interval_ms)
            },
    {
        if self.interval_ms == 0 {
            Schedule::Once
        } else {
            Schedule::Every(self.interval_ms)
        }
    }
}

impl CommandPlan {
    /// The plan that starts `program` itself with these arguments.
    pub fn direct(program: &str, args: Vec<String>, working_dir: Option<String>) -> (plan:
        CommandPlan)
        ensures
            plan@ == (CommandPlanView {
                program: program@,
                args: strings_view(args@),
                working_dir: opt_string_view(working_dir),
            }),
    {
        CommandPlan { program: String::from_str(program), args, working_dir }
    }

    /// The plan that hands a command and its arguments to a shell.
    pub fn through_shell(
        shell: &str,
        command: &str,
        args: Option<&str>,
        working_dir: Option<String>,
    ) -> (plan: CommandPlan)
        ensures
            plan@ == shell_plan(shell@, command@, opt_str_view(args), opt_string_view(working_dir)),
    {
        let mut line = String::from_str(command);
        match args {
            Some(a) => {
                line.append(" ");
                line.append(a);
            },
            None => {},
        }
        let mut list: Vec<String> = Vec::new();
        list.push(String::from_str("-c"));
        list.push(line);
        assert(strings_view(list@) =~= seq!["-c"@, command_line(command@, opt_str_view(args))]);
        CommandPlan { program: String::from_str(shell), args: list, working_dir }
    }
}

/// A copy of an optional string.
fn copy_opt(s: &Option<String>) -> (out: Option<String>)
    ensures
        opt_string_view(out) == opt_string_view(*s),
{
    match s {
        Some(text) => Some(text.clone()),
        None => None,
    }
}

/// An optional string as a slice.
fn as_opt_str(s: &Option<String>) -> (out: Option<&str>)
    ensures
        opt_str_view(out) == opt_string_view(*s),
{
    match s {
        Some(text) => Some(text.as_str()),
        None => None,
    }
}

/// Plans the process that a configuration asks for.
pub fn build_command(config: &ExecConfig) -> (plan: CommandPlan)
    ensures
        plan@ == plan_of(
            config.command@,
            opt_string_view(config.args),
            opt_string_view(config.working_dir),
            opt_string_view(config.shell),
        ),
{
    let working_dir = copy_opt(&config.working_dir);
    match &config.shell {
        Some(shell) => CommandPlan::through_shell(
            shell.as_str(),
            config.command.as_str(),
            as_opt_str(&config.args),
            working_dir,
        ),
        None => {
            let args: Vec<String> = match &config.args {
                Some(args) => split_words(args.as_str()),
                None => Vec::new(),
            };
            assert(config.args is None ==> strings_view(args@) =~= Seq::empty());
            CommandPlan::direct(config.command.as_str(), args, working_dir)
        },
    }
}

/// Builds an event about a run.
fn make_event(
    event_type: &str,
    command: &str,
    captured: Option<(&str, String)>,
    code: i32,
) -> (event: Event)
    ensures
        event@ == run_event(event_type@, command@, captured_view(captured), code as int),
{
    let mut members: Vec<Member> = Vec::new();
    members.push(Member::new("command", Json::text(command)));
    let ghost shown = captured_view(captured);
    match captured {
        Some((stream, text)) => {
            members.push(Member::new(stream, Json::Text(text)));
        },
        None => {},
    }
    members.push(Member::new("exit_code", Json::Number(signed_decimal_string(code))));
    assert(members_view(members@) =~= run_payload(command@, shown, code as int)->Object_0);
    let headers: Vec<Header> = Vec::new();
    assert(headers_view(headers@) =~= Seq::empty());
    Event { event_type: String::from_str(event_type), payload: Json::object(members), headers }
}

/// Lists the events of one run of `command`, given the text of each output
/// stream that is to be shown and the exit code to report.
pub fn events_for_run(
    command: &str,
    stdout: Option<String>,
    stderr: Option<String>,
    code: i32,
) -> (events: Vec<Event>)
    ensures
        events_view(events@) == run_events(
            command@,
            opt_string_view(stdout),
            opt_string_view(stderr),
            code as int,
        ),
{
    let mut events: Vec<Event> = Vec::new();
    let ghost out_text = opt_string_view(stdout);
    let ghost err_text = opt_string_view(stderr);
    match stdout {
        Some(text) => {
            events.push(make_event("exec.output", command, Some(("stdout", text)), code));
        },
        None => {},
    }
    assert(events_view(events@) =~= stream_events(
        "exec.output"@,
        "stdout"@,
        command@,
        out_text,
        code as int,
    ));
    let ghost first = events_view(events@);
    match stderr {
        Some(text) => {
            events.push(make_event("exec.error", command, Some(("stderr", text)), code));
        },
        None => {},
    }
    assert(events_view(events@) =~= first + stream_events(
        "exec.error"@,
        "stderr"@,
        command@,
        err_text,
        code as int,
    ));
    let ghost second = events_view(events@);
    events.push(make_event("exec.exit", command, None, code));
    assert(events_view(events@) =~= second + seq![
        run_event("exec.exit"@, command@, None, code as int),
    ]);
    events
}

/// Reads an output stream as text, and keeps it if it holds more than white
/// space.
fn shown(bytes: &[u8]) -> (text: Option<String>)
    ensures
        opt_string_view(text) == shown_text(bytes@),
{
    let text = utf8_to_string_lossy(bytes);
    if is_blank_str(text.as_str()) {
        None
    } else {
        Some(text)
    }
}

/// Lists the events to publish for what one run of `command` gave, in order.
pub fn output_events(command: &str, output: &CommandOutput) -> (events: Vec<Event>)
    ensures
        events_view(events@) == events_of(
            command@,
            output.stdout@,
            output.stderr@,
            output.exit_code,
        ),
{
    let code: i32 = match output.exit_code {
        Some(code) => code,
        None => -1,
    };
    events_for_run(
        command,
        shown(output.stdout.as_slice()),
        shown(output.stderr.as_slice()),
        code,
    )
}

} // verus!
