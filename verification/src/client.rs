//! The client's side of the queue's service: where each request goes, and
//! what the command line asks for.

use crate::text::clone_strings;
use crate::{CommandRequest, CommandRequestView, TaskState};
use vstd::prelude::*;

verus! {

/// The path that a command is submitted to.
pub const QUEUE_COMMAND_PATH: &'static str = "api/commands";

/// The path that lists the queued tasks.
pub const LIST_QUEUED_PATH: &'static str = "/api/commands/list/queued";

/// The path that lists the running tasks.
pub const LIST_RUNNING_PATH: &'static str = "/api/commands/list/running";

/// The program that the download subcommand queues.
pub const YTDLP_PROGRAM: &'static str = "yt-dlp";

/// What follows the prefix in the name of a downloaded file.
pub const YTDLP_OUTPUT_PATTERN: &'static str = " %(title)s [%(id)s].%(ext)s";

/// The path that lists the tasks of a state.
pub fn list_path(state: TaskState) -> (path: &'static str)
    ensures
        state == TaskState::Queued ==> path@ == LIST_QUEUED_PATH@,
        state == TaskState::Running ==> path@ == LIST_RUNNING_PATH@,
{
    match state {
        TaskState::Queued => LIST_QUEUED_PATH,
        TaskState::Running => LIST_RUNNING_PATH,
    }
}

/// The state that a listing shows: the running tasks if asked for, else the
/// queued ones.
pub fn state_filter(running: bool) -> (state: TaskState)
    ensures
        running ==> state == TaskState::Running,
        !running ==> state == TaskState::Queued,
{
    if running {
        TaskState::Running
    } else {
        TaskState::Queued
    }
}

/// The arguments of a download: the URL alone, or before it `-o` and the
/// pattern of the file's name behind the prefix.
pub open spec fn ytdlp_args_spec(url: Seq<char>, prefix: Option<Seq<char>>) -> Seq<Seq<char>> {
    match prefix {
        Some(prefix) => seq!["-o"@, prefix + YTDLP_OUTPUT_PATTERN@, url],
        None => seq![url],
    }
}

/// The arguments of a download.
pub fn ytdlp_args(url: String, prefix: Option<String>) -> (args: Vec<String>)
    ensures
        args.deep_view() == ytdlp_args_spec(url@, crate::paths::text_of(prefix)),
{
    let mut args: Vec<String> = Vec::new();
    match prefix {
        Some(prefix) => {
            let ghost before = prefix@;
            let mut name = prefix;
            name.append(YTDLP_OUTPUT_PATTERN);
            args.push("-o".to_string());
            args.push(name);
            args.push(url);
            assert(args.deep_view() =~= seq!["-o"@, before + YTDLP_OUTPUT_PATTERN@, url@]);
        },
        None => {
            args.push(url);
            assert(args.deep_view() =~= seq![url@]);
        },
    }
    args
}

/// The request for a download, to run in `dir`.
pub fn ytdlp_request(dir: &str, url: String, prefix: Option<String>) -> (request: CommandRequest)
    ensures
        request@ == (CommandRequestView {
            path: dir@,
            program: YTDLP_PROGRAM@,
            args: ytdlp_args_spec(url@, crate::paths::text_of(prefix)),
        }),
{
    CommandRequest {
        path: dir.to_string(),
        program: YTDLP_PROGRAM.to_string(),
        args: ytdlp_args(url, prefix),
    }
}

/// The request that the words of a command line make: the first is the
/// program, the others its arguments. No words make no request.
pub fn input_request(dir: &str, input: &Vec<String>) -> (request: Option<CommandRequest>)
    ensures
        request is Some <==> input.len() > 0,
        request matches Some(r) ==> r@ == (CommandRequestView {
            path: dir@,
            program: input[0]@,
            args: input.deep_view().skip(1),
        }),
{
    if input.len() == 0 {
        return None;
    }
    let words = clone_strings(input);
    proof {
        assert(words.deep_view().len() == words.len());
        assert(input.deep_view().len() == input.len());
    }
    let mut args: Vec<String> = Vec::new();
    let mut i: usize = 1;
    while i < words.len()
        invariant
            1 <= i <= words.len(),
            words.deep_view() == input.deep_view(),
            args.len() == i - 1,
            forall|j: int| 0 <= j < args.len() ==> args[j]@ == words[j + 1]@,
        decreases words.len() - i,
    {
        args.push(words[i].clone());
        i = i + 1;
    }
    proof {
        assert(words.deep_view().len() == words.len());
        assert(input.deep_view().len() == input.len());
        assert forall|j: int| 0 <= j < args.len() implies args.deep_view()[j]
            == input.deep_view().skip(1)[j] by {
            assert(words.deep_view()[j + 1] == words[j + 1]@);
        }
        assert(args.deep_view() =~= input.deep_view().skip(1));
        assert(words.deep_view()[0] == words[0]@);
        assert(input.deep_view()[0] == input[0]@);
    }
    Some(CommandRequest { path: dir.to_string(), program: words[0].clone(), args })
}

/// A subcommand of the command line.
#[derive(Debug, Clone, PartialEq, Eq)]
pub enum Subcommand {
    /// Queue a download.
    Ytdlp { url: String, prefix: Option<String> },
    /// List the queued tasks, or the running ones.
    List { running: bool },
    /// Write the shell's completions.
    GenerateCompletion,
}

/// What one call of the command line asks for.
#[derive(Debug, Clone, PartialEq, Eq)]
pub enum CliAction {
    /// Both words and a subcommand were given: nothing is done.
    Confused,
    /// Submit the request.
    Submit(CommandRequest),
    /// List the tasks of the state.
    List(TaskState),
    /// Write the shell's completions.
    Completions,
    /// Nothing was given: nothing is queued.
    Nothing,
}

/// What a call of the command line in `dir` asks for, given its words and its
/// subcommand.
pub fn cli_action(dir: &str, input: &Vec<String>, subcommand: Option<Subcommand>) -> (action:
    CliAction)
    ensures
        input.len() > 0 && subcommand is Some ==> action == CliAction::Confused,
        input.len() == 0 && subcommand is None ==> action == CliAction::Nothing,
        input.len() > 0 && subcommand is None ==> (action matches CliAction::Submit(r) && r@ == (
            CommandRequestView { path: dir@, program: input[0]@, args: input.deep_view().skip(1) }
        )),
        input.len() == 0 ==> match subcommand {
            Some(Subcommand::Ytdlp { url, prefix }) => action matches CliAction::Submit(r) && r@
                == (CommandRequestView {
                path: dir@,
                program: YTDLP_PROGRAM@,
                args: ytdlp_args_spec(url@, crate::paths::text_of(prefix)),
            }),
            Some(Subcommand::List { running }) => action == CliAction::List(
                if running {
                    TaskState::Running
                } else {
                    TaskState::Queued
                },
            ),
            Some(Subcommand::GenerateCompletion) => action == CliAction::Completions,
            None => true,
        },
{
    if input.len() > 0 && subcommand.is_some() {
        return CliAction::Confused;
    }
    match subcommand {
        Some(Subcommand::Ytdlp { url, prefix }) => CliAction::Submit(
            ytdlp_request(dir, url, prefix),
        ),
        Some(Subcommand::List { running }) => CliAction::List(state_filter(running)),
        Some(Subcommand::GenerateCompletion) => CliAction::Completions,
        None => match input_request(dir, input) {
            Some(request) => CliAction::Submit(request),
            None => CliAction::Nothing,
        },
    }
}

} // verus!
