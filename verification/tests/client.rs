use cmd_queue::cli_util::{command_line, elapsed, last_attempt_text, rows_of, Elapsed, TaskRow};
use cmd_queue::client::{
    cli_action, input_request, list_path, state_filter, ytdlp_args, ytdlp_request, CliAction,
    Subcommand, QUEUE_COMMAND_PATH,
};
use cmd_queue::constants::{DBFILE, DEFAULT_PORT, SERVER_DAEMON_DIR};
use cmd_queue::web::HtmlFormCommandRequest;
use cmd_queue::{CommandRequest, Task, TaskState, Timestamp};

fn words(list: &[&str]) -> Vec<String> {
    list.iter().map(|w| w.to_string()).collect()
}

fn at(secs: u64, nanos: u32) -> Timestamp {
    Timestamp { secs, nanos }
}

#[test]
fn each_request_has_its_path() {
    assert_eq!(QUEUE_COMMAND_PATH, "api/commands");
    assert_eq!(list_path(TaskState::Queued), "/api/commands/list/queued");
    assert_eq!(list_path(TaskState::Running), "/api/commands/list/running");
    assert_eq!(state_filter(true), TaskState::Running);
    assert_eq!(state_filter(false), TaskState::Queued);
    assert_eq!(DEFAULT_PORT, "8392");
    assert!(DBFILE.starts_with(SERVER_DAEMON_DIR));
}

#[test]
fn a_download_is_asked_for_with_or_without_a_prefix() {
    assert_eq!(ytdlp_args("http://x".to_string(), None), words(&["http://x"]));
    assert_eq!(
        ytdlp_args("http://x".to_string(), Some("Talk".to_string())),
        words(&["-o", "Talk %(title)s [%(id)s].%(ext)s", "http://x"])
    );
    assert_eq!(
        ytdlp_request("/home/me", "http://x".to_string(), None),
        CommandRequest { path: "/home/me".to_string(), program: "yt-dlp".to_string(), args: words(&["http://x"]) }
    );
}

#[test]
fn the_words_of_a_command_line_make_a_request() {
    assert_eq!(input_request("/tmp", &vec![]), None);
    assert_eq!(
        input_request("/tmp", &words(&["ls"])),
        Some(CommandRequest { path: "/tmp".to_string(), program: "ls".to_string(), args: vec![] })
    );
    assert_eq!(
        input_request("/tmp", &words(&["cp", "-r", "a b", "c"])),
        Some(CommandRequest { path: "/tmp".to_string(), program: "cp".to_string(), args: words(&["-r", "a b", "c"]) })
    );
}

#[test]
fn a_call_of_the_command_line_asks_for_one_thing() {
    let list = Some(Subcommand::List { running: true });
    assert_eq!(cli_action("/d", &words(&["ls"]), list.clone()), CliAction::Confused);
    assert_eq!(cli_action("/d", &vec![], list), CliAction::List(TaskState::Running));
    assert_eq!(
        cli_action("/d", &vec![], Some(Subcommand::List { running: false })),
        CliAction::List(TaskState::Queued)
    );
    assert_eq!(cli_action("/d", &vec![], Some(Subcommand::GenerateCompletion)), CliAction::Completions);
    assert_eq!(cli_action("/d", &vec![], None), CliAction::Nothing);
    assert_eq!(
        cli_action("/d", &words(&["ls", "-l"]), None),
        CliAction::Submit(CommandRequest { path: "/d".to_string(), program: "ls".to_string(), args: words(&["-l"]) })
    );
    assert_eq!(
        cli_action("/d", &vec![], Some(Subcommand::Ytdlp { url: "u".to_string(), prefix: Some("p".to_string()) })),
        CliAction::Submit(CommandRequest {
            path: "/d".to_string(),
            program: "yt-dlp".to_string(),
            args: words(&["-o", "p %(title)s [%(id)s].%(ext)s", "u"]),
        })
    );
}

#[test]
fn a_command_is_shown_as_one_line() {
    let cmd = CommandRequest { path: "/tmp".to_string(), program: "cp".to_string(), args: words(&["-r", "a", "b"]) };
    assert_eq!(command_line(&cmd), "cp -r a b");
    let bare = CommandRequest { path: "/tmp".to_string(), program: "ls".to_string(), args: vec![] };
    assert_eq!(command_line(&bare), "ls ");
}

#[test]
fn the_time_since_an_attempt_is_counted_in_seconds_and_nanoseconds() {
    assert_eq!(elapsed(at(10, 5), at(12, 7)), Some(Elapsed { secs: 2, nanos: 2 }));
    assert_eq!(elapsed(at(10, 500), at(12, 7)), Some(Elapsed { secs: 1, nanos: 999_999_507 }));
    assert_eq!(elapsed(at(10, 5), at(10, 5)), Some(Elapsed { secs: 0, nanos: 0 }));
    assert_eq!(elapsed(at(10, 5), at(10, 4)), None);
    assert_eq!(elapsed(at(11, 0), at(10, 999_999_999)), None);
    assert_eq!(elapsed(at(0, 0), at(u64::MAX, 999_999_999)), Some(Elapsed { secs: u64::MAX, nanos: 999_999_999 }));
}

#[test]
fn a_last_attempt_is_shown_as_how_long_ago_it_was() {
    assert_eq!(last_attempt_text(None, at(100, 0)), "None");
    assert_eq!(last_attempt_text(Some(at(101, 0)), at(100, 0)), "None");
    assert_eq!(last_attempt_text(Some(at(100, 0)), at(100, 0)), "0s ago");
    assert_eq!(last_attempt_text(Some(at(100, 0)), at(9520, 32_000_000)), "2h 37m 32ms ago");
    assert_eq!(last_attempt_text(Some(at(0, 0)), at(90_061, 0)), "1day 1h 1m 1s ago");
}

#[test]
fn a_task_is_shown_as_a_row() {
    let cmd = CommandRequest { path: "/music".to_string(), program: "yt-dlp".to_string(), args: words(&["http://x"]) };
    let task = Task::from_parts("abc".to_string(), cmd.clone(), 3, Some(at(40, 0)));
    let row = TaskRow::from(&task, at(100, 0));
    assert_eq!(
        row,
        TaskRow {
            id: "abc".to_string(),
            destination: "/music".to_string(),
            command: "yt-dlp http://x".to_string(),
            tries: 3,
            last_attempt: "1m ago".to_string(),
        }
    );
    let fresh = Task::new("new".to_string(), cmd);
    let rows = rows_of(&vec![task, fresh], at(100, 0));
    assert_eq!(rows.len(), 2);
    assert_eq!(rows[0], row);
    assert_eq!(rows[1].id, "new");
    assert_eq!(rows[1].tries, 0);
    assert_eq!(rows[1].last_attempt, "None");
    assert!(rows_of(&vec![], at(0, 0)).is_empty());
}

#[test]
fn a_form_gives_a_download_or_a_command() {
    let download = HtmlFormCommandRequest::Ytdlp { path: "/m".to_string(), url: "u".to_string(), prefix: None };
    let raw = HtmlFormCommandRequest::Raw { path: "/m".to_string(), command: "ls -l".to_string() };
    assert_ne!(download, raw);
    assert_eq!(raw.clone(), raw);
}
