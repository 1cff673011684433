use cmd_queue::ytdlp::{
    clean_char, clean_title, download_args, error_filename, error_filepath, outcome, target_dir,
    trim_suffix, try_error_filepath, validate_filename, Record, CmdqError, ERROR_FILE_SUFFIX,
    FILENAME_PATTERN, MAX_FILENAME_BYTES, PROGRAM,
};

fn record(url: &str, title: &str) -> Record {
    Record { url: url.to_string(), title: title.to_string(), dir: None }
}

fn s(text: &str) -> Option<String> {
    Some(text.to_string())
}

#[test]
fn a_title_is_cleaned_for_a_file_name() {
    assert_eq!(clean_title("a/b\\c+d:e?f"), "a_b_c_d e f");
    assert_eq!(clean_title("plain title"), "plain title");
    assert_eq!(clean_title(""), "");
    assert_eq!(clean_title("ünï/cödé"), "ünï_cödé");
    assert_eq!(clean_char('/'), '_');
    assert_eq!(clean_char('\\'), '_');
    assert_eq!(clean_char('+'), '_');
    assert_eq!(clean_char(':'), ' ');
    assert_eq!(clean_char('?'), ' ');
    assert_eq!(clean_char('x'), 'x');
}

#[test]
fn a_file_name_of_more_than_255_bytes_is_refused() {
    assert_eq!(MAX_FILENAME_BYTES, 255);
    assert_eq!(validate_filename(""), Ok(()));
    assert_eq!(validate_filename(&"a".repeat(255)), Ok(()));
    assert_eq!(
        validate_filename(&"a".repeat(256)),
        Err(CmdqError::FilenameTooLongError { filename: "a".repeat(256) })
    );
    let wide = "é".repeat(128);
    assert_eq!(validate_filename(&wide), Err(CmdqError::FilenameTooLongError { filename: wide.clone() }));
    assert_eq!(validate_filename(&"é".repeat(127)), Ok(()));
}

#[test]
fn the_downloader_gets_the_url_and_the_name_of_the_file() {
    assert_eq!(PROGRAM, "yt-dlp");
    assert_eq!(FILENAME_PATTERN, " [%(id)s].%(ext)s");
    assert_eq!(
        download_args(&record("http://x/1", "My: Video?")),
        Ok(vec!["http://x/1".to_string(), "-o".to_string(), "My  Video  [%(id)s].%(ext)s".to_string()])
    );
    assert_eq!(download_args(&record("http://x/1", "")), Ok(vec!["http://x/1".to_string()]));
    assert_eq!(download_args(&record("http://x/1", " \t ")), Ok(vec!["http://x/1".to_string()]));
}

#[test]
fn a_title_that_makes_too_long_a_name_is_refused() {
    let fits = "t".repeat(255 - FILENAME_PATTERN.len());
    assert!(download_args(&record("u", &fits)).is_ok());
    let long = "t".repeat(256 - FILENAME_PATTERN.len());
    assert_eq!(
        download_args(&record("u", &long)),
        Err(CmdqError::FilenameTooLongError { filename: format!("{}{}", long, FILENAME_PATTERN) })
    );
}

#[test]
fn a_download_runs_beside_its_file_of_records() {
    let cwd = s("/home/me");
    assert_eq!(target_dir("/data/list.csv", &None, &cwd), Ok("/data".to_string()));
    assert_eq!(target_dir("/data/list.csv", &None, &None), Ok("/data".to_string()));
    assert_eq!(target_dir("/data/list.csv", &s("music"), &None), Ok("/data/music".to_string()));
    assert_eq!(target_dir("/data/list.csv", &s("/abs/music"), &None), Ok("/abs/music".to_string()));
    assert_eq!(target_dir("sub/list.csv", &None, &cwd), Ok("/home/me/sub".to_string()));
    assert_eq!(target_dir("sub/list.csv", &s("music"), &cwd), Ok("/home/me/sub/music".to_string()));
    assert_eq!(target_dir("list.csv", &s("music"), &cwd), Ok("/home/me/music".to_string()));
    assert_eq!(target_dir("list.csv", &s("/abs"), &cwd), Ok("/abs".to_string()));
    assert_eq!(target_dir("/", &None, &cwd), Ok("/home/me".to_string()));
}

#[test]
fn a_download_that_hangs_on_an_unknown_directory_is_refused() {
    assert_eq!(target_dir("sub/list.csv", &None, &None), Err(CmdqError::GetTargetDirFromCurrentDirError));
    assert_eq!(target_dir("list.csv", &s("/abs"), &None), Err(CmdqError::GetTargetDirFromCurrentDirError));
    assert_eq!(target_dir("", &None, &None), Err(CmdqError::GetTargetDirFromCurrentDirError));
}

#[test]
fn a_suffix_is_taken_off_as_often_as_it_stands() {
    let c = |t: &str| t.chars().collect::<Vec<char>>();
    assert_eq!(trim_suffix(&c("list.csv"), &c("csv")), c("list."));
    assert_eq!(trim_suffix(&c("listcsvcsv"), &c("csv")), c("list"));
    assert_eq!(trim_suffix(&c("csv"), &c("csv")), c(""));
    assert_eq!(trim_suffix(&c("list"), &c("csv")), c("list"));
    assert_eq!(trim_suffix(&c("list"), &c("")), c("list"));
    assert_eq!(trim_suffix(&c(""), &c("csv")), c(""));
    for (text, suffix) in [("a.csv", "csv"), ("aaa", "a"), ("abab", "ab"), ("x", "xx"), ("", "")] {
        assert_eq!(trim_suffix(&c(text), &c(suffix)), c(text.trim_end_matches(suffix)));
    }
}

#[test]
fn the_file_of_errors_is_named_after_the_file_of_records_and_the_time() {
    assert_eq!(ERROR_FILE_SUFFIX, "-err.csv");
    assert_eq!(error_filename("list.csv", &s("csv"), 1700000000), "list.-1700000000-err.csv");
    assert_eq!(error_filename("list", &None, 0), "list-0-err.csv");
    assert_eq!(error_filepath("/data/list.csv", 12), "/data/list.-12-err.csv");
    assert_eq!(error_filepath("list", 12), "list-12-err.csv");
    assert_eq!(try_error_filepath("/data/list.csv", 12), s("/data/list.-12-err.csv"));
    assert_eq!(try_error_filepath("/data/..", 12), None);
    assert_eq!(try_error_filepath("/", 12), None);
}

#[test]
fn the_end_of_the_downloader_is_success_or_what_it_printed() {
    assert_eq!(outcome(true, b"out".to_vec(), b"err".to_vec()), Ok(()));
    assert_eq!(outcome(true, vec![0xff], vec![0xff]), Ok(()));
    assert_eq!(
        outcome(false, b"out".to_vec(), b"err".to_vec()),
        Err(CmdqError::ProcessExecuteOutputError { stdout: "out".to_string(), stderr: "err".to_string() })
    );
    assert_eq!(outcome(false, vec![0xff], b"err".to_vec()), Err(CmdqError::ProcessExecuteOutputNotUtf8Error));
    assert_eq!(outcome(false, b"out".to_vec(), vec![0xc0, 0x80]), Err(CmdqError::ProcessExecuteOutputNotUtf8Error));
}

#[test]
fn errors_of_a_download_are_said_in_words() {
    assert_eq!(
        CmdqError::FilenameTooLongError { filename: "abc".to_string() }.message(),
        "The filename you are trying to create is too long. filename = `abc`"
    );
    assert_eq!(
        CmdqError::ProcessExecuteOutputError { stdout: "out".to_string(), stderr: "err".to_string() }.message(),
        "Process execution completed with error: out err"
    );
    assert_eq!(
        CmdqError::ProcessExecuteOutputNotUtf8Error.message(),
        "Stdout or stderr cannot be processed as text"
    );
    assert!(!CmdqError::GetTargetDirFromCurrentDirError.message().is_empty());
}
