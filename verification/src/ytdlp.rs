//! Downloads listed in a file: each record names a URL, a title for the file
//! and a directory. This module decides how the downloader is called for a
//! record, where it runs, and what its outcome means.

use crate::paths::{
    extension, file_name, is_absolute, joined, parent, path_extension, path_file_name,
    path_is_absolute, path_joined, path_parent, path_with_file_name, with_file_name,
};
use crate::text::{
    chars_of, decimal, decimal_spec, extend, is_blank, is_blank_spec, matches_at, occurs_at,
    slice_of, string_of,
};
use crate::text_crypt::crypto::utf8_text;
use vstd::prelude::*;
use vstd::string::{StrSliceExecFns, StringSliceAdditionalSpecFns};
use vstd::utf8::{decode_utf8, valid_utf8};

verus! {

/// The program that downloads.
pub const PROGRAM: &'static str = "yt-dlp";

/// What follows the title in the name of a downloaded file: the
/// downloader's own pattern for the id and the extension.
pub const FILENAME_PATTERN: &'static str = " [%(id)s].%(ext)s";

/// The longest file name, in bytes.
pub const MAX_FILENAME_BYTES: usize = 255;

/// What ends the name of a file of errors.
pub const ERROR_FILE_SUFFIX: &'static str = "-err.csv";

/// One download: the URL, the title to name the file after, and the directory
/// to put it in.
#[derive(Debug, Clone, PartialEq, Eq)]
pub struct Record {
    pub url: String,
    pub title: String,
    pub dir: Option<String>,
}

/// Why a download could not be made.
#[derive(Debug, Clone, PartialEq, Eq)]
pub enum CmdqError {
    /// The name of the file to create is too long.
    FilenameTooLongError { filename: String },
    /// The downloader ended with an error.
    ProcessExecuteOutputError { stdout: String, stderr: String },
    /// What the downloader printed is not text.
    ProcessExecuteOutputNotUtf8Error,
    /// The directory to run in hangs on the current directory, which is not
    /// known.
    GetTargetDirFromCurrentDirError,
}

/// The message of an error.
pub open spec fn message_spec(error: CmdqError) -> Seq<char> {
    match error {
        CmdqError::FilenameTooLongError { filename } => {
            "The filename you are trying to create is too long. filename = `"@ + filename@ + "`"@
        },
        CmdqError::ProcessExecuteOutputError { stdout, stderr } => {
            "Process execution completed with error: "@ + stdout@ + " "@ + stderr@
        },
        CmdqError::ProcessExecuteOutputNotUtf8Error => "Stdout or stderr cannot be processed as text"@,
        CmdqError::GetTargetDirFromCurrentDirError => "Could not get the current directory"@,
    }
}

impl CmdqError {
    /// The message of the error.
    pub fn message(&self) -> (r: String)
        ensures
            r@ == message_spec(*self),
    {
        match self {
            CmdqError::FilenameTooLongError { filename } => {
                let mut text = "The filename you are trying to create is too long. filename = `".to_string();
                text.append(filename.as_str());
                text.append("`");
                text
            },
            CmdqError::ProcessExecuteOutputError { stdout, stderr } => {
                let mut text = "Process execution completed with error: ".to_string();
                text.append(stdout.as_str());
                text.append(" ");
                text.append(stderr.as_str());
                text
            },
            CmdqError::ProcessExecuteOutputNotUtf8Error => "Stdout or stderr cannot be processed as text".to_string(),
            CmdqError::GetTargetDirFromCurrentDirError => "Could not get the current directory".to_string(),
        }
    }
}

/// The character that stands for `c` in a file name.
pub open spec fn clean_char_spec(c: char) -> char {
    if c == '/' || c == '\\' || c == '+' {
        '_'
    } else if c == ':' || c == '?' {
        ' '
    } else {
        c
    }
}

#[verifier::when_used_as_spec(clean_char_spec)]
pub fn clean_char(c: char) -> (r: char)
    ensures
        r == clean_char_spec(c),
{
    if c == '/' || c == '\\' || c == '+' {
        '_'
    } else if c == ':' || c == '?' {
        ' '
    } else {
        c
    }
}

/// A title as it can stand in a file name: slashes and `+` become `_`, `:`
/// and `?` become a space.
pub open spec fn clean_title_spec(title: Seq<char>) -> Seq<char> {
    title.map_values(|c: char| clean_char_spec(c))
}

/// A title as it can stand in a file name.
pub fn clean_title(title: &str) -> (r: String)
    ensures
        r@ == clean_title_spec(title@),
{
    let chars = chars_of(title);
    let mut out: Vec<char> = Vec::new();
    let mut i: usize = 0;
    while i < chars.len()
        invariant
            i <= chars.len(),
            out.len() == i,
            forall|j: int| 0 <= j < i ==> out[j] == clean_char_spec(chars[j]),
        decreases chars.len() - i,
    {
        out.push(clean_char(chars[i]));
        i = i + 1;
    }
    assert(out@ =~= clean_title_spec(title@));
    string_of(&out)
}

/// Refuses a file name of more than [`MAX_FILENAME_BYTES`] bytes.
pub fn validate_filename(filename: &str) -> (r: Result<(), CmdqError>)
    ensures
        r is Ok <==> filename.spec_bytes().len() <= MAX_FILENAME_BYTES,
        r matches Err(e) ==> e matches CmdqError::FilenameTooLongError { filename: name } && name@
            == filename@,
{
    if filename.as_bytes().len() > MAX_FILENAME_BYTES {
        Err(CmdqError::FilenameTooLongError { filename: string_of(&chars_of(filename)) })
    } else {
        Ok(())
    }
}

/// The name that the downloader is told to give the file of a title.
pub open spec fn filename_spec(title: Seq<char>) -> Seq<char> {
    clean_title_spec(title) + FILENAME_PATTERN@
}

/// The arguments of the downloader for a record: the URL alone where the
/// title is blank, else the URL, `-o` and the file name.
pub open spec fn download_args_spec(url: Seq<char>, title: Seq<char>) -> Seq<Seq<char>> {
    if is_blank_spec(title) {
        seq![url]
    } else {
        seq![url, "-o"@, filename_spec(title)]
    }
}

/// The bytes of a text.
pub open spec fn bytes_of(text: Seq<char>) -> Seq<u8> {
    vstd::utf8::encode_utf8(text)
}

/// The arguments of the downloader for a record, or the error that its file
/// name is too long.
pub fn download_args(record: &Record) -> (r: Result<Vec<String>, CmdqError>)
    ensures
        r is Ok <==> is_blank_spec(record.title@) || bytes_of(filename_spec(record.title@)).len()
            <= MAX_FILENAME_BYTES,
        r matches Ok(args) ==> args.deep_view() == download_args_spec(
            record.url@,
            record.title@,
        ),
        r matches Err(e) ==> e matches CmdqError::FilenameTooLongError { filename: name } && name@
            == filename_spec(record.title@),
{
    let mut args: Vec<String> = Vec::new();
    args.push(record.url.clone());
    if is_blank(&chars_of(record.title.as_str())) {
        assert(args.deep_view() =~= seq![record.url@]);
        return Ok(args);
    }
    let mut filename = clean_title(record.title.as_str());
    filename.append(FILENAME_PATTERN);
    match validate_filename(filename.as_str()) {
        Err(e) => Err(e),
        Ok(()) => {
            args.push("-o".to_string());
            args.push(filename);
            assert(args.deep_view() =~= seq![record.url@, "-o"@, filename_spec(record.title@)]);
            Ok(args)
        },
    }
}

/// Whether the directory to run in hangs on the current directory: the file
/// of records has no absolute parent.
pub open spec fn needs_current_dir(filepath: Seq<char>) -> bool {
    match path_parent(filepath) {
        Some(dir) => !path_is_absolute(dir),
        None => true,
    }
}

/// The directory of the file of records, made absolute.
pub open spec fn input_dir_spec(filepath: Seq<char>, current_dir: Seq<char>) -> Seq<char> {
    match path_parent(filepath) {
        Some(dir) => if path_is_absolute(dir) {
            dir
        } else {
            path_joined(current_dir, dir)
        },
        None => current_dir,
    }
}

/// The directory that a download runs in: the record's own where it is
/// absolute, else the record's under the directory of the file of records.
pub open spec fn target_dir_spec(
    filepath: Seq<char>,
    dir: Option<Seq<char>>,
    current_dir: Seq<char>,
) -> Seq<char> {
    match dir {
        Some(dir) => if path_is_absolute(dir) {
            dir
        } else {
            path_joined(input_dir_spec(filepath, current_dir), dir)
        },
        None => input_dir_spec(filepath, current_dir),
    }
}

/// The directory that a download runs in. `current_dir` is the current
/// directory, if it could be had; it is asked for only where the file of
/// records has no absolute parent.
pub fn target_dir(filepath: &str, dir: &Option<String>, current_dir: &Option<String>) -> (r:
    Result<String, CmdqError>)
    ensures
        r is Ok <==> !needs_current_dir(filepath@) || current_dir is Some,
        r matches Ok(target) ==> target@ == target_dir_spec(
            filepath@,
            crate::paths::text_of(*dir),
            if needs_current_dir(filepath@) {
                current_dir->0@
            } else {
                Seq::empty()
            },
        ),
        r matches Err(e) ==> e == CmdqError::GetTargetDirFromCurrentDirError,
{
    let input_dir = match parent(filepath) {
        Some(dir) => {
            if is_absolute(dir.as_str()) {
                dir
            } else {
                match current_dir {
                    Some(current) => joined(current.as_str(), dir.as_str()),
                    None => {
                        return Err(CmdqError::GetTargetDirFromCurrentDirError);
                    },
                }
            }
        },
        None => match current_dir {
            Some(current) => current.clone(),
            None => {
                return Err(CmdqError::GetTargetDirFromCurrentDirError);
            },
        },
    };
    match dir {
        Some(dir) => {
            if is_absolute(dir.as_str()) {
                Ok(dir.clone())
            } else {
                Ok(joined(input_dir.as_str(), dir.as_str()))
            }
        },
        None => Ok(input_dir),
    }
}

/// A text without the copies of `suffix` that it ends in. An empty suffix
/// takes nothing away.
pub open spec fn without_suffix(text: Seq<char>, suffix: Seq<char>) -> Seq<char>
    decreases text.len(),
{
    if suffix.len() > 0 && occurs_at(text, suffix, text.len() - suffix.len()) {
        without_suffix(text.take(text.len() - suffix.len()), suffix)
    } else {
        text
    }
}

/// A text without the copies of `suffix` that it ends in.
pub fn trim_suffix(text: &Vec<char>, suffix: &Vec<char>) -> (r: Vec<char>)
    ensures
        r@ == without_suffix(text@, suffix@),
{
    let mut end: usize = text.len();
    if suffix.len() == 0 {
        let r = slice_of(text, 0, end);
        assert(r@ =~= text@);
        return r;
    }
    assert(text@.take(end as int) =~= text@);
    while end >= suffix.len() && matches_at(text, suffix, end - suffix.len())
        invariant
            end <= text.len(),
            suffix.len() > 0,
            without_suffix(text@, suffix@) == without_suffix(text@.take(end as int), suffix@),
        decreases end,
    {
        proof {
            let here = text@.take(end as int);
            assert(here.subrange(end - suffix.len(), end as int) =~= text@.subrange(
                end - suffix.len(),
                end as int,
            ));
            assert(here.take(here.len() - suffix.len()) =~= text@.take(end - suffix.len()));
        }
        end = end - suffix.len();
    }
    proof {
        let here = text@.take(end as int);
        if end >= suffix.len() {
            assert(here.subrange(end - suffix.len(), end as int) =~= text@.subrange(
                end - suffix.len(),
                end as int,
            ));
        }
    }
    slice_of(text, 0, end)
}

/// The name of the file of errors for a file of records: the name without the
/// extension it ends in, the time in seconds, and [`ERROR_FILE_SUFFIX`].
pub open spec fn error_filename_spec(name: Seq<char>, ext: Option<Seq<char>>, seconds: nat) -> Seq<
    char,
> {
    without_suffix(
        name,
        match ext {
            Some(ext) => ext,
            None => Seq::empty(),
        },
    ) + seq!['-'] + decimal_spec(seconds) + ERROR_FILE_SUFFIX@
}

/// The name of the file of errors for a file of records.
pub fn error_filename(name: &str, ext: &Option<String>, seconds: u64) -> (r: String)
    ensures
        r@ == error_filename_spec(name@, crate::paths::text_of(*ext), seconds as nat),
{
    let suffix = match ext {
        Some(ext) => chars_of(ext.as_str()),
        None => Vec::new(),
    };
    let mut out = trim_suffix(&chars_of(name), &suffix);
    out.push('-');
    extend(&mut out, &decimal(seconds));
    extend(&mut out, &chars_of(ERROR_FILE_SUFFIX));
    string_of(&out)
}

/// The path of the file of errors for a file of records: beside it, under the
/// name that [`error_filename`] gives. The path must end in a file name.
pub fn error_filepath(filepath: &str, seconds: u64) -> (r: String)
    requires
        path_file_name(filepath@) is Some,
    ensures
        r@ == path_with_file_name(
            filepath@,
            error_filename_spec(
                path_file_name(filepath@)->0,
                path_extension(filepath@),
                seconds as nat,
            ),
        ),
{
    let ext = extension(filepath);
    match file_name(filepath) {
        Some(name) => {
            let error_name = error_filename(name.as_str(), &ext, seconds);
            with_file_name(filepath, error_name.as_str())
        },
        None => string_of(&chars_of(filepath)),
    }
}

/// The path of the file of errors for a file of records, or nothing where
/// the path does not end in a file name.
pub fn try_error_filepath(filepath: &str, seconds: u64) -> (r: Option<String>)
    ensures
        r is Some <==> path_file_name(filepath@) is Some,
        r matches Some(path) ==> path@ == path_with_file_name(
            filepath@,
            error_filename_spec(
                path_file_name(filepath@)->0,
                path_extension(filepath@),
                seconds as nat,
            ),
        ),
{
    match file_name(filepath) {
        Some(_) => Some(error_filepath(filepath, seconds)),
        None => None,
    }
}

/// What the end of the downloader means: success, or the error with what it
/// printed, or the error that this is not text.
pub fn outcome(success: bool, stdout: Vec<u8>, stderr: Vec<u8>) -> (r: Result<(), CmdqError>)
    ensures
        r is Ok <==> success,
        !success && valid_utf8(stdout@) && valid_utf8(stderr@) ==> (r matches Err(
            CmdqError::ProcessExecuteOutputError { stdout: out, stderr: err },
        ) && out@ == decode_utf8(stdout@) && err@ == decode_utf8(stderr@)),
        !success && !(valid_utf8(stdout@) && valid_utf8(stderr@)) ==> r == Err::<(), CmdqError>(
            CmdqError::ProcessExecuteOutputNotUtf8Error,
        ),
{
    if success {
        return Ok(());
    }
    match utf8_text(stdout) {
        None => Err(CmdqError::ProcessExecuteOutputNotUtf8Error),
        Some(out) => match utf8_text(stderr) {
            None => Err(CmdqError::ProcessExecuteOutputNotUtf8Error),
            Some(err) => Err(CmdqError::ProcessExecuteOutputError { stdout: out, stderr: err }),
        },
    }
}

} // verus!
