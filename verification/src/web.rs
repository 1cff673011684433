//! What the pages of the queue's service take from a form.

use vstd::prelude::*;

verus! {

/// A command as a form of the service's page gives it.
#[derive(Debug, Clone, PartialEq, Eq, PartialOrd, Ord)]
pub enum HtmlFormCommandRequest {
    /// A download: the directory, the URL, and a prefix for the file's name.
    Ytdlp { path: String, url: String, prefix: Option<String> },
    /// A command as typed: the directory and the command line.
    Raw { path: String, command: String },
}

} // verus!
