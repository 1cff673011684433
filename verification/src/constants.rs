//! Fixed settings of the queue and its server.

use vstd::prelude::*;

verus! {

pub const DEFAULT_PORT: &'static str = "8392";

pub const SERVER_DAEMON_DIR: &'static str = "/tmp/command-queue-daemon";

pub const SERVER_DAEMON_OUTFILE: &'static str = "/tmp/command-queue-daemon/cmdq.out";

pub const SERVER_DAEMON_ERRFILE: &'static str = "/tmp/command-queue-daemon/cmdq.err";

pub const SERVER_DAEMON_PIDFILE: &'static str = "/tmp/command-queue-daemon/cmdq.pid";

pub const DBFILE: &'static str = "/tmp/command-queue-daemon/cmdq.db";

/// How many commands run at the same time unless the server is told otherwise.
pub const DEFAULT_CONCURRENCY_LEVEL: usize = 4;

/// The seconds the scheduler sleeps after it found the queue empty or every
/// worker busy.
pub const POLL_INTERVAL_SECONDS: u64 = 10;

} // verus!
