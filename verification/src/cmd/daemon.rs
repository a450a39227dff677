//! The daemon that uploads in the background.

use vstd::prelude::*;
use vstd::string::*;

use crate::path;
use crate::path::{AbsDirPath, AbsFilePath, RelFilePath};
use crate::text;

verus! {

/// A command on the daemon.
#[derive(Debug, Clone, Copy, PartialEq, Eq, Structural)]
pub enum Command {
    Start,
    Stop,
}

/// How long the daemon lives without requests, in seconds.
pub const IDLE_TIMEOUT_SECS: u64 = 60;

/// How long the daemon may take to start, in milliseconds.
pub const STARTUP_TIMEOUT_MILLIS: u64 = 5000;

/// How long the daemon may take to stop, in milliseconds.
pub const STOP_TIMEOUT_MILLIS: u64 = 5000;

/// How a client reaches the daemon.
#[derive(Debug)]
pub struct DaemonContext {
    pub pid: u32,
    /// The address that the daemon listens on.
    pub url: String,
    pub log_file_path: AbsFilePath,
}

/// Another daemon is running.
#[derive(Debug, Clone, Copy, PartialEq, Eq, Structural)]
pub struct AlreadyRunning;

/// What is done while the daemon starts.
#[derive(Debug, Clone, Copy, PartialEq, Eq, Structural)]
pub enum StartupStep {
    /// The daemon can be reached.
    Ready,
    /// The daemon is asked again later.
    Wait,
    TimedOut,
}

/// What is done while the daemon stops.
#[derive(Debug, Clone, Copy, PartialEq, Eq, Structural)]
pub enum StopStep {
    Stopped,
    /// The process is looked for again later.
    Wait,
    TimedOut,
}

/// What a daemon does that had no requests for some time.
#[derive(Debug, Clone, Copy, PartialEq, Eq, Structural)]
pub enum IdleStep {
    /// It stops.
    Stop,
    /// It looks again after some time, in milliseconds.
    Sleep(u64),
}

/// The log of a daemon.
pub open spec fn log_file_of(cache_dir: Seq<char>, pid: u32) -> Seq<char> {
    path::join(cache_dir, "hurryd."@ + text::digits_of(pid as nat) + ".log"@)
}

/// The log of a daemon.
pub fn log_file(cache_dir: &AbsDirPath, pid: u32) -> (r: AbsFilePath)
    ensures
        r@ == log_file_of(cache_dir@, pid),
{
    let number = text::decimal_text(pid);
    let name = text::concat3("hurryd.", number.as_str(), ".log");
    proof {
        reveal_strlit("hurryd.");
        assert(name@[0] == 'h');
    }
    cache_dir.join_file(&RelFilePath::known(name.as_str()))
}

impl DaemonContext {
    /// How a daemon is reached that listens on an address.
    pub fn new(cache_dir: &AbsDirPath, pid: u32, address: &str) -> (r: DaemonContext)
        ensures
            r.pid == pid,
            r.url@ == address@,
            r.log_file_path@ == log_file_of(cache_dir@, pid),
    {
        DaemonContext {
            pid,
            url: text::copy(address),
            log_file_path: log_file(cache_dir, pid),
        }
    }

    /// Where the daemon is asked to stop.
    pub fn shutdown_endpoint(&self) -> (r: String)
        ensures
            r@ == shutdown_address(self.url@),
            r@ == "http://"@ + self.url@ + "/api/v0/shutdown"@,
    {
        text::concat3("http://", self.url.as_str(), "/api/v0/shutdown")
    }
}

/// Whether a daemon may be started.
pub open spec fn is_startable(running: bool, locked: bool) -> bool {
    !running && locked
}

/// What is shown of the daemon.
pub open spec fn shown_status(running: bool) -> Seq<char> {
    if running {
        "running"@
    } else {
        "stopped"@
    }
}

/// Whether a daemon may start: none is running, and its process file could be locked.
pub fn may_start(running: bool, locked: bool) -> (r: Result<(), AlreadyRunning>)
    ensures
        r is Ok <==> is_startable(running, locked),
        r is Ok <==> !running && locked,
{
    if running || !locked {
        Err(AlreadyRunning)
    } else {
        Ok(())
    }
}

/// Where a daemon is asked to stop.
pub open spec fn shutdown_address(daemon: Seq<char>) -> Seq<char> {
    "http://"@ + daemon + "/api/v0/shutdown"@
}

/// What is done while the daemon starts, some time after it was started.
pub open spec fn startup_step_of(elapsed_millis: u64, running: bool) -> StartupStep {
    if running {
        StartupStep::Ready
    } else if elapsed_millis >= STARTUP_TIMEOUT_MILLIS {
        StartupStep::TimedOut
    } else {
        StartupStep::Wait
    }
}

/// What is done while the daemon stops, some time after it was asked to.
pub open spec fn stop_step_of(elapsed_millis: u64, running: bool) -> StopStep {
    if elapsed_millis > STOP_TIMEOUT_MILLIS {
        StopStep::TimedOut
    } else if !running {
        StopStep::Stopped
    } else {
        StopStep::Wait
    }
}

/// What a daemon does that had no requests for some time.
pub open spec fn idle_step_of(idle_millis: u64) -> IdleStep {
    if idle_millis >= IDLE_TIMEOUT_SECS * 1000 {
        IdleStep::Stop
    } else {
        IdleStep::Sleep((IDLE_TIMEOUT_SECS * 1000 - idle_millis) as u64)
    }
}

/// What is done while the daemon starts, some time after it was started.
pub fn startup_step(elapsed_millis: u64, running: bool) -> (r: StartupStep)
    ensures
        r == startup_step_of(elapsed_millis, running),
        r == (if running {
            StartupStep::Ready
        } else if elapsed_millis >= STARTUP_TIMEOUT_MILLIS {
            StartupStep::TimedOut
        } else {
            StartupStep::Wait
        }),
{
    if running {
        StartupStep::Ready
    } else if elapsed_millis >= STARTUP_TIMEOUT_MILLIS {
        StartupStep::TimedOut
    } else {
        StartupStep::Wait
    }
}

/// What is done while the daemon stops, some time after it was asked to.
pub fn stop_step(elapsed_millis: u64, running: bool) -> (r: StopStep)
    ensures
        r == stop_step_of(elapsed_millis, running),
        r == (if elapsed_millis > STOP_TIMEOUT_MILLIS {
            StopStep::TimedOut
        } else if !running {
            StopStep::Stopped
        } else {
            StopStep::Wait
        }),
{
    if elapsed_millis > STOP_TIMEOUT_MILLIS {
        StopStep::TimedOut
    } else if !running {
        StopStep::Stopped
    } else {
        StopStep::Wait
    }
}

/// What a daemon does that had no requests for some time: it stops once it was idle for
/// as long as it may be, and else looks again when it could have been.
pub fn idle_step(idle_millis: u64) -> (r: IdleStep)
    ensures
        r == idle_step_of(idle_millis),
        r == (if idle_millis >= IDLE_TIMEOUT_SECS * 1000 {
            IdleStep::Stop
        } else {
            IdleStep::Sleep((IDLE_TIMEOUT_SECS * 1000 - idle_millis) as u64)
        }),
{
    if idle_millis >= IDLE_TIMEOUT_SECS * 1000 {
        IdleStep::Stop
    } else {
        IdleStep::Sleep(IDLE_TIMEOUT_SECS * 1000 - idle_millis)
    }
}

/// What is shown of the daemon.
pub fn status_text(running: bool) -> (r: &'static str)
    ensures
        r@ == shown_status(running),
        r@ == (if running {
            "running"@
        } else {
            "stopped"@
        }),
{
    if running {
        "running"
    } else {
        "stopped"
    }
}

/// The log of a daemon lies in the directory of the cache, and is named after its process.
/// Daemons with different processes have different logs.
pub proof fn law_daemons_have_their_own_logs(cache_dir: Seq<char>, a: u32, b: u32)
    ensures
        log_file_of(cache_dir, a) == path::join(
            cache_dir,
            "hurryd."@ + text::digits_of(a as nat) + ".log"@,
        ),
        log_file_of(cache_dir, a) == log_file_of(cache_dir, b) ==> a == b,
{
    reveal_strlit("hurryd.");
    reveal_strlit(".log");
    let x = text::digits_of(a as nat);
    let y = text::digits_of(b as nat);
    if log_file_of(cache_dir, a) == log_file_of(cache_dir, b) {
        let n = path::join(cache_dir, Seq::empty()).len() as int;
        let fa = log_file_of(cache_dir, a);
        let fb = log_file_of(cache_dir, b);
        assert(fa.len() == n + 7 + x.len() + 4);
        assert(fb.len() == n + 7 + y.len() + 4);
        assert(fa.subrange(n + 7, n + 7 + x.len() as int) =~= x);
        assert(fb.subrange(n + 7, n + 7 + y.len() as int) =~= y);
        text::law_digits_read_back(a as nat);
        text::law_digits_read_back(b as nat);
    }
}

/// A daemon that runs is ready, however long it took. One that does not run is waited for
/// for less than five seconds.
pub proof fn law_startup_is_waited_for(elapsed_millis: u64, running: bool)
    ensures
        startup_step_of(elapsed_millis, running) is Ready <==> running,
        startup_step_of(elapsed_millis, running) is Wait <==> !running && elapsed_millis < 5000,
        startup_step_of(elapsed_millis, running) is TimedOut <==> !running && elapsed_millis
            >= 5000,
{
}

/// A daemon that was asked to stop is waited for for five seconds at most, and only then
/// does it matter whether it runs.
pub proof fn law_stop_is_waited_for(elapsed_millis: u64, running: bool)
    ensures
        stop_step_of(elapsed_millis, running) is TimedOut <==> elapsed_millis > 5000,
        stop_step_of(elapsed_millis, running) is Stopped <==> elapsed_millis <= 5000 && !running,
        stop_step_of(elapsed_millis, running) is Wait <==> elapsed_millis <= 5000 && running,
{
}

/// A daemon stops once it was idle for a minute. Until then it sleeps for as long as the
/// minute lasts.
pub proof fn law_idle_daemons_stop(idle_millis: u64)
    ensures
        idle_step_of(idle_millis) is Stop <==> idle_millis >= 60000,
        idle_step_of(idle_millis) matches IdleStep::Sleep(more) ==> idle_millis + more == 60000,
{
}

/// No daemon starts beside one that runs, nor one whose process file another holds. Any other
/// starts.
pub proof fn law_one_daemon_runs(running: bool, locked: bool)
    ensures
        running ==> !is_startable(running, locked),
        !locked ==> !is_startable(running, locked),
        !running && locked ==> is_startable(running, locked),
{
}

/// A daemon is shown as running or as stopped, whichever it is.
pub proof fn law_shown_status_is_that_of_the_daemon(running: bool)
    ensures
        shown_status(running) == "running"@ <==> running,
        shown_status(running) == "stopped"@ <==> !running,
{
    reveal_strlit("running");
    reveal_strlit("stopped");
    assert("running"@[0] == 'r');
    assert("stopped"@[0] == 's');
}

/// Each daemon is asked at its own address to stop.
pub proof fn law_daemons_are_stopped_at_their_addresses(a: Seq<char>, b: Seq<char>)
    ensures
        shutdown_address(a) == "http://"@ + a + "/api/v0/shutdown"@,
        shutdown_address(a) == shutdown_address(b) ==> a == b,
{
    let front = "http://"@;
    let back = "/api/v0/shutdown"@;
    let n = front.len() as int;
    if shutdown_address(a) == shutdown_address(b) {
        assert(shutdown_address(a).len() == n + a.len() + back.len());
        assert(shutdown_address(b).len() == n + b.len() + back.len());
        assert(a =~= shutdown_address(a).subrange(n, n + a.len()));
        assert(b =~= shutdown_address(b).subrange(n, n + b.len()));
    }
}

} // verus!
