//! Decision logic of the timed executor: where the query tool may be
//! installed, which found candidate to run, how the command line is built
//! (including the library search path override for host-mounted binaries),
//! how an exit is classified, and when a polled child is declared over
//! budget and killed.
//!
//! The executor's outside work — spawning, waiting, killing, reading pipes —
//! happens beyond this crate; every choice it makes is a function here with
//! a contract.

use vstd::prelude::*;

use crate::text;
use crate::text::{dec_spec, starts_with_spec};

verus! {

/// Hard wall-clock budget for one invocation of the query tool, in seconds.
pub const NVIDIA_SMI_TIMEOUT_SECS: u64 = 5;

/// How often, in milliseconds, a directly spawned child is polled for
/// completion while the budget lasts.
pub const POLL_INTERVAL_MS: u64 = 100;

/// The exit code the system timeout wrapper reserves for a run it cut off.
pub const TIMEOUT_EXIT_CODE: i32 = 124;

/// Host-level evidence of accelerator hardware: the driver version file
/// mounted from the host. Its existence is the whole presence check.
pub fn nvidia_driver_version_path() -> (p: String)
    ensures
        p@ == "/host/proc/driver/nvidia/version"@,
{
    String::from_str("/host/proc/driver/nvidia/version")
}

/// The candidate install locations of the query tool, in the order they
/// are to be tried: container-injected paths first, the host-mounted
/// fallback last, because host-mounted binaries risk a shared-library
/// version mismatch against the container's runtime.
pub fn nvidia_smi_paths() -> (paths: Vec<String>)
    ensures
        paths.deep_view() =~= seq![
            "/usr/bin/nvidia-smi"@,
            "/usr/local/bin/nvidia-smi"@,
            "/host/usr/bin/nvidia-smi"@,
        ],
{
    let mut paths: Vec<String> = Vec::new();
    paths.push(String::from_str("/usr/bin/nvidia-smi"));
    paths.push(String::from_str("/usr/local/bin/nvidia-smi"));
    paths.push(String::from_str("/host/usr/bin/nvidia-smi"));
    paths
}

/// Picks the tool to run: the first candidate that exists on disk, by
/// index into `paths`, where `present[i]` says whether `paths[i]` exists;
/// `None` when none does.
pub fn find_nvidia_smi(paths: &Vec<String>, present: &Vec<bool>) -> (r: Option<usize>)
    requires
        paths.len() == present.len(),
    ensures
        match r {
            Some(i) => i < paths.len() && present[i as int] && (forall|k: int|
                0 <= k < i ==> !present[k]),
            None => forall|k: int| 0 <= k < present.len() ==> !present[k],
        },
{
    let mut i: usize = 0;
    while i < present.len()
        invariant
            0 <= i <= present.len(),
            forall|k: int| 0 <= k < i ==> !present[k],
        decreases present.len() - i,
    {
        if present[i] {
            return Some(i);
        }
        i = i + 1;
    }
    None
}

/// Whether running the binary at `path` needs the library search path
/// override: only host-mounted binaries do, since the container-injected
/// tool ships with its own libraries.
pub fn needs_library_override(path: &str) -> (b: bool)
    ensures
        b == starts_with_spec(path@, "/host/"@),
{
    text::starts_with(path, "/host/")
}

/// The library search path handed to a host-mounted binary, scoped to that
/// single invocation.
pub fn library_search_path() -> (p: String)
    ensures
        p@ == "/host/nvidia-libs:/usr/lib/x86_64-linux-gnu:/usr/lib"@,
{
    String::from_str("/host/nvidia-libs:/usr/lib/x86_64-linux-gnu:/usr/lib")
}

/// The duration argument handed to the system timeout wrapper: the budget
/// in seconds followed by `s`.
pub fn timeout_argument() -> (a: String)
    ensures
        a@ == dec_spec(NVIDIA_SMI_TIMEOUT_SECS as nat) + seq!['s'],
{
    let mut a = text::u64_to_dec(NVIDIA_SMI_TIMEOUT_SECS);
    a.append("s");
    proof {
        reveal_strlit("s");
        assert("s"@ =~= seq!['s']);
    }
    a
}

/// Words joined by a single separator, in order, nothing added at the ends.
pub open spec fn join_spec(parts: Seq<Seq<char>>, sep: char) -> Seq<char>
    decreases parts.len(),
{
    if parts.len() == 0 {
        Seq::empty()
    } else if parts.len() == 1 {
        parts[0]
    } else {
        join_spec(parts.drop_last(), sep) + seq![sep] + parts.last()
    }
}

/// Joins the argument words with single spaces.
pub fn join_args(args: &Vec<String>) -> (r: String)
    ensures
        r@ == join_spec(args.deep_view(), ' '),
{
    let mut r = String::new();
    let mut i: usize = 0;
    proof {
        assert(args.deep_view().subrange(0, 0) =~= Seq::<Seq<char>>::empty());
    }
    while i < args.len()
        invariant
            0 <= i <= args.len(),
            r@ == join_spec(args.deep_view().subrange(0, i as int), ' '),
        decreases args.len() - i,
    {
        if i > 0 {
            r.append(" ");
            proof {
                reveal_strlit(" ");
                assert(" "@ =~= seq![' ']);
            }
        }
        r.append(args[i].as_str());
        proof {
            let pre = args.deep_view().subrange(0, i as int);
            let cur = args.deep_view().subrange(0, i as int + 1);
            assert(cur.drop_last() =~= pre);
            assert(cur.last() == args.deep_view()[i as int]);
        }
        i = i + 1;
    }
    proof {
        assert(args.deep_view().subrange(0, args.len() as int) =~= args.deep_view());
    }
    r
}

/// The one shell line the timeout wrapper is given: the tool and its
/// arguments, preceded for a host-mounted tool by the library search path
/// override for just that invocation.
pub open spec fn shell_command_spec(path: Seq<char>, args: Seq<Seq<char>>) -> Seq<char> {
    let base = path + seq![' '] + join_spec(args, ' ');
    if starts_with_spec(path, "/host/"@) {
        "LD_LIBRARY_PATH="@ + "/host/nvidia-libs:/usr/lib/x86_64-linux-gnu:/usr/lib"@ + seq![' ']
            + base
    } else {
        base
    }
}

/// Builds the shell line that runs the tool under the timeout wrapper.
pub fn build_shell_command(path: &str, args: &Vec<String>) -> (cmd: String)
    ensures
        cmd@ == shell_command_spec(path@, args.deep_view()),
{
    let joined = join_args(args);
    let mut base = String::from_str(path);
    base.append(" ");
    base.append(joined.as_str());
    proof {
        reveal_strlit(" ");
        assert(" "@ =~= seq![' ']);
    }
    if needs_library_override(path) {
        let mut cmd = String::from_str("LD_LIBRARY_PATH=");
        let lib = library_search_path();
        cmd.append(lib.as_str());
        cmd.append(" ");
        cmd.append(base.as_str());
        cmd
    } else {
        base
    }
}

// ---------------------------------------------------------------------------
// Exit classification
// ---------------------------------------------------------------------------

/// How one run of the tool ended, as the caller must treat it.
#[derive(Debug)]
pub enum ExecOutcome {
    /// The run succeeded; the captured standard output.
    Success(String),
    /// The run exceeded its budget and was cut off.
    TimedOut,
    /// The run failed some other way: the exit code (`-1` when the child
    /// was killed without one) and the captured output and error text,
    /// kept for diagnostics.
    Failed { exit_code: i32, stdout: String, stderr: String },
}

/// Classifies an exit reported by the system timeout wrapper: success
/// passes the output through, the wrapper's reserved code means the budget
/// was exceeded, anything else is an ordinary failure carrying what the
/// child wrote.
pub fn interpret_wrapper_exit(
    success: bool,
    exit_code: Option<i32>,
    stdout: String,
    stderr: String,
) -> (r: ExecOutcome)
    ensures
        success ==> r == ExecOutcome::Success(stdout),
        !success && exit_code == Some(TIMEOUT_EXIT_CODE) ==> r == ExecOutcome::TimedOut,
        !success && exit_code != Some(TIMEOUT_EXIT_CODE) ==> r == (ExecOutcome::Failed {
            exit_code: match exit_code {
                Some(c) => c,
                None => -1i32,
            },
            stdout,
            stderr,
        }),
{
    if success {
        return ExecOutcome::Success(stdout);
    }
    match exit_code {
        Some(c) => {
            if c == TIMEOUT_EXIT_CODE {
                ExecOutcome::TimedOut
            } else {
                ExecOutcome::Failed { exit_code: c, stdout, stderr }
            }
        },
        None => ExecOutcome::Failed { exit_code: -1, stdout, stderr },
    }
}

/// Classifies an exit of a directly spawned child (the fallback when no
/// timeout wrapper exists): success passes the output through, any failing
/// exit carries what the child wrote. A child killed for exceeding the
/// budget never reaches this point; the poll loop reports that itself.
pub fn interpret_direct_exit(
    success: bool,
    exit_code: Option<i32>,
    stdout: String,
    stderr: String,
) -> (r: ExecOutcome)
    ensures
        success ==> r == ExecOutcome::Success(stdout),
        !success ==> r == (ExecOutcome::Failed {
            exit_code: match exit_code {
                Some(c) => c,
                None => -1i32,
            },
            stdout,
            stderr,
        }),
{
    if success {
        return ExecOutcome::Success(stdout);
    }
    match exit_code {
        Some(c) => ExecOutcome::Failed { exit_code: c, stdout, stderr },
        None => ExecOutcome::Failed { exit_code: -1, stdout, stderr },
    }
}

/// What the poll loop does next with a directly spawned child.
#[derive(Debug, Clone, Copy, PartialEq, Eq, Structural)]
pub enum PollAction {
    /// The child has exited: collect its output and classify the exit.
    Reap,
    /// The budget is spent and the child still runs: kill it, wait for it
    /// so no zombie remains, and report the run as over budget.
    KillAndReport,
    /// Budget remains: sleep one poll interval and look again.
    SleepAndRetry,
}

/// Decides one step of the poll loop from what it observed: whether the
/// child has exited and how many milliseconds have elapsed since the
/// spawn. The child is killed the moment the elapsed time passes the
/// budget, so the executor never returns with the child still running.
pub fn poll_decision(child_exited: bool, elapsed_ms: u64) -> (a: PollAction)
    ensures
        child_exited ==> a == PollAction::Reap,
        !child_exited && elapsed_ms > NVIDIA_SMI_TIMEOUT_SECS * 1000 ==> a
            == PollAction::KillAndReport,
        !child_exited && elapsed_ms <= NVIDIA_SMI_TIMEOUT_SECS * 1000 ==> a
            == PollAction::SleepAndRetry,
{
    if child_exited {
        PollAction::Reap
    } else if elapsed_ms > NVIDIA_SMI_TIMEOUT_SECS * 1000 {
        PollAction::KillAndReport
    } else {
        PollAction::SleepAndRetry
    }
}

/// The argument set of the device query: ten fields per line, CSV, no
/// header, no units.
pub fn device_query_args() -> (args: Vec<String>)
    ensures
        args.deep_view() =~= seq![
            "--query-gpu=index,name,uuid,memory.total,memory.used,memory.free,utilization.gpu,temperature.gpu,power.draw,power.limit"@,
            "--format=csv,noheader,nounits"@,
        ],
{
    let mut args: Vec<String> = Vec::new();
    args.push(
        String::from_str(
            "--query-gpu=index,name,uuid,memory.total,memory.used,memory.free,utilization.gpu,temperature.gpu,power.draw,power.limit",
        ),
    );
    args.push(String::from_str("--format=csv,noheader,nounits"));
    args
}

/// The argument set of the active-workload query: one device identifier
/// per active compute process, CSV, no header.
pub fn workload_query_args() -> (args: Vec<String>)
    ensures
        args.deep_view() =~= seq!["--query-compute-apps=gpu_uuid"@, "--format=csv,noheader"@],
{
    let mut args: Vec<String> = Vec::new();
    args.push(String::from_str("--query-compute-apps=gpu_uuid"));
    args.push(String::from_str("--format=csv,noheader"));
    args
}

/// Where the accelerator management library may live, in the order the
/// directories are to be tried at startup.
pub fn nvml_library_dirs() -> (dirs: Vec<String>)
    ensures
        dirs.deep_view() =~= seq![
            "/host/nvidia-libs"@,
            "/usr/lib/x86_64-linux-gnu"@,
            "/usr/lib"@,
        ],
{
    let mut dirs: Vec<String> = Vec::new();
    dirs.push(String::from_str("/host/nvidia-libs"));
    dirs.push(String::from_str("/usr/lib/x86_64-linux-gnu"));
    dirs.push(String::from_str("/usr/lib"));
    dirs
}

/// A library search path with `dir` put in front: `dir` alone when the
/// current path is empty, otherwise `dir`, a colon, and the current path.
pub fn prepend_library_path(dir: &str, current: &str) -> (p: String)
    ensures
        current@.len() == 0 ==> p@ == dir@,
        current@.len() > 0 ==> p@ == dir@ + seq![':'] + current@,
{
    if current.is_empty() {
        String::from_str(dir)
    } else {
        let mut p = String::from_str(dir);
        p.append(":");
        p.append(current);
        proof {
            reveal_strlit(":");
            assert(":"@ =~= seq![':']);
        }
        p
    }
}

} // verus!
