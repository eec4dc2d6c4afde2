//! Commands of the host that were run, and signals to processes.

use crate::backend::{self, Args, HostCommand, HostCommandView};
use crate::scan;
use crate::text::{self, decimal, text_lossy};
use vstd::prelude::*;

verus! {

/// What a command left behind when it ended.
#[derive(Debug)]
pub struct CommandOutput {
    pub success: bool,
    /// The exit status in words.
    pub status: String,
    pub stdout: Vec<u8>,
    pub stderr: Vec<u8>,
}

/// Whether a command did its work; if not, what it was, how it ended and what
/// it wrote to its error output.
pub fn run_checked(program: &str, out: &CommandOutput) -> (r: Result<(), String>)
    ensures
        match r {
            Ok(_) => out.success,
            Err(message) => !out.success && message@ == program@ + " failed ("@ + out.status@
                + "): "@ + text::utf8_lossy(out.stderr@),
        },
{
    if out.success {
        return Ok(());
    }
    let stderr = text_lossy(&out.stderr);
    Err(text::cat5(program, " failed (", out.status.as_str(), "): ", stderr.as_str()))
}

/// What a command wrote, without the white space around it; if it failed, what
/// it was and what it wrote to its error output.
pub fn output_checked(program: &str, out: &CommandOutput) -> (r: Result<String, String>)
    ensures
        match r {
            Ok(output) => out.success && output@ == scan::trimmed(text::utf8_lossy(out.stdout@)),
            Err(message) => !out.success && message@ == program@ + " failed: "@ + text::utf8_lossy(
                out.stderr@,
            ),
        },
{
    if out.success {
        let stdout = text_lossy(&out.stdout);
        return Ok(scan::trim(stdout.as_str()));
    }
    let stderr = text_lossy(&out.stderr);
    Err(text::cat3(program, " failed: ", stderr.as_str()))
}

/// `kill` with a signal for one process.
pub open spec fn kill_view(signal: Seq<char>, pid: u32) -> HostCommandView {
    HostCommandView { program: "kill"@, args: seq![signal, text::dec(pid as nat)] }
}

fn kill(signal: &str, pid: u32) -> (r: HostCommand)
    ensures
        r@ == kill_view(signal@, pid),
{
    let mut a = Args::new();
    a.add(signal);
    a.put(decimal(pid as u64));
    backend::host_command("kill", a)
}

/// The command that asks a process to end.
pub fn terminate_pid(pid: u32) -> (r: HostCommand)
    ensures
        r@ == kill_view("-TERM"@, pid),
{
    kill("-TERM", pid)
}

/// The command that succeeds if and only if a process exists.
pub fn process_alive(pid: u32) -> (r: HostCommand)
    ensures
        r@ == kill_view("-0"@, pid),
{
    kill("-0", pid)
}

// ------------------------------------------------------------------------ laws

/// A signal goes to one process, by its number.
pub proof fn a_signal_goes_to_one_process(signal: Seq<char>, pid: u32)
    ensures
        kill_view(signal, pid).program == "kill"@,
        kill_view(signal, pid).args.len() == 2,
        kill_view(signal, pid).args[0] == signal,
        kill_view(signal, pid).args[1] == text::dec(pid as nat),
{
}

} // verus!
