//! What the security monitor decides from what it has sampled.
//!
//! Sampling itself, asking the host for debuggers, windows and files, is
//! the monitor's business; what follows from the answers is decided here.

use vstd::prelude::*;

verus! {

/// How often the files of the application may fail their check before the
/// application is shut down.
pub const INTEGRITY_LIMIT: u64 = 3;

/// How often the sources may differ from what was built before the
/// application is blocked.
pub const TAMPER_LIMIT: u64 = 5;

/// How long the application goes on without the license server, in
/// seconds.
pub const GRACE_PERIOD_SECS: i64 = 300;

/// Whether a debugger is attached, read off what the host has answered:
/// any answer but zero means that there is one.
pub fn is_debugger_present(answer: i32) -> (r: bool)
    ensures
        r == (answer != 0),
{
    answer != 0
}

/// The names of the windows that give a debugging tool away.
pub open spec fn debugging_tool_names() -> Seq<Seq<char>> {
    seq![
        "ollydbg"@,
        "windbg"@,
        "x64dbg"@,
        "ida"@,
        "ghidra"@,
        "cheat engine"@,
        "process hacker"@,
        "processhacker"@,
    ]
}

/// The names of the windows that give a debugging tool away.
pub fn debugging_tools() -> (r: Vec<&'static str>)
    ensures
        r@.len() == 8,
        forall|i: int| 0 <= i < 8 ==> (#[trigger] r@[i])@ == debugging_tool_names()[i],
{
    let mut tools: Vec<&'static str> = Vec::new();
    tools.push("ollydbg");
    tools.push("windbg");
    tools.push("x64dbg");
    tools.push("ida");
    tools.push("ghidra");
    tools.push("cheat engine");
    tools.push("process hacker");
    tools.push("processhacker");
    tools
}

/// Whether a debugging tool runs: whether a window was found for any of
/// the names that were looked for.
pub fn detect_debugging_tools(found: &Vec<bool>) -> (r: bool)
    ensures
        r == exists|i: int| 0 <= i < found@.len() && found@[i],
{
    let mut i: usize = 0;
    while i < found.len()
        invariant
            i <= found@.len(),
            forall|j: int| 0 <= j < i ==> !found@[j],
        decreases found@.len() - i,
    {
        if found[i] {
            return true;
        }
        i += 1;
    }
    false
}

/// Whether the registry is as it should be. Nothing in it is held against
/// the application yet.
pub fn check_registry_tampering() -> (r: bool)
    ensures
        r,
{
    true
}

/// Whether the files of the application are all there: whether each of
/// them could be read and digested.
pub fn verify_app_integrity(digests: &Vec<Option<String>>) -> (r: bool)
    ensures
        r == forall|i: int| 0 <= i < digests@.len() ==> digests@[i] is Some,
{
    let mut i: usize = 0;
    while i < digests.len()
        invariant
            i <= digests@.len(),
            forall|j: int| 0 <= j < i ==> digests@[j] is Some,
        decreases digests@.len() - i,
    {
        if digests[i].is_none() {
            return false;
        }
        i += 1;
    }
    true
}

/// A file differs from what was built: both its digest and the expected
/// one are known, and they are not the same.
pub open spec fn differs(actual: Option<String>, expected: Option<String>) -> bool {
    actual is Some && expected is Some && actual->0@ != expected->0@
}

/// Whether the file was changed since the application was built. A file
/// that cannot be digested, or of which no digest is expected, passes.
pub fn is_tampered(actual: &Option<String>, expected: &Option<String>) -> (r: bool)
    ensures
        r == differs(*actual, *expected),
{
    match (actual, expected) {
        (Some(a), Some(e)) => !crate::text::text_eq(a.as_str(), e.as_str()),
        _ => false,
    }
}

/// What the monitor does about a finding.
#[derive(Debug, Clone, Copy, PartialEq, Eq, Structural)]
pub enum MonitorAction {
    /// Tell the user.
    Warn,
    /// Tell the user that the application is blocked.
    Block,
    /// Shut the application down.
    Exit,
}

/// What follows when the files fail their check for the `count`-th time:
/// a warning, and the end of the application at the third.
pub fn after_integrity_failure(count: u64) -> (r: MonitorAction)
    ensures
        r == (if count >= 3 {
            MonitorAction::Exit
        } else {
            MonitorAction::Warn
        }),
{
    if count >= INTEGRITY_LIMIT {
        MonitorAction::Exit
    } else {
        MonitorAction::Warn
    }
}

/// What follows when the sources are found changed for the `count`-th
/// time: a warning, and a block at the fifth.
pub fn after_tampering(count: u64) -> (r: MonitorAction)
    ensures
        r == (if count >= 5 {
            MonitorAction::Block
        } else {
            MonitorAction::Warn
        }),
{
    if count >= TAMPER_LIMIT {
        MonitorAction::Block
    } else {
        MonitorAction::Warn
    }
}

/// The whole seconds between two instants, each given in seconds and
/// nanoseconds, cut towards zero.
pub open spec fn whole_seconds_between(start: (i64, u32), end: (i64, u32)) -> int {
    let nanos = (end.0 - start.0) * 1_000_000_000 + (end.1 - start.1);
    if nanos >= 0 {
        nanos / 1_000_000_000
    } else {
        -((-nanos) / 1_000_000_000)
    }
}

/// Whether the grace period that began at `start` is over at `now`: more
/// than 300 whole seconds lie between them.
pub fn grace_period_expired(start_secs: i64, start_nanos: u32, now_secs: i64, now_nanos: u32) -> (r:
    bool)
    ensures
        r == (whole_seconds_between((start_secs, start_nanos), (now_secs, now_nanos)) > 300),
{
    let nanos: i128 = (now_secs as i128 - start_secs as i128) * 1_000_000_000 + (now_nanos as i128
        - start_nanos as i128);
    nanos >= 301_000_000_000
}

} // verus!
