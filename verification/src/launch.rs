//! What the program is asked to do at launch: one of the headless checks, a
//! terminal replay, or the window.

use vstd::prelude::*;

verus! {

/// The ways the program can run.
#[derive(Clone, Copy, Debug, PartialEq, Eq, Structural)]
pub enum LaunchMode {
    HeadlessCheck,
    BootstrapCheck,
    PaneCheck,
    ShellCheck,
    TerminalIoCheck,
    LiveTerminalCheck,
    ReplayEvents,
    ReplayRecord,
    Window,
}

/// Some argument is `flag`.
pub open spec fn has_flag(args: Seq<String>, flag: Seq<char>) -> bool {
    exists|j: int| 0 <= j < args.len() && (#[trigger] args[j])@ == flag
}

/// The mode that the whole command line (the program name first) asks
/// for: the checks in a fixed order of precedence, then a replay of an
/// event trace, then a replay of a raw recording (both named after the
/// program name), else the window.
pub open spec fn launch_mode_of(args: Seq<String>) -> LaunchMode {
    if has_flag(args, "--headless-check"@) {
        LaunchMode::HeadlessCheck
    } else if has_flag(args, "--bootstrap-check"@) {
        LaunchMode::BootstrapCheck
    } else if has_flag(args, "--pane-check"@) {
        LaunchMode::PaneCheck
    } else if has_flag(args, "--shell-check"@) {
        LaunchMode::ShellCheck
    } else if has_flag(args, "--terminal-io-check"@) {
        LaunchMode::TerminalIoCheck
    } else if has_flag(args, "--live-terminal-check"@) {
        LaunchMode::LiveTerminalCheck
    } else if args.len() > 0 && has_flag(args.drop_first(), "--terminal-replay-events"@) {
        LaunchMode::ReplayEvents
    } else if args.len() > 0 && has_flag(args.drop_first(), "--terminal-replay-record"@) {
        LaunchMode::ReplayRecord
    } else {
        LaunchMode::Window
    }
}

fn any_flag(args: &[String], start: usize, flag: &str) -> (r: bool)
    requires
        start <= args@.len(),
    ensures
        r == has_flag(args@.subrange(start as int, args@.len() as int), flag@),
{
    let ghost rest = args@.subrange(start as int, args@.len() as int);
    let wanted = flag.to_owned();
    let mut i: usize = start;
    while i < args.len()
        invariant
            start <= i <= args@.len(),
            wanted@ == flag@,
            rest == args@.subrange(start as int, args@.len() as int),
            forall|j: int| start <= j < i ==> (#[trigger] args@[j])@ != flag@,
        decreases args.len() - i,
    {
        if args[i].eq(&wanted) {
            assert(rest[i - start] == args@[i as int]);
            return true;
        }
        i = i + 1;
    }
    proof {
        if has_flag(rest, flag@) {
            let j = choose|j: int| 0 <= j < rest.len() && (#[trigger] rest[j])@ == flag@;
            assert(rest[j] == args@[j + start]);
        }
    }
    false
}

/// The mode that the command line `args` (the program name first) asks
/// for.
pub fn launch_mode(args: &[String]) -> (r: LaunchMode)
    ensures
        r == launch_mode_of(args@),
{
    assert(args@.subrange(0, args@.len() as int) =~= args@);
    if any_flag(args, 0, "--headless-check") {
        return LaunchMode::HeadlessCheck;
    }
    if any_flag(args, 0, "--bootstrap-check") {
        return LaunchMode::BootstrapCheck;
    }
    if any_flag(args, 0, "--pane-check") {
        return LaunchMode::PaneCheck;
    }
    if any_flag(args, 0, "--shell-check") {
        return LaunchMode::ShellCheck;
    }
    if any_flag(args, 0, "--terminal-io-check") {
        return LaunchMode::TerminalIoCheck;
    }
    if any_flag(args, 0, "--live-terminal-check") {
        return LaunchMode::LiveTerminalCheck;
    }
    if args.len() == 0 {
        return LaunchMode::Window;
    }
    assert(args@.subrange(1, args@.len() as int) =~= args@.drop_first());
    if any_flag(args, 1, "--terminal-replay-events") {
        return LaunchMode::ReplayEvents;
    }
    if any_flag(args, 1, "--terminal-replay-record") {
        return LaunchMode::ReplayRecord;
    }
    LaunchMode::Window
}

} // verus!
