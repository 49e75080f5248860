//! What a terminal says about its processes.
//!
//! Every fact comes from the kernel and is best-effort: a failed query is
//! nothing, never a guess. What was read is handed in; here it is put together.

use crate::clock::{exact, millis_at, unix_now_ms};
use crate::proc_query::{argv0_name, display_name};
use vstd::prelude::*;

verus! {

/// One process: its pid and when it started, which tells it from another one
/// that was given the same pid.
#[derive(Debug, Clone, Copy, PartialEq, Eq, Structural)]
pub struct ProcessIdentity {
    /// The pid.
    pub pid: i32,
    /// When it started, in Unix milliseconds.
    pub start_ms: Option<u64>,
}

/// The process group in a terminal's foreground.
#[derive(Debug, PartialEq, Eq)]
pub struct ForegroundProcess {
    /// The group.
    pub pgid: i32,
    /// When its leader started, in Unix milliseconds.
    pub start_ms: Option<u64>,
    /// Its leader's display name.
    pub name: Option<String>,
}

/// How a process ended.
#[derive(Debug, Clone, Copy, PartialEq, Eq, Structural)]
pub enum ExitOutcome {
    /// It exited with a status.
    Code(i32),
    /// A signal ended it.
    Signaled(i32),
    /// Not known.
    Unknown,
}

/// A process's end, as it was seen.
#[derive(Debug, Clone, Copy, PartialEq, Eq, Structural)]
pub struct ProcessExit {
    /// How it ended.
    pub outcome: ExitOutcome,
    /// When that was seen, in Unix milliseconds.
    pub observed_ms: Option<u64>,
}

/// Facts about a terminal's child, captured once, when its pid certainly still
/// named it.
#[derive(Debug, PartialEq, Eq)]
pub struct ChildFacts {
    /// When it started, in Unix milliseconds.
    pub start_ms: Option<u64>,
    /// Its working directory then; empty where it is not known.
    pub cwd: String,
}

/// What a terminal knows about its child.
#[derive(Debug, PartialEq, Eq)]
pub struct ChildProcess {
    /// The child's pid, where there is a child.
    pub pid: Option<u32>,
    /// When the child started.
    pub start_ms: Option<u64>,
    /// How the child ended, once it has.
    pub exit: Option<ProcessExit>,
}

/// One reading of the terminal's foreground. The group can change hands while
/// the rest is read, so it is asked for twice.
#[derive(Debug, PartialEq, Eq)]
pub struct ForegroundReading {
    /// The group, asked first.
    pub pgid: Option<i32>,
    /// The arguments of the group's leader.
    pub argv: Option<Vec<String>>,
    /// When the leader started, in Unix milliseconds.
    pub leader_start_ms: Option<u64>,
    /// The group, asked again.
    pub pgid_again: Option<i32>,
}

/// A terminal's processes. What is known of its prompt comes from the marks in
/// its output, and is carried along.
#[derive(Debug, PartialEq, Eq)]
pub struct TerminalProcessState<P> {
    /// The child.
    pub child: Option<ProcessIdentity>,
    /// The foreground group.
    pub foreground: Option<ForegroundProcess>,
    /// The child's working directory.
    pub cwd: Option<String>,
    /// The prompt.
    pub prompt: P,
    /// How the child ended.
    pub exit: Option<ProcessExit>,
}

/// A process id as the kernel counts them, where the number is one.
pub open spec fn kernel_pid(pid: Option<u32>) -> Option<i32> {
    match pid {
        Some(pid) if pid <= i32::MAX => Some(pid as i32),
        _ => None,
    }
}

/// The display name of a process, from its arguments.
pub open spec fn name_in(argv: Option<Vec<String>>) -> Option<Seq<char>> {
    match argv {
        Some(argv) if argv@.len() > 0 && display_name(argv@[0]@).len() > 0 => Some(
            display_name(argv@[0]@),
        ),
        _ => None,
    }
}

/// A text, or its absence, as contracts speak of it.
pub open spec fn text_view(text: Option<String>) -> Option<Seq<char>> {
    match text {
        Some(text) => Some(text@),
        None => None,
    }
}

impl ChildFacts {
    /// The facts, from what was read. Without a child nothing is known.
    pub fn capture(pid: Option<u32>, start_ms: Option<u64>, cwd: Option<String>) -> (facts: Self)
        ensures
            facts.start_ms == (if kernel_pid(pid) is Some {
                start_ms
            } else {
                None
            }),
            facts.cwd@ == (match cwd {
                Some(cwd) if pid is Some => cwd@,
                _ => Seq::empty(),
            }),
    {
        match pid {
            Some(pid) => ChildFacts {
                start_ms: if pid <= i32::MAX as u32 {
                    start_ms
                } else {
                    None
                },
                cwd: match cwd {
                    Some(cwd) => cwd,
                    None => String::new(),
                },
            },
            None => ChildFacts { start_ms: None, cwd: String::new() },
        }
    }
}

impl ChildProcess {
    /// The child's pid as the kernel counts them.
    pub fn child_pid(&self) -> (pid: Option<i32>)
        ensures
            pid == kernel_pid(self.pid),
    {
        match self.pid {
            Some(pid) => if pid <= i32::MAX as u32 {
                Some(pid as i32)
            } else {
                None
            },
            None => None,
        }
    }

    /// The child, by what was captured when it was spawned.
    pub fn child_identity(&self) -> (child: Option<ProcessIdentity>)
        ensures
            child == (match kernel_pid(self.pid) {
                Some(pid) => Some(ProcessIdentity { pid, start_ms: self.start_ms }),
                None => None,
            }),
    {
        match self.child_pid() {
            Some(pid) => Some(ProcessIdentity { pid, start_ms: self.start_ms }),
            None => None,
        }
    }

    /// When the leader of group `pgid` started. Where the leader is the child
    /// itself, what was captured when it was spawned stands, so that the two
    /// always agree.
    pub open spec fn leader_start(&self, pgid: i32, reading: Option<u64>) -> Option<u64> {
        if kernel_pid(self.pid) == Some(pgid) {
            self.start_ms
        } else {
            reading
        }
    }

    fn group_leader_start_ms(&self, pgid: i32, reading: Option<u64>) -> (start_ms: Option<u64>)
        ensures
            start_ms == self.leader_start(pgid, reading),
    {
        match self.child_pid() {
            Some(pid) => if pid == pgid {
                self.start_ms
            } else {
                reading
            },
            None => reading,
        }
    }

    /// The foreground group, from one reading. A reading that straddled two
    /// groups would pair one group's id with another's name, so a group that
    /// changed hands is no answer.
    pub fn foreground_process(&self, reading: &ForegroundReading) -> (foreground: Option<
        ForegroundProcess,
    >)
        ensures
            match reading.pgid {
                Some(pgid) if reading.pgid_again == Some(pgid) => {
                    &&& foreground matches Some(group)
                    &&& group.pgid == pgid
                    &&& group.start_ms == self.leader_start(pgid, reading.leader_start_ms)
                    &&& text_view(group.name) == name_in(reading.argv)
                },
                _ => foreground is None,
            },
    {
        let pgid: i32 = match reading.pgid {
            Some(pgid) => pgid,
            None => {
                return None;
            },
        };
        match reading.pgid_again {
            Some(again) => if again != pgid {
                return None;
            },
            None => {
                return None;
            },
        }
        let name = match &reading.argv {
            Some(argv) => argv0_name(argv.as_slice()),
            None => None,
        };
        Some(
            ForegroundProcess {
                pgid,
                start_ms: self.group_leader_start_ms(pgid, reading.leader_start_ms),
                name,
            },
        )
    }

    /// The terminal's processes. What only a live child has is nothing once the
    /// child has ended; the child itself is still named. A terminal without a
    /// tty has an empty `reading`.
    pub fn process_facet<P>(
        &self,
        reading: &ForegroundReading,
        cwd: Option<String>,
        prompt: P,
    ) -> (state: TerminalProcessState<P>)
        ensures
            state.prompt == prompt,
            state.child == (match kernel_pid(self.pid) {
                Some(pid) => Some(ProcessIdentity { pid, start_ms: self.start_ms }),
                None => None,
            }),
            state.exit == self.exit,
            self.exit is Some ==> state.foreground is None && state.cwd is None,
            self.exit is None ==> state.cwd == (if kernel_pid(self.pid) is Some {
                cwd
            } else {
                None
            }),
            self.exit is None ==> match reading.pgid {
                Some(pgid) if reading.pgid_again == Some(pgid) => {
                    &&& state.foreground matches Some(group)
                    &&& group.pgid == pgid
                    &&& group.start_ms == self.leader_start(pgid, reading.leader_start_ms)
                    &&& text_view(group.name) == name_in(reading.argv)
                },
                _ => state.foreground is None,
            },
    {
        let live = self.exit.is_none();
        let foreground = if live {
            self.foreground_process(reading)
        } else {
            None
        };
        let cwd = if live && self.child_pid().is_some() {
            cwd
        } else {
            None
        };
        TerminalProcessState { child: self.child_identity(), foreground, cwd, prompt, exit: self.exit }
    }

    /// The child ended, as was seen at a given time.
    pub fn record_exit_at(&mut self, outcome: ExitOutcome, observed_ms: Option<u64>)
        ensures
            *final(self) == (ChildProcess {
                exit: Some(ProcessExit { outcome, observed_ms }),
                ..*old(self)
            }),
    {
        self.exit = Some(ProcessExit { outcome, observed_ms });
    }

    /// The child ended, as is seen now.
    pub fn record_exit(&mut self, outcome: ExitOutcome)
        ensures
            exists|at: std::time::SystemTime|
                *final(self) == (ChildProcess {
                    exit: Some(
                        ProcessExit { outcome, observed_ms: exact(#[trigger] millis_at(at)) },
                    ),
                    ..*old(self)
                }),
    {
        self.record_exit_at(outcome, unix_now_ms());
    }
}

} // verus!
