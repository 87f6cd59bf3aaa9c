//! What is decided around the system calls: how the answer of `fork` is
//! read, the steps by which a command is detached from the shell, and the
//! form in which arguments are handed to a foreign command.
//!
//! Detaching works where a process can fork. On other platforms a command
//! that was sent to the background runs in the shell's own process and the
//! shell waits for it; nothing here hides that.

use vstd::prelude::*;
use vstd::string::StrSliceExecFns;
use crate::errors::Error;

verus! {

/// The side of a fork on which a process finds itself.
#[derive(Clone, Copy, Debug, PartialEq, Eq)]
pub enum Fork {
    /// The process that forked; the number is the child's.
    Parent(i32),
    /// The new process.
    Child,
}

/// What the value that `fork` returned means; nothing if the call failed.
pub open spec fn fork_side(ret: i32) -> Option<Fork> {
    if ret < 0 {
        None
    } else if ret > 0 {
        Some(Fork::Parent(ret))
    } else {
        Some(Fork::Child)
    }
}

/// Reads the value that `fork` returned; nothing if the call failed.
pub fn fork(ret: i32) -> (side: Option<Fork>)
    ensures
        side == fork_side(ret),
{
    if ret < 0 {
        None
    } else if ret > 0 {
        Some(Fork::Parent(ret))
    } else {
        Some(Fork::Child)
    }
}

/// How far a process has come in detaching a command.
#[derive(Clone, Copy, Debug, PartialEq, Eq)]
pub enum DaemonStage {
    /// The shell has been asked to fork.
    Spawning,
    /// The shell waits for its child.
    Waiting,
    /// The child has been asked to lead a session of its own.
    Detaching,
    /// The session leader has been asked to fork.
    Respawning,
    /// The command runs.
    Running,
    /// Nothing is left to do in this process.
    Finished,
}

/// What the system answered.
#[derive(Clone, Copy, Debug, PartialEq, Eq)]
pub enum DaemonEvent {
    /// `fork` returned this value.
    Forked(i32),
    /// The child that was waited for is gone.
    Waited,
    /// `setsid` returned this value.
    SessionSet(i32),
    /// The command returned; the flag says whether it succeeded.
    Ran(bool),
}

/// What a process does next.
#[derive(Clone, Copy, Debug, PartialEq, Eq)]
pub enum DaemonAction {
    /// Call `fork`.
    Fork,
    /// Wait for the child with this number.
    Wait(i32),
    /// Call `setsid`.
    Setsid,
    /// Run the command.
    Run,
    /// Show the last system error and leave the process with this status.
    Abort(i32),
    /// Leave the process with this status.
    Exit(i32),
    /// Return to the shell: the command is detached.
    Return,
    /// Return to the caller with the last system error.
    Fail,
}

/// What a process at `stage` does when the system answers with `event`, and
/// the stage after that. An answer that does not fit the stage ends the
/// work with a failure.
pub open spec fn reply(stage: DaemonStage, event: DaemonEvent) -> (DaemonStage, DaemonAction) {
    match (stage, event) {
        (DaemonStage::Spawning, DaemonEvent::Forked(ret)) => match fork_side(ret) {
            None => (DaemonStage::Finished, DaemonAction::Fail),
            Some(Fork::Parent(pid)) => (DaemonStage::Waiting, DaemonAction::Wait(pid)),
            Some(Fork::Child) => (DaemonStage::Detaching, DaemonAction::Setsid),
        },
        (DaemonStage::Waiting, DaemonEvent::Waited) => (
            DaemonStage::Finished,
            DaemonAction::Return,
        ),
        (DaemonStage::Detaching, DaemonEvent::SessionSet(ret)) => if ret < 0 {
            (DaemonStage::Finished, DaemonAction::Abort(1))
        } else {
            (DaemonStage::Respawning, DaemonAction::Fork)
        },
        (DaemonStage::Respawning, DaemonEvent::Forked(ret)) => match fork_side(ret) {
            None => (DaemonStage::Finished, DaemonAction::Fail),
            Some(Fork::Parent(_)) => (DaemonStage::Finished, DaemonAction::Exit(0)),
            Some(Fork::Child) => (DaemonStage::Running, DaemonAction::Run),
        },
        (DaemonStage::Running, DaemonEvent::Ran(ok)) => (
            DaemonStage::Finished,
            DaemonAction::Exit(
                if ok {
                    0
                } else {
                    1
                },
            ),
        ),
        _ => (DaemonStage::Finished, DaemonAction::Fail),
    }
}

/// The command runs in one kind of process only: the child of a session
/// leader that is itself the child of the shell. The shell's own process and
/// the session leader never run it.
pub proof fn lemma_run_is_detached(stage: DaemonStage, event: DaemonEvent)
    requires
        reply(stage, event).1 == DaemonAction::Run,
    ensures
        stage == DaemonStage::Respawning,
        event == DaemonEvent::Forked(0),
        reply(stage, event).0 == DaemonStage::Running,
{
}

/// A process asks for the second fork only after it has become the leader of
/// a session, and for a session only as the child of the first fork.
pub proof fn lemma_detach_order(stage: DaemonStage, event: DaemonEvent)
    ensures
        reply(stage, event).0 == DaemonStage::Respawning ==> stage == DaemonStage::Detaching && (
        event matches DaemonEvent::SessionSet(ret) && ret >= 0),
        reply(stage, event).0 == DaemonStage::Detaching ==> stage == DaemonStage::Spawning && event
            == DaemonEvent::Forked(0),
        reply(stage, event).1 == DaemonAction::Return ==> stage == DaemonStage::Waiting,
{
}

/// The steps by which a command is detached from the shell.
#[derive(Clone, Copy, Debug, PartialEq, Eq)]
pub struct Daemon {
    /// How far this process has come.
    pub stage: DaemonStage,
}

impl Daemon {
    /// Starts to detach a command. The first thing to do is to fork.
    pub fn begin() -> (r: (Daemon, DaemonAction))
        ensures
            r.0.stage == DaemonStage::Spawning,
            r.1 == DaemonAction::Fork,
    {
        (Daemon { stage: DaemonStage::Spawning }, DaemonAction::Fork)
    }

    /// What to do next, given what the system answered.
    pub fn next(&mut self, event: DaemonEvent) -> (action: DaemonAction)
        ensures
            (final(self).stage, action) == reply(old(self).stage, event),
    {
        let (stage, action) = match (self.stage, event) {
            (DaemonStage::Spawning, DaemonEvent::Forked(ret)) => match fork(ret) {
                None => (DaemonStage::Finished, DaemonAction::Fail),
                Some(Fork::Parent(pid)) => (DaemonStage::Waiting, DaemonAction::Wait(pid)),
                Some(Fork::Child) => (DaemonStage::Detaching, DaemonAction::Setsid),
            },
            (DaemonStage::Waiting, DaemonEvent::Waited) => (
                DaemonStage::Finished,
                DaemonAction::Return,
            ),
            (DaemonStage::Detaching, DaemonEvent::SessionSet(ret)) => if ret < 0 {
                (DaemonStage::Finished, DaemonAction::Abort(1))
            } else {
                (DaemonStage::Respawning, DaemonAction::Fork)
            },
            (DaemonStage::Respawning, DaemonEvent::Forked(ret)) => match fork(ret) {
                None => (DaemonStage::Finished, DaemonAction::Fail),
                Some(Fork::Parent(_)) => (DaemonStage::Finished, DaemonAction::Exit(0)),
                Some(Fork::Child) => (DaemonStage::Running, DaemonAction::Run),
            },
            (DaemonStage::Running, DaemonEvent::Ran(ok)) => (
                DaemonStage::Finished,
                DaemonAction::Exit(
                    if ok {
                        0
                    } else {
                        1
                    },
                ),
            ),
            _ => (DaemonStage::Finished, DaemonAction::Fail),
        };
        self.stage = stage;
        action
    }
}

/// The arguments as a foreign command takes them: each in UTF-8 with a zero
/// byte behind it.
pub open spec fn c_strings(args: Seq<Seq<u8>>) -> Seq<Seq<u8>> {
    Seq::new(args.len(), |i: int| args[i].push(0u8))
}

/// Whether an argument can be handed to a foreign command: it holds no zero
/// byte.
pub open spec fn is_c_safe(arg: Seq<u8>) -> bool {
    forall|i: int| 0 <= i < arg.len() ==> arg[i] != 0
}

/// The bytes of each of `args`, in order.
pub open spec fn byte_views(args: Seq<String>) -> Seq<Seq<u8>> {
    Seq::new(args.len(), |i: int| vstd::utf8::encode_utf8(args[i]@))
}

fn c_safe(bytes: &Vec<u8>) -> (r: bool)
    ensures
        r == is_c_safe(bytes@),
{
    let mut i: usize = 0;
    while i < bytes.len()
        invariant
            i <= bytes.len(),
            forall|j: int| 0 <= j < i ==> bytes[j] != 0,
        decreases bytes.len() - i,
    {
        if bytes[i] == 0 {
            return false;
        }
        i += 1;
    }
    true
}

/// Prepares the arguments for a foreign command: each in UTF-8 with a zero
/// byte behind it. An argument that holds a zero byte cannot be handed over
/// and is an error.
pub fn marshal(args: &Vec<String>) -> (r: Result<Vec<Vec<u8>>, Error>)
    ensures
        match r {
            Ok(out) => {
                &&& forall|i: int| 0 <= i < args.len() ==> is_c_safe(#[trigger] byte_views(args@)[i])
                &&& out@.map_values(|v: Vec<u8>| v@) == c_strings(byte_views(args@))
            },
            Err(_) => exists|i: int|
                0 <= i < args.len() && !is_c_safe(#[trigger] byte_views(args@)[i]),
        },
{
    let mut out: Vec<Vec<u8>> = Vec::new();
    let mut i: usize = 0;
    while i < args.len()
        invariant
            i <= args.len(),
            out.len() == i,
            forall|j: int| 0 <= j < i ==> is_c_safe(#[trigger] byte_views(args@)[j]),
            forall|j: int| 0 <= j < i ==> (#[trigger] out[j])@ == byte_views(args@)[j].push(0u8),
        decreases args.len() - i,
    {
        let mut bytes = args[i].as_str().as_bytes_vec();
        assert(bytes@ == byte_views(args@)[i as int]);
        if !c_safe(&bytes) {
            return Err(Error::other("an argument holds a zero byte"));
        }
        bytes.push(0u8);
        out.push(bytes);
        i += 1;
    }
    assert(out@.map_values(|v: Vec<u8>| v@) =~= c_strings(byte_views(args@)));
    Ok(out)
}

} // verus!
