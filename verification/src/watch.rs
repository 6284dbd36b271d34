//! Start-up: the settings of the kernel subscription, what the process does
//! once the mounts are known, the marking of the mounts, and the
//! diagnostics it prints.
//!
//! Marking a mount takes two steps that can fail: its mount path is opened
//! as a directory, and the mark is added through that directory. Both are
//! made by the program around this crate; which step comes next, and which
//! mount is to be reported as not marked, is decided here. A mount that
//! cannot be marked never keeps the others from being tried.

use crate::codec::{EventMask, FAN_ACCESS, FAN_EVENT_ON_CHILD, FAN_OPEN};
use vstd::prelude::*;

verus! {

/// The notification class of the subscription: events are reported after
/// the fact, without asking for permission.
pub const FAN_CLASS_NOTIF: u32 = 0x0000_0000;

/// The access mode of the descriptors that events carry: read-only.
pub const EVENT_FILES_READ_ONLY: u32 = 0x0000_0000;

/// A mark is added, not removed.
pub const FAN_MARK_ADD: u32 = 0x0000_0001;

/// A mark covers the whole mount that holds the marked path.
pub const FAN_MARK_MOUNT: u32 = 0x0000_0010;

/// The events that a mark asks for: opens and reads, also of the children
/// of the marked directory.
pub open spec fn watched_bits() -> u64 {
    FAN_OPEN | FAN_ACCESS | FAN_EVENT_ON_CHILD
}

/// How a mark is placed: it is added, and it covers the mount.
pub open spec fn mark_bits() -> u32 {
    FAN_MARK_ADD | FAN_MARK_MOUNT
}

/// The mask that every mount is marked with.
pub fn watch_mask() -> (mask: EventMask)
    ensures
        mask.bits == watched_bits(),
{
    EventMask { bits: FAN_OPEN | FAN_ACCESS | FAN_EVENT_ON_CHILD }
}

/// The flags that every mount is marked with.
pub fn mark_flags() -> (flags: u32)
    ensures
        flags == mark_bits(),
{
    FAN_MARK_ADD | FAN_MARK_MOUNT
}

/// Where the marking of `count` mounts stands. Mounts are known by their
/// index in the list of targets.
#[derive(Clone, Copy, Debug, PartialEq, Eq, Structural)]
pub enum MarkState {
    /// About to open the mount path of mount `index` as a directory.
    Opening { index: usize, count: usize },
    /// About to add the mark for mount `index`, whose directory is open.
    Adding { index: usize, count: usize },
    /// Every mount was tried.
    Finished,
}

/// What is done next for the marking.
#[derive(Clone, Copy, Debug, PartialEq, Eq, Structural)]
pub enum MarkStep {
    /// Open the mount path of the mount at this index as a directory.
    OpenDir(usize),
    /// Add the mark for the mount at this index.
    AddMark(usize),
    /// Nothing: the marking is over.
    Finish,
}

/// What came of the two steps of marking one mount.
pub struct MountOutcome {
    /// Whether the directory could be opened.
    pub opened: bool,
    /// Whether the mark could be added. It is not even tried if the
    /// directory could not be opened.
    pub added: bool,
}

impl MarkState {
    /// A state is well formed if its mount exists.
    pub open spec fn wf(self) -> bool {
        match self {
            MarkState::Opening { index, count } => index < count,
            MarkState::Adding { index, count } => index < count,
            MarkState::Finished => true,
        }
    }

    /// The state in which mount `index` of `count` is the next to be
    /// tried: the end of the marking if there is no such mount.
    pub open spec fn at(index: int, count: int) -> MarkState {
        if 0 <= index < count {
            MarkState::Opening { index: index as usize, count: count as usize }
        } else {
            MarkState::Finished
        }
    }

    /// The step that the state calls for.
    pub open spec fn step(self) -> MarkStep {
        match self {
            MarkState::Opening { index, count } => MarkStep::OpenDir(index),
            MarkState::Adding { index, count } => MarkStep::AddMark(index),
            MarkState::Finished => MarkStep::Finish,
        }
    }

    /// The state that follows once the step succeeded (`ok`) or failed.
    /// After an opened directory the mark is added; after anything else
    /// the next mount is tried.
    pub open spec fn after(self, ok: bool) -> MarkState {
        match self {
            MarkState::Opening { index, count } => if ok {
                MarkState::Adding { index, count }
            } else {
                MarkState::at(index + 1, count as int)
            },
            MarkState::Adding { index, count } => MarkState::at(index + 1, count as int),
            MarkState::Finished => MarkState::Finished,
        }
    }

    /// The mount to report as not marked once the step succeeded or
    /// failed: the mount of the step if it failed, none if it succeeded.
    pub open spec fn failure(self, ok: bool) -> Option<usize> {
        match self {
            MarkState::Opening { index, count } => if ok {
                None
            } else {
                Some(index)
            },
            MarkState::Adding { index, count } => if ok {
                None
            } else {
                Some(index)
            },
            MarkState::Finished => None,
        }
    }

    /// The state after the steps of one mount with the given outcome.
    pub open spec fn after_mount(self, outcome: MountOutcome) -> MarkState {
        if outcome.opened {
            self.after(true).after(outcome.added)
        } else {
            self.after(false)
        }
    }

    /// The state after the steps of one mount after the other, with the
    /// given outcomes.
    pub open spec fn after_mounts(self, outcomes: Seq<MountOutcome>) -> MarkState
        decreases outcomes.len(),
    {
        if outcomes.len() == 0 {
            self
        } else {
            self.after_mounts(outcomes.drop_last()).after_mount(outcomes.last())
        }
    }

    /// The state in which the marking of `count` mounts starts.
    pub fn start(count: usize) -> (s: MarkState)
        ensures
            s == MarkState::at(0, count as int),
            s.wf(),
    {
        if count > 0 {
            MarkState::Opening { index: 0, count }
        } else {
            MarkState::Finished
        }
    }

    /// The step to take in this state.
    pub fn next_step(self) -> (step: MarkStep)
        ensures
            step == self.step(),
    {
        match self {
            MarkState::Opening { index, count } => MarkStep::OpenDir(index),
            MarkState::Adding { index, count } => MarkStep::AddMark(index),
            MarkState::Finished => MarkStep::Finish,
        }
    }

    /// The state that follows once the step succeeded (`ok`) or failed,
    /// and the mount to report as not marked, if any.
    pub fn advance(self, ok: bool) -> (r: (MarkState, Option<usize>))
        ensures
            r.0 == self.after(ok),
            r.1 == self.failure(ok),
            self.wf() ==> r.0.wf(),
    {
        match self {
            MarkState::Opening { index, count } => {
                if ok {
                    (MarkState::Adding { index, count }, None)
                } else {
                    (MarkState::following(index, count), Some(index))
                }
            },
            MarkState::Adding { index, count } => {
                let failed = if ok {
                    None
                } else {
                    Some(index)
                };
                (MarkState::following(index, count), failed)
            },
            MarkState::Finished => (MarkState::Finished, None),
        }
    }

    /// The state in which the mount after `index` is the next to be tried.
    fn following(index: usize, count: usize) -> (s: MarkState)
        ensures
            s == MarkState::at(index + 1, count as int),
            s.wf(),
    {
        if index < count && index + 1 < count {
            MarkState::Opening { index: index + 1, count }
        } else {
            MarkState::Finished
        }
    }
}

/// What the process does once set-up was tried and the mounts are known.
#[derive(Clone, Copy, Debug, PartialEq, Eq, Structural)]
pub enum Launch {
    /// The kernel subscription could not be set up. The process ends with
    /// a failure status.
    Abort,
    /// There is nothing to watch. The process says so on its error output
    /// and ends with status 0. No thread is started.
    Idle,
    /// Each mount is marked, the producer thread is started and the
    /// process consumes events until the channel closes.
    Monitor,
}

impl Launch {
    /// The exit status of a process that ends after this decision.
    pub open spec fn status(self) -> int {
        match self {
            Launch::Abort => 1,
            Launch::Idle => 0,
            Launch::Monitor => 0,
        }
    }

    /// Whether the producer thread is started.
    pub open spec fn starts_producer(self) -> bool {
        self == Launch::Monitor
    }

    /// Decides [`Launch::status`].
    pub fn exit_status(self) -> (code: i32)
        ensures
            code == self.status(),
    {
        match self {
            Launch::Abort => 1,
            Launch::Idle => 0,
            Launch::Monitor => 0,
        }
    }

    /// Decides [`Launch::starts_producer`].
    pub fn spawns_producer(self) -> (r: bool)
        ensures
            r == self.starts_producer(),
    {
        match self {
            Launch::Monitor => true,
            _ => false,
        }
    }
}

/// The decision that follows from whether the subscription was set up and
/// from the number of mounts to watch. A failed set-up is fatal whatever
/// the mounts.
pub open spec fn launch_of(subscribed: bool, mounts: nat) -> Launch {
    if !subscribed {
        Launch::Abort
    } else if mounts == 0 {
        Launch::Idle
    } else {
        Launch::Monitor
    }
}

/// Decides [`launch_of`].
pub fn launch(subscribed: bool, mounts: usize) -> (l: Launch)
    ensures
        l == launch_of(subscribed, mounts as nat),
{
    if !subscribed {
        Launch::Abort
    } else if mounts == 0 {
        Launch::Idle
    } else {
        Launch::Monitor
    }
}

/// The diagnostic for a mount table without a mount to watch.
pub fn no_mounts_message() -> (m: String)
    ensures
        m@ == "No suitable mounts found to monitor."@,
{
    "No suitable mounts found to monitor.".to_owned()
}

/// The diagnostic for a mount that could not be marked. `reason` is the
/// text of the error.
pub fn mark_failure_message(mount_path: &str, reason: &str) -> (m: String)
    ensures
        m@ == "Failed to mark "@ + mount_path@ + ": "@ + reason@,
{
    let mut m = "Failed to mark ".to_owned();
    m.append(mount_path);
    m.append(": ");
    m.append(reason);
    m
}

/// The diagnostic for a failed read of the kernel queue. `reason` is the
/// text of the error.
pub fn read_failure_message(reason: &str) -> (m: String)
    ensures
        m@ == "fanotify read error: "@ + reason@,
{
    let mut m = "fanotify read error: ".to_owned();
    m.append(reason);
    m
}

/// A mark is added only through a directory that could be opened, a mount
/// is reported exactly when one of its steps failed, and whatever came of a
/// mount, the one after it is tried next.
pub proof fn lemma_mark_steps(index: usize, count: usize, outcome: MountOutcome)
    requires
        index < count,
    ensures
        MarkState::at(index as int, count as int).step() == MarkStep::OpenDir(index),
        MarkState::at(index as int, count as int).after(true).step() == MarkStep::AddMark(index),
        MarkState::at(index as int, count as int).after(false).step() != MarkStep::AddMark(index),
        MarkState::at(index as int, count as int).failure(outcome.opened) is Some
            <==> !outcome.opened,
        MarkState::at(index as int, count as int).after(true).failure(outcome.added) is Some
            <==> !outcome.added,
        MarkState::at(index as int, count as int).after_mount(outcome) == MarkState::at(
            index + 1,
            count as int,
        ),
{
}

/// No failure is fatal to the marking: whatever came of the first mounts,
/// the next one is tried, and after the last the marking is over.
pub proof fn lemma_every_mount_is_tried(count: usize, outcomes: Seq<MountOutcome>)
    requires
        outcomes.len() <= count,
    ensures
        MarkState::at(0, count as int).after_mounts(outcomes) == MarkState::at(
            outcomes.len() as int,
            count as int,
        ),
        outcomes.len() < count ==> MarkState::at(0, count as int).after_mounts(outcomes).step()
            == MarkStep::OpenDir(outcomes.len() as usize),
        outcomes.len() == count ==> MarkState::at(0, count as int).after_mounts(outcomes).step()
            == MarkStep::Finish,
    decreases outcomes.len(),
{
    if outcomes.len() > 0 {
        lemma_every_mount_is_tried(count, outcomes.drop_last());
        lemma_mark_steps((outcomes.len() - 1) as usize, count, outcomes.last());
    }
}

/// The subscription asks for opens and reads, on the children of the mount
/// directory too, and for nothing else.
pub proof fn lemma_watched_events()
    ensures
        watched_bits() & FAN_OPEN == FAN_OPEN,
        watched_bits() & FAN_ACCESS == FAN_ACCESS,
        watched_bits() & FAN_EVENT_ON_CHILD == FAN_EVENT_ON_CHILD,
        watched_bits() == 0x0800_0021,
        mark_bits() == 0x11,
{
    assert(0x20u64 | 0x01u64 | 0x0800_0000u64 == 0x0800_0021u64) by (bit_vector);
    assert(0x0800_0021u64 & 0x20 == 0x20 && 0x0800_0021u64 & 0x01 == 0x01 && 0x0800_0021u64
        & 0x0800_0000 == 0x0800_0000) by (bit_vector);
    assert(0x01u32 | 0x10u32 == 0x11u32) by (bit_vector);
}

/// No thread is started and the exit status is 0 when there is nothing to
/// watch; only a failed set-up gives a failure status.
pub proof fn lemma_launch(subscribed: bool, mounts: nat)
    ensures
        launch_of(subscribed, mounts).status() != 0 <==> !subscribed,
        launch_of(subscribed, mounts).starts_producer() <==> subscribed && mounts > 0,
{
}

} // verus!
