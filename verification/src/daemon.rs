use vstd::prelude::*;

use crate::hierarchy::{CarrierFs, FileCarrierHierarchy};

verus! {

/// What orchestrator tasks queue for the agent-channel task, which alone
/// talks to the node agent.
#[derive(Debug, Clone, PartialEq)]
pub enum AgentMessage {
    /// Register the carrier mounted at this path.
    Register(String),
    /// Stop draining the queue.
    Shutdown,
}

/// What one turn of the agent-channel consumer loop decides to do.
#[derive(Debug, PartialEq)]
pub enum AgentLoopDecision {
    /// Run the registration of this mountpoint, report the result, and keep
    /// draining the queue whatever the result was.
    HandleRegister { mountpoint: String },
    /// Leave the loop.
    Exit,
}

/// One turn of the agent-channel consumer loop: `message` is the received
/// message, or `None` when the queue is closed and empty.  Registration
/// failures are reported, never fatal; only a shutdown message or the closed
/// queue ends the loop.
pub fn agent_task_step(message: Option<AgentMessage>) -> (d: AgentLoopDecision)
    ensures
        (message matches Some(AgentMessage::Register(p)) ==> (d
            matches AgentLoopDecision::HandleRegister { mountpoint } && mountpoint == p)),
        (message matches Some(AgentMessage::Shutdown) ==> d is Exit),
        message is None ==> d is Exit,
{
    match message {
        Some(AgentMessage::Register(mountpoint)) => AgentLoopDecision::HandleRegister {
            mountpoint,
        },
        Some(AgentMessage::Shutdown) => AgentLoopDecision::Exit,
        None => AgentLoopDecision::Exit,
    }
}

/// What to do with a device that was just mounted.
#[derive(Debug, PartialEq)]
pub enum MountAction {
    /// The mountpoint is not a carrier: unmount it again and stop, without
    /// error and without talking to anyone.
    UnmountAndSkip,
    /// The mountpoint is a carrier: queue this message for the agent-channel
    /// task.  The mount is left in place.
    EnqueueRegister { message: AgentMessage },
}

/// Decides what to do after mounting a device at `mountpoint`, whose carrier
/// area is mirrored in `fs`.  A device that is not a recognized carrier is
/// unmounted again and no message is queued; the orchestrator never talks to
/// the agent directly.
pub fn mount_and_register(mountpoint: String, fs: &CarrierFs) -> (a: MountAction)
    ensures
        !fs.is_carrier() ==> a is UnmountAndSkip,
        fs.is_carrier() ==> (a matches MountAction::EnqueueRegister { message } && message
            == AgentMessage::Register(mountpoint)),
{
    if FileCarrierHierarchy::folder_is_file_carrier(mountpoint.as_str(), fs) {
        MountAction::EnqueueRegister { message: AgentMessage::Register(mountpoint) }
    } else {
        MountAction::UnmountAndSkip
    }
}

/// Whether a device takes part in carrier handling at all: it must have a
/// parent drive, the drive must be removable, and the device must expose the
/// filesystem capability.  Anything else is skipped without error.
pub fn device_eligible(has_drive: bool, removable: bool, mountable: bool) -> (r: bool)
    ensures
        r == (has_drive && removable && mountable),
{
    has_drive && removable && mountable
}

/// What the startup sweep does with one eligible device it inspected.
#[derive(Debug, PartialEq)]
pub enum SweepAction {
    /// We mounted it to inspect and found a carrier: unmount, then go
    /// through the regular mount-and-register path so mount options are
    /// applied uniformly.
    UnmountAndRegister,
    /// We mounted it to inspect and it is no carrier: unmount and move on.
    UnmountOnly,
    /// Pre-mounted by someone else and a carrier: register where it stands,
    /// without touching mount state we do not own.
    RegisterInPlace { message: AgentMessage },
    /// Pre-mounted by someone else and no carrier: leave the mount alone.
    LeaveMounted,
}

/// Decides what the startup sweep does with an eligible device inspected at
/// `mountpoint`: `mounted_by_us` says whether this run created the mount (and
/// so owns it), `fs` mirrors the carrier area found there.
pub fn sweep_mount_action(mounted_by_us: bool, mountpoint: String, fs: &CarrierFs) -> (a:
    SweepAction)
    ensures
        mounted_by_us && fs.is_carrier() ==> a is UnmountAndRegister,
        mounted_by_us && !fs.is_carrier() ==> a is UnmountOnly,
        !mounted_by_us && fs.is_carrier() ==> (a matches SweepAction::RegisterInPlace { message }
            && message == AgentMessage::Register(mountpoint)),
        !mounted_by_us && !fs.is_carrier() ==> a is LeaveMounted,
{
    let is_carrier = FileCarrierHierarchy::folder_is_file_carrier(mountpoint.as_str(), fs);
    if mounted_by_us {
        if is_carrier {
            SweepAction::UnmountAndRegister
        } else {
            SweepAction::UnmountOnly
        }
    } else {
        if is_carrier {
            SweepAction::RegisterInPlace { message: AgentMessage::Register(mountpoint) }
        } else {
            SweepAction::LeaveMounted
        }
    }
}

} // verus!
