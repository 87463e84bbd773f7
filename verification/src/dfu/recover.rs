//! Getting a board that is stuck in upgrade mode back to normal.
//!
//! The board ignores END without a PREPARE before it. PREPARE announces a length, nothing is
//! written, and END then finds the staging partition incomplete: the board drops it and restarts
//! with its old firmware. The main partition is never touched.

use vstd::prelude::*;
use super::protocol;
use super::protocol::{DfuPacketEncoder, DFU_END_TIMEOUT_MS, DFU_PID, DFU_PREPARE_TIMEOUT_MS};
use super::types::RecoveryOutcome;
use crate::kernel::protocol_hid::VID;

verus! {

/// Product id in normal mode.
pub const NORMAL_PID: u16 = 0xED20;

/// Length that the recovery announces. It must not be zero: an empty transfer of announced length
/// zero could pass for complete.
pub const RECOVERY_DECLARED_LEN: u32 = 0x40000;

/// How long to wait for the board to come back, in seconds.
pub const RECOVERY_WAIT_TIMEOUT_SECS: u64 = 20;

/// Time between two looks, in milliseconds.
pub const RECOVERY_POLL_INTERVAL_MS: u64 = 500;

/// Some device has this vendor and product id.
pub open spec fn lists_device(ids: Seq<(u16, u16)>, vid: u16, pid: u16) -> bool {
    exists|i: int| 0 <= i < ids.len() && #[trigger] ids[i] == (vid, pid)
}

fn find_device(ids: &[(u16, u16)], vid: u16, pid: u16) -> (r: bool)
    ensures
        r == lists_device(ids@, vid, pid),
{
    let mut i: usize = 0;
    while i < ids.len()
        invariant
            i <= ids@.len(),
            forall|k: int| 0 <= k < i ==> #[trigger] ids@[k] != (vid, pid),
        decreases ids@.len() - i,
    {
        let id: (u16, u16) = ids[i];
        if id.0 == vid && id.1 == pid {
            assert(ids@[i as int] == (vid, pid));
            return true;
        }
        i = i + 1;
    }
    false
}

/// Tells, from the vendor and product ids of the devices present, whether a board is in upgrade
/// mode.
pub fn scan_stuck_device(ids: &[(u16, u16)]) -> (r: bool)
    ensures
        r == lists_device(ids@, VID, DFU_PID),
{
    find_device(ids, VID, DFU_PID)
}

/// Tells, from the vendor and product ids of the devices present, whether a board is in normal
/// mode.
pub fn scan_normal_device(ids: &[(u16, u16)]) -> (r: bool)
    ensures
        r == lists_device(ids@, VID, NORMAL_PID),
{
    find_device(ids, VID, NORMAL_PID)
}

/// A packet to send, and how long to wait for its reply.
pub struct RecoveryPacket {
    pub packet: Vec<u8>,
    pub timeout_ms: u32,
}

/// The recovery sequence: PREPARE with a length, then END. Both are sent whatever comes back.
pub fn send_recovery_sequence() -> (r: Vec<RecoveryPacket>)
    ensures
        r@.len() == 2,
        r@[0].packet@ == protocol::prepare_packet(RECOVERY_DECLARED_LEN),
        r@[0].timeout_ms == DFU_PREPARE_TIMEOUT_MS,
        r@[1].packet@ == protocol::end_packet(),
        r@[1].timeout_ms == DFU_END_TIMEOUT_MS,
{
    let mut out: Vec<RecoveryPacket> = Vec::new();
    out.push(
        RecoveryPacket {
            packet: DfuPacketEncoder::prepare(RECOVERY_DECLARED_LEN),
            timeout_ms: DFU_PREPARE_TIMEOUT_MS,
        },
    );
    out.push(
        RecoveryPacket { packet: DfuPacketEncoder::end(), timeout_ms: DFU_END_TIMEOUT_MS },
    );
    out
}

/// What became of a recovery packet. A missing reply is no failure: after END the board restarts
/// too fast to answer.
#[derive(Debug, Clone, Copy, PartialEq, Eq, Structural)]
pub enum WriteOutcome {
    Answered,
    SentNoAnswer,
    WriteFailed,
}

/// Tells whether at least one of the two packets went out; else there is nothing to wait for.
pub fn was_delivered(prepare: WriteOutcome, end: WriteOutcome) -> (r: bool)
    ensures
        r == (prepare != WriteOutcome::WriteFailed || end != WriteOutcome::WriteFailed),
{
    prepare != WriteOutcome::WriteFailed || end != WriteOutcome::WriteFailed
}

/// Stage of the recovery of a stuck board.
#[derive(Debug, Clone, Copy, PartialEq, Eq, Structural)]
pub enum RecoveryStage {
    /// Looking for a board in upgrade mode.
    Scanning,
    /// Sending the recovery sequence.
    Sending,
    /// Waiting for the board to come back.
    Waiting,
}

/// What happened since the last step.
#[derive(Debug, Clone, Copy, PartialEq, Eq, Structural)]
pub enum RecoveryEvent {
    /// The scan for a stuck board ended.
    Scanned { stuck: bool },
    /// The sequence was sent.
    Sent { delivered: bool },
    /// A look at the devices after a pause; a scan that failed counts as not back. `elapsed_ms` is
    /// the time since the sequence was sent.
    Looked { back: bool, elapsed_ms: u64 },
}

/// What to do next.
#[derive(Debug, Clone, Copy, PartialEq, Eq, Structural)]
pub enum RecoveryAction {
    /// Hold the monitors and send the sequence.
    Send,
    /// Pause for the poll interval, then look at the devices.
    LookAgain,
    /// The recovery is over.
    Finish(RecoveryOutcome),
}

/// Next stage and action of the recovery.
pub open spec fn recovery_step(event: RecoveryEvent) -> (RecoveryStage, RecoveryAction) {
    match event {
        RecoveryEvent::Scanned { stuck } => if stuck {
            (RecoveryStage::Sending, RecoveryAction::Send)
        } else {
            (RecoveryStage::Scanning, RecoveryAction::Finish(RecoveryOutcome::NotStuck))
        },
        RecoveryEvent::Sent { delivered } => if delivered {
            (RecoveryStage::Waiting, RecoveryAction::LookAgain)
        } else {
            (RecoveryStage::Sending, RecoveryAction::Finish(RecoveryOutcome::StillStuck))
        },
        RecoveryEvent::Looked { back, elapsed_ms } => if back {
            (RecoveryStage::Waiting, RecoveryAction::Finish(RecoveryOutcome::Recovered))
        } else if elapsed_ms < 1000 * RECOVERY_WAIT_TIMEOUT_SECS {
            (RecoveryStage::Waiting, RecoveryAction::LookAgain)
        } else {
            (RecoveryStage::Waiting, RecoveryAction::Finish(RecoveryOutcome::StillStuck))
        },
    }
}

/// Decides the next step of getting a stuck board back: nothing is sent unless a board is stuck,
/// nothing is waited for unless a packet went out, and only a board that is back counts as
/// recovered.
pub fn recover_stuck_dfu(event: RecoveryEvent) -> (r: (RecoveryStage, RecoveryAction))
    ensures
        r == recovery_step(event),
{
    match event {
        RecoveryEvent::Scanned { stuck } => {
            if stuck {
                (RecoveryStage::Sending, RecoveryAction::Send)
            } else {
                (RecoveryStage::Scanning, RecoveryAction::Finish(RecoveryOutcome::NotStuck))
            }
        },
        RecoveryEvent::Sent { delivered } => {
            if delivered {
                (RecoveryStage::Waiting, RecoveryAction::LookAgain)
            } else {
                (RecoveryStage::Sending, RecoveryAction::Finish(RecoveryOutcome::StillStuck))
            }
        },
        RecoveryEvent::Looked { back, elapsed_ms } => {
            if back {
                (RecoveryStage::Waiting, RecoveryAction::Finish(RecoveryOutcome::Recovered))
            } else if elapsed_ms < 1000 * RECOVERY_WAIT_TIMEOUT_SECS {
                (RecoveryStage::Waiting, RecoveryAction::LookAgain)
            } else {
                (RecoveryStage::Waiting, RecoveryAction::Finish(RecoveryOutcome::StillStuck))
            }
        },
    }
}

/// The first packet of the recovery announces a length that is not zero, with the checksum of the
/// length bytes; a bare END would do nothing.
pub proof fn law_recovery_starts_with_a_real_prepare()
    ensures
        ({
            let p = protocol::prepare_packet(RECOVERY_DECLARED_LEN);
            &&& p[1] == protocol::FLAG_PREPARE
            &&& crate::kernel::bytes::le32(p[2], p[3], p[4], p[5]) == RECOVERY_DECLARED_LEN
            &&& RECOVERY_DECLARED_LEN != 0
            &&& protocol::end_packet()[1] == protocol::FLAG_END
        }),
{
    let len = crate::kernel::bytes::le32_bytes(RECOVERY_DECLARED_LEN);
    let p = protocol::prepare_packet(RECOVERY_DECLARED_LEN);
    assert(p[2] == len[0] && p[3] == len[1] && p[4] == len[2] && p[5] == len[3]);
}

/// The way of a recovery: only a stuck board is sent anything, only what went out is waited for,
/// only a board that is seen again is recovered, and the wait ends after twenty seconds.
pub proof fn law_a_recovery_goes_by_what_is_seen(flag: bool, elapsed_ms: u64)
    ensures
        ({
            let scanned = recovery_step(RecoveryEvent::Scanned { stuck: flag }).1;
            let sent = recovery_step(RecoveryEvent::Sent { delivered: flag }).1;
            let looked = recovery_step(RecoveryEvent::Looked { back: flag, elapsed_ms }).1;
            &&& scanned == (if flag {
                RecoveryAction::Send
            } else {
                RecoveryAction::Finish(RecoveryOutcome::NotStuck)
            })
            &&& sent == (if flag {
                RecoveryAction::LookAgain
            } else {
                RecoveryAction::Finish(RecoveryOutcome::StillStuck)
            })
            &&& looked == (if flag {
                RecoveryAction::Finish(RecoveryOutcome::Recovered)
            } else if elapsed_ms < 20_000 {
                RecoveryAction::LookAgain
            } else {
                RecoveryAction::Finish(RecoveryOutcome::StillStuck)
            })
        }),
{
}

/// A device is listed exactly when an entry has both of its numbers.
pub proof fn law_a_device_is_listed_by_both_numbers(ids: Seq<(u16, u16)>, vid: u16, pid: u16)
    ensures
        lists_device(ids, vid, pid) <==> exists|i: int|
            0 <= i < ids.len() && (#[trigger] ids[i]).0 == vid && ids[i].1 == pid,
{
    if exists|i: int| 0 <= i < ids.len() && (#[trigger] ids[i]).0 == vid && ids[i].1 == pid {
        let i = choose|i: int|
            0 <= i < ids.len() && (#[trigger] ids[i]).0 == vid && ids[i].1 == pid;
        assert(ids[i] == (vid, pid));
    }
    if lists_device(ids, vid, pid) {
        let i = choose|i: int| 0 <= i < ids.len() && #[trigger] ids[i] == (vid, pid);
        assert(ids[i].0 == vid && ids[i].1 == pid);
    }
}

} // verus!
