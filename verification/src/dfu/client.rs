//! The upgrade itself, as a machine: it says what to do, is told what came of it, and says what
//! to do next.
//!
//! Enter upgrade mode, wait for the device, PREPARE, START, DATA until all firmware is sent, END,
//! wait for the restart. Once the device is open every failure goes through a reset.

use vstd::prelude::*;
use super::protocol;
use super::protocol::{
    DfuPacketEncoder, DfuResponse, DFU_DATA_PAYLOAD_MAX, DFU_END_TIMEOUT_MS,
    DFU_PREPARE_TIMEOUT_MS, DFU_RW_TIMEOUT_MS, WAIT_DFU_DEVICE_TIMEOUT_SECS,
    WAIT_NORMAL_DEVICE_TIMEOUT_SECS,
};
use super::types;
use super::types::{DfuPhase, DfuProgress, ProgressView};
use crate::kernel::bytes;
use crate::kernel::bytes::packet_of;
use crate::kernel::protocol_hid;
use crate::kernel::text;

verus! {

/// Command, on the normal HID channel, that makes the board enter upgrade mode.
pub const CMD_ENTER_HID_DFU_MODE: u8 = 0xEF;

/// A DATA packet that fails this often in a row ends the upgrade.
pub const MAX_DATA_RETRY: u8 = 3;

/// Attempts at PREPARE and START.
pub const MAX_ATTEMPTS: u8 = 2;

pub const RETRY_PAUSE_MS: u64 = 500;

pub const DATA_RETRY_PAUSE_MS: u64 = 100;

/// The command report that makes the board enter upgrade mode.
pub fn build_enter_dfu_hid_command() -> (r: [u8; 64])
    ensures
        r@ == bytes::padded(seq![protocol_hid::REPORT_ID_OUTPUT, CMD_ENTER_HID_DFU_MODE], 64),
{
    let prefix: [u8; 2] = [protocol_hid::REPORT_ID_OUTPUT, CMD_ENTER_HID_DFU_MODE];
    assert(prefix@ =~= seq![protocol_hid::REPORT_ID_OUTPUT, CMD_ENTER_HID_DFU_MODE]);
    packet_of(&prefix)
}

/// What the upgrade waits for.
#[derive(Debug, Clone, Copy, PartialEq, Eq, Structural)]
pub enum DfuStage {
    Idle,
    Entering,
    Waiting,
    Preparing { attempt: u8 },
    PreparePause { attempt: u8 },
    Starting { attempt: u8 },
    StartPause { attempt: u8 },
    Sending { offset: usize, retry: u8 },
    DataPause { offset: usize, retry: u8 },
    Resetting,
    Ending,
    Rebooting,
    Finished,
}

/// What came of the last action.
#[derive(Debug, Clone)]
pub enum DfuEvent {
    /// It was done.
    Done,
    /// It failed.
    Failed(String),
    /// The board replied.
    Reply(DfuResponse),
    /// The packet could not be sent, or no usable reply came.
    NoReply(String),
}

/// Mathematical form of an event.
pub enum DfuEventView {
    Done,
    Failed(Seq<char>),
    Reply(DfuResponse),
    NoReply(Seq<char>),
}

impl View for DfuEvent {
    type V = DfuEventView;

    open spec fn view(&self) -> DfuEventView {
        match *self {
            DfuEvent::Done => DfuEventView::Done,
            DfuEvent::Failed(e) => DfuEventView::Failed(e@),
            DfuEvent::Reply(r) => DfuEventView::Reply(r),
            DfuEvent::NoReply(e) => DfuEventView::NoReply(e@),
        }
    }
}

/// What to do next.
#[derive(Debug)]
pub enum DfuAction {
    /// Make the board enter upgrade mode.
    EnterDfu,
    /// Wait for the upgrade device and open it.
    WaitForDfuDevice,
    /// Send a packet and wait for the reply.
    Send { packet: Vec<u8>, timeout_ms: u32 },
    /// Wait.
    Pause { ms: u64 },
    /// Send the recovery sequence and, if it went out, wait for the board to come back.
    Reset,
    /// Wait for the board to come back in normal mode.
    WaitForNormalDevice,
    /// The upgrade is over.
    Finish(Result<(), String>),
}

/// Mathematical form of an action.
pub enum DfuActionView {
    EnterDfu,
    WaitForDfuDevice,
    Send { packet: Seq<u8>, timeout_ms: u32 },
    Pause { ms: u64 },
    Reset,
    WaitForNormalDevice,
    Finish(Result<(), Seq<char>>),
}

impl View for DfuAction {
    type V = DfuActionView;

    open spec fn view(&self) -> DfuActionView {
        match *self {
            DfuAction::EnterDfu => DfuActionView::EnterDfu,
            DfuAction::WaitForDfuDevice => DfuActionView::WaitForDfuDevice,
            DfuAction::Send { packet, timeout_ms } => DfuActionView::Send {
                packet: packet@,
                timeout_ms,
            },
            DfuAction::Pause { ms } => DfuActionView::Pause { ms },
            DfuAction::Reset => DfuActionView::Reset,
            DfuAction::WaitForNormalDevice => DfuActionView::WaitForNormalDevice,
            DfuAction::Finish(r) => DfuActionView::Finish(
                match r {
                    Ok(_) => Ok(()),
                    Err(e) => Err(e@),
                },
            ),
        }
    }
}

/// Progress to report and what to do next.
#[derive(Debug)]
pub struct DfuStep {
    pub progress: Vec<DfuProgress>,
    pub action: DfuAction,
}

/// Mathematical form of a list of progress reports.
pub open spec fn progress_views(list: Seq<DfuProgress>) -> Seq<ProgressView> {
    Seq::new(list.len(), |i: int| list[i]@)
}

/// A failure that is reported once the board has been reset.
pub struct PendingFailure {
    pub bytes_written: u32,
    /// Text of the progress report.
    pub message: String,
    /// Text of the error.
    pub error: String,
}

/// Mathematical form of a pending failure.
pub struct FailureView {
    pub bytes_written: u32,
    pub message: Seq<char>,
    pub error: Seq<char>,
}

/// Mathematical form of the machine.
pub struct DfuView {
    pub firmware: Seq<u8>,
    pub stage: DfuStage,
    pub failure: Option<FailureView>,
}

impl DfuView {
    /// Firmware length as the board counts it.
    pub open spec fn total(&self) -> u32 {
        self.firmware.len() as u32
    }

    /// Counters stay in range, and a reset always has a failure to report.
    pub open spec fn inv(&self) -> bool {
        match self.stage {
            DfuStage::Preparing { attempt } => 1 <= attempt <= MAX_ATTEMPTS,
            DfuStage::PreparePause { attempt } => 1 <= attempt < MAX_ATTEMPTS,
            DfuStage::Starting { attempt } => 1 <= attempt <= MAX_ATTEMPTS,
            DfuStage::StartPause { attempt } => 1 <= attempt < MAX_ATTEMPTS,
            DfuStage::Sending { offset, retry } => offset < self.firmware.len() && retry
                < MAX_DATA_RETRY,
            DfuStage::DataPause { offset, retry } => offset < self.firmware.len() && retry
                < MAX_DATA_RETRY,
            DfuStage::Resetting => self.failure is Some,
            _ => true,
        }
    }

    /// The event answers the action that this stage asked for.
    pub open spec fn expects(&self, event: DfuEventView) -> bool {
        match self.stage {
            DfuStage::Entering | DfuStage::Waiting => event is Done || event is Failed,
            DfuStage::Preparing { .. } | DfuStage::Starting { .. } | DfuStage::Sending { .. }
            | DfuStage::Ending => event is Reply || event is NoReply,
            DfuStage::Finished => false,
            _ => event is Done,
        }
    }

    /// The same upgrade at another stage.
    pub open spec fn at(&self, stage: DfuStage) -> DfuView {
        DfuView { firmware: self.firmware, stage, failure: self.failure }
    }
}

/// End of the DATA packet that starts at `offset`.
pub open spec fn data_end(len: int, offset: int) -> int {
    if offset + 250 < len {
        offset + 250
    } else {
        len
    }
}

/// Firmware in the DATA packet that starts at `offset`.
pub open spec fn data_at(firmware: Seq<u8>, offset: int) -> Seq<u8> {
    firmware.subrange(offset, data_end(firmware.len() as int, offset))
}

/// A step: the machine, the progress to report, the action.
pub struct StepView {
    pub next: DfuView,
    pub progress: Seq<ProgressView>,
    pub action: DfuActionView,
}

/// A step to a stage.
pub open spec fn step_to(
    s: DfuView,
    stage: DfuStage,
    progress: Seq<ProgressView>,
    action: DfuActionView,
) -> StepView {
    StepView { next: s.at(stage), progress, action }
}

/// The upgrade ends.
pub open spec fn finish(
    s: DfuView,
    progress: Seq<ProgressView>,
    result: Result<(), Seq<char>>,
) -> StepView {
    step_to(s, DfuStage::Finished, progress, DfuActionView::Finish(result))
}

/// The upgrade fails with the device open: first the reset, then the report.
pub open spec fn fail_with_reset(
    s: DfuView,
    bytes_written: u32,
    message: Seq<char>,
    error: Seq<char>,
) -> StepView {
    StepView {
        next: DfuView {
            firmware: s.firmware,
            stage: DfuStage::Resetting,
            failure: Some(FailureView { bytes_written, message, error }),
        },
        progress: Seq::empty(),
        action: DfuActionView::Reset,
    }
}

/// Sends the next DATA packet, or END once all firmware is sent. A cancelled upgrade is reset
/// before the next packet.
pub open spec fn next_data(
    s: DfuView,
    offset: int,
    retry: u8,
    cancelled: bool,
    progress: Seq<ProgressView>,
) -> StepView {
    if offset >= s.firmware.len() {
        step_to(
            s,
            DfuStage::Ending,
            progress.push(
                types::progress_of(
                    DfuPhase::Verifying,
                    s.total(),
                    s.total(),
                    Some("设备正在验证固件..."@),
                ),
            ),
            DfuActionView::Send { packet: protocol::end_packet(), timeout_ms: DFU_END_TIMEOUT_MS },
        )
    } else if cancelled {
        StepView {
            progress,
            ..fail_with_reset(s, offset as u32, "用户取消升级"@, "用户取消升级"@)
        }
    } else {
        step_to(
            s,
            DfuStage::Sending { offset: offset as usize, retry },
            progress,
            DfuActionView::Send {
                packet: protocol::data_packet(data_at(s.firmware, offset)),
                timeout_ms: DFU_RW_TIMEOUT_MS,
            },
        )
    }
}

/// Text for a reply that reports an error.
pub open spec fn error_result_text(result: u8) -> Seq<char> {
    "设备返回错误 result=0x"@ + text::hex_text(result as nat, 2)
}

/// Next step of the upgrade.
pub open spec fn dfu_step(s: DfuView, event: DfuEventView, cancelled: bool) -> StepView {
    let none = Seq::<ProgressView>::empty();
    match s.stage {
        DfuStage::Idle => if s.total() == 0 {
            finish(s, none, Err("固件文件为空"@))
        } else {
            step_to(
                s,
                DfuStage::Entering,
                none.push(types::progress_of(DfuPhase::EnteringDfu, 0, s.total(), None)),
                DfuActionView::EnterDfu,
            )
        },
        DfuStage::Entering => match event {
            DfuEventView::Failed(e) => {
                let message = "进入 DFU 失败: "@ + e;
                finish(
                    s,
                    none.push(types::progress_of(DfuPhase::Failed, 0, s.total(), Some(message))),
                    Err(message),
                )
            },
            _ => step_to(
                s,
                DfuStage::Waiting,
                none.push(
                    types::progress_of(DfuPhase::EnteringDfu, 0, s.total(), Some("等待 DFU 设备..."@)),
                ),
                DfuActionView::WaitForDfuDevice,
            ),
        },
        DfuStage::Waiting => match event {
            DfuEventView::Failed(e) => finish(
                s,
                none.push(types::progress_of(DfuPhase::Failed, 0, s.total(), Some(e))),
                Err(e),
            ),
            _ => step_to(
                s,
                DfuStage::Preparing { attempt: 1 },
                none.push(types::progress_of(DfuPhase::Preparing, 0, s.total(), None)),
                DfuActionView::Send {
                    packet: protocol::prepare_packet(s.total()),
                    timeout_ms: DFU_PREPARE_TIMEOUT_MS,
                },
            ),
        },
        DfuStage::Preparing { attempt } => match event {
            DfuEventView::Reply(r) => if r.result == protocol::RESULT_SUCCESS {
                step_to(
                    s,
                    DfuStage::Starting { attempt: 1 },
                    none,
                    DfuActionView::Send {
                        packet: protocol::start_packet(),
                        timeout_ms: DFU_PREPARE_TIMEOUT_MS,
                    },
                )
            } else {
                fail_with_reset(
                    s,
                    0,
                    "PREPARE 失败: "@ + error_result_text(r.result),
                    "PREPARE 失败"@,
                )
            },
            DfuEventView::NoReply(e) => if attempt < MAX_ATTEMPTS {
                step_to(
                    s,
                    DfuStage::PreparePause { attempt },
                    none,
                    DfuActionView::Pause { ms: RETRY_PAUSE_MS },
                )
            } else {
                fail_with_reset(s, 0, "PREPARE 失败: PREPARE 失败: "@ + e, "PREPARE 失败"@)
            },
            _ => arbitrary(),
        },
        DfuStage::PreparePause { attempt } => step_to(
            s,
            DfuStage::Preparing { attempt: (attempt + 1) as u8 },
            none,
            DfuActionView::Send {
                packet: protocol::prepare_packet(s.total()),
                timeout_ms: DFU_PREPARE_TIMEOUT_MS,
            },
        ),
        DfuStage::Starting { attempt } => match event {
            DfuEventView::Reply(r) => if r.result == protocol::RESULT_SUCCESS {
                next_data(
                    s,
                    0,
                    0,
                    cancelled,
                    none.push(types::progress_of(DfuPhase::Transferring, 0, s.total(), None)),
                )
            } else {
                fail_with_reset(s, 0, "START 失败: "@ + error_result_text(r.result), "START 失败"@)
            },
            DfuEventView::NoReply(e) => if attempt < MAX_ATTEMPTS {
                step_to(
                    s,
                    DfuStage::StartPause { attempt },
                    none,
                    DfuActionView::Pause { ms: RETRY_PAUSE_MS },
                )
            } else {
                fail_with_reset(s, 0, "START 失败: START 失败: "@ + e, "START 失败"@)
            },
            _ => arbitrary(),
        },
        DfuStage::StartPause { attempt } => step_to(
            s,
            DfuStage::Starting { attempt: (attempt + 1) as u8 },
            none,
            DfuActionView::Send {
                packet: protocol::start_packet(),
                timeout_ms: DFU_PREPARE_TIMEOUT_MS,
            },
        ),
        DfuStage::Sending { offset, retry } => match event {
            DfuEventView::Reply(r) => if r.result == protocol::RESULT_SUCCESS {
                let end = data_end(s.firmware.len() as int, offset as int);
                next_data(
                    s,
                    end,
                    0,
                    cancelled,
                    none.push(types::progress_of(DfuPhase::Transferring, end as u32, s.total(), None)),
                )
            } else if retry + 1 >= MAX_DATA_RETRY {
                let message = "DATA 传输失败，重试 3 次后放弃 (offset="@ + text::dec_text(
                    offset as nat,
                ) + ")"@;
                fail_with_reset(s, offset as u32, message, message)
            } else {
                step_to(
                    s,
                    DfuStage::DataPause { offset, retry: (retry + 1) as u8 },
                    none,
                    DfuActionView::Pause { ms: DATA_RETRY_PAUSE_MS },
                )
            },
            DfuEventView::NoReply(e) => if retry + 1 >= MAX_DATA_RETRY {
                let message = "DATA 通信失败: "@ + e + " (offset="@ + text::dec_text(offset as nat)
                    + ")"@;
                fail_with_reset(s, offset as u32, message, message)
            } else {
                step_to(
                    s,
                    DfuStage::DataPause { offset, retry: (retry + 1) as u8 },
                    none,
                    DfuActionView::Pause { ms: DATA_RETRY_PAUSE_MS },
                )
            },
            _ => arbitrary(),
        },
        DfuStage::DataPause { offset, retry } => next_data(s, offset as int, retry, cancelled, none),
        DfuStage::Resetting => {
            let f = s.failure.unwrap();
            finish(
                s,
                none.push(
                    types::progress_of(
                        DfuPhase::Failed,
                        f.bytes_written,
                        s.total(),
                        Some(f.message),
                    ),
                ),
                Err(f.error),
            )
        },
        DfuStage::Ending => step_to(
            s,
            DfuStage::Rebooting,
            none.push(
                types::progress_of(
                    DfuPhase::Rebooting,
                    s.total(),
                    s.total(),
                    Some("设备重启中..."@),
                ),
            ),
            DfuActionView::WaitForNormalDevice,
        ),
        DfuStage::Rebooting => finish(
            s,
            none.push(types::progress_of(DfuPhase::Completed, s.total(), s.total(), None)),
            Ok(()),
        ),
        DfuStage::Finished => arbitrary(),
    }
}

/// One upgrade.
pub struct DfuClient {
    firmware: Vec<u8>,
    stage: DfuStage,
    failure: Option<PendingFailure>,
}

impl View for DfuClient {
    type V = DfuView;

    closed spec fn view(&self) -> DfuView {
        DfuView {
            firmware: self.firmware@,
            stage: self.stage,
            failure: match self.failure {
                Some(f) => Some(
                    FailureView {
                        bytes_written: f.bytes_written,
                        message: f.message@,
                        error: f.error@,
                    },
                ),
                None => None,
            },
        }
    }
}

/// One report.
fn report(
    phase: DfuPhase,
    bytes_written: u32,
    total: u32,
    message: Option<String>,
) -> (r: Vec<DfuProgress>)
    ensures
        progress_views(r@) == seq![
            types::progress_of(phase, bytes_written, total, types::message_view(message)),
        ],
{
    let mut out: Vec<DfuProgress> = Vec::new();
    out.push(DfuProgress::new(phase, bytes_written, total, message));
    assert(progress_views(out@) =~= seq![
        types::progress_of(phase, bytes_written, total, types::message_view(message)),
    ]);
    out
}

fn no_report() -> (r: Vec<DfuProgress>)
    ensures
        progress_views(r@) == Seq::<ProgressView>::empty(),
{
    let out: Vec<DfuProgress> = Vec::new();
    assert(progress_views(out@) =~= Seq::empty());
    out
}

fn joined(a: &str, b: &str) -> (r: String)
    ensures
        r@ == a@ + b@,
{
    let mut out: String = a.to_string();
    out.append(b);
    out
}

fn error_result(label: &str, result: u8) -> (r: String)
    ensures
        r@ == label@ + error_result_text(result),
{
    let mut out: String = label.to_string();
    out.append("设备返回错误 result=0x");
    text::append_hex(&mut out, result as u64, 2);
    assert(out@ =~= label@ + error_result_text(result));
    out
}

impl DfuClient {
    /// An upgrade to `firmware` that has not begun.
    pub fn new(firmware: Vec<u8>) -> (r: Self)
        ensures
            r@ == (DfuView { firmware: firmware@, stage: DfuStage::Idle, failure: None }),
            r@.inv(),
    {
        DfuClient { firmware, stage: DfuStage::Idle, failure: None }
    }

    /// What the upgrade waits for.
    pub fn stage(&self) -> (r: DfuStage)
        ensures
            r == self@.stage,
    {
        self.stage
    }

    fn reset(&mut self, bytes_written: u32, message: String, error: String) -> (r: DfuAction)
        ensures
            final(self)@ == fail_with_reset(old(self)@, bytes_written, message@, error@).next,
            r@ == DfuActionView::Reset,
    {
        self.failure = Some(PendingFailure { bytes_written, message, error });
        self.stage = DfuStage::Resetting;
        DfuAction::Reset
    }

    fn send_next(
        &mut self,
        offset: usize,
        retry: u8,
        cancelled: bool,
        progress: Vec<DfuProgress>,
    ) -> (r: DfuStep)
        requires
            offset <= old(self)@.firmware.len(),
            retry < MAX_DATA_RETRY,
        ensures
            ({
                let want = next_data(
                    old(self)@,
                    offset as int,
                    retry,
                    cancelled,
                    progress_views(progress@),
                );
                &&& final(self)@ == want.next
                &&& progress_views(r.progress@) == want.progress
                &&& r.action@ == want.action
                &&& final(self)@.inv()
            }),
    {
        #[verifier::truncate]
        let total: u32 = self.firmware.len() as u32;
        let mut progress = progress;
        if offset >= self.firmware.len() {
            let ghost before = progress@;
            progress.push(
                DfuProgress::new(
                    DfuPhase::Verifying,
                    total,
                    total,
                    Some("设备正在验证固件...".to_string()),
                ),
            );
            assert(progress_views(progress@) =~= progress_views(before).push(progress@.last()@));
            self.stage = DfuStage::Ending;
            return DfuStep {
                progress,
                action: DfuAction::Send {
                    packet: DfuPacketEncoder::end(),
                    timeout_ms: DFU_END_TIMEOUT_MS,
                },
            };
        }
        if cancelled {
            #[verifier::truncate]
            let written: u32 = offset as u32;
            let action: DfuAction = self.reset(
                written,
                "用户取消升级".to_string(),
                "用户取消升级".to_string(),
            );
            return DfuStep { progress, action };
        }
        let left: usize = self.firmware.len() - offset;
        let end: usize = if left > DFU_DATA_PAYLOAD_MAX { offset + DFU_DATA_PAYLOAD_MAX } else { self.firmware.len() };
        assert(self.firmware@.subrange(offset as int, end as int) =~= data_at(
            self@.firmware,
            offset as int,
        ));
        match DfuPacketEncoder::data(&self.firmware.as_slice()[offset..end]) {
            Ok(packet) => {
                self.stage = DfuStage::Sending { offset, retry };
                DfuStep {
                    progress,
                    action: DfuAction::Send { packet, timeout_ms: DFU_RW_TIMEOUT_MS },
                }
            },
            Err(e) => DfuStep { progress, action: DfuAction::Finish(Err(e)) },
        }
    }

    /// Takes in what came of the last action and says what to do next. The first call, with
    /// `Done`, begins the upgrade. `cancelled` tells whether the user has asked to stop; it counts
    /// before a DATA packet.
    pub fn upgrade(&mut self, event: DfuEvent, cancelled: bool) -> (r: DfuStep)
        requires
            old(self)@.inv(),
            old(self)@.expects(event@),
        ensures
            final(self)@.inv(),
            final(self)@ == dfu_step(old(self)@, event@, cancelled).next,
            progress_views(r.progress@) == dfu_step(old(self)@, event@, cancelled).progress,
            r.action@ == dfu_step(old(self)@, event@, cancelled).action,
    {
        #[verifier::truncate]
        let total: u32 = self.firmware.len() as u32;
        let ghost none = Seq::<ProgressView>::empty();
        let ghost before = self@;
        match self.stage {
            DfuStage::Idle => {
                if total == 0 {
                    self.stage = DfuStage::Finished;
                    return DfuStep {
                        progress: no_report(),
                        action: DfuAction::Finish(Err("固件文件为空".to_string())),
                    };
                }
                self.stage = DfuStage::Entering;
                let progress: Vec<DfuProgress> = report(DfuPhase::EnteringDfu, 0, total, None);
                assert(progress_views(progress@) =~= none.push(progress_views(progress@)[0]));
                DfuStep { progress, action: DfuAction::EnterDfu }
            },
            DfuStage::Entering => {
                match event {
                    DfuEvent::Failed(e) => {
                        let message: String = joined("进入 DFU 失败: ", e.as_str());
                        self.stage = DfuStage::Finished;
                        let progress: Vec<DfuProgress> = report(
                            DfuPhase::Failed,
                            0,
                            total,
                            Some(message.clone()),
                        );
                        assert(progress_views(progress@) =~= none.push(progress_views(progress@)[0]));
                        DfuStep { progress, action: DfuAction::Finish(Err(message)) }
                    },
                    _ => {
                        self.stage = DfuStage::Waiting;
                        let progress: Vec<DfuProgress> = report(
                            DfuPhase::EnteringDfu,
                            0,
                            total,
                            Some("等待 DFU 设备...".to_string()),
                        );
                        assert(progress_views(progress@) =~= none.push(progress_views(progress@)[0]));
                        DfuStep { progress, action: DfuAction::WaitForDfuDevice }
                    },
                }
            },
            DfuStage::Waiting => {
                match event {
                    DfuEvent::Failed(e) => {
                        self.stage = DfuStage::Finished;
                        let progress: Vec<DfuProgress> = report(
                            DfuPhase::Failed,
                            0,
                            total,
                            Some(e.clone()),
                        );
                        assert(progress_views(progress@) =~= none.push(progress_views(progress@)[0]));
                        DfuStep { progress, action: DfuAction::Finish(Err(e)) }
                    },
                    _ => {
                        self.stage = DfuStage::Preparing { attempt: 1 };
                        let progress: Vec<DfuProgress> = report(DfuPhase::Preparing, 0, total, None);
                        assert(progress_views(progress@) =~= none.push(progress_views(progress@)[0]));
                        DfuStep {
                            progress,
                            action: DfuAction::Send {
                                packet: DfuPacketEncoder::prepare(total),
                                timeout_ms: DFU_PREPARE_TIMEOUT_MS,
                            },
                        }
                    },
                }
            },
            DfuStage::Preparing { attempt } => {
                let action: DfuAction = match event {
                    DfuEvent::Reply(response) => {
                        if response.is_success() {
                            self.stage = DfuStage::Starting { attempt: 1 };
                            DfuAction::Send {
                                packet: DfuPacketEncoder::start(),
                                timeout_ms: DFU_PREPARE_TIMEOUT_MS,
                            }
                        } else {
                            self.reset(
                                0,
                                error_result("PREPARE 失败: ", response.result),
                                "PREPARE 失败".to_string(),
                            )
                        }
                    },
                    DfuEvent::NoReply(e) => {
                        if attempt < MAX_ATTEMPTS {
                            self.stage = DfuStage::PreparePause { attempt };
                            DfuAction::Pause { ms: RETRY_PAUSE_MS }
                        } else {
                            self.reset(
                                0,
                                joined("PREPARE 失败: PREPARE 失败: ", e.as_str()),
                                "PREPARE 失败".to_string(),
                            )
                        }
                    },
                    _ => DfuAction::EnterDfu,
                };
                DfuStep { progress: no_report(), action }
            },
            DfuStage::PreparePause { attempt } => {
                self.stage = DfuStage::Preparing { attempt: attempt + 1 };
                DfuStep {
                    progress: no_report(),
                    action: DfuAction::Send {
                        packet: DfuPacketEncoder::prepare(total),
                        timeout_ms: DFU_PREPARE_TIMEOUT_MS,
                    },
                }
            },
            DfuStage::Starting { attempt } => {
                match event {
                    DfuEvent::Reply(response) => {
                        if response.is_success() {
                            let progress: Vec<DfuProgress> = report(
                                DfuPhase::Transferring,
                                0,
                                total,
                                None,
                            );
                            assert(progress_views(progress@) =~= none.push(
                                progress_views(progress@)[0],
                            ));
                            self.send_next(0, 0, cancelled, progress)
                        } else {
                            let action: DfuAction = self.reset(
                                0,
                                error_result("START 失败: ", response.result),
                                "START 失败".to_string(),
                            );
                            DfuStep { progress: no_report(), action }
                        }
                    },
                    DfuEvent::NoReply(e) => {
                        if attempt < MAX_ATTEMPTS {
                            self.stage = DfuStage::StartPause { attempt };
                            DfuStep {
                                progress: no_report(),
                                action: DfuAction::Pause { ms: RETRY_PAUSE_MS },
                            }
                        } else {
                            let action: DfuAction = self.reset(
                                0,
                                joined("START 失败: START 失败: ", e.as_str()),
                                "START 失败".to_string(),
                            );
                            DfuStep { progress: no_report(), action }
                        }
                    },
                    _ => DfuStep { progress: no_report(), action: DfuAction::EnterDfu },
                }
            },
            DfuStage::StartPause { attempt } => {
                self.stage = DfuStage::Starting { attempt: attempt + 1 };
                DfuStep {
                    progress: no_report(),
                    action: DfuAction::Send {
                        packet: DfuPacketEncoder::start(),
                        timeout_ms: DFU_PREPARE_TIMEOUT_MS,
                    },
                }
            },
            DfuStage::Sending { offset, retry } => {
                #[verifier::truncate]
                let written: u32 = offset as u32;
                match event {
                    DfuEvent::Reply(response) => {
                        if response.is_success() {
                            let left: usize = self.firmware.len() - offset;
                            let end: usize = if left > DFU_DATA_PAYLOAD_MAX { offset + DFU_DATA_PAYLOAD_MAX } else { self.firmware.len() };
                            #[verifier::truncate]
                            let done: u32 = end as u32;
                            let progress: Vec<DfuProgress> = report(
                                DfuPhase::Transferring,
                                done,
                                total,
                                None,
                            );
                            assert(progress_views(progress@) =~= none.push(
                                progress_views(progress@)[0],
                            ));
                            self.send_next(end, 0, cancelled, progress)
                        } else if retry + 1 >= MAX_DATA_RETRY {
                            let message: String = text::text_dec(
                                "DATA 传输失败，重试 3 次后放弃 (offset=",
                                offset as u64,
                                ")",
                            );
                            let action: DfuAction = self.reset(written, message.clone(), message);
                            DfuStep { progress: no_report(), action }
                        } else {
                            self.stage = DfuStage::DataPause { offset, retry: retry + 1 };
                            DfuStep {
                                progress: no_report(),
                                action: DfuAction::Pause { ms: DATA_RETRY_PAUSE_MS },
                            }
                        }
                    },
                    DfuEvent::NoReply(e) => {
                        if retry + 1 >= MAX_DATA_RETRY {
                            let mut message: String = joined("DATA 通信失败: ", e.as_str());
                            message.append(" (offset=");
                            text::append_dec(&mut message, offset as u64);
                            message.append(")");
                            let action: DfuAction = self.reset(written, message.clone(), message);
                            DfuStep { progress: no_report(), action }
                        } else {
                            self.stage = DfuStage::DataPause { offset, retry: retry + 1 };
                            DfuStep {
                                progress: no_report(),
                                action: DfuAction::Pause { ms: DATA_RETRY_PAUSE_MS },
                            }
                        }
                    },
                    _ => DfuStep { progress: no_report(), action: DfuAction::EnterDfu },
                }
            },
            DfuStage::DataPause { offset, retry } => {
                self.send_next(offset, retry, cancelled, no_report())
            },
            DfuStage::Resetting => {
                self.stage = DfuStage::Finished;
                match &self.failure {
                    Some(failure) => {
                        let progress: Vec<DfuProgress> = report(
                            DfuPhase::Failed,
                            failure.bytes_written,
                            total,
                            Some(failure.message.clone()),
                        );
                        assert(progress_views(progress@) =~= none.push(progress_views(progress@)[0]));
                        DfuStep { progress, action: DfuAction::Finish(Err(failure.error.clone())) }
                    },
                    None => DfuStep { progress: no_report(), action: DfuAction::Reset },
                }
            },
            DfuStage::Ending => {
                self.stage = DfuStage::Rebooting;
                let progress: Vec<DfuProgress> = report(
                    DfuPhase::Rebooting,
                    total,
                    total,
                    Some("设备重启中...".to_string()),
                );
                assert(progress_views(progress@) =~= none.push(progress_views(progress@)[0]));
                DfuStep { progress, action: DfuAction::WaitForNormalDevice }
            },
            DfuStage::Rebooting => {
                self.stage = DfuStage::Finished;
                let progress: Vec<DfuProgress> = report(DfuPhase::Completed, total, total, None);
                assert(progress_views(progress@) =~= none.push(progress_views(progress@)[0]));
                DfuStep { progress, action: DfuAction::Finish(Ok(())) }
            },
            DfuStage::Finished => DfuStep { progress: no_report(), action: DfuAction::Reset },
        }
    }
}

/// What to do while waiting for a device.
#[derive(Debug, Clone)]
pub enum WaitStep {
    /// Look for the device now; if it is not there, pause and ask again.
    Look,
    /// Give up, with a reason.
    GiveUp(String),
}

/// Decides, between two looks for the upgrade device, whether to go on. Looks are half a second
/// apart, for ten seconds; a cancelled upgrade stops at once.
pub fn wait_for_dfu_device(elapsed_ms: u64, cancelled: bool) -> (r: WaitStep)
    ensures
        elapsed_ms >= 1000 * WAIT_DFU_DEVICE_TIMEOUT_SECS ==> (r matches WaitStep::GiveUp(e) && e@
            == "等待 DFU 设备超时 (10s)"@),
        elapsed_ms < 1000 * WAIT_DFU_DEVICE_TIMEOUT_SECS && cancelled ==> (r matches WaitStep::GiveUp(
            e,
        ) && e@ == "用户取消"@),
        elapsed_ms < 1000 * WAIT_DFU_DEVICE_TIMEOUT_SECS && !cancelled ==> r is Look,
{
    if elapsed_ms >= 1000 * WAIT_DFU_DEVICE_TIMEOUT_SECS {
        return WaitStep::GiveUp("等待 DFU 设备超时 (10s)".to_string());
    }
    if cancelled {
        return WaitStep::GiveUp("用户取消".to_string());
    }
    WaitStep::Look
}

/// Decides, between two looks for the restarted board, whether to go on looking.
pub fn wait_for_normal_device(elapsed_ms: u64) -> (r: bool)
    ensures
        r == (elapsed_ms < 1000 * WAIT_NORMAL_DEVICE_TIMEOUT_SECS),
{
    elapsed_ms < 1000 * WAIT_NORMAL_DEVICE_TIMEOUT_SECS
}

/// Once the device has been opened, the upgrade ends in an error only after a reset: a board is
/// not left behind in upgrade mode.
pub proof fn law_a_failure_resets_the_board(s: DfuView, event: DfuEventView, cancelled: bool)
    requires
        s.inv(),
        s.expects(event),
        dfu_step(s, event, cancelled).action matches DfuActionView::Finish(r) && r is Err,
    ensures
        s.stage == DfuStage::Idle || s.stage == DfuStage::Entering || s.stage == DfuStage::Waiting
            || s.stage == DfuStage::Resetting,
{
}

/// The upgrade succeeds only after the restart that follows END.
pub proof fn law_success_comes_after_the_restart(s: DfuView, event: DfuEventView, cancelled: bool)
    requires
        s.inv(),
        s.expects(event),
        dfu_step(s, event, cancelled).action == DfuActionView::Finish(Ok(())),
    ensures
        s.stage == DfuStage::Rebooting,
{
}

/// END is sent only once every byte of firmware has been acknowledged.
pub proof fn law_end_comes_after_all_firmware(s: DfuView, event: DfuEventView, cancelled: bool)
    requires
        s.inv(),
        s.expects(event),
        s.firmware.len() > 0,
        dfu_step(s, event, cancelled).next.stage == DfuStage::Ending,
    ensures
        s.stage matches DfuStage::Sending { offset, retry } && data_end(
            s.firmware.len() as int,
            offset as int,
        ) == s.firmware.len(),
        event matches DfuEventView::Reply(r) && r.result == protocol::RESULT_SUCCESS,
{
}

/// The firmware in the first `n` DATA packets.
pub open spec fn sent_firmware(firmware: Seq<u8>, n: nat) -> Seq<u8>
    decreases n,
{
    if n == 0 {
        Seq::empty()
    } else {
        sent_firmware(firmware, (n - 1) as nat) + data_at(firmware, 250 * (n - 1))
    }
}

/// An acknowledged DATA packet is followed by the next one: each starts where the last ended, and
/// all of them together are the firmware.
pub proof fn law_data_packets_carry_the_firmware(firmware: Seq<u8>, n: nat)
    requires
        250 * n <= firmware.len() + 249,
    ensures
        sent_firmware(firmware, n) == firmware.subrange(
            0,
            if 250 * n < firmware.len() {
                250 * n as int
            } else {
                firmware.len() as int
            },
        ),
        250 * n >= firmware.len() ==> sent_firmware(firmware, n) == firmware,
        forall|offset: int|
            0 <= offset < firmware.len() && offset % 250 == 0 ==> (#[trigger] data_end(
                firmware.len() as int,
                offset,
            )) % 250 == 0 || data_end(firmware.len() as int, offset) == firmware.len(),
    decreases n,
{
    if n > 0 {
        law_data_packets_carry_the_firmware(firmware, (n - 1) as nat);
        let end = if 250 * n < firmware.len() {
            250 * n as int
        } else {
            firmware.len() as int
        };
        assert(sent_firmware(firmware, n) =~= firmware.subrange(0, end));
    }
    if 250 * n >= firmware.len() {
        assert(firmware.subrange(0, firmware.len() as int) =~= firmware);
    }
}

/// A packet is given up after three failures in a row and never before, and every success starts
/// the count anew.
pub proof fn law_three_failures_end_the_transfer(
    s: DfuView,
    offset: usize,
    retry: u8,
    event: DfuEventView,
    cancelled: bool,
)
    requires
        s.inv(),
        s.stage == (DfuStage::Sending { offset, retry }),
        s.expects(event),
        !(event matches DfuEventView::Reply(r) && r.result == protocol::RESULT_SUCCESS),
    ensures
        dfu_step(s, event, cancelled).next.stage == DfuStage::Resetting <==> retry == 2,
        retry < 2 ==> dfu_step(s, event, cancelled).next.stage == (DfuStage::DataPause {
            offset,
            retry: (retry + 1) as u8,
        }),
{
}

/// An upgrade that has not begun.
pub open spec fn idle_upgrade(firmware: Seq<u8>) -> DfuView {
    DfuView { firmware, stage: DfuStage::Idle, failure: None }
}

/// An answer to an action, and whether the user had cancelled by then.
pub struct DfuAnswer {
    pub event: DfuEventView,
    pub cancelled: bool,
}

/// The machine after some answers, with every action that it asked for so far. Action `i` is
/// answered by answer `i + 1`; the first answer only sets the machine going.
pub open spec fn upgrade_run(firmware: Seq<u8>, answers: Seq<DfuAnswer>) -> (
    DfuView,
    Seq<DfuActionView>,
)
    decreases answers.len(),
{
    if answers.len() == 0 {
        (idle_upgrade(firmware), Seq::empty())
    } else {
        let (machine, actions) = upgrade_run(firmware, answers.drop_last());
        let step = dfu_step(machine, answers.last().event, answers.last().cancelled);
        (step.next, actions.push(step.action))
    }
}

/// Every answer is one that its action can have.
pub open spec fn is_answered(firmware: Seq<u8>, answers: Seq<DfuAnswer>) -> bool
    decreases answers.len(),
{
    answers.len() == 0 || is_answered(firmware, answers.drop_last()) && upgrade_run(
        firmware,
        answers.drop_last(),
    ).0.expects(answers.last().event)
}

/// The action sends a packet whose kind is `kind`.
pub open spec fn sends(action: DfuActionView, kind: u8) -> bool {
    action matches DfuActionView::Send { packet, .. } && packet[1] == kind
}

/// What a DATA packet carries, by its own account.
pub open spec fn carried(action: DfuActionView) -> Seq<u8> {
    let packet = action->packet;
    packet.subrange(6, 6 + packet[2] + 256 * packet[3])
}

/// The board said that it was done.
pub open spec fn is_acknowledgement(event: DfuEventView) -> bool {
    event matches DfuEventView::Reply(r) && r.result == 0
}

/// What the board has acknowledged: the contents of the DATA packets whose answers report success,
/// in the order in which they were sent.
pub open spec fn acknowledged(actions: Seq<DfuActionView>, answers: Seq<DfuAnswer>) -> Seq<u8>
    decreases answers.len(),
{
    if answers.len() < 2 {
        Seq::empty()
    } else {
        acknowledged(actions.drop_last(), answers.drop_last()) + if sends(
            actions[actions.len() - 2],
            2,
        ) && is_acknowledgement(answers.last().event) {
            carried(actions[actions.len() - 2])
        } else {
            Seq::empty()
        }
    }
}

proof fn lemma_packet_kinds(total: u32, payload: Seq<u8>)
    requires
        payload.len() <= 250,
    ensures
        protocol::prepare_packet(total)[1] == 0xFF,
        protocol::start_packet()[1] == 1,
        protocol::data_packet(payload)[1] == 2,
        protocol::end_packet()[1] == 0,
        protocol::data_packet(payload)[2] + 256 * protocol::data_packet(payload)[3]
            == payload.len(),
        protocol::data_packet(payload).subrange(6, 6 + payload.len() as int) == payload,
{
    protocol::law_prepare_is_laid_out_like_this(total);
    protocol::law_start_and_end_are_laid_out_like_this();
    protocol::law_data_is_laid_out_like_this(payload);
}

/// What is acknowledged at each stage.
spec fn sent_so_far(
    firmware: Seq<u8>,
    machine: DfuView,
    actions: Seq<DfuActionView>,
    sent: Seq<u8>,
) -> bool {
    &&& machine.firmware == firmware
    &&& machine.inv()
    &&& match machine.stage {
        DfuStage::Idle => actions.len() == 0 && sent.len() == 0,
        DfuStage::Entering | DfuStage::Waiting | DfuStage::Preparing { .. }
        | DfuStage::PreparePause { .. } | DfuStage::Starting { .. } | DfuStage::StartPause { .. } =>
        sent.len() == 0 && !sends(actions.last(), 0) && !sends(actions.last(), 2),
        DfuStage::Sending { offset, .. } => sent == firmware.subrange(0, offset as int)
            && actions.last() == (DfuActionView::Send {
            packet: protocol::data_packet(data_at(firmware, offset as int)),
            timeout_ms: DFU_RW_TIMEOUT_MS,
        }),
        DfuStage::DataPause { offset, .. } => sent == firmware.subrange(0, offset as int)
            && !(actions.last() is Send),
        DfuStage::Resetting => actions.last() == DfuActionView::Reset,
        DfuStage::Ending => sent == firmware && sends(actions.last(), 0) && !sends(
            actions.last(),
            2,
        ),
        DfuStage::Rebooting => sent == firmware && actions.last()
            == DfuActionView::WaitForNormalDevice,
        DfuStage::Finished => actions.last() matches DfuActionView::Finish(r) && (r is Ok ==> sent
            == firmware),
    }
}

/// What an answer adds to what is acknowledged.
spec fn added(machine: DfuView, last: DfuActionView, event: DfuEventView) -> Seq<u8> {
    if machine.stage != DfuStage::Idle && sends(last, 2) && is_acknowledgement(event) {
        carried(last)
    } else {
        Seq::empty()
    }
}

proof fn lemma_acknowledged_data(firmware: Seq<u8>, offset: int, sent: Seq<u8>, last: DfuActionView)
    requires
        0 <= offset < firmware.len(),
        sent == firmware.subrange(0, offset),
        last == (DfuActionView::Send {
            packet: protocol::data_packet(data_at(firmware, offset)),
            timeout_ms: DFU_RW_TIMEOUT_MS,
        }),
    ensures
        sends(last, 2),
        sent + carried(last) == firmware.subrange(0, data_end(firmware.len() as int, offset)),
{
    lemma_data_at(firmware, offset);
    lemma_carried(data_at(firmware, offset), last);
}

proof fn lemma_data_at(firmware: Seq<u8>, offset: int)
    requires
        0 <= offset < firmware.len(),
    ensures
        0 < data_at(firmware, offset).len() <= 250,
        firmware.subrange(0, offset) + data_at(firmware, offset) == firmware.subrange(
            0,
            data_end(firmware.len() as int, offset),
        ),
{
    assert(firmware.subrange(0, offset) + data_at(firmware, offset) =~= firmware.subrange(
        0,
        data_end(firmware.len() as int, offset),
    ));
}

proof fn lemma_carried(data: Seq<u8>, action: DfuActionView)
    requires
        data.len() <= 250,
        action matches DfuActionView::Send { packet, .. } && packet == protocol::data_packet(data),
    ensures
        sends(action, 2),
        carried(action) == data,
{
    protocol::law_data_is_laid_out_like_this(data);
}

/// The stage that follows an acknowledged packet, and what goes out then.
proof fn lemma_step_after_acknowledgement(s: DfuView, r: DfuResponse, cancelled: bool)
    requires
        s.inv(),
        s.firmware.len() <= usize::MAX,
        s.stage is Sending,
        r.result == 0,
    ensures
        ({
            let step = dfu_step(s, DfuEventView::Reply(r), cancelled);
            let end = data_end(s.firmware.len() as int, s.stage->Sending_offset as int);
            &&& step.next.firmware == s.firmware
            &&& end >= s.firmware.len() ==> step.next.stage == DfuStage::Ending && step.action == (
            DfuActionView::Send { packet: protocol::end_packet(), timeout_ms: DFU_END_TIMEOUT_MS })
            &&& end < s.firmware.len() && cancelled ==> step.next.stage == DfuStage::Resetting
                && step.next.failure is Some && step.action == DfuActionView::Reset
            &&& end < s.firmware.len() && !cancelled ==> step.next.stage == (DfuStage::Sending {
                offset: end as usize,
                retry: 0,
            }) && step.action == (DfuActionView::Send {
                packet: protocol::data_packet(data_at(s.firmware, end)),
                timeout_ms: DFU_RW_TIMEOUT_MS,
            })
        }),
{
}

proof fn lemma_step_while_sending(
    firmware: Seq<u8>,
    machine: DfuView,
    actions: Seq<DfuActionView>,
    sent: Seq<u8>,
    event: DfuEventView,
    cancelled: bool,
)
    requires
        firmware.len() <= usize::MAX,
        machine.stage is Sending,
        actions.len() > 0,
        sent_so_far(firmware, machine, actions, sent),
        machine.expects(event),
    ensures
        ({
            let step = dfu_step(machine, event, cancelled);
            sent_so_far(
                firmware,
                step.next,
                actions.push(step.action),
                sent + added(machine, actions.last(), event),
            )
        }),
{
    let offset = machine.stage->Sending_offset;
    let step = dfu_step(machine, event, cancelled);
    let now = sent + added(machine, actions.last(), event);
    assert(actions.push(step.action).last() == step.action);
    match event {
        DfuEventView::Reply(r) if r.result == 0 => {
            let end = data_end(firmware.len() as int, offset as int);
            lemma_acknowledged_data(firmware, offset as int, sent, actions.last());
            lemma_step_after_acknowledgement(machine, r, cancelled);
            assert(now == firmware.subrange(0, end));
            if end >= firmware.len() {
                assert(firmware.subrange(0, end) =~= firmware);
                protocol::law_start_and_end_are_laid_out_like_this();
            }
        },
        _ => {
            assert(now =~= sent);
        },
    }
}

proof fn lemma_step_while_not_sending(
    firmware: Seq<u8>,
    machine: DfuView,
    actions: Seq<DfuActionView>,
    sent: Seq<u8>,
    event: DfuEventView,
    cancelled: bool,
)
    requires
        firmware.len() <= usize::MAX,
        !(machine.stage is Sending),
        machine.stage == DfuStage::Idle || actions.len() > 0,
        sent_so_far(firmware, machine, actions, sent),
        machine.expects(event),
    ensures
        ({
            let step = dfu_step(machine, event, cancelled);
            sent_so_far(firmware, step.next, actions.push(step.action), sent)
        }),
        added(machine, actions.last(), event).len() == 0,
{
    lemma_packet_kinds(machine.total(), Seq::empty());
    let step = dfu_step(machine, event, cancelled);
    assert(actions.push(step.action).last() == step.action);
    assert(firmware.subrange(0, 0) =~= Seq::empty());
    if firmware.len() == 0 && sent.len() == 0 {
        assert(sent =~= firmware);
    }
    if sent.len() == 0 {
        assert(sent =~= firmware.subrange(0, 0));
    }
}

proof fn lemma_sent_so_far(firmware: Seq<u8>, answers: Seq<DfuAnswer>)
    requires
        firmware.len() <= usize::MAX,
        is_answered(firmware, answers),
    ensures
        upgrade_run(firmware, answers).1.len() == answers.len(),
        answers.len() > 0 ==> upgrade_run(firmware, answers).0.stage != DfuStage::Idle,
        sent_so_far(
            firmware,
            upgrade_run(firmware, answers).0,
            upgrade_run(firmware, answers).1,
            acknowledged(upgrade_run(firmware, answers).1, answers),
        ),
    decreases answers.len(),
{
    if answers.len() > 0 {
        lemma_sent_so_far(firmware, answers.drop_last());
        let (machine, before) = upgrade_run(firmware, answers.drop_last());
        let (next, actions) = upgrade_run(firmware, answers);
        let event = answers.last().event;
        let cancelled = answers.last().cancelled;
        assert(actions.drop_last() =~= before);
        let prior = acknowledged(before, answers.drop_last());
        let sent = acknowledged(actions, answers);
        if answers.len() > 1 {
            assert(actions[actions.len() - 2] == before.last());
            assert(sent == prior + added(machine, before.last(), event));
        } else {
            assert(sent =~= prior);
        }
        if machine.stage is Sending {
            lemma_step_while_sending(firmware, machine, before, prior, event, cancelled);
        } else {
            lemma_step_while_not_sending(firmware, machine, before, prior, event, cancelled);
            assert(sent =~= prior);
        }
        lemma_no_way_back(machine, event, cancelled);
    }
}

proof fn lemma_no_way_back(s: DfuView, event: DfuEventView, cancelled: bool)
    requires
        s.inv(),
        s.expects(event),
    ensures
        dfu_step(s, event, cancelled).next.stage != DfuStage::Idle,
{
}

/// Over any run of the upgrade, whatever fails and is sent again: when END is sent, and when the
/// upgrade succeeds, what the board has acknowledged, packet after packet, is the whole firmware,
/// each byte once and in order.
pub proof fn law_the_acknowledged_packets_are_the_firmware(
    firmware: Seq<u8>,
    answers: Seq<DfuAnswer>,
)
    requires
        firmware.len() <= usize::MAX,
        is_answered(firmware, answers),
        answers.len() > 0,
    ensures
        ({
            let actions = upgrade_run(firmware, answers).1;
            sends(actions.last(), 0) || actions.last() == DfuActionView::Finish(Ok(()))
                ==> acknowledged(actions, answers) == firmware
        }),
{
    lemma_sent_so_far(firmware, answers);
    let (machine, actions) = upgrade_run(firmware, answers);
    lemma_packet_kinds(firmware.len() as u32, Seq::empty());
    match machine.stage {
        DfuStage::Sending { offset, .. } => {
            lemma_packet_kinds(firmware.len() as u32, data_at(firmware, offset as int));
        },
        _ => {},
    }
}

/// Whichever step leads to the stage that sends from `offset`, the packet that it sends carries
/// the firmware from there on, 250 bytes of it or what is left.
pub proof fn law_a_packet_carries_the_firmware_from_its_offset(
    s: DfuView,
    event: DfuEventView,
    cancelled: bool,
)
    requires
        s.inv(),
        s.expects(event),
        s.firmware.len() <= usize::MAX,
    ensures
        dfu_step(s, event, cancelled).next.stage matches DfuStage::Sending { offset, retry } ==> {
            let left = s.firmware.len() - offset;
            let n = if left < 250 {
                left
            } else {
                250
            };
            &&& offset < s.firmware.len()
            &&& sends(dfu_step(s, event, cancelled).action, 2)
            &&& carried(dfu_step(s, event, cancelled).action) == s.firmware.subrange(
                offset as int,
                offset + n,
            )
            &&& dfu_step(s, event, cancelled).action->timeout_ms == 3000
        },
        dfu_step(s, event, cancelled).next.firmware == s.firmware,
{
    let step = dfu_step(s, event, cancelled);
    match step.next.stage {
        DfuStage::Sending { offset, .. } => {
            lemma_packet_kinds(0, data_at(s.firmware, offset as int));
        },
        _ => {},
    }
}

/// The way of an upgrade in which all goes well: enter, wait for the device, PREPARE with the
/// length of the firmware, START, DATA from the first byte, each packet from where the last one
/// ended, END after the last, wait for the restart, done.
pub proof fn law_an_answered_upgrade_goes_on(s: DfuView, reply: DfuResponse)
    requires
        s.inv(),
        0 < s.firmware.len() <= u32::MAX,
        reply.result == 0,
    ensures
        ({
            let done = dfu_step(s, DfuEventView::Done, false);
            let replied = dfu_step(s, DfuEventView::Reply(reply), false);
            match s.stage {
                DfuStage::Idle => done.action == DfuActionView::EnterDfu && done.next.stage
                    == DfuStage::Entering,
                DfuStage::Entering => done.action == DfuActionView::WaitForDfuDevice
                    && done.next.stage == DfuStage::Waiting,
                DfuStage::Waiting => sends(done.action, 0xFF) && done.action->packet[2] + 256
                    * done.action->packet[3] + 65536 * done.action->packet[4] + 16777216
                    * done.action->packet[5] == s.firmware.len() && done.action->timeout_ms == 8000
                    && done.next.stage == (DfuStage::Preparing { attempt: 1 }),
                DfuStage::Preparing { .. } => sends(replied.action, 1)
                    && replied.action->timeout_ms == 8000 && replied.next.stage
                    == (DfuStage::Starting { attempt: 1 }),
                DfuStage::Starting { .. } => replied.next.stage == (DfuStage::Sending {
                    offset: 0,
                    retry: 0,
                }),
                DfuStage::Sending { offset, .. } => if offset + 250 < s.firmware.len() {
                    replied.next.stage == (DfuStage::Sending {
                        offset: (offset + 250) as usize,
                        retry: 0,
                    })
                } else {
                    sends(replied.action, 0) && replied.action->timeout_ms == 5000
                        && replied.next.stage == DfuStage::Ending
                },
                DfuStage::Ending => replied.action == DfuActionView::WaitForNormalDevice
                    && replied.next.stage == DfuStage::Rebooting,
                DfuStage::Rebooting => done.action == DfuActionView::Finish(Ok(())),
                _ => true,
            }
        }),
{
    lemma_packet_kinds(s.firmware.len() as u32, data_at(s.firmware, 0));
    protocol::law_prepare_is_laid_out_like_this(s.firmware.len() as u32);
}

/// What is not answered is tried again: PREPARE and START once more after half a second, a DATA
/// packet up to twice more after a tenth of a second, the same packet each time; an answer that
/// reports an error ends PREPARE and START at once.
pub proof fn law_an_unanswered_packet_is_sent_again(
    s: DfuView,
    why: Seq<char>,
    refusal: DfuResponse,
    cancelled: bool,
)
    requires
        s.inv(),
        refusal.result != 0,
    ensures
        ({
            let silent = dfu_step(s, DfuEventView::NoReply(why), cancelled);
            let refused = dfu_step(s, DfuEventView::Reply(refusal), cancelled);
            let again = dfu_step(silent.next, DfuEventView::Done, false);
            match s.stage {
                DfuStage::Preparing { attempt } => {
                    &&& refused.action == DfuActionView::Reset
                    &&& attempt == 1 ==> silent.action == (DfuActionView::Pause { ms: 500 })
                        && sends(again.action, 0xFF) && again.next.stage == (DfuStage::Preparing {
                        attempt: 2,
                    })
                    &&& attempt == 2 ==> silent.action == DfuActionView::Reset
                },
                DfuStage::Starting { attempt } => {
                    &&& refused.action == DfuActionView::Reset
                    &&& attempt == 1 ==> silent.action == (DfuActionView::Pause { ms: 500 })
                        && sends(again.action, 1) && again.next.stage == (DfuStage::Starting {
                        attempt: 2,
                    })
                    &&& attempt == 2 ==> silent.action == DfuActionView::Reset
                },
                DfuStage::Sending { offset, retry } => {
                    &&& retry < 2 ==> silent.action == (DfuActionView::Pause { ms: 100 })
                        && refused.action == silent.action && refused.next == silent.next
                        && again.next.stage == (DfuStage::Sending {
                        offset,
                        retry: (retry + 1) as u8,
                    })
                    &&& retry == 2 ==> silent.action == DfuActionView::Reset && refused.action
                        == DfuActionView::Reset
                },
                _ => true,
            }
        }),
{
    lemma_packet_kinds(s.total(), Seq::empty());
}

/// A cancelled upgrade sends no further firmware: where the next DATA packet would go out, the
/// board is reset, and the upgrade then ends with that reason.
pub proof fn law_a_cancelled_upgrade_sends_no_more(s: DfuView, event: DfuEventView)
    requires
        s.inv(),
        s.expects(event),
    ensures
        ({
            let step = dfu_step(s, event, true);
            let calm = dfu_step(s, event, false);
            &&& !(step.next.stage is Sending)
            &&& calm.next.stage is Sending ==> {
                &&& step.action == DfuActionView::Reset
                &&& dfu_step(step.next, DfuEventView::Done, true).action == DfuActionView::Finish(
                    Err("用户取消升级"@),
                )
            }
            &&& !(calm.next.stage is Sending) ==> step == calm
        }),
{
}

/// A failure is reported once the board has been reset, as a failed phase and as the result.
pub proof fn law_a_reset_reports_its_failure(s: DfuView, cancelled: bool)
    requires
        s.inv(),
        s.stage == DfuStage::Resetting,
    ensures
        ({
            let step = dfu_step(s, DfuEventView::Done, cancelled);
            &&& step.action == DfuActionView::Finish(Err(s.failure.unwrap().error))
            &&& step.progress.len() == 1
            &&& step.progress[0].phase == DfuPhase::Failed
            &&& step.progress[0].message == Some(s.failure.unwrap().message)
            &&& step.progress[0].bytes_written == s.failure.unwrap().bytes_written
        }),
{
}

/// The progress that is reported tells how much of the firmware the board has acknowledged, out
/// of its whole length: nothing before the transfer, then the end of each acknowledged packet,
/// then everything.
pub proof fn law_progress_tells_what_was_acknowledged(
    s: DfuView,
    event: DfuEventView,
    cancelled: bool,
)
    requires
        s.inv(),
        s.expects(event),
        s.firmware.len() <= u32::MAX,
        !(s.stage is Resetting),
    ensures
        forall|i: int|
            0 <= i < dfu_step(s, event, cancelled).progress.len() ==> {
                let p = #[trigger] dfu_step(s, event, cancelled).progress[i];
                &&& p.total_bytes == s.firmware.len()
                &&& match s.stage {
                    DfuStage::Sending { offset, .. } => p.bytes_written == (if offset + 250
                        < s.firmware.len() {
                        offset + 250
                    } else {
                        s.firmware.len() as int
                    }),
                    DfuStage::Ending | DfuStage::Rebooting => p.bytes_written == s.firmware.len(),
                    _ => p.bytes_written == 0 || s.firmware.len() == 0,
                }
            },
        s.stage is Sending && is_acknowledgement(event) ==> dfu_step(
            s,
            event,
            cancelled,
        ).progress.len() > 0,
{
}

/// Progress reports are seen one by one, in their order; an error that the board reports is told
/// with its code in two hexadecimal digits.
pub proof fn law_reports_are_seen_one_by_one(list: Seq<DfuProgress>, i: int, result: u8)
    requires
        0 <= i < list.len(),
    ensures
        progress_views(list).len() == list.len(),
        progress_views(list)[i] == list[i]@,
        error_result_text(result) == "设备返回错误 result=0x"@ + text::hex_text(result as nat, 2),
{
}

} // verus!
