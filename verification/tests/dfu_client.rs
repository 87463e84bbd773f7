use reai_board_sdk::dfu::client::{
    wait_for_dfu_device, wait_for_normal_device, DfuAction, DfuClient, DfuEvent, DfuStage,
    DfuStep, WaitStep,
};
use reai_board_sdk::dfu::protocol::{read_response, DfuPacketEncoder, DfuResponse};
use reai_board_sdk::dfu::recover::{
    recover_stuck_dfu, was_delivered, RecoveryAction, RecoveryEvent, WriteOutcome,
};
use reai_board_sdk::dfu::types::{DfuPhase, RecoveryOutcome};

fn answer(result: u8) -> DfuEvent {
    DfuEvent::Reply(DfuResponse {
        flag: 0,
        packet_size: 0,
        checksum: 0,
        result,
        total_written: 0,
    })
}

fn phases(step: &DfuStep) -> Vec<(DfuPhase, u8)> {
    step.progress.iter().map(|p| (p.phase, p.percent)).collect()
}

fn sending(firmware: Vec<u8>) -> DfuClient {
    let mut c = DfuClient::new(firmware);
    assert!(matches!(c.upgrade(DfuEvent::Done, false).action, DfuAction::EnterDfu));
    assert!(matches!(c.upgrade(DfuEvent::Done, false).action, DfuAction::WaitForDfuDevice));
    let step = c.upgrade(DfuEvent::Done, false);
    assert!(matches!(step.action, DfuAction::Send { timeout_ms: 8000, .. }));
    assert_eq!(phases(&step), vec![(DfuPhase::Preparing, 0)]);
    assert!(matches!(c.upgrade(answer(0), false).action, DfuAction::Send { timeout_ms: 8000, .. }));
    c
}

fn failure(step: DfuStep) -> (String, Option<String>) {
    let reported = step.progress.last().and_then(|p| {
        assert_eq!(p.phase, DfuPhase::Failed);
        p.message.clone()
    });
    match step.action {
        DfuAction::Finish(Err(e)) => (e, reported),
        _ => panic!("a failure was expected"),
    }
}

#[test]
fn an_upgrade_sends_the_whole_firmware() {
    let firmware: Vec<u8> = (0..300).map(|i| i as u8).collect();
    let mut c = sending(firmware.clone());
    let step = c.upgrade(answer(0), false);
    match step.action {
        DfuAction::Send { packet, timeout_ms } => {
            assert_eq!(packet, DfuPacketEncoder::data(&firmware[..250]).unwrap());
            assert_eq!(timeout_ms, 3000);
        }
        _ => panic!("data was expected"),
    }
    let step = c.upgrade(answer(0), false);
    assert_eq!(phases(&step), vec![(DfuPhase::Transferring, 83)]);
    match step.action {
        DfuAction::Send { packet, .. } => {
            assert_eq!(packet, DfuPacketEncoder::data(&firmware[250..]).unwrap())
        }
        _ => panic!("data was expected"),
    }
    let step = c.upgrade(answer(0), false);
    assert_eq!(
        phases(&step),
        vec![(DfuPhase::Transferring, 100), (DfuPhase::Verifying, 100)]
    );
    match step.action {
        DfuAction::Send { packet, timeout_ms } => {
            assert_eq!(packet, DfuPacketEncoder::end());
            assert_eq!(timeout_ms, 5000);
        }
        _ => panic!("the end was expected"),
    }
    let step = c.upgrade(DfuEvent::NoReply("silent".to_string()), false);
    assert_eq!(phases(&step), vec![(DfuPhase::Rebooting, 100)]);
    assert!(matches!(step.action, DfuAction::WaitForNormalDevice));
    let step = c.upgrade(DfuEvent::Done, false);
    assert_eq!(phases(&step), vec![(DfuPhase::Completed, 100)]);
    assert!(matches!(step.action, DfuAction::Finish(Ok(()))));
    assert_eq!(c.stage(), DfuStage::Finished);
}

#[test]
fn an_empty_file_is_refused() {
    let mut c = DfuClient::new(Vec::new());
    let step = c.upgrade(DfuEvent::Done, false);
    assert!(step.progress.is_empty());
    assert!(matches!(step.action, DfuAction::Finish(Err(e)) if e == "固件文件为空"));
}

#[test]
fn entering_and_waiting_can_fail() {
    let mut c = DfuClient::new(vec![1]);
    c.upgrade(DfuEvent::Done, false);
    let step = c.upgrade(DfuEvent::Failed("no".to_string()), false);
    assert_eq!(failure(step).0, "进入 DFU 失败: no");
    let mut c = DfuClient::new(vec![1]);
    c.upgrade(DfuEvent::Done, false);
    c.upgrade(DfuEvent::Done, false);
    let step = c.upgrade(DfuEvent::Failed("用户取消".to_string()), false);
    assert_eq!(failure(step), ("用户取消".to_string(), Some("用户取消".to_string())));
}

#[test]
fn a_silent_prepare_is_tried_twice_and_then_reset() {
    let mut c = DfuClient::new(vec![1]);
    c.upgrade(DfuEvent::Done, false);
    c.upgrade(DfuEvent::Done, false);
    c.upgrade(DfuEvent::Done, false);
    let step = c.upgrade(DfuEvent::NoReply("late".to_string()), false);
    assert!(matches!(step.action, DfuAction::Pause { ms: 500 }));
    assert!(matches!(c.upgrade(DfuEvent::Done, false).action, DfuAction::Send { .. }));
    let step = c.upgrade(DfuEvent::NoReply("late".to_string()), false);
    assert!(matches!(step.action, DfuAction::Reset));
    let (error, message) = failure(c.upgrade(DfuEvent::Done, false));
    assert_eq!(error, "PREPARE 失败");
    assert_eq!(message, Some("PREPARE 失败: PREPARE 失败: late".to_string()));
}

#[test]
fn a_refused_start_is_reset() {
    let mut c = sending(vec![1]);
    assert!(matches!(c.upgrade(answer(0xFF), false).action, DfuAction::Reset));
    let (error, message) = failure(c.upgrade(DfuEvent::Done, false));
    assert_eq!(error, "START 失败");
    assert_eq!(message, Some("START 失败: 设备返回错误 result=0xFF".to_string()));
}

#[test]
fn data_is_tried_three_times() {
    let mut c = sending(vec![7; 600]);
    c.upgrade(answer(0), false);
    c.upgrade(answer(0), false);
    for _ in 0..2 {
        assert!(matches!(c.upgrade(answer(1), false).action, DfuAction::Pause { ms: 100 }));
        assert!(matches!(c.upgrade(DfuEvent::Done, false).action, DfuAction::Send { .. }));
    }
    assert!(matches!(c.upgrade(answer(1), false).action, DfuAction::Reset));
    let step = c.upgrade(DfuEvent::Done, false);
    assert_eq!(step.progress[0].bytes_written, 250);
    assert_eq!(failure(step).0, "DATA 传输失败，重试 3 次后放弃 (offset=250)");

    let mut c = sending(vec![7; 600]);
    c.upgrade(answer(0), false);
    for _ in 0..2 {
        c.upgrade(DfuEvent::NoReply("x".to_string()), false);
        c.upgrade(DfuEvent::Done, false);
    }
    c.upgrade(DfuEvent::NoReply("x".to_string()), false);
    assert_eq!(failure(c.upgrade(DfuEvent::Done, false)).0, "DATA 通信失败: x (offset=0)");
}

#[test]
fn a_cancelled_upgrade_is_reset() {
    let mut c = sending(vec![7; 600]);
    c.upgrade(answer(0), false);
    assert!(matches!(c.upgrade(answer(0), true).action, DfuAction::Reset));
    assert_eq!(failure(c.upgrade(DfuEvent::Done, true)).0, "用户取消升级");
}

#[test]
fn waits_have_limits() {
    assert!(matches!(wait_for_dfu_device(0, false), WaitStep::Look));
    assert!(matches!(wait_for_dfu_device(9_999, true), WaitStep::GiveUp(t) if t == "用户取消"));
    assert!(matches!(
        wait_for_dfu_device(10_000, false),
        WaitStep::GiveUp(t) if t == "等待 DFU 设备超时 (10s)"
    ));
    assert!(wait_for_normal_device(14_999));
    assert!(!wait_for_normal_device(15_000));
}

#[test]
fn responses_may_carry_a_report_id() {
    let body = [0x02, 0xFA, 0x00, 0x34, 0x12, 0x00, 0xFA, 0x00, 0x00, 0x00];
    let mut with_id = vec![0xA1];
    with_id.extend_from_slice(&body);
    let plain = read_response(&body, 3000).unwrap();
    let tagged = read_response(&with_id, 3000).unwrap();
    assert_eq!(plain.total_written, 250);
    assert_eq!(plain.checksum, tagged.checksum);
    assert!(tagged.is_success());
    assert_eq!(read_response(&[], 3000).unwrap_err(), "DFU 响应超时 (3000ms)");
}

#[test]
fn a_stuck_board_is_reset_and_waited_for() {
    let next = |e| recover_stuck_dfu(e).1;
    assert!(matches!(
        next(RecoveryEvent::Scanned { stuck: false }),
        RecoveryAction::Finish(RecoveryOutcome::NotStuck)
    ));
    assert!(matches!(next(RecoveryEvent::Scanned { stuck: true }), RecoveryAction::Send));
    assert!(matches!(
        next(RecoveryEvent::Sent { delivered: false }),
        RecoveryAction::Finish(RecoveryOutcome::StillStuck)
    ));
    assert!(matches!(next(RecoveryEvent::Sent { delivered: true }), RecoveryAction::LookAgain));
    assert!(matches!(
        next(RecoveryEvent::Looked { back: true, elapsed_ms: 30_000 }),
        RecoveryAction::Finish(RecoveryOutcome::Recovered)
    ));
    assert!(matches!(
        next(RecoveryEvent::Looked { back: false, elapsed_ms: 19_999 }),
        RecoveryAction::LookAgain
    ));
    assert!(matches!(
        next(RecoveryEvent::Looked { back: false, elapsed_ms: 20_000 }),
        RecoveryAction::Finish(RecoveryOutcome::StillStuck)
    ));
}

#[test]
fn one_written_packet_is_enough() {
    assert!(was_delivered(WriteOutcome::WriteFailed, WriteOutcome::SentNoAnswer));
    assert!(was_delivered(WriteOutcome::Answered, WriteOutcome::WriteFailed));
    assert!(!was_delivered(WriteOutcome::WriteFailed, WriteOutcome::WriteFailed));
}
