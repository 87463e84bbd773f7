use reai_board_sdk::kernel::bindings_blob::BlobWriteError;
use reai_board_sdk::BoardError;

#[test]
fn errors_say_where_they_come_from() {
    let s = || "x".to_string();
    assert_eq!(BoardError::msg(s()).message(), "x");
    assert_eq!(BoardError::Other(s()).message(), "x");
    assert_eq!(BoardError::Hid(s()).message(), "HID 错误: x");
    assert_eq!(BoardError::Ble(s()).message(), "BLE 错误: x");
    assert_eq!(BoardError::Io(s()).message(), "x");
    assert_eq!(BoardError::Timeout(s()).message(), "命令超时: x");
    assert_eq!(BoardError::Protocol(s()).message(), "协议错误: x");
    assert_eq!(BoardError::NotConnected.message(), "设备未连接");
    assert_eq!(BoardError::NotStarted.message(), "SDK 未启动");
}

#[test]
fn write_errors_say_what_went_wrong() {
    assert_eq!(BlobWriteError::TooLarge.message(), "blob payload 超过 3830 字节");
    assert_eq!(BlobWriteError::Unsupported.message(), "固件不支持绑定配置块（无回包）");
    assert_eq!(
        BlobWriteError::CommitRejected(2).message(),
        "commit 被固件拒绝（detail=2）"
    );
    assert_eq!(BlobWriteError::VerifyMismatch.message(), "写入后回读校验不一致");
    assert_eq!(BlobWriteError::Transport("x".to_string()).message(), "传输错误: x");
}
