use photokeep_verifier::error::{to_string, AppError};
use photokeep_verifier::text::decimal_string;

#[test]
fn messages_shown_to_the_user() {
    assert_eq!(to_string(&AppError::InvalidKeyText), "密钥必须是 32 字节 AES key，可使用 base64 或 hex");
    assert_eq!(to_string(&AppError::InvalidKeyLength), "密钥长度无效");
    assert_eq!(to_string(&AppError::DataTooShort), "加密数据长度不足");
    assert_eq!(to_string(&AppError::DecryptFailed), "解密失败，密钥错误或文件损坏");
    assert_eq!(to_string(&AppError::NotVideo), "不是 PKVIDEO1 加密视频");
    assert_eq!(to_string(&AppError::BadVideoHeader), "视频头字段无效");
    assert_eq!(to_string(&AppError::VideoBlockFailed(0)), "解密视频块 0 失败");
    assert_eq!(to_string(&AppError::VideoBlockFailed(1207)), "解密视频块 1207 失败");
    assert_eq!(to_string(&AppError::NoEncryptedEntries), "zip 中未找到 .enc 文件");
    assert_eq!(to_string(&AppError::ResultMissing), "结果不存在或已清理");
}

#[test]
fn decimal_notation() {
    assert_eq!(decimal_string(0), "0");
    assert_eq!(decimal_string(9), "9");
    assert_eq!(decimal_string(10), "10");
    assert_eq!(decimal_string(usize::MAX), usize::MAX.to_string());
}
