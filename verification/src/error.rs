//! What can go wrong, and the message that the user is shown for it.

use vstd::prelude::*;
use crate::text::{decimal, decimal_string};

verus! {

/// A failure of the verifier, each with the message that is shown for it.
#[derive(Debug, PartialEq, Eq, Structural)]
pub enum AppError {
    /// The key text decodes to no 32-byte key.
    InvalidKeyText,
    /// The cipher refused the key because of its length.
    InvalidKeyLength,
    /// The encrypted data is shorter than a nonce.
    DataTooShort,
    /// Authenticated decryption of a data file failed.
    DecryptFailed,
    /// The file does not start with the video container's magic.
    NotVideo,
    /// A field of the video container's header is zero.
    BadVideoHeader,
    /// Authenticated decryption of the video block with this index failed.
    VideoBlockFailed(usize),
    /// A zip archive holds no `.enc` file.
    NoEncryptedEntries,
    /// The file to decrypt does not exist.
    FileMissing,
    /// The lock on the registry of results is poisoned.
    ResultsLockFailed,
    /// The lock on the temporary directory is poisoned.
    TempLockFailed,
    /// No result is registered under the requested id.
    ResultMissing,
    /// The user cancelled the save dialog.
    SaveCancelled,
    /// The save dialog returned a location that is no file path.
    InvalidSavePath,
}

/// The message shown for an error.
pub open spec fn message(err: AppError) -> Seq<char> {
    match err {
        AppError::InvalidKeyText => "密钥必须是 32 字节 AES key，可使用 base64 或 hex"@,
        AppError::InvalidKeyLength => "密钥长度无效"@,
        AppError::DataTooShort => "加密数据长度不足"@,
        AppError::DecryptFailed => "解密失败，密钥错误或文件损坏"@,
        AppError::NotVideo => "不是 PKVIDEO1 加密视频"@,
        AppError::BadVideoHeader => "视频头字段无效"@,
        AppError::VideoBlockFailed(i) => "解密视频块 "@ + decimal(i as nat) + " 失败"@,
        AppError::NoEncryptedEntries => "zip 中未找到 .enc 文件"@,
        AppError::FileMissing => "文件不存在"@,
        AppError::ResultsLockFailed => "结果锁定失败"@,
        AppError::TempLockFailed => "临时目录锁定失败"@,
        AppError::ResultMissing => "结果不存在或已清理"@,
        AppError::SaveCancelled => "已取消保存"@,
        AppError::InvalidSavePath => "保存路径无效"@,
    }
}

/// The message of an error, as the user sees it.
pub fn to_string(err: &AppError) -> (s: String)
    ensures
        s@ == message(*err),
{
    match err {
        AppError::InvalidKeyText => String::from_str("密钥必须是 32 字节 AES key，可使用 base64 或 hex"),
        AppError::InvalidKeyLength => String::from_str("密钥长度无效"),
        AppError::DataTooShort => String::from_str("加密数据长度不足"),
        AppError::DecryptFailed => String::from_str("解密失败，密钥错误或文件损坏"),
        AppError::NotVideo => String::from_str("不是 PKVIDEO1 加密视频"),
        AppError::BadVideoHeader => String::from_str("视频头字段无效"),
        AppError::VideoBlockFailed(i) => {
            let mut s = String::from_str("解密视频块 ");
            let n = decimal_string(*i);
            s.append(n.as_str());
            s.append(" 失败");
            s
        },
        AppError::NoEncryptedEntries => String::from_str("zip 中未找到 .enc 文件"),
        AppError::FileMissing => String::from_str("文件不存在"),
        AppError::ResultsLockFailed => String::from_str("结果锁定失败"),
        AppError::TempLockFailed => String::from_str("临时目录锁定失败"),
        AppError::ResultMissing => String::from_str("结果不存在或已清理"),
        AppError::SaveCancelled => String::from_str("已取消保存"),
        AppError::InvalidSavePath => String::from_str("保存路径无效"),
    }
}

} // verus!
