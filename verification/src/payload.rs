//! Image payloads that arrive as Base64 text.
use vstd::prelude::*;
use crate::base64::{base64_decode, base64_decode_spec};
use crate::error::{AppError, AppResult};

verus! {

/// Longest Base64 text for payloads of at most `max_bytes` bytes.
pub open spec fn max_base64_length(max_bytes: int) -> int {
    (max_bytes + 2) / 3 * 4
}

/// Decodes an uploaded or captured image payload: the text must be non-empty, canonical
/// Base64 no longer than needed for `max_bytes`, and the payload non-empty and at most
/// `max_bytes` long. Size failures carry `size_code`; encoding failures
/// `CUSTOM_IMAGE_DATA_INVALID`.
pub fn decode_image_base64(value: &str, max_bytes: usize, size_code: &str, size_message: &str) -> (r:
    AppResult<Vec<u8>>)
    requires
        max_base64_length(max_bytes as int) <= usize::MAX,
    ensures
        ({
            let n = value.len();
            let decoded = base64_decode_spec(value@);
            let size_bad = n == 0 || n > max_base64_length(max_bytes as int);
            match r {
                Ok(bytes) => !size_bad && decoded == Some(bytes@) && 0 < bytes@.len() <= max_bytes,
                Err(e) => if size_bad {
                    e.code@ == size_code@
                } else {
                    match decoded {
                        None => e.code@ == "CUSTOM_IMAGE_DATA_INVALID"@,
                        Some(b) => (b.len() == 0 || b.len() > max_bytes) && e.code@ == size_code@,
                    }
                },
            }
        }),
{
    let groups = if max_bytes % 3 == 0 { max_bytes / 3 } else { max_bytes / 3 + 1 };
    assert(groups == (max_bytes + 2) / 3);
    let max_length = groups * 4;
    if value.len() == 0 || value.len() > max_length {
        return Err(AppError::new(size_code, size_message));
    }
    match base64_decode(value) {
        None => Err(AppError::new("CUSTOM_IMAGE_DATA_INVALID", "图片数据编码无效。")),
        Some(bytes) => {
            if bytes.len() == 0 || bytes.len() > max_bytes {
                Err(AppError::new(size_code, size_message))
            } else {
                Ok(bytes)
            }
        },
    }
}

} // verus!
