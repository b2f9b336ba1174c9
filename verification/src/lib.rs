use vstd::prelude::*;

pub mod response;
pub mod routing;
pub mod store;
pub mod upload;

verus! {

/// Largest multipart body, in bytes, that an upload request may carry.
pub const MAX_UPLOAD_BYTES: u64 = 20_000_000;

/// True exactly when a multipart body of `total_size` bytes is accepted.
pub fn within_upload_limit(total_size: u64) -> (r: bool)
    ensures
        r == (total_size <= MAX_UPLOAD_BYTES),
{
    total_size <= MAX_UPLOAD_BYTES
}

} // verus!
