//! Planning the write of one uploaded file, before anything is written.
use vstd::prelude::*;
use crate::body::{payload_length, payload_spec};
use crate::error::ErrorKind;
use crate::headers::{boundary_of, boundary_spec, HeaderScanner};
use crate::naming::{first_free_name, is_first_free, names_of};

verus! {

/// Where an upload goes and how many bytes of it are written.
pub struct UploadPlan {
    /// The output name, free when the plan was made.
    pub output: Vec<u8>,
    /// The payload length: exactly this many bytes are written.
    pub payload_len: usize,
}

/// Plans the upload whose headers `scan` has read, given the declared body length,
/// the `Content-Type` header value and the names that already exist. The payload
/// length is checked first: a malformed length fails before any name is chosen,
/// so nothing is created or written.
pub fn plan_upload(
    scan: &HeaderScanner,
    content_length: usize,
    content_type: &[u8],
    taken: &Vec<Vec<u8>>,
) -> (r: Result<UploadPlan, ErrorKind>)
    ensures
        !scan@.finished ==> r == Err::<UploadPlan, ErrorKind>(ErrorKind::UnterminatedHeaders),
        scan@.finished ==> {
            let k = payload_spec(
                content_length as nat,
                scan@.consumed,
                boundary_spec(content_type@).len(),
            );
            &&& k < 0 ==> r == Err::<UploadPlan, ErrorKind>(ErrorKind::LengthMismatch)
            &&& k >= 0 ==> r is Ok && r->Ok_0.payload_len == k && is_first_free(
                scan@.file_name,
                names_of(taken@),
                r->Ok_0.output@,
            )
        },
{
    if !scan.is_finished() {
        return Err(ErrorKind::UnterminatedHeaders);
    }
    let boundary = boundary_of(content_type);
    let payload_len = match payload_length(content_length, scan.consumed(), boundary.len()) {
        Ok(n) => n,
        Err(e) => {
            return Err(e);
        },
    };
    let name = scan.file_name();
    let output = first_free_name(name.as_slice(), taken);
    Ok(UploadPlan { output, payload_len })
}

} // verus!
