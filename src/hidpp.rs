//! The direct protocol query for the battery level: the request frame that is written
//! to the device and how its response is read.
use vstd::prelude::*;

verus! {

/// Report id of a short protocol message; a response that answers it starts with it.
pub const SHORT_REPORT_ID: u8 = 0x10;

/// The offset of the battery percentage in a response.
pub const BATTERY_OFFSET: usize = 6;

/// The request: short report id, receiver device index 0xFF, feature 0, function 0.
pub open spec fn request_frame() -> Seq<u8> {
    seq![0x10u8, 0xFFu8, 0x00u8, 0x00u8]
}

pub fn battery_request() -> (r: Vec<u8>)
    ensures
        r@ == request_frame(),
{
    let r = vec![SHORT_REPORT_ID, 0xFF, 0x00, 0x00];
    assert(r@ =~= request_frame());
    r
}

/// The battery level that a response gives: the byte at the battery offset, where the
/// read gave at least seven bytes and the first echoes the report id.
pub open spec fn level_in_response(bytes_read: int, response: Seq<u8>) -> Option<u8> {
    if bytes_read >= 7 && response[0] == 0x10 {
        Some(response[6])
    } else {
        None
    }
}

/// The battery level in a response of which `bytes_read` bytes were read, or `None`
/// where the read failed (`None` for `bytes_read`) or the response is not an answer.
pub fn battery_from_response(bytes_read: Option<usize>, response: &[u8]) -> (r: Option<u8>)
    requires
        bytes_read is Some ==> bytes_read->0 <= response@.len(),
    ensures
        r == match bytes_read {
            Some(n) => level_in_response(n as int, response@),
            None => None,
        },
{
    match bytes_read {
        None => None,
        Some(n) => {
            if n >= 7 && response[0] == SHORT_REPORT_ID {
                Some(response[BATTERY_OFFSET])
            } else {
                None
            }
        },
    }
}

} // verus!
