//! Report share links at the boundary: the requests and the expiry
//! rule.

use vstd::prelude::*;

verus! {

/// A plain acknowledgement.
pub struct OkResponse {
    pub ok: bool,
}

/// Request to share a student's term report.
pub struct ShareStudentTermReportRequest {
    pub expires_days: Option<i64>,
}

/// A minted share link.
pub struct ShareReportResponse {
    pub token: String,
    pub expires_at: String,
}

/// Query carrying a share token.
pub struct PublicReportQuery {
    pub token: String,
}

/// How long a share link lives: the requested number of days,
/// defaulting to 30 and clamped between 1 and 365.
pub fn share_expiry_days(requested: Option<i64>) -> (r: i64)
    ensures
        r == ({
            let d = match requested {
                Some(v) => v,
                None => 30,
            };
            if d < 1 {
                1
            } else if d > 365 {
                365
            } else {
                d
            }
        }),
{
    let d: i64 = match requested {
        Some(v) => v,
        None => 30,
    };
    if d < 1 {
        1
    } else if d > 365 {
        365
    } else {
        d
    }
}

} // verus!
