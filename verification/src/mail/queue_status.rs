//! The values of `queue_status` in `SendResult` and `StatusResult`.

use vstd::prelude::*;

verus! {

pub const PENDING: &'static str = "pending";

pub const PROCESSING: &'static str = "processing";

pub const SENT: &'static str = "sent";

pub const ERROR: &'static str = "error";

} // verus!
