//! What the native storage client is told and what it answers, as plain
//! values.

use vstd::prelude::*;

verus! {

/// The number that stands for a transport in the client's interface.
pub type ClientAPI = u32;

/// gRPC over the direct path.
#[allow(non_upper_case_globals)]
pub const ClientAPI_GRPC_DIRECTPATH: ClientAPI = 0;

/// gRPC without the direct path.
#[allow(non_upper_case_globals)]
pub const ClientAPI_GRPC_NO_DIRECTPATH: ClientAPI = 1;

/// JSON over HTTP.
#[allow(non_upper_case_globals)]
pub const ClientAPI_JSON: ClientAPI = 2;

/// What one call of the storage client came to.
#[derive(Debug)]
pub struct CallResult {
    pub success: bool,
    pub bytes_received: u64,
    pub error_code: String,
    pub upload_id: String,
    pub host_ip: String,
    pub bitpusher_cell: String,
    pub bitpusher_task_no: i32,
}

} // verus!
