//! The transports of the storage client, and the texts of its answers.

use crate::mini_client::{
    CallResult, ClientAPI, ClientAPI_GRPC_DIRECTPATH, ClientAPI_GRPC_NO_DIRECTPATH, ClientAPI_JSON,
};
use vstd::prelude::*;

verus! {

/// The transport by which the storage client reaches the service.
#[derive(Clone, Copy, Debug, PartialEq, Eq, Structural)]
pub enum GCSClientAPI {
    GrpcDirectpath,
    GrpcNoDirectpath,
    Json,
}

impl GCSClientAPI {
    /// The number that stands for the transport in the client's interface.
    pub open spec fn code_of(self) -> ClientAPI {
        match self {
            GCSClientAPI::GrpcDirectpath => ClientAPI_GRPC_DIRECTPATH,
            GCSClientAPI::GrpcNoDirectpath => ClientAPI_GRPC_NO_DIRECTPATH,
            GCSClientAPI::Json => ClientAPI_JSON,
        }
    }

    /// The number that stands for the transport in the client's interface.
    pub fn code(&self) -> (code: ClientAPI)
        ensures
            code == self.code_of(),
    {
        match self {
            GCSClientAPI::GrpcDirectpath => ClientAPI_GRPC_DIRECTPATH,
            GCSClientAPI::GrpcNoDirectpath => ClientAPI_GRPC_NO_DIRECTPATH,
            GCSClientAPI::Json => ClientAPI_JSON,
        }
    }
}

impl CallResult {
    /// The error code of the call; empty where it succeeded.
    pub fn error_code(&self) -> (code: String)
        ensures
            code@ == self.error_code@,
    {
        self.error_code.clone()
    }

    /// The upload that the call began or asked after.
    pub fn upload_id(&self) -> (id: String)
        ensures
            id@ == self.upload_id@,
    {
        self.upload_id.clone()
    }
}

} // verus!
