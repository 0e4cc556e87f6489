//! Errors that a request is answered with.

use vstd::prelude::*;
use vstd::string::*;

verus! {

#[derive(Clone, Copy, Debug, PartialEq, Eq, Structural)]
pub enum RpcErrorKind {
    InvalidRequest,
    MethodNotFound,
    Internal,
}

#[derive(Debug, PartialEq, Eq)]
pub struct RpcError {
    pub kind: RpcErrorKind,
    pub message: String,
}

pub struct ErrorModel {
    pub kind: RpcErrorKind,
    pub message: Seq<char>,
}

impl DeepView for RpcError {
    type V = ErrorModel;

    open spec fn deep_view(&self) -> ErrorModel {
        ErrorModel { kind: self.kind, message: self.message@ }
    }
}

impl Clone for RpcError {
    fn clone(&self) -> (copy: Self)
        ensures
            copy.deep_view() == self.deep_view(),
    {
        RpcError { kind: self.kind, message: self.message.clone() }
    }
}

pub open spec fn error_of(kind: RpcErrorKind, message: Seq<char>) -> ErrorModel {
    ErrorModel { kind, message }
}

/// The error of the kind with a message made of a fixed text and what follows it.
pub fn rpc_error(kind: RpcErrorKind, text: &str, more: &str) -> (error: RpcError)
    ensures
        error.deep_view() == error_of(kind, text@ + more@),
{
    let mut message = text.to_string();
    message.append(more);
    RpcError { kind, message }
}

pub open spec fn invalid_thread_id_error(reason: Seq<char>) -> ErrorModel {
    error_of(RpcErrorKind::InvalidRequest, "invalid thread id: "@ + reason)
}

/// The thread id of a request cannot be read.
pub fn invalid_thread_id(reason: &str) -> (error: RpcError)
    ensures
        error.deep_view() == invalid_thread_id_error(reason@),
{
    rpc_error(RpcErrorKind::InvalidRequest, "invalid thread id: ", reason)
}

pub open spec fn thread_not_found_error(thread_id: Seq<char>) -> ErrorModel {
    error_of(RpcErrorKind::InvalidRequest, "thread not found: "@ + thread_id)
}

/// There is no thread with the id of a request.
pub fn thread_not_found(thread_id: &str) -> (error: RpcError)
    ensures
        error.deep_view() == thread_not_found_error(thread_id@),
{
    rpc_error(RpcErrorKind::InvalidRequest, "thread not found: ", thread_id)
}

pub open spec fn config_reload_error(reason: Seq<char>) -> ErrorModel {
    error_of(RpcErrorKind::Internal, "failed to reload config: "@ + reason)
}

/// The configuration cannot be loaded.
pub fn config_reload_failed(reason: &str) -> (error: RpcError)
    ensures
        error.deep_view() == config_reload_error(reason@),
{
    rpc_error(RpcErrorKind::Internal, "failed to reload config: ", reason)
}

}
