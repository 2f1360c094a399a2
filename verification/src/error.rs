//! The two-way error taxonomy of the service.

use vstd::prelude::*;
use vstd::string::StringExecFns;

verus! {

/// An error of the service. A `Public` message may be shown to the caller as
/// it is; an `Internal` one is for the server's log only.
#[derive(Debug, Clone, PartialEq, Eq)]
pub enum AppError {
    Public(String),
    Internal(String),
}

/// The mathematical content of [`AppError`].
pub ghost enum AppErrorView {
    Public(Seq<char>),
    Internal(Seq<char>),
}

impl View for AppError {
    type V = AppErrorView;

    open spec fn view(&self) -> AppErrorView {
        match self {
            AppError::Public(m) => AppErrorView::Public(m@),
            AppError::Internal(m) => AppErrorView::Internal(m@),
        }
    }
}

impl DeepView for AppError {
    type V = AppErrorView;

    open spec fn deep_view(&self) -> AppErrorView {
        self@
    }
}

/// What the caller is told in place of an internal error.
pub open spec fn generic_message() -> Seq<char> {
    "服务器内部错误"@
}

impl AppErrorView {
    /// What the caller is told: a public message as it is, and for an
    /// internal error the generic one.
    pub open spec fn user_message(self) -> Seq<char> {
        match self {
            AppErrorView::Public(m) => m,
            AppErrorView::Internal(_) => generic_message(),
        }
    }
}

impl AppError {
    /// Whether the message may be shown to the caller.
    pub fn is_public(&self) -> (r: bool)
        ensures
            r == (self@ is Public),
    {
        match self {
            AppError::Public(_) => true,
            AppError::Internal(_) => false,
        }
    }

    /// What the caller is told. The detail of an internal error never
    /// leaves the server.
    pub fn user_message(&self) -> (r: String)
        ensures
            r@ == self@.user_message(),
    {
        match self {
            AppError::Public(m) => m.clone(),
            AppError::Internal(_) => String::from_str("服务器内部错误"),
        }
    }

    /// The full message, for the server's log.
    pub fn log_message(&self) -> (r: String)
        ensures
            r@ == match self@ {
                AppErrorView::Public(m) => m,
                AppErrorView::Internal(m) => m,
            },
    {
        match self {
            AppError::Public(m) => m.clone(),
            AppError::Internal(m) => m.clone(),
        }
    }
}

/// A public error whose message is `prefix` followed by `detail`.
pub fn public_error(prefix: &str, detail: &str) -> (r: AppError)
    ensures
        r@ == AppErrorView::Public(prefix@ + detail@),
{
    AppError::Public(String::from_str(prefix).concat(detail))
}

/// An internal error whose message is `prefix` followed by `detail`.
pub fn internal_error(prefix: &str, detail: &str) -> (r: AppError)
    ensures
        r@ == AppErrorView::Internal(prefix@ + detail@),
{
    AppError::Internal(String::from_str(prefix).concat(detail))
}

/// The error of a reply that does not answer the request it came for.
pub open spec fn unexpected_reply() -> AppErrorView {
    AppErrorView::Internal("存储应答与请求不符"@)
}

/// The error of a reply that does not answer the request it came for.
pub fn unexpected() -> (r: AppError)
    ensures
        r@ == unexpected_reply(),
{
    AppError::Internal(String::from_str("存储应答与请求不符"))
}

} // verus!
