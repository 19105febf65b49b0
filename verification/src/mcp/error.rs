//! What can go wrong with a server.
use crate::text::owned;
use crate::text::signed;
use crate::text::signed_of;
use vstd::prelude::*;
use vstd::string::*;

verus! {

/// What went wrong with a server.
#[derive(Debug, Clone, PartialEq, Eq)]
pub enum McpError {
    /// Its process could not start, or has ended.
    ProcessDied(String),
    /// It cannot be talked to.
    Transport(String),
    /// It says what it should not.
    Protocol(String),
    /// It took too long.
    Timeout,
    /// It answered with an error.
    ServerError { code: i64, message: String },
    /// The arguments do not fit the tool.
    InvalidSchema(String),
}

/// What an error means to the model.
#[derive(Debug, Clone, Copy, PartialEq, Eq, Structural)]
pub enum McpErrorKind {
    InvalidArguments,
    Timeout,
    ExecutionFailed,
    Unavailable,
}

/// What an error means to the model.
pub open spec fn kind_of(error: McpError) -> McpErrorKind {
    match error {
        McpError::InvalidSchema(_) => McpErrorKind::InvalidArguments,
        McpError::Timeout => McpErrorKind::Timeout,
        McpError::ServerError { code, message } => McpErrorKind::ExecutionFailed,
        _ => McpErrorKind::Unavailable,
    }
}

/// The code of an error.
pub open spec fn code_of(kind: McpErrorKind) -> Seq<char> {
    match kind {
        McpErrorKind::InvalidArguments => "mcp_invalid_arguments"@,
        McpErrorKind::Timeout => "mcp_timeout"@,
        McpErrorKind::ExecutionFailed => "mcp_execution_failed"@,
        McpErrorKind::Unavailable => "mcp_unavailable"@,
    }
}

/// An error in words.
pub open spec fn error_text(error: McpError) -> Seq<char> {
    match error {
        McpError::ProcessDied(detail) => "MCP server 进程异常: "@ + detail@,
        McpError::Transport(detail) => "MCP 传输失败: "@ + detail@,
        McpError::Protocol(detail) => "MCP 协议错误: "@ + detail@,
        McpError::Timeout => "MCP 调用超时"@,
        McpError::ServerError { code, message } => "MCP server 错误 ("@ + signed_of(code as int)
            + "): "@ + message@,
        McpError::InvalidSchema(detail) => "MCP 参数无效: "@ + detail@,
    }
}

impl McpError {
    /// What the error means to the model.
    pub fn kind(&self) -> (r: McpErrorKind)
        ensures
            r == kind_of(*self),
    {
        match self {
            McpError::InvalidSchema(_) => McpErrorKind::InvalidArguments,
            McpError::Timeout => McpErrorKind::Timeout,
            McpError::ServerError { code, message } => McpErrorKind::ExecutionFailed,
            McpError::ProcessDied(_) => McpErrorKind::Unavailable,
            McpError::Transport(_) => McpErrorKind::Unavailable,
            McpError::Protocol(_) => McpErrorKind::Unavailable,
        }
    }

    /// The error in words.
    pub fn to_text(&self) -> (r: String)
        ensures
            r@ == error_text(*self),
    {
        match self {
            McpError::ProcessDied(detail) => owned("MCP server 进程异常: ").concat(
                detail.as_str(),
            ),
            McpError::Transport(detail) => owned("MCP 传输失败: ").concat(detail.as_str()),
            McpError::Protocol(detail) => owned("MCP 协议错误: ").concat(detail.as_str()),
            McpError::Timeout => owned("MCP 调用超时"),
            McpError::ServerError { code, message } => {
                let number = signed(*code);
                owned("MCP server 错误 (").concat(number.as_str()).concat("): ").concat(
                    message.as_str(),
                )
            },
            McpError::InvalidSchema(detail) => owned("MCP 参数无效: ").concat(detail.as_str()),
        }
    }
}

/// The code of an error, as the model sees it.
pub fn error_code(error: &McpError) -> (r: &'static str)
    ensures
        r@ == code_of(kind_of(*error)),
{
    match error.kind() {
        McpErrorKind::InvalidArguments => "mcp_invalid_arguments",
        McpErrorKind::Timeout => "mcp_timeout",
        McpErrorKind::ExecutionFailed => "mcp_execution_failed",
        McpErrorKind::Unavailable => "mcp_unavailable",
    }
}

} // verus!
