use vstd::prelude::*;

use crate::text::same_text;

verus! {

/// What the server does with one JSON-RPC message.
#[derive(Debug, Clone, Copy, PartialEq, Eq, Structural)]
pub enum Route {
    /// The message names a JSON-RPC version other than 2.0.
    BadVersion,
    Initialize,
    Initialized,
    ListTools,
    CallTool,
    Shutdown,
    /// A method that needs an initialized session arrived before one.
    NotInitialized,
    /// A tool call without a tool name.
    MissingToolName,
    MethodNotFound,
}

pub open spec fn is_text(s: Option<&str>, t: Seq<char>) -> bool {
    s matches Some(v) && v@ == t
}

/// The route of a message, from its `jsonrpc` version, its method, whether the
/// session is initialized and whether a tool call names its tool.
pub open spec fn route_of(initialized: bool, version: Option<&str>, method: Option<&str>, has_tool_name: bool) -> Route {
    if version is Some && !is_text(version, "2.0"@) {
        Route::BadVersion
    } else if is_text(method, "initialize"@) {
        Route::Initialize
    } else if is_text(method, "initialized"@) || is_text(method, "notifications/initialized"@) {
        Route::Initialized
    } else if is_text(method, "tools/list"@) {
        if initialized { Route::ListTools } else { Route::NotInitialized }
    } else if is_text(method, "tools/call"@) {
        if !initialized {
            Route::NotInitialized
        } else if !has_tool_name {
            Route::MissingToolName
        } else {
            Route::CallTool
        }
    } else if is_text(method, "shutdown"@) {
        if initialized { Route::Shutdown } else { Route::NotInitialized }
    } else {
        Route::MethodNotFound
    }
}

fn text_is(s: Option<&str>, t: &str) -> (r: bool)
    ensures
        r == is_text(s, t@),
{
    match s {
        Some(v) => same_text(v, t),
        None => false,
    }
}

/// Decides how to handle one message.
pub fn route_message(initialized: bool, version: Option<&str>, method: Option<&str>, has_tool_name: bool) -> (r: Route)
    ensures
        r == route_of(initialized, version, method, has_tool_name),
{
    if version.is_some() && !text_is(version, "2.0") {
        Route::BadVersion
    } else if text_is(method, "initialize") {
        Route::Initialize
    } else if text_is(method, "initialized") || text_is(method, "notifications/initialized") {
        Route::Initialized
    } else if text_is(method, "tools/list") {
        if initialized { Route::ListTools } else { Route::NotInitialized }
    } else if text_is(method, "tools/call") {
        if !initialized {
            Route::NotInitialized
        } else if !has_tool_name {
            Route::MissingToolName
        } else {
            Route::CallTool
        }
    } else if text_is(method, "shutdown") {
        if initialized { Route::Shutdown } else { Route::NotInitialized }
    } else {
        Route::MethodNotFound
    }
}

/// JSON-RPC error code of the routes that are answered with an error at once.
pub open spec fn route_error_code(r: Route) -> Option<i32> {
    match r {
        Route::BadVersion => Some(-32600i32),
        Route::NotInitialized => Some(-32000i32),
        Route::MissingToolName => Some(-32602i32),
        Route::MethodNotFound => Some(-32601i32),
        _ => None,
    }
}

pub fn error_code(r: Route) -> (c: Option<i32>)
    ensures
        c == route_error_code(r),
{
    match r {
        Route::BadVersion => Some(-32600),
        Route::NotInitialized => Some(-32000),
        Route::MissingToolName => Some(-32602),
        Route::MethodNotFound => Some(-32601),
        _ => None,
    }
}

/// Code of the error answer when a handler fails.
pub const HANDLER_ERROR_CODE: i32 = -32000;

/// Whether the message gets an answer: routes refused at once always do; handled
/// ones only when the message is a request (it has an id).
pub fn replies(r: Route, is_notification: bool) -> (b: bool)
    ensures
        b == (route_error_code(r) is Some || !is_notification),
{
    error_code(r).is_some() || !is_notification
}

/// Whether the session is initialized after the message was handled.
pub fn next_initialized(initialized: bool, r: Route) -> (b: bool)
    ensures
        b == match r {
            Route::Initialized => true,
            Route::Shutdown => false,
            _ => initialized,
        },
{
    match r {
        Route::Initialized => true,
        Route::Shutdown => false,
        _ => initialized,
    }
}

pub open spec fn is_supported_protocol(v: Seq<char>) -> bool {
    v == "2024-11-05"@ || v == "2025-06-18"@ || v == "2025-11-25"@
}

/// Whether the server speaks protocol version `v`.
pub fn supported_protocol(v: &str) -> (b: bool)
    ensures
        b == is_supported_protocol(v@),
{
    same_text(v, "2024-11-05") || same_text(v, "2025-06-18") || same_text(v, "2025-11-25")
}

} // verus!
