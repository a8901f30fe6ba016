//! The ACP method namespace and the JSON-RPC 2.0 wire types.

use vstd::prelude::*;
use crate::ids::fresh_uuid;

verus! {

// ─── Methods ─────────────────────────────────────────────────────────────────

/// All methods of the ACP namespace; extensions carry the `_bkg/` prefix.
#[derive(Debug, Clone, Copy, PartialEq, Eq, Structural)]
pub enum AcpMethod {
    /// Create a new agent session.
    SessionCreate,
    /// Send a message to a session.
    SessionSend,
    /// Stream events from a session.
    SessionStream,
    /// Pause an active session.
    SessionPause,
    /// Resume a paused session.
    SessionResume,
    /// Destroy a session and clean up its resources.
    SessionDestroy,
    /// Respond to a permission request.
    SessionPermissionRespond,
    /// List all registered agents and their status.
    AgentList,
    /// Detailed status of one agent.
    AgentStatus,
    /// Install an agent.
    AgentInstall,
    /// Check or extract credentials for an agent.
    AgentCredentials,
    /// Start an agent process.
    ProcessStart,
    /// List running processes.
    ProcessList,
    /// Stream output from a process.
    ProcessStream,
    /// Kill a process.
    ProcessKill,
    /// Read a file.
    FileRead,
    /// Write a file.
    FileWrite,
    /// List a directory.
    FileList,
    /// Delete a file or directory.
    FileDelete,
    /// System information.
    BkgInfo,
    /// Health status.
    BkgHealth,
    /// Detach from a session, which keeps running.
    BkgSessionDetach,
    /// Replay a session's events from an offset.
    BkgSessionReplay,
}

/// The wire name of a method.
pub open spec fn method_name(m: AcpMethod) -> Seq<char> {
    match m {
        AcpMethod::SessionCreate => "session/create"@,
        AcpMethod::SessionSend => "session/send"@,
        AcpMethod::SessionStream => "session/stream"@,
        AcpMethod::SessionPause => "session/pause"@,
        AcpMethod::SessionResume => "session/resume"@,
        AcpMethod::SessionDestroy => "session/destroy"@,
        AcpMethod::SessionPermissionRespond => "session/permission_respond"@,
        AcpMethod::AgentList => "agent/list"@,
        AcpMethod::AgentStatus => "agent/status"@,
        AcpMethod::AgentInstall => "agent/install"@,
        AcpMethod::AgentCredentials => "agent/credentials"@,
        AcpMethod::ProcessStart => "process/start"@,
        AcpMethod::ProcessList => "process/list"@,
        AcpMethod::ProcessStream => "process/stream"@,
        AcpMethod::ProcessKill => "process/kill"@,
        AcpMethod::FileRead => "file/read"@,
        AcpMethod::FileWrite => "file/write"@,
        AcpMethod::FileList => "file/list"@,
        AcpMethod::FileDelete => "file/delete"@,
        AcpMethod::BkgInfo => "_bkg/info"@,
        AcpMethod::BkgHealth => "_bkg/health"@,
        AcpMethod::BkgSessionDetach => "_bkg/session/detach"@,
        AcpMethod::BkgSessionReplay => "_bkg/session/replay"@,
    }
}

/// The method a wire name names, if any.
pub open spec fn spec_parse(s: Seq<char>) -> Option<AcpMethod> {
    if s == method_name(AcpMethod::SessionCreate) {
        Some(AcpMethod::SessionCreate)
    } else if s == method_name(AcpMethod::SessionSend) {
        Some(AcpMethod::SessionSend)
    } else if s == method_name(AcpMethod::SessionStream) {
        Some(AcpMethod::SessionStream)
    } else if s == method_name(AcpMethod::SessionPause) {
        Some(AcpMethod::SessionPause)
    } else if s == method_name(AcpMethod::SessionResume) {
        Some(AcpMethod::SessionResume)
    } else if s == method_name(AcpMethod::SessionDestroy) {
        Some(AcpMethod::SessionDestroy)
    } else if s == method_name(AcpMethod::SessionPermissionRespond) {
        Some(AcpMethod::SessionPermissionRespond)
    } else if s == method_name(AcpMethod::AgentList) {
        Some(AcpMethod::AgentList)
    } else if s == method_name(AcpMethod::AgentStatus) {
        Some(AcpMethod::AgentStatus)
    } else if s == method_name(AcpMethod::AgentInstall) {
        Some(AcpMethod::AgentInstall)
    } else if s == method_name(AcpMethod::AgentCredentials) {
        Some(AcpMethod::AgentCredentials)
    } else if s == method_name(AcpMethod::ProcessStart) {
        Some(AcpMethod::ProcessStart)
    } else if s == method_name(AcpMethod::ProcessList) {
        Some(AcpMethod::ProcessList)
    } else if s == method_name(AcpMethod::ProcessStream) {
        Some(AcpMethod::ProcessStream)
    } else if s == method_name(AcpMethod::ProcessKill) {
        Some(AcpMethod::ProcessKill)
    } else if s == method_name(AcpMethod::FileRead) {
        Some(AcpMethod::FileRead)
    } else if s == method_name(AcpMethod::FileWrite) {
        Some(AcpMethod::FileWrite)
    } else if s == method_name(AcpMethod::FileList) {
        Some(AcpMethod::FileList)
    } else if s == method_name(AcpMethod::FileDelete) {
        Some(AcpMethod::FileDelete)
    } else if s == method_name(AcpMethod::BkgInfo) {
        Some(AcpMethod::BkgInfo)
    } else if s == method_name(AcpMethod::BkgHealth) {
        Some(AcpMethod::BkgHealth)
    } else if s == method_name(AcpMethod::BkgSessionDetach) {
        Some(AcpMethod::BkgSessionDetach)
    } else if s == method_name(AcpMethod::BkgSessionReplay) {
        Some(AcpMethod::BkgSessionReplay)
    } else {
        None
    }
}

/// Do two strings hold the same characters?
fn same_str(a: &str, b: &str) -> (r: bool)
    ensures
        r == (a@ == b@),
{
    String::from_str(a) == String::from_str(b)
}

impl AcpMethod {
    /// The method's wire name.
    pub fn as_str(&self) -> (r: &'static str)
        ensures
            r@ == method_name(*self),
    {
        match self {
            AcpMethod::SessionCreate => "session/create",
            AcpMethod::SessionSend => "session/send",
            AcpMethod::SessionStream => "session/stream",
            AcpMethod::SessionPause => "session/pause",
            AcpMethod::SessionResume => "session/resume",
            AcpMethod::SessionDestroy => "session/destroy",
            AcpMethod::SessionPermissionRespond => "session/permission_respond",
            AcpMethod::AgentList => "agent/list",
            AcpMethod::AgentStatus => "agent/status",
            AcpMethod::AgentInstall => "agent/install",
            AcpMethod::AgentCredentials => "agent/credentials",
            AcpMethod::ProcessStart => "process/start",
            AcpMethod::ProcessList => "process/list",
            AcpMethod::ProcessStream => "process/stream",
            AcpMethod::ProcessKill => "process/kill",
            AcpMethod::FileRead => "file/read",
            AcpMethod::FileWrite => "file/write",
            AcpMethod::FileList => "file/list",
            AcpMethod::FileDelete => "file/delete",
            AcpMethod::BkgInfo => "_bkg/info",
            AcpMethod::BkgHealth => "_bkg/health",
            AcpMethod::BkgSessionDetach => "_bkg/session/detach",
            AcpMethod::BkgSessionReplay => "_bkg/session/replay",
        }
    }

    /// The method a wire name names; `None` for any other text.
    pub fn parse(s: &str) -> (r: Option<Self>)
        ensures
            r == spec_parse(s@),
    {
        if same_str(s, "session/create") {
            return Some(AcpMethod::SessionCreate);
        }
        if same_str(s, "session/send") {
            return Some(AcpMethod::SessionSend);
        }
        if same_str(s, "session/stream") {
            return Some(AcpMethod::SessionStream);
        }
        if same_str(s, "session/pause") {
            return Some(AcpMethod::SessionPause);
        }
        if same_str(s, "session/resume") {
            return Some(AcpMethod::SessionResume);
        }
        if same_str(s, "session/destroy") {
            return Some(AcpMethod::SessionDestroy);
        }
        if same_str(s, "session/permission_respond") {
            return Some(AcpMethod::SessionPermissionRespond);
        }
        if same_str(s, "agent/list") {
            return Some(AcpMethod::AgentList);
        }
        if same_str(s, "agent/status") {
            return Some(AcpMethod::AgentStatus);
        }
        if same_str(s, "agent/install") {
            return Some(AcpMethod::AgentInstall);
        }
        if same_str(s, "agent/credentials") {
            return Some(AcpMethod::AgentCredentials);
        }
        if same_str(s, "process/start") {
            return Some(AcpMethod::ProcessStart);
        }
        if same_str(s, "process/list") {
            return Some(AcpMethod::ProcessList);
        }
        if same_str(s, "process/stream") {
            return Some(AcpMethod::ProcessStream);
        }
        if same_str(s, "process/kill") {
            return Some(AcpMethod::ProcessKill);
        }
        if same_str(s, "file/read") {
            return Some(AcpMethod::FileRead);
        }
        if same_str(s, "file/write") {
            return Some(AcpMethod::FileWrite);
        }
        if same_str(s, "file/list") {
            return Some(AcpMethod::FileList);
        }
        if same_str(s, "file/delete") {
            return Some(AcpMethod::FileDelete);
        }
        if same_str(s, "_bkg/info") {
            return Some(AcpMethod::BkgInfo);
        }
        if same_str(s, "_bkg/health") {
            return Some(AcpMethod::BkgHealth);
        }
        if same_str(s, "_bkg/session/detach") {
            return Some(AcpMethod::BkgSessionDetach);
        }
        if same_str(s, "_bkg/session/replay") {
            return Some(AcpMethod::BkgSessionReplay);
        }
        None
    }
}

/// A few characters of a name that tell the wire names apart.
spec fn fingerprint(s: Seq<char>) -> (nat, char, char, char) {
    (s.len(), s[0], s[8], s[s.len() - 1])
}

/// The fingerprint of each method's wire name.
spec fn fingerprint_of(m: AcpMethod) -> (nat, char, char, char) {
    match m {
        AcpMethod::SessionCreate => (14, 's', 'c', 'e'),
        AcpMethod::SessionSend => (12, 's', 's', 'd'),
        AcpMethod::SessionStream => (14, 's', 's', 'm'),
        AcpMethod::SessionPause => (13, 's', 'p', 'e'),
        AcpMethod::SessionResume => (14, 's', 'r', 'e'),
        AcpMethod::SessionDestroy => (15, 's', 'd', 'y'),
        AcpMethod::SessionPermissionRespond => (26, 's', 'p', 'd'),
        AcpMethod::AgentList => (10, 'a', 's', 't'),
        AcpMethod::AgentStatus => (12, 'a', 'a', 's'),
        AcpMethod::AgentInstall => (13, 'a', 's', 'l'),
        AcpMethod::AgentCredentials => (17, 'a', 'e', 's'),
        AcpMethod::ProcessStart => (13, 'p', 's', 't'),
        AcpMethod::ProcessList => (12, 'p', 'l', 't'),
        AcpMethod::ProcessStream => (14, 'p', 's', 'm'),
        AcpMethod::ProcessKill => (12, 'p', 'k', 'l'),
        AcpMethod::FileRead => (9, 'f', 'd', 'd'),
        AcpMethod::FileWrite => (10, 'f', 't', 'e'),
        AcpMethod::FileList => (9, 'f', 't', 't'),
        AcpMethod::FileDelete => (11, 'f', 'e', 'e'),
        AcpMethod::BkgInfo => (9, '_', 'o', 'o'),
        AcpMethod::BkgHealth => (11, '_', 'l', 'h'),
        AcpMethod::BkgSessionDetach => (19, '_', 's', 'h'),
        AcpMethod::BkgSessionReplay => (19, '_', 's', 'y'),
    }
}

proof fn lemma_fingerprint(m: AcpMethod)
    ensures
        fingerprint(method_name(m)) == fingerprint_of(m),
{
    match m {
        AcpMethod::SessionCreate => {
            reveal_strlit("session/create");
        },
        AcpMethod::SessionSend => {
            reveal_strlit("session/send");
        },
        AcpMethod::SessionStream => {
            reveal_strlit("session/stream");
        },
        AcpMethod::SessionPause => {
            reveal_strlit("session/pause");
        },
        AcpMethod::SessionResume => {
            reveal_strlit("session/resume");
        },
        AcpMethod::SessionDestroy => {
            reveal_strlit("session/destroy");
        },
        AcpMethod::SessionPermissionRespond => {
            reveal_strlit("session/permission_respond");
        },
        AcpMethod::AgentList => {
            reveal_strlit("agent/list");
        },
        AcpMethod::AgentStatus => {
            reveal_strlit("agent/status");
        },
        AcpMethod::AgentInstall => {
            reveal_strlit("agent/install");
        },
        AcpMethod::AgentCredentials => {
            reveal_strlit("agent/credentials");
        },
        AcpMethod::ProcessStart => {
            reveal_strlit("process/start");
        },
        AcpMethod::ProcessList => {
            reveal_strlit("process/list");
        },
        AcpMethod::ProcessStream => {
            reveal_strlit("process/stream");
        },
        AcpMethod::ProcessKill => {
            reveal_strlit("process/kill");
        },
        AcpMethod::FileRead => {
            reveal_strlit("file/read");
        },
        AcpMethod::FileWrite => {
            reveal_strlit("file/write");
        },
        AcpMethod::FileList => {
            reveal_strlit("file/list");
        },
        AcpMethod::FileDelete => {
            reveal_strlit("file/delete");
        },
        AcpMethod::BkgInfo => {
            reveal_strlit("_bkg/info");
        },
        AcpMethod::BkgHealth => {
            reveal_strlit("_bkg/health");
        },
        AcpMethod::BkgSessionDetach => {
            reveal_strlit("_bkg/session/detach");
        },
        AcpMethod::BkgSessionReplay => {
            reveal_strlit("_bkg/session/replay");
        },
    }
}

/// Distinct methods have distinct wire names.
pub proof fn lemma_method_name_injective(a: AcpMethod, b: AcpMethod)
    ensures
        method_name(a) == method_name(b) ==> a == b,
{
    lemma_fingerprint(a);
    lemma_fingerprint(b);
}

/// Parsing a method's wire name gives the method back.
pub proof fn lemma_parse_as_str(m: AcpMethod)
    ensures
        spec_parse(method_name(m)) == Some(m),
{
    assert forall|x: AcpMethod| method_name(x) == method_name(m) implies x == m by {
        lemma_method_name_injective(x, m);
    }
    assert(forall|x: AcpMethod| #[trigger] method_name(x) == method_name(m) ==> x == m);
}

/// A name that parses is the wire name of the method it parses to.
pub proof fn lemma_parse_sound(s: Seq<char>)
    ensures
        spec_parse(s) matches Some(m) ==> method_name(m) == s,
{
}

// ─── JSON-RPC ────────────────────────────────────────────────────────────────

/// A JSON-RPC 2.0 request id.
#[derive(Debug, Clone, PartialEq, Eq)]
pub enum RpcId {
    Str(String),
    Num(i64),
    Null,
}

/// A JSON-RPC 2.0 request.
#[derive(Debug, Clone)]
pub struct RpcRequest {
    pub jsonrpc: String,
    pub id: Option<RpcId>,
    pub method: String,
    pub params: Option<serde_json::Value>,
}

impl RpcRequest {
    /// A request with a fresh random id; `params` is the serialized parameters.
    pub fn new(method: &str, params: serde_json::Value) -> (r: Self)
        ensures
            r.jsonrpc@ == "2.0"@,
            r.id matches Some(RpcId::Str(s)) && s@.len() == 36,
            r.method@ == method@,
            r.params == Some(params),
    {
        RpcRequest {
            jsonrpc: String::from_str("2.0"),
            id: Some(RpcId::Str(fresh_uuid())),
            method: String::from_str(method),
            params: Some(params),
        }
    }

    /// A notification: a request without id.
    pub fn notification(method: &str, params: serde_json::Value) -> (r: Self)
        ensures
            r.jsonrpc@ == "2.0"@,
            r.id is None,
            r.method@ == method@,
            r.params == Some(params),
    {
        RpcRequest { jsonrpc: String::from_str("2.0"), id: None, method: String::from_str(method), params: Some(params) }
    }

    pub fn is_notification(&self) -> (r: bool)
        ensures
            r == (self.id is None),
    {
        self.id.is_none()
    }
}

/// The standard JSON-RPC 2.0 error codes.
#[derive(Debug, Clone, Copy, PartialEq, Eq, Structural)]
pub enum RpcErrorCode {
    ParseError,
    InvalidRequest,
    MethodNotFound,
    InvalidParams,
    InternalError,
    Custom(i32),
}

/// The numeric code.
pub open spec fn spec_code(c: RpcErrorCode) -> int {
    match c {
        RpcErrorCode::ParseError => -32700,
        RpcErrorCode::InvalidRequest => -32600,
        RpcErrorCode::MethodNotFound => -32601,
        RpcErrorCode::InvalidParams => -32602,
        RpcErrorCode::InternalError => -32603,
        RpcErrorCode::Custom(x) => x as int,
    }
}

/// The standard message.
pub open spec fn spec_message(c: RpcErrorCode) -> Seq<char> {
    match c {
        RpcErrorCode::ParseError => "Parse error"@,
        RpcErrorCode::InvalidRequest => "Invalid Request"@,
        RpcErrorCode::MethodNotFound => "Method not found"@,
        RpcErrorCode::InvalidParams => "Invalid params"@,
        RpcErrorCode::InternalError => "Internal error"@,
        RpcErrorCode::Custom(_) => "Server error"@,
    }
}

impl RpcErrorCode {
    pub fn code(self) -> (r: i32)
        ensures
            r == spec_code(self),
    {
        match self {
            RpcErrorCode::ParseError => -32700,
            RpcErrorCode::InvalidRequest => -32600,
            RpcErrorCode::MethodNotFound => -32601,
            RpcErrorCode::InvalidParams => -32602,
            RpcErrorCode::InternalError => -32603,
            RpcErrorCode::Custom(c) => c,
        }
    }

    pub fn message(self) -> (r: &'static str)
        ensures
            r@ == spec_message(self),
    {
        match self {
            RpcErrorCode::ParseError => "Parse error",
            RpcErrorCode::InvalidRequest => "Invalid Request",
            RpcErrorCode::MethodNotFound => "Method not found",
            RpcErrorCode::InvalidParams => "Invalid params",
            RpcErrorCode::InternalError => "Internal error",
            RpcErrorCode::Custom(_) => "Server error",
        }
    }
}

/// A JSON-RPC 2.0 error object.
#[derive(Debug, Clone)]
pub struct RpcError {
    pub code: i32,
    pub message: String,
    pub data: Option<serde_json::Value>,
}

impl RpcError {
    pub fn new(code: RpcErrorCode, data: Option<serde_json::Value>) -> (r: Self)
        ensures
            r.code == spec_code(code),
            r.message@ == spec_message(code),
            r.data == data,
    {
        RpcError { code: code.code(), message: String::from_str(code.message()), data }
    }

    pub fn internal(msg: &str) -> (r: Self)
        ensures
            r.code == -32603,
            r.message@ == msg@,
            r.data is None,
    {
        RpcError { code: RpcErrorCode::InternalError.code(), message: String::from_str(msg), data: None }
    }

    pub fn method_not_found(method: &str) -> (r: Self)
        ensures
            r.code == -32601,
            r.message@ == "method '"@ + method@ + "' not found"@,
            r.data is None,
    {
        let mut m = String::from_str("method '");
        m.append(method);
        m.append("' not found");
        RpcError { code: RpcErrorCode::MethodNotFound.code(), message: m, data: None }
    }
}

/// A JSON-RPC 2.0 response.
#[derive(Debug, Clone)]
pub struct RpcResponse {
    pub jsonrpc: String,
    pub id: Option<RpcId>,
    pub result: Option<serde_json::Value>,
    pub error: Option<RpcError>,
}

impl RpcResponse {
    /// A success carrying the serialized result.
    pub fn success(id: Option<RpcId>, result: serde_json::Value) -> (r: Self)
        ensures
            r.jsonrpc@ == "2.0"@,
            r.id == id,
            r.result == Some(result),
            r.error is None,
    {
        RpcResponse { jsonrpc: String::from_str("2.0"), id, result: Some(result), error: None }
    }

    pub fn error(id: Option<RpcId>, error: RpcError) -> (r: Self)
        ensures
            r.jsonrpc@ == "2.0"@,
            r.id == id,
            r.result is None,
            r.error == Some(error),
    {
        RpcResponse { jsonrpc: String::from_str("2.0"), id, result: None, error: Some(error) }
    }

    pub fn is_success(&self) -> (r: bool)
        ensures
            r == (self.error is None),
    {
        self.error.is_none()
    }
}

} // verus!
