//! The JSON-RPC 2.0 messages spoken over the daemon's local endpoint, and
//! the parameter and result records of each method.
use vstd::prelude::*;

use crate::domain::{CaddyDomainConfig, HostsEntry, XamppVhostConfig};
use crate::text::str_eq;

verus! {

#[verifier::external_type_specification]
#[verifier::external_body]
pub struct ExJsonValue(serde_json::Value);

/// A request; `params` is carried through unread.
#[derive(Debug)]
pub struct JsonRpcRequest {
    pub jsonrpc: String,
    pub method: String,
    pub params: serde_json::Value,
    pub id: u64,
}

impl JsonRpcRequest {
    pub fn new(method: &str, params: serde_json::Value, id: u64) -> (r: Self)
        ensures
            r.jsonrpc@ == "2.0"@,
            r.method@ == method@,
            r.params == params,
            r.id == id,
    {
        JsonRpcRequest { jsonrpc: String::from_str("2.0"), method: String::from_str(method), params, id }
    }
}

#[derive(Debug)]
pub struct JsonRpcError {
    pub code: i32,
    pub message: String,
    pub data: Option<serde_json::Value>,
}

/// A response: exactly one of `result` and `error` is present.
#[derive(Debug)]
pub struct JsonRpcResponse {
    pub jsonrpc: String,
    pub result: Option<serde_json::Value>,
    pub error: Option<JsonRpcError>,
    pub id: u64,
}

impl JsonRpcResponse {
    pub open spec fn well_formed(&self) -> bool {
        self.jsonrpc@ == "2.0"@ && (self.result is Some <==> self.error is None)
    }

    pub fn success(id: u64, result: serde_json::Value) -> (r: Self)
        ensures
            r.well_formed(),
            r.result == Some(result),
            r.id == id,
    {
        JsonRpcResponse { jsonrpc: String::from_str("2.0"), result: Some(result), error: None, id }
    }

    pub fn error(id: u64, code: i32, message: String) -> (r: Self)
        ensures
            r.well_formed(),
            r.error matches Some(e) && e.code == code && e.message@ == message@ && e.data is None,
            r.id == id,
    {
        JsonRpcResponse {
            jsonrpc: String::from_str("2.0"),
            result: None,
            error: Some(JsonRpcError { code, message, data: None }),
            id,
        }
    }
}

/// Why a request failed.
#[derive(Debug, Clone)]
pub enum RpcFailure {
    /// The line is not JSON.
    Parse(String),
    /// The JSON is not a request.
    InvalidRequest(String),
    /// No method of that name.
    MethodNotFound,
    /// The parameters do not fit the method.
    InvalidParams(String),
    /// The component handling the request failed.
    Internal(String),
}

/// The JSON-RPC error code of each failure.
pub open spec fn failure_code(f: RpcFailure) -> i32 {
    match f {
        RpcFailure::Parse(_) => PARSE_ERROR,
        RpcFailure::InvalidRequest(_) => INVALID_REQUEST,
        RpcFailure::MethodNotFound => METHOD_NOT_FOUND,
        RpcFailure::InvalidParams(_) => INVALID_PARAMS,
        RpcFailure::Internal(_) => INTERNAL_ERROR,
    }
}

/// The message sent with each failure.
pub open spec fn failure_message(f: RpcFailure) -> Seq<char> {
    match f {
        RpcFailure::Parse(m) => m@,
        RpcFailure::InvalidRequest(m) => m@,
        RpcFailure::MethodNotFound => "Method not found"@,
        RpcFailure::InvalidParams(m) => m@,
        RpcFailure::Internal(m) => m@,
    }
}

impl JsonRpcResponse {
    /// The response to request `id`: its result, or the error for its failure.
    pub fn from_outcome(id: u64, outcome: Result<serde_json::Value, RpcFailure>) -> (r: Self)
        ensures
            r.well_formed(),
            r.id == id,
            match outcome {
                Ok(v) => r.result == Some(v),
                Err(f) => r.error matches Some(e) && e.code == failure_code(f) && e.message@
                    == failure_message(f),
            },
    {
        match outcome {
            Ok(v) => JsonRpcResponse::success(id, v),
            Err(f) => {
                let (code, message) = match f {
                    RpcFailure::Parse(m) => (PARSE_ERROR, m),
                    RpcFailure::InvalidRequest(m) => (INVALID_REQUEST, m),
                    RpcFailure::MethodNotFound => (METHOD_NOT_FOUND, String::from_str("Method not found")),
                    RpcFailure::InvalidParams(m) => (INVALID_PARAMS, m),
                    RpcFailure::Internal(m) => (INTERNAL_ERROR, m),
                };
                JsonRpcResponse::error(id, code, message)
            },
        }
    }
}

pub const PARSE_ERROR: i32 = -32700;

pub const INVALID_REQUEST: i32 = -32600;

pub const METHOD_NOT_FOUND: i32 = -32601;

pub const INVALID_PARAMS: i32 = -32602;

pub const INTERNAL_ERROR: i32 = -32603;

/// The methods the daemon answers.
#[derive(Debug, Clone, Copy, PartialEq, Eq, Structural)]
pub enum RpcMethod {
    Ping,
    Status,
    SyncHosts,
    SyncCaddyConfig,
    StartCaddy,
    StopCaddy,
    GenerateCa,
    GenerateCert,
    InstallCaTrust,
    RemoveCaTrust,
    GetAccessLog,
    ClearAccessLog,
    StartTunnel,
    StopTunnel,
    TunnelStatus,
    ListTunnels,
    EnsureCloudflared,
    StopAllTunnels,
    DetectXampp,
    SyncXamppConfig,
    StartApache,
    StopApache,
}

/// The wire name of each method.
pub open spec fn method_name(m: RpcMethod) -> Seq<char> {
    match m {
        RpcMethod::Ping => "ping"@,
        RpcMethod::Status => "status"@,
        RpcMethod::SyncHosts => "sync_hosts"@,
        RpcMethod::SyncCaddyConfig => "sync_caddy_config"@,
        RpcMethod::StartCaddy => "start_caddy"@,
        RpcMethod::StopCaddy => "stop_caddy"@,
        RpcMethod::GenerateCa => "generate_ca"@,
        RpcMethod::GenerateCert => "generate_cert"@,
        RpcMethod::InstallCaTrust => "install_ca_trust"@,
        RpcMethod::RemoveCaTrust => "remove_ca_trust"@,
        RpcMethod::GetAccessLog => "get_access_log"@,
        RpcMethod::ClearAccessLog => "clear_access_log"@,
        RpcMethod::StartTunnel => "start_tunnel"@,
        RpcMethod::StopTunnel => "stop_tunnel"@,
        RpcMethod::TunnelStatus => "tunnel_status"@,
        RpcMethod::ListTunnels => "list_tunnels"@,
        RpcMethod::EnsureCloudflared => "ensure_cloudflared"@,
        RpcMethod::StopAllTunnels => "stop_all_tunnels"@,
        RpcMethod::DetectXampp => "detect_xampp"@,
        RpcMethod::SyncXamppConfig => "sync_xampp_config"@,
        RpcMethod::StartApache => "start_apache"@,
        RpcMethod::StopApache => "stop_apache"@,
    }
}

impl RpcMethod {
    pub fn name(&self) -> (r: &'static str)
        ensures
            r@ == method_name(*self),
    {
        match self {
            RpcMethod::Ping => "ping",
            RpcMethod::Status => "status",
            RpcMethod::SyncHosts => "sync_hosts",
            RpcMethod::SyncCaddyConfig => "sync_caddy_config",
            RpcMethod::StartCaddy => "start_caddy",
            RpcMethod::StopCaddy => "stop_caddy",
            RpcMethod::GenerateCa => "generate_ca",
            RpcMethod::GenerateCert => "generate_cert",
            RpcMethod::InstallCaTrust => "install_ca_trust",
            RpcMethod::RemoveCaTrust => "remove_ca_trust",
            RpcMethod::GetAccessLog => "get_access_log",
            RpcMethod::ClearAccessLog => "clear_access_log",
            RpcMethod::StartTunnel => "start_tunnel",
            RpcMethod::StopTunnel => "stop_tunnel",
            RpcMethod::TunnelStatus => "tunnel_status",
            RpcMethod::ListTunnels => "list_tunnels",
            RpcMethod::EnsureCloudflared => "ensure_cloudflared",
            RpcMethod::StopAllTunnels => "stop_all_tunnels",
            RpcMethod::DetectXampp => "detect_xampp",
            RpcMethod::SyncXamppConfig => "sync_xampp_config",
            RpcMethod::StartApache => "start_apache",
            RpcMethod::StopApache => "stop_apache",
        }
    }

    /// All methods, in the order of the method table.
    pub fn all() -> (r: Vec<RpcMethod>)
        ensures
            forall|m: RpcMethod| #[trigger] r@.contains(m),
    {
        let r = vec![
            RpcMethod::Ping,
            RpcMethod::Status,
            RpcMethod::SyncHosts,
            RpcMethod::SyncCaddyConfig,
            RpcMethod::StartCaddy,
            RpcMethod::StopCaddy,
            RpcMethod::GenerateCa,
            RpcMethod::GenerateCert,
            RpcMethod::InstallCaTrust,
            RpcMethod::RemoveCaTrust,
            RpcMethod::GetAccessLog,
            RpcMethod::ClearAccessLog,
            RpcMethod::StartTunnel,
            RpcMethod::StopTunnel,
            RpcMethod::TunnelStatus,
            RpcMethod::ListTunnels,
            RpcMethod::EnsureCloudflared,
            RpcMethod::StopAllTunnels,
            RpcMethod::DetectXampp,
            RpcMethod::SyncXamppConfig,
            RpcMethod::StartApache,
            RpcMethod::StopApache,
        ];
        assert forall|m: RpcMethod| #[trigger] r@.contains(m) by {
            match m {
                RpcMethod::Ping => assert(r@[0] == m),
                RpcMethod::Status => assert(r@[1] == m),
                RpcMethod::SyncHosts => assert(r@[2] == m),
                RpcMethod::SyncCaddyConfig => assert(r@[3] == m),
                RpcMethod::StartCaddy => assert(r@[4] == m),
                RpcMethod::StopCaddy => assert(r@[5] == m),
                RpcMethod::GenerateCa => assert(r@[6] == m),
                RpcMethod::GenerateCert => assert(r@[7] == m),
                RpcMethod::InstallCaTrust => assert(r@[8] == m),
                RpcMethod::RemoveCaTrust => assert(r@[9] == m),
                RpcMethod::GetAccessLog => assert(r@[10] == m),
                RpcMethod::ClearAccessLog => assert(r@[11] == m),
                RpcMethod::StartTunnel => assert(r@[12] == m),
                RpcMethod::StopTunnel => assert(r@[13] == m),
                RpcMethod::TunnelStatus => assert(r@[14] == m),
                RpcMethod::ListTunnels => assert(r@[15] == m),
                RpcMethod::EnsureCloudflared => assert(r@[16] == m),
                RpcMethod::StopAllTunnels => assert(r@[17] == m),
                RpcMethod::DetectXampp => assert(r@[18] == m),
                RpcMethod::SyncXamppConfig => assert(r@[19] == m),
                RpcMethod::StartApache => assert(r@[20] == m),
                RpcMethod::StopApache => assert(r@[21] == m),
            }
        }
        r
    }

    /// The method with wire name `s`, if any.
    pub fn from_name(s: &str) -> (r: Option<RpcMethod>)
        ensures
            r matches Some(m) ==> method_name(m) == s@,
            r is None ==> forall|m: RpcMethod| method_name(m) != s@,
    {
        let all = RpcMethod::all();
        let mut i: usize = 0;
        while i < all.len()
            invariant
                i <= all.len(),
                forall|m: RpcMethod| #[trigger] all@.contains(m),
                forall|k: int| 0 <= k < i ==> method_name(#[trigger] all@[k]) != s@,
            decreases all.len() - i,
        {
            let m = all[i];
            if str_eq(m.name(), s) {
                return Some(m);
            }
            i = i + 1;
        }
        assert forall|m: RpcMethod| method_name(m) != s@ by {
            assert(all@.contains(m));
            let k = choose|k: int| 0 <= k < all@.len() && all@[k] == m;
        }
        None
    }
}

/// Parameters of `sync_hosts`.
#[derive(Debug, Clone)]
pub struct SyncHostsParams {
    pub entries: Vec<HostsEntry>,
}

/// Parameters of `sync_caddy_config`; the ports default to 80 and 443.
#[derive(Debug, Clone)]
pub struct SyncCaddyConfigParams {
    pub domains: Vec<CaddyDomainConfig>,
    pub http_port: u16,
    pub https_port: u16,
}

pub fn default_http_port() -> (r: u16)
    ensures
        r == 80,
{
    80
}

pub fn default_https_port() -> (r: u16)
    ensures
        r == 443,
{
    443
}

pub fn default_ssh_port() -> (r: u16)
    ensures
        r == 22,
{
    22
}

#[derive(Debug, Clone)]
pub struct GenerateCertParams {
    pub domain: String,
}

#[derive(Debug, Clone)]
pub struct GenerateCertResult {
    pub cert_path: String,
    pub key_path: String,
}

#[derive(Debug, Clone)]
pub struct StatusResult {
    pub daemon_running: bool,
    pub caddy_running: bool,
    pub ca_installed: bool,
    pub ca_trusted: bool,
    pub xampp_running: bool,
}

#[derive(Debug, Clone)]
pub struct XamppActionParams {
    pub xampp_path: String,
}

#[derive(Debug, Clone)]
pub struct SyncXamppConfigParams {
    pub vhosts: Vec<XamppVhostConfig>,
    pub xampp_path: String,
}

#[derive(Debug, Clone)]
pub struct DetectXamppResult {
    pub found: bool,
    pub path: Option<String>,
}

/// Parameters of `get_access_log`; `limit` defaults to 100.
#[derive(Debug, Clone)]
pub struct GetAccessLogParams {
    pub domain: String,
    pub limit: Option<u64>,
}

#[derive(Debug, Clone)]
pub struct ClearAccessLogParams {
    pub domain: String,
}

/// The kind of public tunnel, with what each needs.
#[derive(Debug, Clone)]
pub enum TunnelType {
    QuickTunnel,
    NamedTunnel {
        token: String,
        subdomain: String,
        cloudflare_domain: String,
        credentials_json: String,
        tunnel_uuid: String,
    },
    SshTunnel { host: String, port: u16, user: String, key: String, remote_port: u16 },
}

impl TunnelType {
    /// An equal copy.
    pub fn duplicate(&self) -> (r: Self)
        ensures
            r == *self,
    {
        match self {
            TunnelType::QuickTunnel => TunnelType::QuickTunnel,
            TunnelType::NamedTunnel { token, subdomain, cloudflare_domain, credentials_json, tunnel_uuid } => {
                TunnelType::NamedTunnel {
                    token: token.clone(),
                    subdomain: subdomain.clone(),
                    cloudflare_domain: cloudflare_domain.clone(),
                    credentials_json: credentials_json.clone(),
                    tunnel_uuid: tunnel_uuid.clone(),
                }
            },
            TunnelType::SshTunnel { host, port, user, key, remote_port } => TunnelType::SshTunnel {
                host: host.clone(),
                port: *port,
                user: user.clone(),
                key: key.clone(),
                remote_port: *remote_port,
            },
        }
    }
}

#[derive(Debug, Clone)]
pub struct StartTunnelParams {
    pub domain: String,
    pub local_port: u16,
    pub tunnel_type: TunnelType,
}

#[derive(Debug, Clone)]
pub struct StartTunnelResult {
    pub public_url: String,
    pub tunnel_id: String,
}

#[derive(Debug, Clone)]
pub struct StopTunnelParams {
    pub domain: String,
}

#[derive(Debug, Clone)]
pub struct TunnelStatusParams {
    pub domain: String,
}

#[derive(Debug, Clone)]
pub struct TunnelStatusResult {
    pub active: bool,
    pub public_url: Option<String>,
    pub tunnel_type: Option<TunnelType>,
    pub error: Option<String>,
}

#[derive(Debug, Clone)]
pub struct TunnelInfo {
    pub domain: String,
    pub public_url: String,
    pub tunnel_type: TunnelType,
    pub pid: u32,
}

#[derive(Debug, Clone)]
pub struct ListTunnelsResult {
    pub tunnels: Vec<TunnelInfo>,
}

#[derive(Debug, Clone)]
pub struct EnsureCloudflaredResult {
    pub installed: bool,
    pub path: String,
    pub version: Option<String>,
}

} // verus!
