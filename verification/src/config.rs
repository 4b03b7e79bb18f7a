//! Process settings: the client-facing bind address and the backend
//! address, and the exact address strings built from them.

use vstd::prelude::*;
use vstd::string::StringExecFns;

verus! {

/// Where the client-facing listener binds.
#[derive(Debug)]
pub struct WebsocketConfig {
    pub self_ip: String,
    pub self_port: String,
}

/// Where the backend service listens.
#[derive(Debug)]
pub struct GRPCConfig {
    pub to_ip: String,
    pub to_port: String,
}

/// The whole process configuration.
#[derive(Debug)]
pub struct Settings {
    pub websocket_server: WebsocketConfig,
    pub grpc_client: GRPCConfig,
}

impl Settings {
    /// The backend endpoint address.
    pub fn grpc_endpoint(&self) -> (r: String)
        ensures
            r@ == "http://"@ + self.grpc_client.to_ip@ + ":"@ + self.grpc_client.to_port@,
    {
        let mut s: String = "http://".to_owned();
        s.append(self.grpc_client.to_ip.as_str());
        s.append(":");
        s.append(self.grpc_client.to_port.as_str());
        s
    }

    /// The client-facing bind address.
    pub fn ws_bind_addr(&self) -> (r: String)
        ensures
            r@ == self.websocket_server.self_ip@ + ":"@ + self.websocket_server.self_port@,
    {
        let mut s: String = self.websocket_server.self_ip.clone();
        s.append(":");
        s.append(self.websocket_server.self_port.as_str());
        s
    }
}

} // verus!
