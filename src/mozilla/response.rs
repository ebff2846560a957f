use vstd::prelude::*;

verus! {

pub struct Domain(pub String);

pub struct DisplayName(pub String);

pub struct ShortName(pub String);

pub struct Hostname(pub String);

pub struct Port(pub u16);

pub struct SocketType(pub String);

pub struct Authentication(pub String);

pub struct Username(pub String);

/// One incoming or outgoing server of a client configuration.
pub struct Server {
    pub ty: String,
    pub hostname: Hostname,
    pub port: Port,
    pub socket_type: SocketType,
    pub auth: Authentication,
    pub username: Username,
}

/// The settings of one mail provider.
pub struct Provider {
    pub id: String,
    pub domain: Domain,
    pub display_name: DisplayName,
    pub display_short_name: ShortName,
    pub incoming_servers: Vec<Server>,
    pub outgoing_servers: Vec<Server>,
}

/// A client configuration document.
pub struct ClientConfig {
    pub version: String,
    pub providers: Vec<Provider>,
}

} // verus!
