use vstd::prelude::*;

verus! {

pub struct ErrorCode(pub u32);

pub struct Message(pub String);

pub struct AccountType(pub String);

pub struct Action(pub String);

pub struct ProtocolType(pub String);

pub struct Server(pub String);

pub struct Port(pub u16);

pub struct LoginName(pub String);

pub struct DomainRequired(pub String);

pub struct AuthRequired(pub String);

pub struct UseSSL(pub String);

pub struct UseSPA(pub String);

pub struct Encryption(pub String);

/// The settings of one protocol.
pub struct Protocol {
    pub ty: ProtocolType,
    pub server: Server,
    pub port: Port,
    pub login_name: LoginName,
    pub domain_required: DomainRequired,
    pub auth_required: AuthRequired,
    pub use_ssl: Option<UseSSL>,
    pub use_spa: UseSPA,
    pub encryption: Option<Encryption>,
}

/// What a response carries: an error, or the account's settings.
pub enum ResponseBody {
    Error { error_code: ErrorCode, message: Message },
    Account { account_type: AccountType, action: Action, protocols: Vec<Protocol> },
}

pub struct Response {
    pub xmlns: Option<String>,
    pub body: ResponseBody,
}

/// An Autodiscover response document.
pub struct Autodiscover {
    pub xmlns: Option<String>,
    pub response: Response,
}

} // verus!
