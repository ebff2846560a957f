pub mod response;

use vstd::prelude::*;
use crate::config::{is_outgoing, lookup_error, record_of, resolve, Domain, MailConfig, Server};
use crate::error::Error;
use crate::text::same_text;

verus! {

/// The servers of `servers` in the given class, in their order.
pub open spec fn servers_of_class(servers: Seq<Server>, outgoing: bool) -> Seq<Server> {
    servers.filter(|s: Server| is_outgoing(s.protocol@) == outgoing)
}

/// The client configuration's name for an encryption mode.
pub open spec fn socket_name(encrypt: Seq<char>) -> Seq<char> {
    if encrypt == "ssl"@ {
        "SSL"@
    } else if encrypt == "starttls"@ {
        "STARTTLS"@
    } else {
        "plain"@
    }
}

/// The entry that describes `s` to the user `email`.
pub open spec fn server_fits(r: response::Server, s: Server, email: Seq<char>) -> bool {
    &&& r.ty@ == s.protocol@
    &&& r.hostname.0@ == s.hostname@
    &&& r.port.0 == s.port
    &&& r.socket_type.0@ == socket_name(s.encrypt@)
    &&& r.auth.0@ == "password-cleartext"@
    &&& r.username.0@ == email
}

/// The entries `rs` describe the servers `ss`, one for one and in order.
pub open spec fn servers_fit(rs: Seq<response::Server>, ss: Seq<Server>, email: Seq<char>) -> bool {
    &&& rs.len() == ss.len()
    &&& forall|j: int| 0 <= j < rs.len() ==> server_fits(#[trigger] rs[j], ss[j], email)
}

/// The client configuration for `email` on the domain `rec`: one provider that
/// lists every server of the domain.
pub open spec fn client_config_fits(c: response::ClientConfig, rec: Domain, email: Seq<char>) -> bool {
    let p = c.providers@[0];
    &&& c.version@ == "1.1"@
    &&& c.providers@.len() == 1
    &&& p.id@ == "synkhronix.com"@
    &&& p.domain.0@ == rec.domain@
    &&& p.display_name.0@ == rec.name@
    &&& p.display_short_name.0@ == rec.short_name@
    &&& servers_fit(p.incoming_servers@, servers_of_class(rec.servers@, false), email)
    &&& servers_fit(p.outgoing_servers@, servers_of_class(rec.servers@, true), email)
}

/// The client configuration for `email` that the registry `reg` gives.
pub open spec fn client_config_for(c: response::ClientConfig, reg: MailConfig, email: Seq<char>) -> bool {
    client_config_fits(
        c,
        record_of(reg.domains@, crate::config::email_domain_of(email)),
        email,
    )
}

/// The client configuration's name for the encryption mode `encrypt`.
pub fn socket_type(encrypt: &str) -> (r: String)
    ensures
        r@ == socket_name(encrypt@),
{
    if same_text(encrypt, "ssl") {
        "SSL".to_owned()
    } else if same_text(encrypt, "starttls") {
        "STARTTLS".to_owned()
    } else {
        "plain".to_owned()
    }
}

/// The client configuration for `email` on the domain `rec`.
pub fn build_client_config(rec: &Domain, email: &str) -> (r: response::ClientConfig)
    ensures
        client_config_fits(r, *rec, email@),
{
    let ghost ss = rec.servers@;
    let mut incoming_servers: Vec<response::Server> = Vec::new();
    let mut outgoing_servers: Vec<response::Server> = Vec::new();
    let mut i: usize = 0;
    assert(ss.take(0) =~= Seq::<Server>::empty());
    proof {
        reveal(Seq::filter);
    }
    while i < rec.servers.len()
        invariant
            ss == rec.servers@,
            i <= ss.len(),
            servers_fit(incoming_servers@, servers_of_class(ss.take(i as int), false), email@),
            servers_fit(outgoing_servers@, servers_of_class(ss.take(i as int), true), email@),
        decreases ss.len() - i,
    {
        let server = &rec.servers[i];
        let item = response::Server {
            ty: server.protocol.clone(),
            hostname: response::Hostname(server.hostname.clone()),
            port: response::Port(server.port),
            socket_type: response::SocketType(socket_type(server.encrypt.as_str())),
            auth: response::Authentication("password-cleartext".to_owned()),
            username: response::Username(email.to_owned()),
        };
        assert(ss.take(i + 1).drop_last() =~= ss.take(i as int));
        proof {
            reveal(Seq::filter);
        }
        if same_text(server.protocol.as_str(), "smtp") {
            outgoing_servers.push(item);
        } else {
            incoming_servers.push(item);
        }
        i = i + 1;
    }
    assert(ss.take(i as int) =~= ss);
    let provider = response::Provider {
        id: "synkhronix.com".to_owned(),
        domain: response::Domain(rec.domain.clone()),
        display_name: response::DisplayName(rec.name.clone()),
        display_short_name: response::ShortName(rec.short_name.clone()),
        incoming_servers,
        outgoing_servers,
    };
    let mut providers: Vec<response::Provider> = Vec::new();
    providers.push(provider);
    response::ClientConfig { version: "1.1".to_owned(), providers }
}

/// The client configuration for `emailaddress`.
pub fn autoconfig(config: &MailConfig, emailaddress: &str) -> (r: Result<response::ClientConfig, Error>)
    ensures
        r is Err <==> lookup_error(config.domains@, emailaddress@) is Some,
        r matches Err(e) ==> lookup_error(config.domains@, emailaddress@) == Some(e),
        r matches Ok(c) ==> client_config_for(c, *config, emailaddress@),
{
    let (_domain, rec) = resolve(config, emailaddress)?;
    Ok(build_client_config(rec, emailaddress))
}

/// The client configuration for `emailaddress`, as served at the well-known location.
pub fn autoconfig_wellknown(config: &MailConfig, emailaddress: &str) -> (r: Result<response::ClientConfig, Error>)
    ensures
        r is Err <==> lookup_error(config.domains@, emailaddress@) is Some,
        r matches Err(e) ==> lookup_error(config.domains@, emailaddress@) == Some(e),
        r matches Ok(c) ==> client_config_for(c, *config, emailaddress@),
{
    autoconfig(config, emailaddress)
}

/// Every server lands in exactly one of the two lists, in its class's list:
/// together the lists are as long as the servers, and each server is in its own.
pub proof fn lemma_every_server_listed(servers: Seq<Server>)
    ensures
        servers_of_class(servers, false).len() + servers_of_class(servers, true).len()
            == servers.len(),
        forall|i: int|
            0 <= i < servers.len() ==> servers_of_class(
                servers,
                is_outgoing(servers[i].protocol@),
            ).contains(#[trigger] servers[i]),
    decreases servers.len(),
{
    reveal(Seq::filter);
    if servers.len() > 0 {
        let rest = servers.drop_last();
        lemma_every_server_listed(rest);
        assert forall|i: int|
            0 <= i < servers.len() implies servers_of_class(
            servers,
            is_outgoing(servers[i].protocol@),
        ).contains(#[trigger] servers[i]) by {
            let c = is_outgoing(servers[i].protocol@);
            if i < servers.len() - 1 {
                assert(rest[i] == servers[i]);
                let sub = servers_of_class(rest, c);
                let k = choose|k: int| 0 <= k < sub.len() && sub[k] == rest[i];
                if is_outgoing(servers.last().protocol@) == c {
                    assert(servers_of_class(servers, c) == sub.push(servers.last()));
                    assert(servers_of_class(servers, c)[k] == servers[i]);
                } else {
                    assert(servers_of_class(servers, c) == sub);
                }
            } else {
                let full = servers_of_class(servers, c);
                assert(full == servers_of_class(rest, c).push(servers.last()));
                assert(full[full.len() - 1] == servers[i]);
            }
        }
    }
}

} // verus!
