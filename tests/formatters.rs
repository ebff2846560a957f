use automail::apple::{build_profile, mobileconfig, reverse_labels, MobileConfig};
use automail::config::{domain_of_email, select_servers, Config, Domain, MailConfig, Server};
use automail::error::Error;
use automail::microsoft::request::{Autodiscover, Request};
use automail::microsoft::response::ResponseBody;
use automail::microsoft::{autodiscover, protocols_for};
use automail::mozilla::{autoconfig, autoconfig_wellknown};
use automail::text::xml_document;

fn server(protocol: &str, hostname: &str, port: u16, auth: &str, encrypt: &str) -> Server {
    Server {
        protocol: protocol.to_string(),
        hostname: hostname.to_string(),
        port,
        auth: auth.to_string(),
        encrypt: encrypt.to_string(),
    }
}

fn domain(name: &str, servers: Vec<Server>) -> Domain {
    Domain {
        domain: name.to_string(),
        name: format!("{} Mail", name),
        short_name: "Mail".to_string(),
        servers,
    }
}

fn registry(domains: Vec<Domain>) -> MailConfig {
    MailConfig::from_config(Config { domains, ssl: None })
}

fn example() -> MailConfig {
    registry(vec![domain(
        "example.com",
        vec![
            server("imap", "imap.example.com", 993, "plain", "ssl"),
            server("smtp", "smtp.example.com", 587, "cram-md5", "starttls"),
        ],
    )])
}

fn request(email: &str) -> Option<Autodiscover> {
    Some(Autodiscover { request: Request { email: email.to_string() } })
}

fn profile(reg: &MailConfig, email: &str) -> MobileConfig {
    match build_profile(reg, email, 1, 2) {
        Ok(m) => m,
        Err(e) => panic!("no profile: {:?}", e),
    }
}

#[test]
fn lookup_finds_each_present_domain() {
    let reg = registry(vec![
        domain("a.org", vec![server("imap", "imap.a.org", 143, "plain", "none")]),
        domain("b.org", vec![server("pop3", "pop.b.org", 995, "plain", "ssl")]),
    ]);
    let a = reg.lookup("a.org").unwrap();
    assert_eq!(a.domain, "a.org");
    assert_eq!(a.servers[0].hostname, "imap.a.org");
    let b = reg.lookup("b.org").unwrap();
    assert_eq!(b.servers[0].hostname, "pop.b.org");
}

#[test]
fn lookup_reports_absent_domain() {
    let reg = example();
    assert!(matches!(reg.lookup("other.com"), Err(Error::DomainNotFound)));
    assert!(matches!(reg.lookup(""), Err(Error::DomainNotFound)));
}

#[test]
fn registry_keeps_the_later_duplicate() {
    let reg = registry(vec![
        domain("dup.org", vec![server("imap", "first.dup.org", 143, "plain", "none")]),
        domain("dup.org", vec![server("imap", "second.dup.org", 143, "plain", "none")]),
    ]);
    assert_eq!(reg.domains.len(), 1);
    assert_eq!(reg.lookup("dup.org").unwrap().servers[0].hostname, "second.dup.org");
}

#[test]
fn selection_keeps_first_of_each_class() {
    let d = domain(
        "x.org",
        vec![
            server("imap", "A", 1, "plain", "ssl"),
            server("smtp", "B", 2, "plain", "ssl"),
            server("imap", "C", 3, "plain", "ssl"),
            server("smtp", "D", 4, "plain", "ssl"),
        ],
    );
    let (inc, out) = select_servers(&d).unwrap();
    assert_eq!(d.servers[inc].hostname, "A");
    assert_eq!(d.servers[out].hostname, "B");
}

#[test]
fn selection_needs_both_classes() {
    let d = domain("x.org", vec![server("imap", "A", 1, "plain", "ssl")]);
    assert!(matches!(select_servers(&d), Err(Error::MissingServerKind)));
    let e = domain("y.org", vec![server("smtp", "B", 2, "plain", "ssl")]);
    assert!(matches!(select_servers(&e), Err(Error::MissingServerKind)));
}

#[test]
fn reverse_labels_of_dotted_domain() {
    assert_eq!(reverse_labels("mail.example.co.uk"), "uk.co.example.mail");
    assert_eq!(reverse_labels("mail.example.com"), "com.example.mail");
    assert_eq!(reverse_labels("localhost"), "localhost");
    assert_eq!(reverse_labels(""), "");
}

#[test]
fn domain_of_email_takes_part_after_last_at() {
    assert_eq!(domain_of_email("user@example.com").unwrap(), "example.com");
    assert_eq!(domain_of_email("a@b@example.org").unwrap(), "example.org");
    assert!(matches!(domain_of_email("nobody"), Err(Error::InvalidEmail)));
}

#[test]
fn apple_profile_maps_security_and_auth() {
    let reg = example();
    let m = profile(&reg, "user@example.com");
    assert_eq!(m.payload_content.len(), 1);
    let p = &m.payload_content[0];
    assert!(p.incoming_mail_server_use_ssl);
    assert_eq!(p.incoming_mail_server_authentication, "EmailAuthPassword");
    assert!(p.outgoing_mail_server_use_ssl);
    assert_eq!(p.outgoing_mail_server_authentication, "EmailAuthCRAMMD5");
    assert_eq!(p.incoming_mail_server_host_name, "imap.example.com");
    assert_eq!(p.incoming_mail_server_port_number, 993);
    assert_eq!(p.outgoing_mail_server_host_name, "smtp.example.com");
    assert_eq!(p.outgoing_mail_server_port_number, 587);
    assert_eq!(p.email_account_type, "EmailTypeIMAP");
    assert_eq!(p.email_address, "user@example.com");
    assert_eq!(p.payload_identifier, "com.example.mobileconfig");
    assert_eq!(p.payload_organization, "example.com");
    assert_eq!(p.payload_uuid, 2);
    assert_eq!(p.payload_version, 1);
    assert!(p.allow_mail_drop);
    assert!(!p.smime_enabled && !p.prevent_app_sheet && !p.prevent_move);
    assert_eq!(m.payload_uuid, 1);
    assert_eq!(m.payload_identifier, "com.example.mobileconfig");
    assert_eq!(
        m.payload_description,
        "Install this profile to automatically configure the e-mail account for user@example.com"
    );
    assert_eq!(m.payload_type, "Configuration");
    assert!(!m.payload_removal_disallowed);
}

#[test]
fn apple_identifier_for_nested_domain() {
    let reg = registry(vec![domain(
        "mail.example.co.uk",
        vec![server("imap", "i", 1, "other", "none"), server("smtp", "s", 2, "other", "none")],
    )]);
    let m = profile(&reg, "me@mail.example.co.uk");
    assert_eq!(m.payload_identifier, "uk.co.example.mail.mobileconfig");
    let p = &m.payload_content[0];
    assert!(!p.incoming_mail_server_use_ssl);
    assert_eq!(p.incoming_mail_server_authentication, "EmailAuthNone");
}

#[test]
fn apple_profile_errors() {
    let reg = example();
    assert!(matches!(build_profile(&reg, "nobody", 1, 2), Err(Error::InvalidEmail)));
    assert!(matches!(build_profile(&reg, "a@other.com", 1, 2), Err(Error::DomainNotFound)));
    let only_in = registry(vec![domain("in.org", vec![server("imap", "i", 1, "plain", "ssl")])]);
    assert!(matches!(build_profile(&only_in, "a@in.org", 1, 2), Err(Error::MissingServerKind)));
}

#[test]
fn apple_profile_same_but_identifiers() {
    let reg = example();
    let a = profile(&reg, "user@example.com");
    let b = match build_profile(&reg, "user@example.com", 7, 8) {
        Ok(m) => m,
        Err(e) => panic!("no profile: {:?}", e),
    };
    assert_eq!(a.payload_description, b.payload_description);
    assert_eq!(a.payload_identifier, b.payload_identifier);
    assert_eq!(a.payload_content[0].incoming_mail_server_host_name, b.payload_content[0].incoming_mail_server_host_name);
    assert_eq!(b.payload_uuid, 7);
    assert_eq!(b.payload_content[0].payload_uuid, 8);
    let x = mobileconfig(&reg, "user@example.com").unwrap();
    let y = mobileconfig(&reg, "user@example.com").unwrap();
    assert_ne!(x.payload_uuid, y.payload_uuid);
    assert_ne!(x.payload_content[0].payload_uuid, y.payload_content[0].payload_uuid);
    assert_ne!(x.payload_uuid, x.payload_content[0].payload_uuid);
    assert_eq!(x.payload_identifier, y.payload_identifier);
    for u in [x.payload_uuid, x.payload_content[0].payload_uuid] {
        assert_eq!((u >> 76) & 0xf, 4);
        assert_eq!((u >> 62) & 0x3, 2);
    }
}

#[test]
fn mozilla_lists_every_server_in_order() {
    let reg = registry(vec![domain(
        "m.org",
        vec![
            server("imap", "i1", 993, "cram-md5", "ssl"),
            server("smtp", "s1", 465, "plain", "ssl"),
            server("pop3", "p1", 110, "plain", "none"),
            server("smtp", "s2", 587, "plain", "starttls"),
        ],
    )]);
    let c = autoconfig(&reg, "u@m.org").unwrap();
    assert_eq!(c.version, "1.1");
    assert_eq!(c.providers.len(), 1);
    let p = &c.providers[0];
    assert_eq!(p.id, "synkhronix.com");
    assert_eq!(p.domain.0, "m.org");
    assert_eq!(p.display_name.0, "m.org Mail");
    assert_eq!(p.display_short_name.0, "Mail");
    let inc: Vec<&str> = p.incoming_servers.iter().map(|s| s.hostname.0.as_str()).collect();
    let out: Vec<&str> = p.outgoing_servers.iter().map(|s| s.hostname.0.as_str()).collect();
    assert_eq!(inc, vec!["i1", "p1"]);
    assert_eq!(out, vec!["s1", "s2"]);
    assert_eq!(p.incoming_servers[0].socket_type.0, "SSL");
    assert_eq!(p.incoming_servers[1].socket_type.0, "plain");
    assert_eq!(p.outgoing_servers[1].socket_type.0, "STARTTLS");
    assert_eq!(p.incoming_servers[0].auth.0, "password-cleartext");
    assert_eq!(p.incoming_servers[1].ty, "pop3");
    assert_eq!(p.outgoing_servers[0].port.0, 465);
    assert_eq!(p.outgoing_servers[0].username.0, "u@m.org");
}

#[test]
fn mozilla_well_known_is_the_same() {
    let reg = example();
    let a = autoconfig(&reg, "u@example.com").unwrap();
    let b = autoconfig_wellknown(&reg, "u@example.com").unwrap();
    assert_eq!(a.providers[0].incoming_servers[0].hostname.0, b.providers[0].incoming_servers[0].hostname.0);
    assert!(matches!(autoconfig_wellknown(&reg, "u@none.org"), Err(Error::DomainNotFound)));
    assert!(matches!(autoconfig(&reg, "nobody"), Err(Error::InvalidEmail)));
}

#[test]
fn microsoft_keeps_first_server_per_protocol() {
    let reg = registry(vec![domain(
        "ms.org",
        vec![
            server("imap", "first.ms.org", 993, "plain", "ssl"),
            server("smtp", "out.ms.org", 587, "plain", "starttls"),
            server("imap", "second.ms.org", 143, "plain", "none"),
        ],
    )]);
    let d = autodiscover(&reg, request("u@ms.org")).unwrap();
    assert_eq!(
        d.xmlns.as_deref(),
        Some("http://schemas.microsoft.com/exchange/autodiscover/responseschema/2006")
    );
    assert_eq!(
        d.response.xmlns.as_deref(),
        Some("http://schemas.microsoft.com/exchange/autodiscover/outlook/responseschema/2006a")
    );
    match &d.response.body {
        ResponseBody::Account { account_type, action, protocols } => {
            assert_eq!(account_type.0, "email");
            assert_eq!(action.0, "settings");
            assert_eq!(protocols.len(), 2);
            let imap: Vec<_> = protocols.iter().filter(|p| p.ty.0 == "IMAP").collect();
            assert_eq!(imap.len(), 1);
            assert_eq!(imap[0].server.0, "first.ms.org");
            assert_eq!(protocols[0].ty.0, "IMAP");
            assert_eq!(protocols[0].use_ssl.as_ref().unwrap().0, "on");
            assert_eq!(protocols[0].encryption.as_ref().unwrap().0, "ssl");
            assert_eq!(protocols[0].login_name.0, "u@ms.org");
            assert_eq!(protocols[0].domain_required.0, "on");
            assert_eq!(protocols[0].auth_required.0, "on");
            assert_eq!(protocols[0].use_spa.0, "off");
            assert_eq!(protocols[1].ty.0, "SMTP");
            assert_eq!(protocols[1].port.0, 587);
            assert_eq!(protocols[1].encryption.as_ref().unwrap().0, "tls");
        }
        ResponseBody::Error { .. } => panic!("error document"),
    }
}

#[test]
fn microsoft_plain_server_has_no_encryption() {
    let reg = registry(vec![domain("p.org", vec![server("pop3", "pop.p.org", 110, "plain", "none")])]);
    let d = autodiscover(&reg, request("u@p.org")).unwrap();
    match &d.response.body {
        ResponseBody::Account { protocols, .. } => {
            assert_eq!(protocols.len(), 1);
            assert_eq!(protocols[0].ty.0, "POP3");
            assert_eq!(protocols[0].use_ssl.as_ref().unwrap().0, "off");
            assert!(protocols[0].encryption.is_none());
        }
        ResponseBody::Error { .. } => panic!("error document"),
    }
}

#[test]
fn microsoft_dedup_by_given_types() {
    let servers = vec![
        server("imap", "a", 1, "plain", "ssl"),
        server("Imap", "b", 2, "plain", "ssl"),
        server("smtp", "c", 3, "plain", "ssl"),
    ];
    let types = vec!["IMAP".to_string(), "IMAP".to_string(), "SMTP".to_string()];
    let ps = protocols_for(&servers, &types, "u@x.org");
    assert_eq!(ps.len(), 2);
    assert_eq!(ps[0].server.0, "a");
    assert_eq!(ps[1].server.0, "c");
}

#[test]
fn microsoft_unreadable_request_gets_error_document() {
    let reg = example();
    let d = autodiscover(&reg, None).unwrap();
    assert!(d.xmlns.is_none());
    assert!(d.response.xmlns.is_none());
    match &d.response.body {
        ResponseBody::Error { error_code, message } => {
            assert_eq!(error_code.0, 600);
            assert_eq!(message.0, "Invalid Request");
        }
        ResponseBody::Account { .. } => panic!("account document"),
    }
}

#[test]
fn microsoft_request_errors() {
    let reg = example();
    assert!(matches!(autodiscover(&reg, request("u@none.org")), Err(Error::DomainNotFound)));
    assert!(matches!(autodiscover(&reg, request("nobody")), Err(Error::InvalidEmail)));
}

#[test]
fn xml_document_puts_prolog_right_before_root() {
    assert_eq!(
        xml_document("<clientConfig/>"),
        "<?xml version=\"1.0\" encoding=\"UTF-8\"?><clientConfig/>"
    );
}
