use vstd::prelude::*;
use crate::config::{
    email_domain_of, first_of_class, has_class, is_first_of_class, lookup_error, record_of, resolve,
    select_servers, MailConfig, Server,
};
use crate::error::Error;
use crate::text::{
    chars_of, last_index_of, lemma_last_index_of, push_char, same_text, string_of_range,
};

verus! {

/// One mail account of a configuration profile.
pub struct PayloadContent {
    pub email_account_type: String,
    pub email_address: String,
    pub incoming_mail_server_authentication: String,
    pub incoming_mail_server_host_name: String,
    pub incoming_mail_server_port_number: u16,
    pub incoming_mail_server_use_ssl: bool,
    pub outgoing_mail_server_authentication: String,
    pub outgoing_mail_server_host_name: String,
    pub outgoing_mail_server_port_number: u16,
    pub outgoing_mail_server_use_ssl: bool,
    pub payload_description: String,
    pub payload_display_name: String,
    pub payload_identifier: String,
    pub payload_organization: String,
    pub payload_type: String,
    pub payload_uuid: u128,
    pub payload_version: u32,
    pub prevent_app_sheet: bool,
    pub prevent_move: bool,
    pub smime_enabled: bool,
    pub allow_mail_drop: bool,
}

/// A configuration profile holding the accounts to set up.
pub struct MobileConfig {
    pub payload_content: Vec<PayloadContent>,
    pub payload_description: String,
    pub payload_display_name: String,
    pub payload_identifier: String,
    pub payload_organization: String,
    pub payload_removal_disallowed: bool,
    pub payload_type: String,
    pub payload_uuid: u128,
    pub payload_version: u32,
}

/// The labels of a dotted name in reverse order, joined by dots.
#[verifier::opaque]
pub open spec fn reverse_dns(s: Seq<char>) -> Seq<char>
    decreases s.len(),
    via reverse_dns_decreases
{
    let d = last_index_of(s, '.');
    if d < 0 {
        s
    } else {
        s.subrange(d + 1, s.len() as int) + seq!['.'] + reverse_dns(s.subrange(0, d))
    }
}

#[via_fn]
proof fn reverse_dns_decreases(s: Seq<char>) {
    lemma_last_index_of(s, '.');
}

/// The identifier of a profile for `domain`.
pub open spec fn payload_identifier_of(domain: Seq<char>) -> Seq<char> {
    reverse_dns(domain) + ".mobileconfig"@
}

/// Whether a server's encryption mode asks for a secured connection.
pub open spec fn uses_ssl(encrypt: Seq<char>) -> bool {
    encrypt == "ssl"@ || encrypt == "starttls"@
}

/// The profile's name for a server's authentication mode.
pub open spec fn apple_auth(auth: Seq<char>) -> Seq<char> {
    if auth == "plain"@ {
        "EmailAuthPassword"@
    } else if auth == "cram-md5"@ {
        "EmailAuthCRAMMD5"@
    } else {
        "EmailAuthNone"@
    }
}

/// The account entry for `email` with the given incoming and outgoing servers.
pub open spec fn payload_fits(
    p: PayloadContent,
    email: Seq<char>,
    domain: Seq<char>,
    inc: Server,
    out: Server,
    uuid: u128,
) -> bool {
    &&& p.email_account_type@ == "EmailTypeIMAP"@
    &&& p.email_address@ == email
    &&& p.incoming_mail_server_authentication@ == apple_auth(inc.auth@)
    &&& p.incoming_mail_server_host_name@ == inc.hostname@
    &&& p.incoming_mail_server_port_number == inc.port
    &&& p.incoming_mail_server_use_ssl == uses_ssl(inc.encrypt@)
    &&& p.outgoing_mail_server_authentication@ == apple_auth(out.auth@)
    &&& p.outgoing_mail_server_host_name@ == out.hostname@
    &&& p.outgoing_mail_server_port_number == out.port
    &&& p.outgoing_mail_server_use_ssl == uses_ssl(out.encrypt@)
    &&& p.payload_description@ == "Configures your e-mail account."@
    &&& p.payload_display_name@ == "IMAP Account"@
    &&& p.payload_identifier@ == payload_identifier_of(domain)
    &&& p.payload_organization@ == domain
    &&& p.payload_type@ == "com.apple.mail.managed"@
    &&& p.payload_uuid == uuid
    &&& p.payload_version == 1
    &&& !p.prevent_app_sheet
    &&& !p.prevent_move
    &&& !p.smime_enabled
    &&& p.allow_mail_drop
}

/// The profile for `email` on `domain`, with the two given identifiers.
pub open spec fn profile_fits(
    m: MobileConfig,
    email: Seq<char>,
    domain: Seq<char>,
    inc: Server,
    out: Server,
    profile_uuid: u128,
    payload_uuid: u128,
) -> bool {
    &&& m.payload_content@.len() == 1
    &&& payload_fits(m.payload_content@[0], email, domain, inc, out, payload_uuid)
    &&& m.payload_description@
        == "Install this profile to automatically configure the e-mail account for "@ + email
    &&& m.payload_display_name@ == "Mail Account"@
    &&& m.payload_identifier@ == payload_identifier_of(domain)
    &&& m.payload_organization@ == domain
    &&& !m.payload_removal_disallowed
    &&& m.payload_type@ == "Configuration"@
    &&& m.payload_uuid == profile_uuid
    &&& m.payload_version == 1
}

/// Why no profile can be made for `email`, if none can.
pub open spec fn profile_error(reg: MailConfig, email: Seq<char>) -> Option<Error> {
    match lookup_error(reg.domains@, email) {
        Some(e) => Some(e),
        None => {
            let rec = record_of(reg.domains@, email_domain_of(email));
            if has_class(rec.servers@, false) && has_class(rec.servers@, true) {
                None
            } else {
                Some(Error::MissingServerKind)
            }
        },
    }
}

/// The profile that `reg` gives for `email`, with the two given identifiers.
pub open spec fn profile_for(
    m: MobileConfig,
    reg: MailConfig,
    email: Seq<char>,
    profile_uuid: u128,
    payload_uuid: u128,
) -> bool {
    let d = email_domain_of(email);
    let rec = record_of(reg.domains@, d);
    profile_fits(
        m,
        email,
        d,
        first_of_class(rec.servers@, false),
        first_of_class(rec.servers@, true),
        profile_uuid,
        payload_uuid,
    )
}

/// Two profiles agree in everything but their two random identifiers.
pub open spec fn same_but_identifiers(a: MobileConfig, b: MobileConfig) -> bool {
    let p = a.payload_content@[0];
    let q = b.payload_content@[0];
    &&& a.payload_content@.len() == 1 && b.payload_content@.len() == 1
    &&& p.email_account_type@ == q.email_account_type@
    &&& p.email_address@ == q.email_address@
    &&& p.incoming_mail_server_authentication@ == q.incoming_mail_server_authentication@
    &&& p.incoming_mail_server_host_name@ == q.incoming_mail_server_host_name@
    &&& p.incoming_mail_server_port_number == q.incoming_mail_server_port_number
    &&& p.incoming_mail_server_use_ssl == q.incoming_mail_server_use_ssl
    &&& p.outgoing_mail_server_authentication@ == q.outgoing_mail_server_authentication@
    &&& p.outgoing_mail_server_host_name@ == q.outgoing_mail_server_host_name@
    &&& p.outgoing_mail_server_port_number == q.outgoing_mail_server_port_number
    &&& p.outgoing_mail_server_use_ssl == q.outgoing_mail_server_use_ssl
    &&& p.payload_description@ == q.payload_description@
    &&& p.payload_display_name@ == q.payload_display_name@
    &&& p.payload_identifier@ == q.payload_identifier@
    &&& p.payload_organization@ == q.payload_organization@
    &&& p.payload_type@ == q.payload_type@
    &&& p.payload_version == q.payload_version
    &&& p.prevent_app_sheet == q.prevent_app_sheet
    &&& p.prevent_move == q.prevent_move
    &&& p.smime_enabled == q.smime_enabled
    &&& p.allow_mail_drop == q.allow_mail_drop
    &&& a.payload_description@ == b.payload_description@
    &&& a.payload_display_name@ == b.payload_display_name@
    &&& a.payload_identifier@ == b.payload_identifier@
    &&& a.payload_organization@ == b.payload_organization@
    &&& a.payload_removal_disallowed == b.payload_removal_disallowed
    &&& a.payload_type@ == b.payload_type@
    &&& a.payload_version == b.payload_version
}

/// Making the profile for one address twice gives the same document, but for the
/// profile and payload identifiers, which are those handed in.
pub proof fn lemma_profile_deterministic(
    a: MobileConfig,
    b: MobileConfig,
    reg: MailConfig,
    email: Seq<char>,
    u1: u128,
    u2: u128,
    u3: u128,
    u4: u128,
)
    requires
        profile_for(a, reg, email, u1, u2),
        profile_for(b, reg, email, u3, u4),
    ensures
        same_but_identifiers(a, b),
        a.payload_uuid == u1 && a.payload_content@[0].payload_uuid == u2,
        b.payload_uuid == u3 && b.payload_content@[0].payload_uuid == u4,
{
}

/// The labels of `domain` in reverse order, joined by dots.
pub fn reverse_labels(domain: &str) -> (r: String)
    ensures
        r@ == reverse_dns(domain@),
{
    let cs = chars_of(domain);
    let ghost s = cs@;
    let mut out = String::new();
    let mut end: usize = cs.len();
    let mut i: usize = cs.len();
    assert(s.subrange(0, end as int) =~= s);
    assert(out@ + s =~= s);
    while i > 0
        invariant
            s == cs@,
            i <= end <= s.len(),
            forall|j: int| i <= j < end ==> s[j] != '.',
            reverse_dns(s) == out@ + reverse_dns(s.subrange(0, end as int)),
        decreases i,
    {
        if cs[i - 1] == '.' {
            let label = string_of_range(&cs, i, end);
            let ghost pre = s.subrange(0, end as int);
            proof {
                lemma_last_index_of(pre, '.');
                let l = last_index_of(pre, '.');
                if l < i - 1 {
                    assert(pre[i - 1] == '.');
                } else if l > i - 1 {
                    assert(pre[l] == s[l]);
                }
                assert(pre.subrange(i as int, end as int) =~= s.subrange(i as int, end as int));
                assert(pre.subrange(0, i - 1) =~= s.subrange(0, i - 1));
                reveal(reverse_dns);
                assert(reverse_dns(pre) == s.subrange(i as int, end as int) + seq!['.']
                    + reverse_dns(s.subrange(0, i - 1)));
            }
            let ghost before = out@;
            out.append(label.as_str());
            push_char(&mut out, '.');
            assert(out@ =~= before + s.subrange(i as int, end as int) + seq!['.']);
            end = i - 1;
        }
        i = i - 1;
    }
    proof {
        let pre = s.subrange(0, end as int);
        lemma_last_index_of(pre, '.');
        let l = last_index_of(pre, '.');
        if l >= 0 {
            assert(pre[l] == s[l]);
        }
        reveal(reverse_dns);
        assert(reverse_dns(pre) == pre);
    }
    let last = string_of_range(&cs, 0, end);
    out.append(last.as_str());
    out
}

/// The profile's name for the authentication mode `auth`.
pub fn auth_name(auth: &str) -> (r: String)
    ensures
        r@ == apple_auth(auth@),
{
    if same_text(auth, "plain") {
        "EmailAuthPassword".to_owned()
    } else if same_text(auth, "cram-md5") {
        "EmailAuthCRAMMD5".to_owned()
    } else {
        "EmailAuthNone".to_owned()
    }
}

/// Whether the encryption mode `encrypt` asks for a secured connection.
pub fn use_ssl(encrypt: &str) -> (r: bool)
    ensures
        r == uses_ssl(encrypt@),
{
    same_text(encrypt, "ssl") || same_text(encrypt, "starttls")
}

/// The profile for `email`, built from `reg` with the two given identifiers.
pub fn build_profile(reg: &MailConfig, email: &str, profile_uuid: u128, payload_uuid: u128) -> (r:
    Result<MobileConfig, Error>)
    ensures
        r is Err <==> profile_error(*reg, email@) is Some,
        r matches Err(e) ==> profile_error(*reg, email@) == Some(e),
        r matches Ok(m) ==> profile_for(m, *reg, email@, profile_uuid, payload_uuid),
{
    let (domain, rec) = resolve(reg, email)?;
    let (a, b) = select_servers(rec)?;
    let inc = &rec.servers[a];
    let out = &rec.servers[b];
    proof {
        let x = choose|i: int| is_first_of_class(rec.servers@, i, false);
        let y = choose|i: int| is_first_of_class(rec.servers@, i, true);
        assert(x == a);
        assert(y == b);
    }
    let identifier = reverse_labels(domain.as_str());
    let mut payload_identifier = identifier.clone();
    payload_identifier.append(".mobileconfig");
    let mut description = "Install this profile to automatically configure the e-mail account for ".to_owned();
    description.append(email);
    let content = PayloadContent {
        email_account_type: "EmailTypeIMAP".to_owned(),
        email_address: email.to_owned(),
        incoming_mail_server_authentication: auth_name(inc.auth.as_str()),
        incoming_mail_server_host_name: inc.hostname.clone(),
        incoming_mail_server_port_number: inc.port,
        incoming_mail_server_use_ssl: use_ssl(inc.encrypt.as_str()),
        outgoing_mail_server_authentication: auth_name(out.auth.as_str()),
        outgoing_mail_server_host_name: out.hostname.clone(),
        outgoing_mail_server_port_number: out.port,
        outgoing_mail_server_use_ssl: use_ssl(out.encrypt.as_str()),
        payload_description: "Configures your e-mail account.".to_owned(),
        payload_display_name: "IMAP Account".to_owned(),
        payload_identifier: payload_identifier.clone(),
        payload_organization: domain.clone(),
        payload_type: "com.apple.mail.managed".to_owned(),
        payload_uuid: payload_uuid,
        payload_version: 1,
        prevent_app_sheet: false,
        prevent_move: false,
        smime_enabled: false,
        allow_mail_drop: true,
    };
    let mut payload_content: Vec<PayloadContent> = Vec::new();
    payload_content.push(content);
    Ok(MobileConfig {
        payload_content,
        payload_description: description,
        payload_display_name: "Mail Account".to_owned(),
        payload_identifier,
        payload_organization: domain,
        payload_removal_disallowed: false,
        payload_type: "Configuration".to_owned(),
        payload_uuid: profile_uuid,
        payload_version: 1,
    })
}

/// A random identifier of version 4 and of the RFC 4122 variant, read as a
/// big-endian 128-bit number.
pub open spec fn is_uuid_v4(u: u128) -> bool {
    (u >> 76u128) & 0xfu128 == 4 && (u >> 62u128) & 0x3u128 == 2
}

/// Relies on `uuid::Uuid::new_v4`, which sets the version and variant fields of
/// random bytes, and `Uuid::as_u128`, which reads the bytes big-endian.
#[verifier::external_body]
fn new_uuid() -> (r: u128)
    ensures
        is_uuid_v4(r),
{
    uuid::Uuid::new_v4().as_u128()
}

/// The profile for `email`, with freshly drawn profile and payload identifiers.
pub fn mobileconfig(reg: &MailConfig, email: &str) -> (r: Result<MobileConfig, Error>)
    ensures
        r is Err <==> profile_error(*reg, email@) is Some,
        r matches Err(e) ==> profile_error(*reg, email@) == Some(e),
        r matches Ok(m) ==> exists|u1: u128, u2: u128|
            is_uuid_v4(u1) && is_uuid_v4(u2) && profile_for(m, *reg, email@, u1, u2),
{
    let profile_uuid = new_uuid();
    let payload_uuid = new_uuid();
    build_profile(reg, email, profile_uuid, payload_uuid)
}

} // verus!
