pub mod request;
pub mod response;

use vstd::prelude::*;
use crate::config::{lookup_error, record_of, resolve, MailConfig, Server};
use crate::error::Error;
use crate::text::same_text;

verus! {

/// The body of an Autodiscover request, as read from the client.
pub struct Body {
    pub body: String,
}

/// What `str::to_uppercase` gives for `s`.
pub uninterp spec fn upper_of(s: Seq<char>) -> Seq<char>;

/// Relies on `str::to_uppercase`: the upper case of a string depends on its characters alone.
#[verifier::external_body]
fn uppercase(s: &str) -> (r: String)
    ensures
        r@ == upper_of(s@),
{
    s.to_uppercase()
}

/// Positions of `types` that hold a type for the first time, in order.
#[verifier::opaque]
pub open spec fn first_per_type(types: Seq<Seq<char>>) -> Seq<int>
    decreases types.len(),
{
    if types.len() == 0 {
        Seq::empty()
    } else {
        let p = first_per_type(types.drop_last());
        if exists|k: int| 0 <= k < types.len() - 1 && types[k] == types.last() {
            p
        } else {
            p.push(types.len() - 1)
        }
    }
}

/// The encryption named for a server's encryption mode, if any.
pub open spec fn encryption_name(encrypt: Seq<char>) -> Option<Seq<char>> {
    if encrypt == "ssl"@ {
        Some("ssl"@)
    } else if encrypt == "starttls"@ {
        Some("tls"@)
    } else {
        None
    }
}

/// The entry that describes `s`, of protocol type `ty`, to the user `email`.
#[verifier::opaque]
pub open spec fn protocol_fits(p: response::Protocol, s: Server, ty: Seq<char>, email: Seq<char>) -> bool {
    &&& p.ty.0@ == ty
    &&& p.server.0@ == s.hostname@
    &&& p.port.0 == s.port
    &&& p.login_name.0@ == email
    &&& p.domain_required.0@ == "on"@
    &&& p.auth_required.0@ == "on"@
    &&& p.use_ssl matches Some(u) && u.0@ == (if encryption_name(s.encrypt@) is Some {
        "on"@
    } else {
        "off"@
    })
    &&& p.use_spa.0@ == "off"@
    &&& match encryption_name(s.encrypt@) {
        Some(e) => p.encryption matches Some(x) && x.0@ == e,
        None => p.encryption is None,
    }
}

/// The entries `ps` describe, in order, the first server of each protocol type,
/// where `types[i]` is the type of `servers[i]`.
pub open spec fn protocols_fit(
    ps: Seq<response::Protocol>,
    servers: Seq<Server>,
    types: Seq<Seq<char>>,
    email: Seq<char>,
) -> bool {
    let idx = first_per_type(types);
    &&& ps.len() == idx.len()
    &&& forall|j: int|
        0 <= j < ps.len() ==> protocol_fits(
            #[trigger] ps[j],
            servers[idx[j]],
            types[idx[j]],
            email,
        )
}

/// The protocol types of `servers`: their protocols in upper case.
pub open spec fn types_of(servers: Seq<Server>) -> Seq<Seq<char>> {
    servers.map_values(|s: Server| upper_of(s.protocol@))
}

/// Some string of `seen` holds `t`.
#[verifier::opaque]
spec fn holds_type(seen: Seq<String>, t: Seq<char>) -> bool {
    exists|j: int| 0 <= j < seen.len() && seen[j]@ == t
}

proof fn lemma_first_per_type_step(ts: Seq<Seq<char>>, i: int)
    requires
        0 <= i < ts.len(),
    ensures
        (exists|k: int| 0 <= k < i && ts[k] == ts[i]) ==> first_per_type(ts.take(i + 1))
            == first_per_type(ts.take(i)),
        !(exists|k: int| 0 <= k < i && ts[k] == ts[i]) ==> first_per_type(ts.take(i + 1))
            == first_per_type(ts.take(i)).push(i),
{
    let post = ts.take(i + 1);
    assert(post.drop_last() =~= ts.take(i));
    reveal(first_per_type);
    if exists|k: int| 0 <= k < i && ts[k] == ts[i] {
        let k = choose|k: int| 0 <= k < i && ts[k] == ts[i];
        assert(post[k] == post.last());
    } else {
        assert forall|k: int| 0 <= k < post.len() - 1 implies post[k] != post.last() by {
            assert(post[k] == ts[k]);
        }
    }
}

/// The entry that describes `server`, of protocol type `ty`, to the user `email`.
pub fn protocol_entry(server: &Server, ty: &String, email: &str) -> (p: response::Protocol)
    ensures
        protocol_fits(p, *server, ty@, email@),
{
    reveal(protocol_fits);
    let encrypt = server.encrypt.as_str();
    let on = same_text(encrypt, "ssl") || same_text(encrypt, "starttls");
    let encryption = if same_text(encrypt, "ssl") {
        Some(response::Encryption("ssl".to_owned()))
    } else if same_text(encrypt, "starttls") {
        Some(response::Encryption("tls".to_owned()))
    } else {
        None
    };
    response::Protocol {
        ty: response::ProtocolType(ty.clone()),
        server: response::Server(server.hostname.clone()),
        port: response::Port(server.port),
        login_name: response::LoginName(email.to_owned()),
        domain_required: response::DomainRequired("on".to_owned()),
        auth_required: response::AuthRequired("on".to_owned()),
        use_ssl: Some(response::UseSSL(if on { "on".to_owned() } else { "off".to_owned() })),
        use_spa: response::UseSPA("off".to_owned()),
        encryption,
    }
}

/// One entry for the first server of each protocol type, in the servers' order,
/// where `types[i]` is the protocol type of `servers[i]`.
pub fn protocols_for(servers: &Vec<Server>, types: &Vec<String>, email: &str) -> (r: Vec<response::Protocol>)
    requires
        types@.len() == servers@.len(),
    ensures
        protocols_fit(r@, servers@, types@.map_values(|t: String| t@), email@),
{
    let ghost ts = types@.map_values(|t: String| t@);
    assert(forall|k: int| 0 <= k < ts.len() ==> #[trigger] ts[k] == types@[k]@);
    let mut seen: Vec<String> = Vec::new();
    let mut r: Vec<response::Protocol> = Vec::new();
    let mut i: usize = 0;
    let ghost mut idx: Seq<int> = Seq::empty();
    assert(ts.take(0) =~= Seq::<Seq<char>>::empty());
    proof {
        reveal(first_per_type);
    }
    while i < servers.len()
        invariant
            types@.len() == servers@.len(),
            ts.len() == types@.len(),
            forall|k: int| 0 <= k < ts.len() ==> #[trigger] ts[k] == types@[k]@,
            i <= servers@.len(),
            idx == first_per_type(ts.take(i as int)),
            seen@.len() == r@.len() && r@.len() == idx.len(),
            forall|j: int| 0 <= j < idx.len() ==> 0 <= #[trigger] idx[j] < i,
            forall|j: int|
                0 <= j < r@.len() ==> protocol_fits(#[trigger] r@[j], servers@[idx[j]], ts[idx[j]], email@),
            forall|j: int| 0 <= j < seen@.len() ==> #[trigger] seen@[j]@ == ts[idx[j]],
            forall|k: int| 0 <= k < i ==> holds_type(seen@, #[trigger] ts[k]),
        decreases servers@.len() - i,
    {
        let ty = &types[i];
        let mut found = false;
        let mut j: usize = 0;
        while j < seen.len()
            invariant
                j <= seen@.len(),
                found == (exists|t: int| 0 <= t < j && seen@[t]@ == ty@),
            decreases seen@.len() - j,
        {
            if same_text(seen[j].as_str(), ty.as_str()) {
                found = true;
            }
            j = j + 1;
        }
        assert(ts[i as int] == ty@);
        proof {
            lemma_first_per_type_step(ts, i as int);
        }
        if found {
            proof {
                reveal(holds_type);
                let t = choose|t: int| 0 <= t < j && seen@[t]@ == ty@;
                assert(0 <= idx[t] < i && ts[idx[t]] == ts[i as int]);
                assert(holds_type(seen@, ts[i as int]));
            }
        } else {
            proof {
                assert forall|k: int| 0 <= k < i implies ts[k] != ts[i as int] by {
                    if ts[k] == ts[i as int] {
                        assert(holds_type(seen@, ts[k]));
                        reveal(holds_type);
                        let t = choose|t: int| 0 <= t < seen@.len() && seen@[t]@ == ts[k];
                        assert(seen@[t]@ == ty@);
                    }
                }
            }
            let item = protocol_entry(&servers[i], ty, email);
            r.push(item);
            let ghost old_seen = seen@;
            seen.push(ty.clone());
            proof {
                reveal(holds_type);
                assert forall|k: int| 0 <= k < i implies holds_type(seen@, #[trigger] ts[k]) by {
                    assert(holds_type(old_seen, ts[k]));
                    let t = choose|t: int| 0 <= t < old_seen.len() && old_seen[t]@ == ts[k];
                    assert(seen@[t] == old_seen[t]);
                }
                assert(seen@[seen@.len() - 1]@ == ts[i as int]);
                assert(holds_type(seen@, ts[i as int]));
            }
            proof {
                idx = idx.push(i as int);
            }
        }
        i = i + 1;
    }
    assert(ts.take(i as int) =~= ts);
    r
}

/// The fixed document that answers a request that could not be read.
pub open spec fn is_error_document(d: response::Autodiscover) -> bool {
    &&& d.xmlns is None
    &&& d.response.xmlns is None
    &&& d.response.body matches response::ResponseBody::Error { error_code, message }
        && error_code.0 == 600 && message.0@ == "Invalid Request"@
}

/// The document that gives the settings of the domain `rec` to the user `email`.
pub open spec fn account_document_fits(d: response::Autodiscover, rec: crate::config::Domain, email: Seq<char>) -> bool {
    &&& d.xmlns matches Some(x)
        && x@ == "http://schemas.microsoft.com/exchange/autodiscover/responseschema/2006"@
    &&& d.response.xmlns matches Some(x)
        && x@ == "http://schemas.microsoft.com/exchange/autodiscover/outlook/responseschema/2006a"@
    &&& d.response.body matches response::ResponseBody::Account { account_type, action, protocols }
        && account_type.0@ == "email"@ && action.0@ == "settings"@
        && protocols_fit(protocols@, rec.servers@, types_of(rec.servers@), email)
}

/// The document that answers a request that could not be read.
pub fn error_document() -> (d: response::Autodiscover)
    ensures
        is_error_document(d),
{
    response::Autodiscover {
        xmlns: None,
        response: response::Response {
            xmlns: None,
            body: response::ResponseBody::Error {
                error_code: response::ErrorCode(600),
                message: response::Message("Invalid Request".to_owned()),
            },
        },
    }
}

/// The protocol types of `servers`, in upper case.
fn protocol_types(servers: &Vec<Server>) -> (r: Vec<String>)
    ensures
        r@.len() == servers@.len(),
        r@.map_values(|t: String| t@) == types_of(servers@),
{
    let mut r: Vec<String> = Vec::new();
    let mut i: usize = 0;
    while i < servers.len()
        invariant
            i <= servers@.len(),
            r@.len() == i,
            forall|k: int| 0 <= k < i ==> #[trigger] r@[k]@ == upper_of(servers@[k].protocol@),
        decreases servers@.len() - i,
    {
        r.push(uppercase(servers[i].protocol.as_str()));
        i = i + 1;
    }
    assert(r@.map_values(|t: String| t@) =~= types_of(servers@));
    r
}

/// The answer to an Autodiscover request, or to one that could not be read (`None`).
pub fn autodiscover(config: &MailConfig, request: Option<request::Autodiscover>) -> (r: Result<response::Autodiscover, Error>)
    ensures
        request is None ==> (r matches Ok(d) && is_error_document(d)),
        request matches Some(q) ==> {
            &&& r is Err <==> lookup_error(config.domains@, q.request.email@) is Some
            &&& r matches Err(e) ==> lookup_error(config.domains@, q.request.email@) == Some(e)
            &&& r matches Ok(d) ==> account_document_fits(
                d,
                record_of(config.domains@, crate::config::email_domain_of(q.request.email@)),
                q.request.email@,
            )
        },
{
    let request = match request {
        Some(q) => q,
        None => return Ok(error_document()),
    };
    let email = request.request.email.as_str();
    let (_domain, rec) = resolve(config, email)?;
    let types = protocol_types(&rec.servers);
    let protocols = protocols_for(&rec.servers, &types, email);
    Ok(response::Autodiscover {
        xmlns: Some("http://schemas.microsoft.com/exchange/autodiscover/responseschema/2006".to_owned()),
        response: response::Response {
            xmlns: Some("http://schemas.microsoft.com/exchange/autodiscover/outlook/responseschema/2006a".to_owned()),
            body: response::ResponseBody::Account {
                account_type: response::AccountType("email".to_owned()),
                action: response::Action("settings".to_owned()),
                protocols,
            },
        },
    })
}

proof fn lemma_first_per_type_range(types: Seq<Seq<char>>)
    ensures
        forall|a: int|
            0 <= a < first_per_type(types).len() ==> 0 <= #[trigger] first_per_type(types)[a]
                < types.len(),
        first_per_type(types).len() == 0 || types.len() > 0,
    decreases types.len(),
{
    reveal(first_per_type);
    if types.len() > 0 {
        let rest = types.drop_last();
        lemma_first_per_type_range(rest);
        lemma_first_per_type_extends(types);
        let p = first_per_type(rest);
        let q = first_per_type(types);
        assert forall|a: int| 0 <= a < q.len() implies 0 <= #[trigger] q[a] < types.len() by {
            if a < p.len() {
                assert(q[a] == p[a]);
            }
        }
    }
}

proof fn lemma_first_per_type_extends(types: Seq<Seq<char>>)
    requires
        types.len() > 0,
    ensures
        ({
            let p = first_per_type(types.drop_last());
            let q = first_per_type(types);
            &&& p.len() <= q.len() <= p.len() + 1
            &&& forall|a: int| 0 <= a < p.len() ==> #[trigger] q[a] == p[a]
            &&& q.len() == p.len() + 1 <==> !(exists|k: int|
                0 <= k < types.len() - 1 && types[k] == types.last())
            &&& q.len() == p.len() + 1 ==> q[p.len() as int] == types.len() - 1
        }),
{
    reveal(first_per_type);
}

/// No position before `i` holds the type at `i`.
pub open spec fn is_first_of_type(types: Seq<Seq<char>>, i: int) -> bool {
    forall|k: int| 0 <= k < i ==> types[k] != types[i]
}

proof fn lemma_first_per_type_first(types: Seq<Seq<char>>)
    ensures
        forall|a: int|
            0 <= a < first_per_type(types).len() ==> is_first_of_type(
                types,
                #[trigger] first_per_type(types)[a],
            ),
    decreases types.len(),
{
    if types.len() > 0 {
        let rest = types.drop_last();
        lemma_first_per_type_first(rest);
        lemma_first_per_type_range(rest);
        lemma_first_per_type_extends(types);
        let p = first_per_type(rest);
        let q = first_per_type(types);
        assert forall|a: int| 0 <= a < q.len() implies is_first_of_type(types, #[trigger] q[a]) by {
            if a < p.len() {
                assert(q[a] == p[a]);
                assert(is_first_of_type(rest, p[a]));
                assert forall|k: int| 0 <= k < p[a] implies #[trigger] types[k] != types[p[a]] by {
                    assert(rest[k] == types[k] && rest[p[a]] == types[p[a]]);
                }
            } else {
                assert(q[a] == types.len() - 1);
            }
        }
    } else {
        reveal(first_per_type);
    }
}

/// Some position of `idx` points at a type equal to `t`.
spec fn covered(types: Seq<Seq<char>>, idx: Seq<int>, t: Seq<char>) -> bool {
    exists|a: int| 0 <= a < idx.len() && types[#[trigger] idx[a]] == t
}

proof fn lemma_first_per_type_distinct(types: Seq<Seq<char>>)
    ensures
        forall|a: int, b: int|
            0 <= a < b < first_per_type(types).len() ==> types[#[trigger] first_per_type(types)[a]]
                != types[#[trigger] first_per_type(types)[b]],
    decreases types.len(),
{
    if types.len() > 0 {
        let rest = types.drop_last();
        lemma_first_per_type_distinct(rest);
        lemma_first_per_type_range(rest);
        lemma_first_per_type_extends(types);
        let p = first_per_type(rest);
        let q = first_per_type(types);
        assert forall|a: int, b: int| 0 <= a < b < q.len() implies types[#[trigger] q[a]]
            != types[#[trigger] q[b]] by {
            assert(q[a] == p[a]);
            assert(types[p[a]] == rest[p[a]]);
            if b < p.len() {
                assert(q[b] == p[b]);
                assert(types[p[b]] == rest[p[b]]);
            } else {
                assert(q[b] == types.len() - 1);
            }
        }
    } else {
        reveal(first_per_type);
    }
}

proof fn lemma_first_per_type_covers(types: Seq<Seq<char>>)
    ensures
        forall|k: int| 0 <= k < types.len() ==> covered(types, first_per_type(types), #[trigger] types[k]),
    decreases types.len(),
{
    if types.len() > 0 {
        let rest = types.drop_last();
        lemma_first_per_type_covers(rest);
        lemma_first_per_type_range(rest);
        lemma_first_per_type_extends(types);
        let p = first_per_type(rest);
        let q = first_per_type(types);
        assert forall|k: int| 0 <= k < types.len() implies covered(types, q, #[trigger] types[k]) by {
            let j = if k == types.len() - 1 && q.len() == p.len() {
                choose|j: int| 0 <= j < types.len() - 1 && types[j] == types.last()
            } else {
                k
            };
            if j < types.len() - 1 {
                assert(rest[j] == types[j]);
                assert(covered(rest, p, rest[j]));
                let a = choose|a: int| 0 <= a < p.len() && rest[#[trigger] p[a]] == rest[j];
                assert(q[a] == p[a]);
                assert(types[p[a]] == rest[p[a]]);
                assert(types[q[a]] == types[k]);
            } else {
                assert(q[p.len() as int] == k);
            }
        }
    }
}

/// Some entry of `ps` is of the protocol type `t`.
pub open spec fn has_entry_of_type(ps: Seq<response::Protocol>, t: Seq<char>) -> bool {
    exists|a: int| 0 <= a < ps.len() && (#[trigger] ps[a]).ty.0@ == t
}

/// `p` describes a server of `servers` that comes first among those of its type.
pub open spec fn describes_first_of_type(
    p: response::Protocol,
    servers: Seq<Server>,
    types: Seq<Seq<char>>,
    email: Seq<char>,
) -> bool {
    exists|i: int|
        0 <= i < servers.len() && is_first_of_type(types, i) && protocol_fits(
            p,
            servers[i],
            types[i],
            email,
        )
}

/// Entries that describe the first server of each protocol type hold each type
/// once: no two entries share a type, every type of the servers has one, and
/// each entry describes the first server of its type, later ones being skipped.
pub proof fn lemma_one_entry_per_type(
    ps: Seq<response::Protocol>,
    servers: Seq<Server>,
    types: Seq<Seq<char>>,
    email: Seq<char>,
)
    requires
        types.len() == servers.len(),
        protocols_fit(ps, servers, types, email),
    ensures
        forall|a: int, b: int|
            0 <= a < b < ps.len() ==> (#[trigger] ps[a]).ty.0@ != (#[trigger] ps[b]).ty.0@,
        forall|k: int| 0 <= k < types.len() ==> has_entry_of_type(ps, #[trigger] types[k]),
        forall|a: int|
            0 <= a < ps.len() ==> describes_first_of_type(#[trigger] ps[a], servers, types, email),
{
    reveal(protocol_fits);
    lemma_first_per_type_range(types);
    lemma_first_per_type_distinct(types);
    lemma_first_per_type_covers(types);
    lemma_first_per_type_first(types);
    let idx = first_per_type(types);
    assert forall|a: int| 0 <= a < ps.len() implies describes_first_of_type(
        #[trigger] ps[a],
        servers,
        types,
        email,
    ) by {
        assert(is_first_of_type(types, idx[a]));
        assert(protocol_fits(ps[a], servers[idx[a]], types[idx[a]], email));
    }
    assert forall|a: int, b: int| 0 <= a < b < ps.len() implies (#[trigger] ps[a]).ty.0@
        != (#[trigger] ps[b]).ty.0@ by {
        assert(protocol_fits(ps[a], servers[idx[a]], types[idx[a]], email));
        assert(protocol_fits(ps[b], servers[idx[b]], types[idx[b]], email));
        assert(types[idx[a]] != types[idx[b]]);
    }
    assert forall|k: int| 0 <= k < types.len() implies has_entry_of_type(ps, #[trigger] types[k]) by {
        assert(covered(types, idx, types[k]));
        let a = choose|a: int| 0 <= a < idx.len() && types[#[trigger] idx[a]] == types[k];
        assert(protocol_fits(ps[a], servers[idx[a]], types[idx[a]], email));
        assert(0 <= a < ps.len() && ps[a].ty.0@ == types[k]);
    }
}

} // verus!
