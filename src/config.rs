use vstd::prelude::*;
use crate::error::Error;
use crate::text::{chars_of, last_index_of, lemma_last_index_of, same_text, string_of_range};

verus! {

/// One mail server of a domain.
pub struct Server {
    pub protocol: String,
    pub hostname: String,
    pub port: u16,
    pub auth: String,
    pub encrypt: String,
}

/// One served domain with its servers, in the order they were configured.
pub struct Domain {
    pub domain: String,
    pub name: String,
    pub short_name: String,
    pub servers: Vec<Server>,
}

/// Paths of the PEM files used to sign profiles.
pub struct SSL {
    pub chain: String,
    pub cert: String,
    pub key: String,
}

/// The configuration as it is written down.
pub struct Config {
    pub domains: Vec<Domain>,
    pub ssl: Option<SSL>,
}

/// The registry of served domains, each domain held once.
pub struct MailConfig {
    pub domains: Vec<Domain>,
    pub ssl: Option<SSL>,
}

/// A server is outgoing exactly when its protocol is `smtp`.
pub open spec fn is_outgoing(protocol: Seq<char>) -> bool {
    protocol == "smtp"@
}

/// `i` is the last position of `ds` whose domain is `key`.
pub open spec fn is_last_with_key(ds: Seq<Domain>, i: int, key: Seq<char>) -> bool {
    &&& 0 <= i < ds.len()
    &&& ds[i].domain@ == key
    &&& forall|j: int| i < j < ds.len() ==> ds[j].domain@ != key
}

/// `d` is the record that `ds` holds last for its domain.
pub open spec fn is_last_record(ds: Seq<Domain>, d: Domain) -> bool {
    exists|i: int| #![trigger ds[i]] is_last_with_key(ds, i, d.domain@) && d == ds[i]
}

pub open spec fn has_key(ds: Seq<Domain>, key: Seq<char>) -> bool {
    exists|i: int| 0 <= i < ds.len() && ds[i].domain@ == key
}

/// `i` is the first server of `servers` in the given class.
pub open spec fn is_first_of_class(servers: Seq<Server>, i: int, outgoing: bool) -> bool {
    &&& 0 <= i < servers.len()
    &&& is_outgoing(servers[i].protocol@) == outgoing
    &&& forall|j: int| 0 <= j < i ==> is_outgoing(servers[j].protocol@) != outgoing
}

pub open spec fn has_class(servers: Seq<Server>, outgoing: bool) -> bool {
    exists|i: int| 0 <= i < servers.len() && is_outgoing(servers[i].protocol@) == outgoing
}

/// The domain part of an address: what follows its last `@`.
pub open spec fn email_domain(email: Seq<char>) -> Option<Seq<char>> {
    let i = last_index_of(email, '@');
    if i < 0 {
        None
    } else {
        Some(email.subrange(i + 1, email.len() as int))
    }
}

/// The record that a registry holds for `key`.
pub open spec fn record_of(ds: Seq<Domain>, key: Seq<char>) -> Domain {
    ds[choose|i: int| is_last_with_key(ds, i, key)]
}

/// The first server of `servers` in the given class.
pub open spec fn first_of_class(servers: Seq<Server>, outgoing: bool) -> Server {
    servers[choose|i: int| is_first_of_class(servers, i, outgoing)]
}

/// Why a request for `email` cannot be served from the registry `ds`, if it cannot.
pub open spec fn lookup_error(ds: Seq<Domain>, email: Seq<char>) -> Option<Error> {
    match email_domain(email) {
        None => Some(Error::InvalidEmail),
        Some(d) => if has_key(ds, d) {
            None
        } else {
            Some(Error::DomainNotFound)
        },
    }
}

/// The domain of an address that has one.
pub open spec fn email_domain_of(email: Seq<char>) -> Seq<char> {
    email_domain(email).unwrap()
}

impl MailConfig {
    /// Each domain is held at most once.
    pub open spec fn wf(&self) -> bool {
        forall|i: int, j: int|
            0 <= i < self.domains@.len() && 0 <= j < self.domains@.len() && i != j
                ==> self.domains@[i].domain@ != self.domains@[j].domain@
    }

    /// Builds the registry; where a domain is configured twice, the later record wins.
    pub fn from_config(config: Config) -> (r: MailConfig)
        ensures
            r.wf(),
            r.ssl == config.ssl,
            forall|k: Seq<char>| has_key(r.domains@, k) == has_key(config.domains@, k),
            forall|j: int|
                0 <= j < r.domains@.len() ==> is_last_record(config.domains@, #[trigger] r.domains@[j]),
    {
        let ghost src = config.domains@;
        let mut rest = config.domains;
        let mut domains: Vec<Domain> = Vec::new();
        while rest.len() > 0
            invariant
                rest@.len() <= src.len(),
                rest@ == src.subrange(0, rest@.len() as int),
                forall|i: int, j: int|
                    0 <= i < domains@.len() && 0 <= j < domains@.len() && i != j
                        ==> domains@[i].domain@ != domains@[j].domain@,
                forall|k: Seq<char>|
                    has_key(domains@, k) <==> (exists|i: int|
                        rest@.len() <= i < src.len() && src[i].domain@ == k),
                forall|j: int|
                    0 <= j < domains@.len() ==> is_last_record(src, #[trigger] domains@[j]),
            decreases rest@.len(),
        {
            let ghost old_rest = rest@;
            let d = rest.pop().unwrap();
            let ghost n = rest@.len() as int;
            assert(d == src[n]) by {
                assert(old_rest[n] == src[n]);
            }
            let mut found = false;
            let mut j: usize = 0;
            while j < domains.len()
                invariant
                    j <= domains@.len(),
                    found == (exists|t: int| 0 <= t < j && domains@[t].domain@ == d.domain@),
                decreases domains@.len() - j,
            {
                if same_text(domains[j].domain.as_str(), d.domain.as_str()) {
                    found = true;
                }
                j = j + 1;
            }
            if !found {
                proof {
                    assert forall|t: int| n < t < src.len() implies src[t].domain@ != d.domain@ by {
                        if src[t].domain@ == d.domain@ {
                            assert(has_key(domains@, d.domain@));
                        }
                    }
                    assert(is_last_with_key(src, n, d.domain@));
                }
                let ghost before = domains@;
                domains.push(d);
                proof {
                    assert forall|j: int| 0 <= j < domains@.len() implies is_last_record(src, #[trigger] domains@[j]) by {
                        if j < before.len() {
                            assert(domains@[j] == before[j]);
                        } else {
                            assert(is_last_with_key(src, n, domains@[j].domain@) && domains@[j] == src[n]);
                        }
                    }
                    assert forall|k: Seq<char>|
                        has_key(domains@, k) <==> (exists|i: int|
                            n <= i < src.len() && src[i].domain@ == k) by {
                        if has_key(domains@, k) {
                            let t = choose|t: int| 0 <= t < domains@.len() && domains@[t].domain@ == k;
                            if t < before.len() {
                                assert(has_key(before, k));
                            } else {
                                assert(src[n].domain@ == k);
                            }
                        }
                        if exists|i: int| n <= i < src.len() && src[i].domain@ == k {
                            let i = choose|i: int| n <= i < src.len() && src[i].domain@ == k;
                            if i == n {
                                assert(domains@[before.len() as int].domain@ == k);
                            } else {
                                assert(has_key(before, k));
                                let t = choose|t: int| 0 <= t < before.len() && before[t].domain@ == k;
                                assert(domains@[t] == before[t]);
                            }
                        }
                    }
                }
            } else {
                proof {
                    assert forall|k: Seq<char>|
                        has_key(domains@, k) <==> (exists|i: int|
                            n <= i < src.len() && src[i].domain@ == k) by {
                        if exists|i: int| n <= i < src.len() && src[i].domain@ == k {
                            let i = choose|i: int| n <= i < src.len() && src[i].domain@ == k;
                            if i == n {
                                let t = choose|t: int| 0 <= t < j && domains@[t].domain@ == d.domain@;
                                assert(domains@[t].domain@ == k);
                            }
                        }
                    }
                }
            }
            assert(rest@ =~= src.subrange(0, rest@.len() as int));
        }
        MailConfig { domains, ssl: config.ssl }
    }

    /// The record of `domain`, or `DomainNotFound`.
    pub fn lookup(&self, domain: &str) -> (r: Result<&Domain, Error>)
        ensures
            r is Err <==> !has_key(self.domains@, domain@),
            r is Err ==> r == Err::<&Domain, Error>(Error::DomainNotFound),
            r matches Ok(d) ==> exists|i: int| #![auto]
                is_last_with_key(self.domains@, i, domain@) && *d == self.domains@[i],
    {
        let mut i: usize = self.domains.len();
        while i > 0
            invariant
                i <= self.domains@.len(),
                forall|j: int| i <= j < self.domains@.len() ==> self.domains@[j].domain@ != domain@,
            decreases i,
        {
            i = i - 1;
            if same_text(self.domains[i].domain.as_str(), domain) {
                assert(is_last_with_key(self.domains@, i as int, domain@));
                return Ok(&self.domains[i]);
            }
        }
        Err(Error::DomainNotFound)
    }
}

/// In a registry that holds each domain once, the record found for the domain of
/// any held record is that record itself.
pub proof fn lemma_lookup_exact(reg: MailConfig, i: int)
    requires
        reg.wf(),
        0 <= i < reg.domains@.len(),
    ensures
        has_key(reg.domains@, reg.domains@[i].domain@),
        record_of(reg.domains@, reg.domains@[i].domain@) == reg.domains@[i],
{
    let key = reg.domains@[i].domain@;
    assert(is_last_with_key(reg.domains@, i, key));
    let c = choose|c: int| is_last_with_key(reg.domains@, c, key);
    assert(c == i);
}

/// The domain part of `email`, or `InvalidEmail` when it holds no `@`.
pub fn domain_of_email(email: &str) -> (r: Result<String, Error>)
    ensures
        email_domain(email@) matches Some(d) ==> r matches Ok(s) && s@ == d,
        email_domain(email@) is None ==> r == Err::<String, Error>(Error::InvalidEmail),
{
    let cs = chars_of(email);
    proof {
        lemma_last_index_of(cs@, '@');
    }
    let mut i: usize = cs.len();
    while i > 0
        invariant
            i <= cs@.len(),
            cs@ == email@,
            forall|j: int| i <= j < cs@.len() ==> cs@[j] != '@',
        decreases i,
    {
        if cs[i - 1] == '@' {
            assert(last_index_of(cs@, '@') == i - 1) by {
                lemma_last_index_of(cs@, '@');
                let l = last_index_of(cs@, '@');
                if l < i - 1 {
                    assert(cs@[i - 1] != '@');
                } else if l > i - 1 {
                    assert(cs@[l] != '@');
                }
            }
            return Ok(string_of_range(&cs, i, cs.len()));
        }
        i = i - 1;
    }
    assert(last_index_of(cs@, '@') < 0) by {
        lemma_last_index_of(cs@, '@');
        let l = last_index_of(cs@, '@');
        if l >= 0 {
            assert(cs@[l] != '@');
        }
    }
    Err(Error::InvalidEmail)
}

/// The domain of `email` and the record held for it.
pub fn resolve<'a>(config: &'a MailConfig, email: &str) -> (r: Result<(String, &'a Domain), Error>)
    ensures
        r is Err <==> lookup_error(config.domains@, email@) is Some,
        r matches Err(e) ==> lookup_error(config.domains@, email@) == Some(e),
        r matches Ok((d, rec)) ==> email_domain(email@) == Some(d@) && *rec == record_of(
            config.domains@,
            d@,
        ),
{
    let d = domain_of_email(email)?;
    let rec = config.lookup(d.as_str())?;
    proof {
        let i = choose|i: int| is_last_with_key(config.domains@, i, d@) && *rec == config.domains@[i];
        let c = choose|i: int| is_last_with_key(config.domains@, i, d@);
        assert(i == c);
    }
    Ok((d, rec))
}

/// The first incoming and the first outgoing server of `domain`, by position.
pub fn select_servers(domain: &Domain) -> (r: Result<(usize, usize), Error>)
    ensures
        r is Ok <==> has_class(domain.servers@, false) && has_class(domain.servers@, true),
        r is Err ==> r == Err::<(usize, usize), Error>(Error::MissingServerKind),
        r matches Ok((inc, out)) ==> is_first_of_class(domain.servers@, inc as int, false)
            && is_first_of_class(domain.servers@, out as int, true),
{
    let smtp = "smtp".to_owned();
    let mut incoming: Option<usize> = None;
    let mut outgoing: Option<usize> = None;
    let mut i: usize = 0;
    while i < domain.servers.len()
        invariant
            i <= domain.servers@.len(),
            smtp@ == "smtp"@,
            incoming matches Some(k) ==> k < i && is_first_of_class(domain.servers@, k as int, false),
            incoming is None ==> forall|j: int| 0 <= j < i ==> is_outgoing(domain.servers@[j].protocol@),
            outgoing matches Some(k) ==> k < i && is_first_of_class(domain.servers@, k as int, true),
            outgoing is None ==> forall|j: int| 0 <= j < i ==> !is_outgoing(domain.servers@[j].protocol@),
        decreases domain.servers@.len() - i,
    {
        let out = domain.servers[i].protocol == smtp;
        if out {
            if outgoing.is_none() {
                outgoing = Some(i);
            }
        } else {
            if incoming.is_none() {
                incoming = Some(i);
            }
        }
        i = i + 1;
    }
    match (incoming, outgoing) {
        (Some(a), Some(b)) => Ok((a, b)),
        _ => Err(Error::MissingServerKind),
    }
}

} // verus!
