use vstd::prelude::*;
use crate::msg::{Account, Effect, MetaDataUpdateMsg, Website};
use crate::validate::{body_of, get_name_body, has_suffix, make_subdomain_key, subdomain_key};

verus! {

/// A subdomain as its parent's token metadata lists it.
#[derive(Debug)]
pub struct SubdomainEntry {
    pub name: Option<String>,
    pub resolver: Option<String>,
    pub minted: Option<bool>,
    pub created: Option<u64>,
    pub expiry: Option<u64>,
}

/// The metadata a name's token carries.
#[derive(Debug)]
pub struct Metadata {
    pub name: Option<String>,
    pub description: Option<String>,
    pub image: Option<String>,
    pub created: Option<u64>,
    pub expiry: Option<u64>,
    pub domain: Option<String>,
    pub subdomains: Option<Vec<SubdomainEntry>>,
    pub accounts: Option<Vec<Account>>,
    pub websites: Option<Vec<Website>>,
}

/// A message for the token collaborator.
#[derive(Debug)]
pub enum TokenMsg {
    Mint { token_id: String, owner: String, extension: Metadata },
    Burn { token_id: String },
    UpdateMetadata { token_id: String, extension: Metadata },
}

/// `text` holds exactly the characters `s`.
pub open spec fn holds(text: Option<String>, s: Seq<char>) -> bool {
    text is Some && text->0@ == s
}

/// The entry is the one listed for subdomain `n`.
pub open spec fn is_named(e: SubdomainEntry, n: Seq<char>) -> bool {
    holds(e.name, n)
}

/// The entries of `s` that are not listed for `n`, in order.
pub open spec fn others(s: Seq<SubdomainEntry>, n: Seq<char>) -> Seq<SubdomainEntry>
    decreases s.len(),
{
    if s.len() == 0 {
        s
    } else {
        let rest = others(s.drop_last(), n);
        if is_named(s.last(), n) {
            rest
        } else {
            rest.push(s.last())
        }
    }
}

/// The listed subdomains, none where the metadata has no list.
pub open spec fn listed(m: Metadata) -> Seq<SubdomainEntry> {
    match m.subdomains {
        Some(v) => v@,
        None => Seq::empty(),
    }
}

/// `r` is `m` with only its list of subdomains changed, to `list`.
pub open spec fn relisted(r: Metadata, m: Metadata, list: Seq<SubdomainEntry>) -> bool {
    &&& r.subdomains is Some && r.subdomains->0@ == list
    &&& r.name == m.name && r.description == m.description && r.image == m.image
    &&& r.created == m.created && r.expiry == m.expiry && r.domain == m.domain
    &&& r.accounts == m.accounts && r.websites == m.websites
}

/// A copy of an optional text.
fn copy_text(t: &Option<String>) -> (r: Option<String>)
    ensures
        r == *t,
{
    match t {
        Some(s) => Some(s.clone()),
        None => None,
    }
}

fn entry_is_named(e: &SubdomainEntry, n: &String) -> (r: bool)
    ensures
        r == is_named(*e, n@),
{
    match &e.name {
        Some(x) => *x == *n,
        None => false,
    }
}

/// The list without the entries for `n`.
fn drop_named(list: Vec<SubdomainEntry>, n: &String) -> (r: Vec<SubdomainEntry>)
    ensures
        r@ == others(list@, n@),
{
    let ghost orig = list@;
    let mut rest = list;
    let mut out: Vec<SubdomainEntry> = Vec::new();
    let ghost mut k: int = 0;
    assert(orig.subrange(0, 0) =~= Seq::<SubdomainEntry>::empty());
    assert(orig.subrange(0, orig.len() as int) =~= orig);
    while rest.len() > 0
        invariant
            0 <= k <= orig.len(),
            rest@ == orig.subrange(k, orig.len() as int),
            out@ == others(orig.subrange(0, k), n@),
        decreases rest@.len(),
    {
        let e = rest.remove(0);
        assert(orig.subrange(0, k + 1).drop_last() =~= orig.subrange(0, k));
        assert(orig.subrange(0, k + 1).last() == e);
        if !entry_is_named(&e, n) {
            out.push(e);
        }
        proof {
            k = k + 1;
        }
        assert(rest@ =~= orig.subrange(k, orig.len() as int));
    }
    assert(orig.subrange(0, k) =~= orig);
    out
}

/// `m` with its list of subdomains changed to `list`.
fn with_list(m: Metadata, list: Vec<SubdomainEntry>) -> (r: Metadata)
    ensures
        relisted(r, m, list@),
{
    Metadata {
        name: m.name,
        description: m.description,
        image: m.image,
        created: m.created,
        expiry: m.expiry,
        domain: m.domain,
        subdomains: Some(list),
        accounts: m.accounts,
        websites: m.websites,
    }
}

/// The listed subdomains of `m`, and `m` without them.
fn take_list(m: &mut Metadata) -> (r: Vec<SubdomainEntry>)
    ensures
        r@ == listed(*old(m)),
        final(m).subdomains is None,
        final(m).name == old(m).name && final(m).description == old(m).description
            && final(m).image == old(m).image && final(m).created == old(m).created
            && final(m).expiry == old(m).expiry && final(m).domain == old(m).domain
            && final(m).accounts == old(m).accounts && final(m).websites == old(m).websites,
{
    match m.subdomains.take() {
        Some(v) => v,
        None => Vec::new(),
    }
}

/// `r` is the metadata of a freshly minted top-level `name`.
pub open spec fn is_domain_metadata(r: Metadata, name: Seq<char>, created: u64, expiry: u64) -> bool {
    &&& holds(r.name, body_of(name))
    &&& holds(r.description, name + " domain"@)
    &&& r.image is None
    &&& r.created == Some(created)
    &&& r.expiry == Some(expiry)
    &&& holds(r.domain, name)
    &&& r.subdomains is Some && r.subdomains->0@.len() == 0
    &&& r.accounts is Some && r.accounts->0@.len() == 0
    &&& r.websites is Some && r.websites->0@.len() == 0
}

/// `r` is the metadata of a freshly minted subdomain `sub` of `domain`.
pub open spec fn is_subdomain_metadata(
    r: Metadata,
    domain: Seq<char>,
    sub: Seq<char>,
    created: u64,
    expiry: u64,
) -> bool {
    &&& holds(r.name, subdomain_key(sub, body_of(domain)))
    &&& holds(r.description, subdomain_key(sub, domain) + " subdomain"@)
    &&& r.image is None
    &&& r.created == Some(created)
    &&& r.expiry == Some(expiry)
    &&& holds(r.domain, subdomain_key(sub, domain))
    &&& r.subdomains is None && r.accounts is None && r.websites is None
}

/// `r` is `m` with only its expiry changed, to `expiry`.
pub open spec fn reexpired(r: Metadata, m: Metadata, expiry: u64) -> bool {
    &&& r.expiry == Some(expiry)
    &&& r.name == m.name && r.description == m.description && r.image == m.image
    &&& r.created == m.created && r.domain == m.domain && r.subdomains == m.subdomains
    &&& r.accounts == m.accounts && r.websites == m.websites
}

/// `r` is `s` with every entry for `n` set to expire at `expiry` and, where
/// `resolver` is given, to resolve there.
pub open spec fn amended(
    r: Seq<SubdomainEntry>,
    s: Seq<SubdomainEntry>,
    n: Seq<char>,
    resolver: Option<Seq<char>>,
    expiry: u64,
) -> bool {
    &&& r.len() == s.len()
    &&& forall|i: int|
        0 <= i < s.len() ==> if is_named(#[trigger] s[i], n) {
            &&& r[i].name == s[i].name && r[i].minted == s[i].minted && r[i].created == s[i].created
            &&& r[i].expiry == Some(expiry)
            &&& match resolver {
                Some(x) => holds(r[i].resolver, x),
                None => r[i].resolver == s[i].resolver,
            }
        } else {
            r[i] == s[i]
        }
}

/// `r` is the metadata `m` with the owner's own fields taken from `update`
/// and its name set to `name`.
pub open spec fn merged(r: Metadata, m: Metadata, name: Seq<char>, update: MetaDataUpdateMsg) -> bool {
    &&& holds(r.name, name)
    &&& r.description == update.description && r.image == update.image
    &&& r.accounts == update.accounts && r.websites == update.websites
    &&& r.created == m.created && r.expiry == m.expiry && r.domain == m.domain
    &&& r.subdomains == m.subdomains
}

/// Metadata of a freshly minted top-level name.
pub fn domain_metadata(name: &String, created: u64, expiry: u64) -> (r: Metadata)
    requires
        has_suffix(name@),
    ensures
        is_domain_metadata(r, name@, created, expiry),
{
    Metadata {
        name: Some(get_name_body(name.clone())),
        description: Some(name.clone().concat(" domain")),
        image: None,
        created: Some(created),
        expiry: Some(expiry),
        domain: Some(name.clone()),
        subdomains: Some(Vec::new()),
        accounts: Some(Vec::new()),
        websites: Some(Vec::new()),
    }
}

/// Metadata of a freshly minted subdomain `sub` of the suffixed `domain`.
pub fn subdomain_metadata(domain: &String, sub: &String, created: u64, expiry: u64) -> (r: Metadata)
    requires
        has_suffix(domain@),
    ensures
        is_subdomain_metadata(r, domain@, sub@, created, expiry),
{
    let key = make_subdomain_key(sub.as_str(), domain.as_str());
    let body = get_name_body(domain.clone());
    Metadata {
        name: Some(make_subdomain_key(sub.as_str(), body.as_str())),
        description: Some(key.clone().concat(" subdomain")),
        image: None,
        created: Some(created),
        expiry: Some(expiry),
        domain: Some(key),
        subdomains: None,
        accounts: None,
        websites: None,
    }
}

/// The list with every entry for `n` set to expire at `expiry` and, where
/// `resolver` is given, to resolve there.
fn amend_named(list: Vec<SubdomainEntry>, n: &String, resolver: &Option<String>, expiry: u64) -> (r:
    Vec<SubdomainEntry>)
    ensures
        amended(
            r@,
            list@,
            n@,
            match resolver {
                Some(x) => Some(x@),
                None => None,
            },
            expiry,
        ),
{
    let ghost orig = list@;
    let ghost wanted = match resolver {
        Some(x) => Some(x@),
        None => None::<Seq<char>>,
    };
    let mut rest = list;
    let mut out: Vec<SubdomainEntry> = Vec::new();
    let ghost mut k: int = 0;
    assert(orig.subrange(0, orig.len() as int) =~= orig);
    while rest.len() > 0
        invariant
            0 <= k <= orig.len(),
            rest@ == orig.subrange(k, orig.len() as int),
            amended(out@, orig.subrange(0, k), n@, wanted, expiry),
            wanted == match resolver {
                Some(x) => Some(x@),
                None => None::<Seq<char>>,
            },
        decreases rest@.len(),
    {
        let e = rest.remove(0);
        assert(orig[k] == e);
        let ghost before = out@;
        if entry_is_named(&e, n) {
            let new_resolver = match resolver {
                Some(x) => Some(x.clone()),
                None => e.resolver,
            };
            out.push(
                SubdomainEntry {
                    name: e.name,
                    resolver: new_resolver,
                    minted: e.minted,
                    created: e.created,
                    expiry: Some(expiry),
                },
            );
        } else {
            out.push(e);
        }
        assert forall|i: int| 0 <= i < k + 1 implies #[trigger] orig.subrange(0, k + 1)[i]
            == orig[i] by {}
        assert forall|i: int| 0 <= i < k implies #[trigger] orig.subrange(0, k)[i] == orig[i] by {}
        assert forall|i: int| 0 <= i < k implies out@[i] == before[i] by {}
        proof {
            k = k + 1;
        }
        assert(rest@ =~= orig.subrange(k, orig.len() as int));
    }
    assert(orig.subrange(0, k) =~= orig);
    out
}

/// Number of tokens whose current metadata turning `effect` into token
/// messages needs.
pub open spec fn lookups_needed(effect: Effect) -> nat {
    match effect {
        Effect::MintSubdomain { .. } | Effect::UpdateExpiry { .. } | Effect::UpdateSubdomainResolver {
            ..
        } | Effect::RemoveSubdomainEntry { .. } | Effect::UpdateUserData { .. } => 1,
        Effect::UpdateSubdomainExpiry { .. } => 2,
        _ => 0,
    }
}

/// The tokens whose current metadata `token_messages` needs for `effect`, in
/// the order it takes them.
pub fn metadata_lookups(effect: &Effect) -> (r: Vec<String>)
    ensures
        r@.len() == lookups_needed(*effect),
        match effect {
            Effect::MintSubdomain { domain, .. } | Effect::UpdateSubdomainResolver { domain, .. }
            | Effect::RemoveSubdomainEntry { domain, .. } => r@[0]@ == domain@,
            Effect::UpdateExpiry { name, .. } | Effect::UpdateUserData { name, .. } => r@[0]@
                == name@,
            Effect::UpdateSubdomainExpiry { domain, subdomain, .. } => r@[0]@ == domain@ && r@[1]@
                == subdomain_key(subdomain@, domain@),
            _ => true,
        },
{
    let mut r: Vec<String> = Vec::new();
    match effect {
        Effect::MintSubdomain { domain, .. } | Effect::UpdateSubdomainResolver { domain, .. }
        | Effect::RemoveSubdomainEntry { domain, .. } => {
            r.push(domain.clone());
        },
        Effect::UpdateExpiry { name, .. } | Effect::UpdateUserData { name, .. } => {
            r.push(name.clone());
        },
        Effect::UpdateSubdomainExpiry { domain, subdomain, .. } => {
            r.push(domain.clone());
            r.push(make_subdomain_key(subdomain.as_str(), domain.as_str()));
        },
        _ => {},
    }
    r
}

/// Turns an effect into the messages for the token collaborator, given the
/// current metadata of the tokens `metadata_lookups` names. A transfer of
/// funds gives none: it is no token message.
pub fn token_messages(effect: Effect, current: Vec<Metadata>) -> (r: Vec<TokenMsg>)
    requires
        current@.len() == lookups_needed(effect),
        match effect {
            Effect::Mint { name, .. } => has_suffix(name@),
            Effect::MintSubdomain { domain, .. } => has_suffix(domain@),
            _ => true,
        },
    ensures
        match effect {
            Effect::Mint { name, owner, created, expiration } => r@.len() == 1 && match r@[0] {
                TokenMsg::Mint { token_id, owner: o, extension } => token_id@ == name@ && o@
                    == owner@ && is_domain_metadata(extension, name@, created, expiration),
                _ => false,
            },
            Effect::MintSubdomain { domain, subdomain, owner, resolver, created, expiration } => {
                &&& r@.len() == 2
                &&& match r@[0] {
                    TokenMsg::UpdateMetadata { token_id, extension } => {
                        let list = listed(current@[0]);
                        let e = extension.subdomains->0@.last();
                        &&& token_id@ == domain@
                        &&& extension.subdomains is Some
                        &&& extension.subdomains->0@.drop_last() == others(list, subdomain@)
                        &&& extension.subdomains->0@.len() > 0
                        &&& holds(e.name, subdomain@) && holds(e.resolver, resolver@)
                        &&& e.minted == Some(true) && e.created == Some(created) && e.expiry == Some(
                            expiration,
                        )
                        &&& relisted(extension, current@[0], extension.subdomains->0@)
                    },
                    _ => false,
                }
                &&& match r@[1] {
                    TokenMsg::Mint { token_id, owner: o, extension } => token_id@ == subdomain_key(
                        subdomain@,
                        domain@,
                    ) && o@ == owner@ && is_subdomain_metadata(
                        extension,
                        domain@,
                        subdomain@,
                        created,
                        expiration,
                    ),
                    _ => false,
                }
            },
            Effect::Burn { name } => r@.len() == 1 && match r@[0] {
                TokenMsg::Burn { token_id } => token_id@ == name@,
                _ => false,
            },
            Effect::UpdateExpiry { name, expiration } => r@.len() == 1 && match r@[0] {
                TokenMsg::UpdateMetadata { token_id, extension } => token_id@ == name@ && reexpired(
                    extension,
                    current@[0],
                    expiration,
                ),
                _ => false,
            },
            Effect::UpdateSubdomainExpiry { domain, subdomain, expiration } => {
                &&& r@.len() == 2
                &&& match r@[0] {
                    TokenMsg::UpdateMetadata { token_id, extension } => token_id@ == domain@
                        && extension.subdomains is Some && relisted(
                        extension,
                        current@[0],
                        extension.subdomains->0@,
                    ) && amended(
                        extension.subdomains->0@,
                        listed(current@[0]),
                        subdomain@,
                        None,
                        expiration,
                    ),
                    _ => false,
                }
                &&& match r@[1] {
                    TokenMsg::UpdateMetadata { token_id, extension } => token_id@ == subdomain_key(
                        subdomain@,
                        domain@,
                    ) && reexpired(extension, current@[1], expiration),
                    _ => false,
                }
            },
            Effect::UpdateSubdomainResolver { domain, subdomain, resolver, expiration } => r@.len()
                == 1 && match r@[0] {
                TokenMsg::UpdateMetadata { token_id, extension } => token_id@ == domain@
                    && extension.subdomains is Some && relisted(
                    extension,
                    current@[0],
                    extension.subdomains->0@,
                ) && amended(
                    extension.subdomains->0@,
                    listed(current@[0]),
                    subdomain@,
                    Some(resolver@),
                    expiration,
                ),
                _ => false,
            },
            Effect::RemoveSubdomainEntry { domain, subdomain } => r@.len() == 1 && match r@[0] {
                TokenMsg::UpdateMetadata { token_id, extension } => token_id@ == domain@ && relisted(
                    extension,
                    current@[0],
                    others(listed(current@[0]), subdomain@),
                ),
                _ => false,
            },
            Effect::UpdateUserData { name, update } => r@.len() == 1 && match r@[0] {
                TokenMsg::UpdateMetadata { token_id, extension } => token_id@ == name@ && merged(
                    extension,
                    current@[0],
                    name@,
                    update,
                ),
                _ => false,
            },
            Effect::Send { .. } => r@.len() == 0,
        },
{
    let mut current = current;
    let mut out: Vec<TokenMsg> = Vec::new();
    match effect {
        Effect::Mint { name, owner, created, expiration } => {
            let extension = domain_metadata(&name, created, expiration);
            out.push(TokenMsg::Mint { token_id: name, owner, extension });
        },
        Effect::MintSubdomain { domain, subdomain, owner, resolver, created, expiration } => {
            let mut parent = current.remove(0);
            let ghost before = parent;
            let list = take_list(&mut parent);
            let mut kept = drop_named(list, &subdomain);
            let ghost kept_view = kept@;
            kept.push(
                SubdomainEntry {
                    name: Some(subdomain.clone()),
                    resolver: Some(resolver),
                    minted: Some(true),
                    created: Some(created),
                    expiry: Some(expiration),
                },
            );
            assert(kept@.drop_last() =~= kept_view);
            let updated = with_list(parent, kept);
            let child = subdomain_metadata(&domain, &subdomain, created, expiration);
            let key = make_subdomain_key(subdomain.as_str(), domain.as_str());
            out.push(TokenMsg::UpdateMetadata { token_id: domain, extension: updated });
            out.push(TokenMsg::Mint { token_id: key, owner, extension: child });
        },
        Effect::Burn { name } => {
            out.push(TokenMsg::Burn { token_id: name });
        },
        Effect::UpdateExpiry { name, expiration } => {
            let mut m = current.remove(0);
            m.expiry = Some(expiration);
            out.push(TokenMsg::UpdateMetadata { token_id: name, extension: m });
        },
        Effect::UpdateSubdomainExpiry { domain, subdomain, expiration } => {
            let mut parent = current.remove(0);
            let mut child = current.remove(0);
            let list = take_list(&mut parent);
            let amended_list = amend_named(list, &subdomain, &None, expiration);
            let updated = with_list(parent, amended_list);
            child.expiry = Some(expiration);
            let key = make_subdomain_key(subdomain.as_str(), domain.as_str());
            out.push(TokenMsg::UpdateMetadata { token_id: domain, extension: updated });
            out.push(TokenMsg::UpdateMetadata { token_id: key, extension: child });
        },
        Effect::UpdateSubdomainResolver { domain, subdomain, resolver, expiration } => {
            let mut parent = current.remove(0);
            let list = take_list(&mut parent);
            let amended_list = amend_named(list, &subdomain, &Some(resolver), expiration);
            let updated = with_list(parent, amended_list);
            out.push(TokenMsg::UpdateMetadata { token_id: domain, extension: updated });
        },
        Effect::RemoveSubdomainEntry { domain, subdomain } => {
            let mut parent = current.remove(0);
            let list = take_list(&mut parent);
            let kept = drop_named(list, &subdomain);
            let updated = with_list(parent, kept);
            out.push(TokenMsg::UpdateMetadata { token_id: domain, extension: updated });
        },
        Effect::UpdateUserData { name, update } => {
            let m = current.remove(0);
            let extension = Metadata {
                name: Some(name.clone()),
                description: update.description,
                image: update.image,
                created: m.created,
                expiry: m.expiry,
                domain: m.domain,
                subdomains: m.subdomains,
                accounts: update.accounts,
                websites: update.websites,
            };
            out.push(TokenMsg::UpdateMetadata { token_id: name, extension });
        },
        Effect::Send { .. } => {},
    }
    out
}

} // verus!
