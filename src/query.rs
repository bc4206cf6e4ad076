use vstd::prelude::*;
use crate::ledger::{expired, key_lt, Ledger, RecordView};
use crate::state::{lookup, Registry};

verus! {

/// Where a name resolves, if it has not expired, and when it expires.
#[derive(Debug)]
pub struct ResolveRecordResponse {
    pub address: Option<String>,
    pub expiration: u64,
}

/// When a name's record was last created or renewed, and when it expires.
#[derive(Debug)]
pub struct RecordExpirationResponse {
    pub created: u64,
    pub expiration: u64,
}

/// The unexpired names that resolve to an address.
#[derive(Debug)]
pub struct ResolveAddressResponse {
    pub names: Option<Vec<String>>,
}

/// Whether the record under `key`, or its absence, counts as expired at `now`.
pub fn is_expired(ledger: &Ledger, key: &str, now: u64) -> (r: bool)
    requires
        ledger.wf(),
    ensures
        r == expired(lookup(ledger@, key@), now),
{
    match ledger.get(key) {
        Some(rec) => rec.is_expired(now),
        None => true,
    }
}

/// `r` is how the ledger key `name` resolves at `now`: its resolver, absent
/// once expired, and its expiration; `None` where the ledger holds no such name.
pub open spec fn resolves_as(
    ledger: Map<Seq<char>, RecordView>,
    now: u64,
    name: Seq<char>,
    r: Option<ResolveRecordResponse>,
) -> bool {
    match r {
        None => !ledger.contains_key(name),
        Some(resp) => {
            let rec = ledger[name];
            &&& ledger.contains_key(name)
            &&& resp.expiration == rec.expiration
            &&& now >= rec.expiration ==> resp.address is None
            &&& now < rec.expiration ==> resp.address is Some && resp.address->0@ == rec.resolver
        },
    }
}

/// `r` gives the creation and expiration times of the ledger key `name`;
/// `None` where the ledger holds no such name.
pub open spec fn expires_as(
    ledger: Map<Seq<char>, RecordView>,
    name: Seq<char>,
    r: Option<RecordExpirationResponse>,
) -> bool {
    match r {
        None => !ledger.contains_key(name),
        Some(resp) => ledger.contains_key(name) && resp.created == ledger[name].created
            && resp.expiration == ledger[name].expiration,
    }
}

/// `names` lists every name that resolves to `address` and has not expired
/// at `now`, and nothing else, in ascending order of the names' bytes.
pub open spec fn lists_names_of(
    ledger: Map<Seq<char>, RecordView>,
    now: u64,
    address: Seq<char>,
    names: Seq<String>,
) -> bool {
    &&& forall|i: int|
        0 <= i < names.len() ==> ledger.contains_key(#[trigger] names[i]@) && ledger[names[i]@].resolver
            == address && now < ledger[names[i]@].expiration
    &&& forall|k: Seq<char>|
        #[trigger] ledger.contains_key(k) && ledger[k].resolver == address && now < ledger[k].expiration
            ==> exists|i: int| 0 <= i < names.len() && names[i]@ == k
    &&& forall|i: int, j: int|
        0 <= i < j < names.len() ==> key_lt(#[trigger] names[i]@, #[trigger] names[j]@)
}

/// Resolves the ledger key `name`: its resolver, absent once expired, and its
/// expiration. `None` where the ledger holds no such name.
pub fn query_resolver(reg: &Registry, now: u64, name: &str) -> (r: Option<ResolveRecordResponse>)
    requires
        reg.ledger.wf(),
    ensures
        resolves_as(reg.ledger@, now, name@, r),
{
    match reg.ledger.get(name) {
        None => None,
        Some(rec) => {
            let address = if rec.is_expired(now) {
                None
            } else {
                Some(rec.resolver.clone())
            };
            Some(ResolveRecordResponse { address, expiration: rec.expiration })
        },
    }
}

/// The creation and expiration times of the ledger key `name`, if held.
pub fn query_resolver_expiration(reg: &Registry, name: &str) -> (r: Option<RecordExpirationResponse>)
    requires
        reg.ledger.wf(),
    ensures
        expires_as(reg.ledger@, name@, r),
{
    match reg.ledger.get(name) {
        None => None,
        Some(rec) => Some(RecordExpirationResponse { created: rec.created, expiration: rec.expiration }),
    }
}

/// Every name that resolves to `address` and has not expired at `now`, in
/// ascending order of the names' bytes.
pub fn query_resolver_address(reg: &Registry, now: u64, address: &String) -> (r:
    ResolveAddressResponse)
    requires
        reg.ledger.wf(),
    ensures
        r.names is Some,
        lists_names_of(reg.ledger@, now, address@, r.names->0@),
{
    ResolveAddressResponse { names: Some(reg.ledger.names_resolving_to(address, now)) }
}

} // verus!
