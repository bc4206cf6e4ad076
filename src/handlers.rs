use vstd::prelude::*;
use crate::error::{ContractError, Failure};
use crate::ledger::{expired, NameRecord, RecordView};
use crate::msg::{effects_view, Coin, Config, Effect, EffectView, MessageInfo, MetaDataUpdateMsg, DENOM};
use crate::payment::{paid_amount, payment_of};
use crate::state::{is_owner, lookup, reports_owner, Registry, MAX_BASE_INTERVAL};
use crate::validate::{
    format_name, get_subdomain_prefix, has_suffix, make_subdomain_key, name_failure,
    subdomain_failure, subdomain_key, subdomain_parts, suffix, validate_name, validate_subdomain,
};

verus! {

/// What a command does, if it succeeds: the ledger after it and the effects
/// it emits; if it fails, why.
pub type Outcome = Result<(Map<Seq<char>, RecordView>, Seq<EffectView>), Failure>;

/// A command's result and the ledger it left are those `outcome` describes;
/// a failed command leaves the ledger as it was.
pub open spec fn achieved(
    r: Result<Vec<Effect>, ContractError>,
    before: Map<Seq<char>, RecordView>,
    after: Map<Seq<char>, RecordView>,
    outcome: Outcome,
) -> bool {
    match r {
        Ok(effects) => outcome == Outcome::Ok((after, effects_view(effects@))),
        Err(e) => outcome == Outcome::Err(e@) && after == before,
    }
}

/// Whole intervals that `amount` pays for at `base_cost` each.
pub open spec fn paid_intervals(amount: u128, base_cost: u128) -> int {
    amount as int / base_cost as int
}

/// Intervals a registration grants: those paid for, but never more than
/// three. Payment beyond that is kept.
pub open spec fn capped_intervals(amount: u128, base_cost: u128) -> int {
    let k = paid_intervals(amount, base_cost);
    if k > MAX_BASE_INTERVAL {
        MAX_BASE_INTERVAL as int
    } else {
        k
    }
}

/// Why a payment of `amount` buys no interval, if it does not.
pub open spec fn interval_failure(amount: u128, base_cost: u128) -> Option<Failure> {
    if base_cost == 0 {
        Some(Failure::InvalidInput)
    } else if paid_intervals(amount, base_cost) < 1 {
        Some(Failure::InvalidPayment { amount })
    } else {
        None
    }
}

proof fn lemma_product_fits(a: u64, b: u64)
    ensures
        (a as int) * (b as int) + u64::MAX <= u128::MAX,
{
    assert((a as int) * (b as int) <= (u64::MAX as int) * (u64::MAX as int)) by (nonlinear_arith)
        requires
            a <= u64::MAX,
            b <= u64::MAX,
            0 <= a,
            0 <= b,
    ;
}

/// Converts a payment into whole intervals of `base_cost`, at most three.
fn intervals_of(amount: u128, base_cost: u128) -> (r: Result<u64, ContractError>)
    ensures
        match r {
            Ok(k) => interval_failure(amount, base_cost) is None && k == capped_intervals(
                amount,
                base_cost,
            ),
            Err(e) => interval_failure(amount, base_cost) == Some(e@),
        },
{
    if base_cost == 0 {
        return Err(ContractError::InvalidInput);
    }
    let k = amount / base_cost;
    if k < 1 {
        return Err(ContractError::InvalidPayment { amount });
    }
    let capped: u128 = if k > MAX_BASE_INTERVAL as u128 {
        MAX_BASE_INTERVAL as u128
    } else {
        k
    };
    Ok(capped as u64)
}

/// The fee denomination, as characters.
pub open spec fn denom() -> Seq<char> {
    DENOM@
}

/// Expiration of a registration made at `now` with `amount` paid.
pub open spec fn registered_expiration(config: Config, now: u64, amount: u128) -> int {
    now + config.base_expiration * capped_intervals(amount, config.base_cost)
}

/// Why registering the suffixed `name` fails, if it does.
pub open spec fn register_failure(
    ledger: Map<Seq<char>, RecordView>,
    config: Config,
    now: u64,
    funds: Seq<Coin>,
    name: Seq<char>,
) -> Option<Failure> {
    if name_failure(name) is Some {
        name_failure(name)
    } else {
        match payment_of(funds, denom()) {
            Err(p) => Some(Failure::Payment(p)),
            Ok(amount) => if interval_failure(amount, config.base_cost) is Some {
                interval_failure(amount, config.base_cost)
            } else if !expired(lookup(ledger, name), now) {
                Some(Failure::NameTaken { name })
            } else if registered_expiration(config, now, amount) > u64::MAX {
                Some(Failure::Overflow)
            } else {
                None
            },
        }
    }
}

/// What registering the suffixed `name` for `sender` does.
pub open spec fn register_outcome(
    ledger: Map<Seq<char>, RecordView>,
    config: Config,
    now: u64,
    funds: Seq<Coin>,
    sender: Seq<char>,
    name: Seq<char>,
) -> Outcome {
    match register_failure(ledger, config, now, funds, name) {
        Some(f) => Outcome::Err(f),
        None => {
            let amount = payment_of(funds, denom())->Ok_0;
            let expiration = registered_expiration(config, now, amount) as u64;
            let mint = EffectView::Mint { name, owner: sender, created: now, expiration };
            Outcome::Ok(
                (
                    ledger.insert(name, RecordView { resolver: sender, created: now, expiration }),
                    if ledger.contains_key(name) {
                        seq![EffectView::Burn { name }, mint]
                    } else {
                        seq![mint]
                    },
                ),
            )
        },
    }
}

/// Registers the suffixed top-level `name` for the sender, who pays for one
/// to three intervals. An expired holder's token is burnt first.
pub fn execute_register(reg: &mut Registry, now: u64, info: &MessageInfo, name: String) -> (r:
    Result<Vec<Effect>, ContractError>)
    requires
        old(reg).ledger.wf(),
        has_suffix(name@),
    ensures
        final(reg).ledger.wf(),
        final(reg).config == old(reg).config,
        achieved(
            r,
            old(reg).ledger@,
            final(reg).ledger@,
            register_outcome(
                old(reg).ledger@,
                old(reg).config,
                now,
                info.funds@,
                info.sender@,
                name@,
            ),
        ),
{
    if let Err(e) = validate_name(name.as_str()) {
        return Err(e);
    }
    let held: Option<bool> = match reg.ledger.get(name.as_str()) {
        Some(rec) => Some(rec.is_expired(now)),
        None => None,
    };
    let amount = match paid_amount(info, DENOM) {
        Ok(a) => a,
        Err(p) => return Err(ContractError::Payment(p)),
    };
    let intervals = match intervals_of(amount, reg.config.base_cost) {
        Ok(k) => k,
        Err(e) => return Err(e),
    };
    let mut effects: Vec<Effect> = Vec::new();
    match held {
        Some(false) => {
            return Err(ContractError::NameTaken { name });
        },
        Some(true) => {
            effects.push(Effect::Burn { name: name.clone() });
        },
        None => {},
    }
    let base = reg.config.base_expiration;
    proof {
        lemma_product_fits(base, intervals);
    }
    if (base as u128) * (intervals as u128) + (now as u128) > u64::MAX as u128 {
        return Err(ContractError::Overflow);
    }
    let expiration = base * intervals + now;
    effects.push(
        Effect::Mint { name: name.clone(), owner: info.sender.clone(), created: now, expiration },
    );
    let record = NameRecord { resolver: info.sender.clone(), created: now, expiration };
    reg.ledger.save(name, record);
    assert(effects_view(effects@) =~= if held is Some {
        seq![
            EffectView::Burn { name: name@ },
            EffectView::Mint { name: name@, owner: info.sender@, created: now, expiration },
        ]
    } else {
        seq![EffectView::Mint { name: name@, owner: info.sender@, created: now, expiration }]
    });
    Ok(effects)
}

/// Expiration after a renewal at `now` of a record expiring at `current`:
/// one base interval more per interval paid (more than three count as
/// three), but never past three base intervals from `now`.
pub open spec fn renewed_expiration(config: Config, now: u64, current: u64, amount: u128) -> int {
    let extended = current + config.base_expiration * capped_intervals(amount, config.base_cost);
    let cap = now + config.base_expiration * MAX_BASE_INTERVAL;
    if extended > cap {
        cap
    } else {
        extended
    }
}

/// Why renewing the suffixed `name` fails, if it does; `owner` is the owner
/// the token collaborator reported for `name`.
pub open spec fn renew_failure(
    ledger: Map<Seq<char>, RecordView>,
    config: Config,
    now: u64,
    funds: Seq<Coin>,
    sender: Seq<char>,
    name: Seq<char>,
    owner: Option<String>,
) -> Option<Failure> {
    if name_failure(name) is Some {
        name_failure(name)
    } else if !ledger.contains_key(name) {
        Some(Failure::InvalidInput)
    } else if expired(lookup(ledger, name), now) {
        Some(Failure::NameOwnershipExpired { name })
    } else if !is_owner(owner, sender) {
        Some(Failure::Unauthorized)
    } else {
        match payment_of(funds, denom()) {
            Err(p) => Some(Failure::Payment(p)),
            Ok(amount) => if interval_failure(amount, config.base_cost) is Some {
                interval_failure(amount, config.base_cost)
            } else if renewed_expiration(config, now, ledger[name].expiration, amount) > u64::MAX {
                Some(Failure::Overflow)
            } else {
                None
            },
        }
    }
}

/// What renewing the suffixed `name` at the request of `sender` does.
pub open spec fn renew_outcome(
    ledger: Map<Seq<char>, RecordView>,
    config: Config,
    now: u64,
    funds: Seq<Coin>,
    sender: Seq<char>,
    name: Seq<char>,
    owner: Option<String>,
) -> Outcome {
    match renew_failure(ledger, config, now, funds, sender, name, owner) {
        Some(f) => Outcome::Err(f),
        None => {
            let amount = payment_of(funds, denom())->Ok_0;
            let current = ledger[name];
            let expiration = renewed_expiration(config, now, current.expiration, amount) as u64;
            Outcome::Ok(
                (
                    ledger.insert(
                        name,
                        RecordView { resolver: current.resolver, created: now, expiration },
                    ),
                    seq![EffectView::UpdateExpiry { name, expiration }],
                ),
            )
        },
    }
}

/// Renews the suffixed `name`, which its owner pays for; `owner` is the
/// owner the token collaborator reported for `name`.
pub fn execute_renew_registration(
    reg: &mut Registry,
    now: u64,
    info: &MessageInfo,
    name: String,
    owner: Option<String>,
) -> (r: Result<Vec<Effect>, ContractError>)
    requires
        old(reg).ledger.wf(),
        has_suffix(name@),
    ensures
        final(reg).ledger.wf(),
        final(reg).config == old(reg).config,
        achieved(
            r,
            old(reg).ledger@,
            final(reg).ledger@,
            renew_outcome(
                old(reg).ledger@,
                old(reg).config,
                now,
                info.funds@,
                info.sender@,
                name@,
                owner,
            ),
        ),
        r is Ok ==> final(reg).ledger@[name@].expiration <= now + old(reg).config.base_expiration
            * MAX_BASE_INTERVAL,
{
    if let Err(e) = validate_name(name.as_str()) {
        return Err(e);
    }
    let current = match reg.ledger.get(name.as_str()) {
        Some(rec) => rec.duplicate(),
        None => return Err(ContractError::InvalidInput),
    };
    if current.is_expired(now) {
        return Err(ContractError::NameOwnershipExpired { name });
    }
    if !reports_owner(&owner, &info.sender) {
        return Err(ContractError::Unauthorized);
    }
    let amount = match paid_amount(info, DENOM) {
        Ok(a) => a,
        Err(p) => return Err(ContractError::Payment(p)),
    };
    let paid = match intervals_of(amount, reg.config.base_cost) {
        Ok(k) => k,
        Err(e) => return Err(e),
    };
    let base = reg.config.base_expiration;
    proof {
        lemma_product_fits(base, paid);
        lemma_product_fits(base, MAX_BASE_INTERVAL);
    }
    let extended: u128 = (current.expiration as u128) + (base as u128) * (paid as u128);
    let cap: u128 = (now as u128) + (base as u128) * (MAX_BASE_INTERVAL as u128);
    let clamped: u128 = if extended > cap {
        cap
    } else {
        extended
    };
    if clamped > u64::MAX as u128 {
        return Err(ContractError::Overflow);
    }
    let expiration = clamped as u64;
    let record = NameRecord { resolver: current.resolver, created: now, expiration };
    reg.ledger.save(name.clone(), record);
    let mut effects: Vec<Effect> = Vec::new();
    effects.push(Effect::UpdateExpiry { name, expiration });
    assert(effects_view(effects@) =~= seq![EffectView::UpdateExpiry { name: name@, expiration }]);
    Ok(effects)
}

/// A requested expiration, cut back to the parent's.
pub open spec fn capped_expiration(requested: u64, parent: u64) -> u64 {
    if requested > parent {
        parent
    } else {
        requested
    }
}

/// Why the parent's owner cannot act on `subdomain` of the suffixed `domain`,
/// if they cannot: both labels must be valid, the parent must be held and
/// unexpired, and `owner`, the parent's reported owner, must be the sender.
pub open spec fn parent_failure(
    ledger: Map<Seq<char>, RecordView>,
    now: u64,
    sender: Seq<char>,
    domain: Seq<char>,
    subdomain: Seq<char>,
    owner: Option<String>,
) -> Option<Failure> {
    if name_failure(domain) is Some {
        name_failure(domain)
    } else if subdomain_failure(subdomain) is Some {
        subdomain_failure(subdomain)
    } else if !ledger.contains_key(domain) {
        Some(Failure::InvalidInput)
    } else if expired(lookup(ledger, domain), now) {
        Some(Failure::NameOwnershipExpired { name: domain })
    } else if !is_owner(owner, sender) {
        Some(Failure::Unauthorized)
    } else {
        None
    }
}

/// Why issuing `subdomain` of the suffixed `domain` fails, if it does. An
/// active subdomain is never overwritten.
pub open spec fn set_subdomain_failure(
    ledger: Map<Seq<char>, RecordView>,
    now: u64,
    sender: Seq<char>,
    domain: Seq<char>,
    subdomain: Seq<char>,
    owner: Option<String>,
) -> Option<Failure> {
    if parent_failure(ledger, now, sender, domain, subdomain, owner) is Some {
        parent_failure(ledger, now, sender, domain, subdomain, owner)
    } else if !expired(lookup(ledger, subdomain_key(subdomain, domain)), now) {
        Some(Failure::Unauthorized)
    } else {
        None
    }
}

/// Checks the labels, the parent's record and the sender's ownership of the
/// parent; returns the parent's expiration.
fn check_parent(
    reg: &Registry,
    now: u64,
    sender: &String,
    domain: &String,
    subdomain: &String,
    owner: &Option<String>,
) -> (r: Result<u64, ContractError>)
    requires
        reg.ledger.wf(),
        has_suffix(domain@),
    ensures
        match r {
            Ok(exp) => parent_failure(reg.ledger@, now, sender@, domain@, subdomain@, *owner) is None
                && exp == reg.ledger@[domain@].expiration,
            Err(e) => parent_failure(reg.ledger@, now, sender@, domain@, subdomain@, *owner) == Some(
                e@,
            ),
        },
{
    if let Err(e) = validate_name(domain.as_str()) {
        return Err(e);
    }
    if let Err(e) = validate_subdomain(subdomain.as_str()) {
        return Err(e);
    }
    let parent_expiration = match reg.ledger.get(domain.as_str()) {
        Some(rec) => {
            if rec.is_expired(now) {
                return Err(ContractError::NameOwnershipExpired { name: domain.clone() });
            }
            rec.expiration
        },
        None => return Err(ContractError::InvalidInput),
    };
    if !reports_owner(owner, sender) {
        return Err(ContractError::Unauthorized);
    }
    Ok(parent_expiration)
}

/// What issuing `subdomain` of the suffixed `domain` at the request of
/// `sender` does.
pub open spec fn set_subdomain_outcome(
    ledger: Map<Seq<char>, RecordView>,
    now: u64,
    sender: Seq<char>,
    domain: Seq<char>,
    subdomain: Seq<char>,
    new_resolver: Seq<char>,
    new_owner: Seq<char>,
    expiration: u64,
    owner: Option<String>,
) -> Outcome {
    match set_subdomain_failure(ledger, now, sender, domain, subdomain, owner) {
        Some(f) => Outcome::Err(f),
        None => {
            let key = subdomain_key(subdomain, domain);
            let exp = capped_expiration(expiration, ledger[domain].expiration);
            let mint = EffectView::MintSubdomain {
                domain,
                subdomain,
                owner: new_owner,
                resolver: new_resolver,
                created: now,
                expiration: exp,
            };
            Outcome::Ok(
                (
                    ledger.insert(
                        key,
                        RecordView { resolver: new_resolver, created: now, expiration: exp },
                    ),
                    if ledger.contains_key(key) {
                        seq![EffectView::Burn { name: key }, mint]
                    } else {
                        seq![mint]
                    },
                ),
            )
        },
    }
}

/// Issues `subdomain` of the suffixed `domain` to `new_owner`, resolving to
/// `new_resolver`, until the requested expiration or the parent's, whichever
/// comes first. Only the parent's owner may do so (`owner` is the parent's
/// reported owner), and only where the subdomain is new or expired; an
/// expired one's token is burnt first.
pub fn execute_set_subdomain(
    reg: &mut Registry,
    now: u64,
    info: &MessageInfo,
    domain: String,
    subdomain: String,
    new_resolver: String,
    new_owner: String,
    expiration: u64,
    owner: Option<String>,
) -> (r: Result<Vec<Effect>, ContractError>)
    requires
        old(reg).ledger.wf(),
        has_suffix(domain@),
    ensures
        final(reg).ledger.wf(),
        final(reg).config == old(reg).config,
        achieved(
            r,
            old(reg).ledger@,
            final(reg).ledger@,
            set_subdomain_outcome(
                old(reg).ledger@,
                now,
                info.sender@,
                domain@,
                subdomain@,
                new_resolver@,
                new_owner@,
                expiration,
                owner,
            ),
        ),
{
    let parent_expiration = match check_parent(
        reg,
        now,
        &info.sender,
        &domain,
        &subdomain,
        &owner,
    ) {
        Ok(exp) => exp,
        Err(e) => return Err(e),
    };
    let capped = if expiration > parent_expiration {
        parent_expiration
    } else {
        expiration
    };
    let key = make_subdomain_key(subdomain.as_str(), domain.as_str());
    let held: Option<bool> = match reg.ledger.get(key.as_str()) {
        Some(rec) => Some(rec.is_expired(now)),
        None => None,
    };
    let mut effects: Vec<Effect> = Vec::new();
    match held {
        Some(false) => {
            return Err(ContractError::Unauthorized);
        },
        Some(true) => {
            effects.push(Effect::Burn { name: key.clone() });
        },
        None => {},
    }
    let record = NameRecord { resolver: new_resolver.clone(), created: now, expiration: capped };
    reg.ledger.save(key, record);
    let ghost mint = EffectView::MintSubdomain {
        domain: domain@,
        subdomain: subdomain@,
        owner: new_owner@,
        resolver: new_resolver@,
        created: now,
        expiration: capped,
    };
    let ghost key_view = subdomain_key(subdomain@, domain@);
    effects.push(
        Effect::MintSubdomain {
            domain,
            subdomain,
            owner: new_owner,
            resolver: new_resolver,
            created: now,
            expiration: capped,
        },
    );
    assert(effects_view(effects@) =~= if held is Some {
        seq![EffectView::Burn { name: key_view }, mint]
    } else {
        seq![mint]
    });
    Ok(effects)
}

/// Why extending `subdomain` of the suffixed `domain` to `expiration` fails,
/// if it does: the parent's owner must ask, the subdomain must be held, and
/// the new expiration must be later than its current one.
pub open spec fn extend_failure(
    ledger: Map<Seq<char>, RecordView>,
    now: u64,
    sender: Seq<char>,
    domain: Seq<char>,
    subdomain: Seq<char>,
    expiration: u64,
    owner: Option<String>,
) -> Option<Failure> {
    let key = subdomain_key(subdomain, domain);
    if parent_failure(ledger, now, sender, domain, subdomain, owner) is Some {
        parent_failure(ledger, now, sender, domain, subdomain, owner)
    } else if !ledger.contains_key(key) {
        Some(Failure::InvalidInput)
    } else if expiration <= ledger[key].expiration {
        Some(Failure::InvalidInput)
    } else {
        None
    }
}

/// What extending `subdomain` of the suffixed `domain` at the request of
/// `sender` does.
pub open spec fn extend_outcome(
    ledger: Map<Seq<char>, RecordView>,
    now: u64,
    sender: Seq<char>,
    domain: Seq<char>,
    subdomain: Seq<char>,
    expiration: u64,
    owner: Option<String>,
) -> Outcome {
    match extend_failure(ledger, now, sender, domain, subdomain, expiration, owner) {
        Some(f) => Outcome::Err(f),
        None => {
            let key = subdomain_key(subdomain, domain);
            let exp = capped_expiration(expiration, ledger[domain].expiration);
            let current = ledger[key];
            Outcome::Ok(
                (
                    ledger.insert(
                        key,
                        RecordView {
                            resolver: current.resolver,
                            created: current.created,
                            expiration: exp,
                        },
                    ),
                    seq![EffectView::UpdateSubdomainExpiry { domain, subdomain, expiration: exp }],
                ),
            )
        },
    }
}

/// Moves the expiration of `subdomain` of the suffixed `domain` later, never
/// past the parent's. Only the parent's owner may do so; `owner` is the
/// parent's reported owner.
pub fn execute_extend_subdomain_expiry(
    reg: &mut Registry,
    now: u64,
    info: &MessageInfo,
    domain: String,
    subdomain: String,
    expiration: u64,
    owner: Option<String>,
) -> (r: Result<Vec<Effect>, ContractError>)
    requires
        old(reg).ledger.wf(),
        has_suffix(domain@),
    ensures
        final(reg).ledger.wf(),
        final(reg).config == old(reg).config,
        achieved(
            r,
            old(reg).ledger@,
            final(reg).ledger@,
            extend_outcome(
                old(reg).ledger@,
                now,
                info.sender@,
                domain@,
                subdomain@,
                expiration,
                owner,
            ),
        ),
{
    let parent_expiration = match check_parent(
        reg,
        now,
        &info.sender,
        &domain,
        &subdomain,
        &owner,
    ) {
        Ok(exp) => exp,
        Err(e) => return Err(e),
    };
    let key = make_subdomain_key(subdomain.as_str(), domain.as_str());
    let current = match reg.ledger.get(key.as_str()) {
        Some(rec) => rec.duplicate(),
        None => return Err(ContractError::InvalidInput),
    };
    if expiration <= current.expiration {
        return Err(ContractError::InvalidInput);
    }
    let capped = if expiration > parent_expiration {
        parent_expiration
    } else {
        expiration
    };
    let record = NameRecord { resolver: current.resolver, created: current.created, expiration: capped };
    reg.ledger.save(key, record);
    let mut effects: Vec<Effect> = Vec::new();
    effects.push(Effect::UpdateSubdomainExpiry { domain, subdomain, expiration: capped });
    assert(effects_view(effects@) =~= seq![
        EffectView::UpdateSubdomainExpiry { domain: domain@, subdomain: subdomain@, expiration: capped },
    ]);
    Ok(effects)
}

/// Why the admin-only commands fail, if they do.
pub open spec fn admin_failure(config: Config, sender: Seq<char>) -> Option<Failure> {
    if config.admin@ != sender {
        Some(Failure::Unauthorized)
    } else {
        None
    }
}

/// Replaces the registry's parameters; only the admin may.
pub fn execute_update_config(reg: &mut Registry, info: &MessageInfo, config_update: Config) -> (r:
    Result<Vec<Effect>, ContractError>)
    requires
        old(reg).ledger.wf(),
    ensures
        final(reg).ledger.wf(),
        final(reg).ledger@ == old(reg).ledger@,
        match r {
            Err(e) => admin_failure(old(reg).config, info.sender@) == Some(e@) && final(reg).config
                == old(reg).config,
            Ok(effects) => admin_failure(old(reg).config, info.sender@) is None && final(reg).config
                == config_update && effects@.len() == 0,
        },
{
    if reg.config.admin != info.sender {
        return Err(ContractError::Unauthorized);
    }
    reg.config = config_update;
    Ok(Vec::new())
}

/// Sends `amount` of the collected fees to the configured wallet; only the
/// admin may.
pub fn execute_withdraw_fees(reg: &Registry, info: &MessageInfo, amount: u128) -> (r: Result<
    Vec<Effect>,
    ContractError,
>)
    ensures
        match r {
            Err(e) => admin_failure(reg.config, info.sender@) == Some(e@),
            Ok(effects) => admin_failure(reg.config, info.sender@) is None && effects_view(effects@)
                == seq![EffectView::Send { to: reg.config.wallet@, amount }],
        },
{
    if reg.config.admin != info.sender {
        return Err(ContractError::Unauthorized);
    }
    let mut effects: Vec<Effect> = Vec::new();
    effects.push(Effect::Send { to: reg.config.wallet.clone(), amount });
    assert(effects_view(effects@) =~= seq![EffectView::Send { to: reg.config.wallet@, amount }]);
    Ok(effects)
}

/// Hands the owner's own metadata fields of `name`'s token to the token
/// collaborator; `owner` is the reported owner of `name`.
pub fn execute_user_metadata_update(
    info: &MessageInfo,
    name: String,
    update: MetaDataUpdateMsg,
    owner: Option<String>,
) -> (r: Result<Vec<Effect>, ContractError>)
    ensures
        match r {
            Err(e) => !is_owner(owner, info.sender@) && e@ == Failure::Unauthorized,
            Ok(effects) => is_owner(owner, info.sender@) && effects_view(effects@) == seq![
                EffectView::UpdateUserData { name: name@, update },
            ],
        },
{
    if !reports_owner(&owner, &info.sender) {
        return Err(ContractError::Unauthorized);
    }
    let ghost name_view = name@;
    let mut effects: Vec<Effect> = Vec::new();
    effects.push(Effect::UpdateUserData { name, update });
    assert(effects_view(effects@) =~= seq![EffectView::UpdateUserData { name: name_view, update }]);
    Ok(effects)
}

/// Why pointing `name` at a new resolver fails, if it does: its reported
/// owner must ask, and it must be held and unexpired.
pub open spec fn update_resolver_failure(
    ledger: Map<Seq<char>, RecordView>,
    now: u64,
    sender: Seq<char>,
    name: Seq<char>,
    owner: Option<String>,
) -> Option<Failure> {
    if !is_owner(owner, sender) {
        Some(Failure::Unauthorized)
    } else if expired(lookup(ledger, name), now) {
        Some(Failure::NameOwnershipExpired { name })
    } else {
        None
    }
}

/// What pointing the suffixed `name` at `new_resolver` at the request of
/// `sender` does.
pub open spec fn update_resolver_outcome(
    ledger: Map<Seq<char>, RecordView>,
    now: u64,
    sender: Seq<char>,
    name: Seq<char>,
    new_resolver: Seq<char>,
    owner: Option<String>,
) -> Outcome {
    match update_resolver_failure(ledger, now, sender, name, owner) {
        Some(f) => Outcome::Err(f),
        None => {
            let current = ledger[name];
            Outcome::Ok(
                (
                    ledger.insert(
                        name,
                        RecordView {
                            resolver: new_resolver,
                            created: current.created,
                            expiration: current.expiration,
                        },
                    ),
                    match subdomain_parts(name) {
                        Some((sub, label)) => seq![
                            EffectView::UpdateSubdomainResolver {
                                domain: label + suffix(),
                                subdomain: sub,
                                resolver: new_resolver,
                                expiration: current.expiration,
                            },
                        ],
                        None => Seq::empty(),
                    },
                ),
            )
        },
    }
}

/// Points the suffixed `name`, top-level or subdomain, at `new_resolver`.
/// For a subdomain the parent's token metadata follows.
pub fn execute_update_resolver(
    reg: &mut Registry,
    now: u64,
    info: &MessageInfo,
    name: String,
    new_resolver: String,
    owner: Option<String>,
) -> (r: Result<Vec<Effect>, ContractError>)
    requires
        old(reg).ledger.wf(),
        has_suffix(name@),
    ensures
        final(reg).ledger.wf(),
        final(reg).config == old(reg).config,
        achieved(
            r,
            old(reg).ledger@,
            final(reg).ledger@,
            update_resolver_outcome(
                old(reg).ledger@,
                now,
                info.sender@,
                name@,
                new_resolver@,
                owner,
            ),
        ),
{
    if !reports_owner(&owner, &info.sender) {
        return Err(ContractError::Unauthorized);
    }
    let parts = get_subdomain_prefix(name.clone());
    let current = match reg.ledger.get(name.as_str()) {
        Some(rec) => rec.duplicate(),
        None => return Err(ContractError::NameOwnershipExpired { name }),
    };
    if current.is_expired(now) {
        return Err(ContractError::NameOwnershipExpired { name });
    }
    let mut effects: Vec<Effect> = Vec::new();
    if let Some(p) = parts {
        let ghost pv = p@;
        let label = p[1].clone();
        let sub = p[0].clone();
        effects.push(
            Effect::UpdateSubdomainResolver {
                domain: format_name(label),
                subdomain: sub,
                resolver: new_resolver.clone(),
                expiration: current.expiration,
            },
        );
    }
    let record = NameRecord {
        resolver: new_resolver,
        created: current.created,
        expiration: current.expiration,
    };
    reg.ledger.save(name, record);
    proof {
        match subdomain_parts(name@) {
            Some((sub, label)) => {
                assert(effects_view(effects@) =~= seq![
                    EffectView::UpdateSubdomainResolver {
                        domain: label + suffix(),
                        subdomain: sub,
                        resolver: new_resolver@,
                        expiration: current.expiration,
                    },
                ]);
            },
            None => {
                assert(effects_view(effects@) =~= Seq::empty());
            },
        }
    }
    Ok(effects)
}

/// Why removing `subdomain` of the suffixed `domain` fails, if it does: the
/// parent's reported owner (`domain_owner`) must ask and, while the subdomain
/// is active, must also be its reported owner (`subdomain_owner`).
pub open spec fn remove_failure(
    ledger: Map<Seq<char>, RecordView>,
    now: u64,
    sender: Seq<char>,
    domain: Seq<char>,
    subdomain: Seq<char>,
    domain_owner: Option<String>,
    subdomain_owner: Option<String>,
) -> Option<Failure> {
    let key = subdomain_key(subdomain, domain);
    if !is_owner(domain_owner, sender) {
        Some(Failure::Unauthorized)
    } else if !expired(lookup(ledger, key), now) && !is_owner(subdomain_owner, sender) {
        Some(Failure::NameTaken { name: key })
    } else {
        None
    }
}

/// What removing `subdomain` of the suffixed `domain` at the request of
/// `sender` does.
pub open spec fn remove_outcome(
    ledger: Map<Seq<char>, RecordView>,
    now: u64,
    sender: Seq<char>,
    domain: Seq<char>,
    subdomain: Seq<char>,
    domain_owner: Option<String>,
    subdomain_owner: Option<String>,
) -> Outcome {
    match remove_failure(ledger, now, sender, domain, subdomain, domain_owner, subdomain_owner) {
        Some(f) => Outcome::Err(f),
        None => {
            let key = subdomain_key(subdomain, domain);
            Outcome::Ok(
                (
                    ledger.remove(key),
                    seq![
                        EffectView::RemoveSubdomainEntry { domain, subdomain },
                        EffectView::Burn { name: key },
                    ],
                ),
            )
        },
    }
}

/// Removes `subdomain` of the suffixed `domain` from the ledger and burns its
/// token. Every check comes before the ledger is touched.
pub fn execute_remove_subdomain(
    reg: &mut Registry,
    now: u64,
    info: &MessageInfo,
    domain: String,
    subdomain: String,
    domain_owner: Option<String>,
    subdomain_owner: Option<String>,
) -> (r: Result<Vec<Effect>, ContractError>)
    requires
        old(reg).ledger.wf(),
    ensures
        final(reg).ledger.wf(),
        final(reg).config == old(reg).config,
        achieved(
            r,
            old(reg).ledger@,
            final(reg).ledger@,
            remove_outcome(
                old(reg).ledger@,
                now,
                info.sender@,
                domain@,
                subdomain@,
                domain_owner,
                subdomain_owner,
            ),
        ),
{
    let key = make_subdomain_key(subdomain.as_str(), domain.as_str());
    if !reports_owner(&domain_owner, &info.sender) {
        return Err(ContractError::Unauthorized);
    }
    let active = match reg.ledger.get(key.as_str()) {
        Some(rec) => !rec.is_expired(now),
        None => false,
    };
    if active && !reports_owner(&subdomain_owner, &info.sender) {
        return Err(ContractError::NameTaken { name: key });
    }
    reg.ledger.remove(key.as_str());
    let ghost key_view = key@;
    let mut effects: Vec<Effect> = Vec::new();
    effects.push(Effect::RemoveSubdomainEntry { domain, subdomain });
    effects.push(Effect::Burn { name: key });
    assert(effects_view(effects@) =~= seq![
        EffectView::RemoveSubdomainEntry { domain: domain@, subdomain: subdomain@ },
        EffectView::Burn { name: key_view },
    ]);
    Ok(effects)
}

} // verus!
