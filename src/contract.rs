use vstd::prelude::*;
use crate::error::{ContractError, Failure};
use crate::handlers::{
    achieved, admin_failure, execute_extend_subdomain_expiry, execute_register,
    execute_remove_subdomain, execute_renew_registration, execute_set_subdomain,
    execute_update_config, execute_update_resolver, execute_user_metadata_update,
    execute_withdraw_fees, extend_outcome, register_outcome, remove_outcome, renew_outcome,
    set_subdomain_outcome, update_resolver_outcome,
};
use crate::ledger::{bytes_key, RecordView};
use crate::msg::{effects_view, Config, Effect, EffectView, MessageInfo, MetaDataUpdateMsg};
use crate::order::{bytes_lt, compare_bytes};
use crate::query::{
    expires_as, lists_names_of, query_resolver, query_resolver_address,
    query_resolver_expiration, resolves_as, RecordExpirationResponse, ResolveAddressResponse,
    ResolveRecordResponse,
};
use crate::state::{is_owner, Registry};
use crate::validate::{format_name, make_subdomain_key, subdomain_key, suffix};

verus! {

/// The name under which the registry records its contract version.
pub const CONTRACT_NAME: &'static str = "crates.io:archid-registry";

/// The version of this registry.
pub const CONTRACT_VERSION: &'static str = "0.1.0";

/// The parameters a registry starts with.
#[derive(Debug)]
pub struct InstantiateMsg {
    pub admin: String,
    pub wallet: String,
    pub cw721: String,
    pub base_cost: u128,
    pub base_expiration: u64,
}

/// The commands the registry accepts. Names and domains are given without
/// the suffix.
#[derive(Debug)]
pub enum ExecuteMsg {
    Register { name: String },
    RenewRegistration { name: String },
    UpdateResolver { name: String, new_resolver: String },
    RegisterSubdomain {
        domain: String,
        subdomain: String,
        new_resolver: String,
        new_owner: String,
        expiration: u64,
    },
    ExtendSubdomainExpiry { domain: String, subdomain: String, expiration: u64 },
    UpdateUserDomainData { name: String, metadata_update: MetaDataUpdateMsg },
    UpdateConfig { config: Config },
    Withdraw { amount: u128 },
    RemoveSubdomain { domain: String, subdomain: String },
}

/// The questions the registry answers. Names are given as ledger keys.
#[derive(Debug)]
pub enum QueryMsg {
    ResolveRecord { name: String },
    ResolveAddress { address: String },
    RecordExpiration { name: String },
    Config,
}

/// The answer to a question.
#[derive(Debug)]
pub enum QueryResponse {
    ResolveRecord(Option<ResolveRecordResponse>),
    ResolveAddress(ResolveAddressResponse),
    RecordExpiration(Option<RecordExpirationResponse>),
    Config(Config),
}

/// The owners that the token collaborator reported for the tokens a command
/// consults (see `owner_lookups`).
#[derive(Debug)]
pub struct OwnerReport {
    /// Owner of the named token, or of the parent domain for subdomain commands.
    pub owner: Option<String>,
    /// Owner of the subdomain's own token, for subdomain removal.
    pub subdomain_owner: Option<String>,
}

/// The tokens whose owners a command consults: the one whose owner goes in
/// `OwnerReport::owner` and the one whose owner goes in
/// `OwnerReport::subdomain_owner`.
pub fn owner_lookups(msg: &ExecuteMsg) -> (r: (Option<String>, Option<String>))
    ensures
        match msg {
            ExecuteMsg::RenewRegistration { name } | ExecuteMsg::UpdateResolver { name, .. }
            | ExecuteMsg::UpdateUserDomainData { name, .. } => r.0 is Some && r.0->0@ == name@
                + suffix() && r.1 is None,
            ExecuteMsg::RegisterSubdomain { domain, .. } | ExecuteMsg::ExtendSubdomainExpiry {
                domain,
                ..
            } => r.0 is Some && r.0->0@ == domain@ + suffix() && r.1 is None,
            ExecuteMsg::RemoveSubdomain { domain, subdomain } => r.0 is Some && r.0->0@ == domain@
                + suffix() && r.1 is Some && r.1->0@ == subdomain_key(subdomain@, domain@ + suffix()),
            _ => r.0 is None && r.1 is None,
        },
{
    match msg {
        ExecuteMsg::RenewRegistration { name } | ExecuteMsg::UpdateResolver { name, .. }
        | ExecuteMsg::UpdateUserDomainData { name, .. } => (Some(format_name(name.clone())), None),
        ExecuteMsg::RegisterSubdomain { domain, .. } | ExecuteMsg::ExtendSubdomainExpiry {
            domain,
            ..
        } => (Some(format_name(domain.clone())), None),
        ExecuteMsg::RemoveSubdomain { domain, subdomain } => {
            let parent = format_name(domain.clone());
            let key = make_subdomain_key(subdomain.as_str(), parent.as_str());
            (Some(parent), Some(key))
        },
        _ => (None, None),
    }
}

/// Starts a registry with the given parameters and an empty ledger.
pub fn instantiate(msg: InstantiateMsg) -> (r: Registry)
    ensures
        r.ledger.wf(),
        r.ledger@ == Map::<Seq<char>, RecordView>::empty(),
        r.config.admin == msg.admin && r.config.wallet == msg.wallet && r.config.cw721 == msg.cw721
            && r.config.base_cost == msg.base_cost && r.config.base_expiration
            == msg.base_expiration,
{
    Registry::new(
        Config {
            admin: msg.admin,
            wallet: msg.wallet,
            cw721: msg.cw721,
            base_cost: msg.base_cost,
            base_expiration: msg.base_expiration,
        },
    )
}

/// Runs one command at time `now`, suffixing the names it carries.
pub fn execute(
    reg: &mut Registry,
    now: u64,
    info: &MessageInfo,
    msg: ExecuteMsg,
    owners: OwnerReport,
) -> (r: Result<Vec<Effect>, ContractError>)
    requires
        old(reg).ledger.wf(),
    ensures
        final(reg).ledger.wf(),
        match msg {
            ExecuteMsg::Register { name } => final(reg).config == old(reg).config && achieved(
                r,
                old(reg).ledger@,
                final(reg).ledger@,
                register_outcome(
                    old(reg).ledger@,
                    old(reg).config,
                    now,
                    info.funds@,
                    info.sender@,
                    name@ + suffix(),
                ),
            ),
            ExecuteMsg::RenewRegistration { name } => final(reg).config == old(reg).config
                && achieved(
                r,
                old(reg).ledger@,
                final(reg).ledger@,
                renew_outcome(
                    old(reg).ledger@,
                    old(reg).config,
                    now,
                    info.funds@,
                    info.sender@,
                    name@ + suffix(),
                    owners.owner,
                ),
            ),
            ExecuteMsg::UpdateResolver { name, new_resolver } => final(reg).config == old(reg).config && achieved(
                r,
                old(reg).ledger@,
                final(reg).ledger@,
                update_resolver_outcome(
                    old(reg).ledger@,
                    now,
                    info.sender@,
                    name@ + suffix(),
                    new_resolver@,
                    owners.owner,
                ),
            ),
            ExecuteMsg::RegisterSubdomain {
                domain,
                subdomain,
                new_resolver,
                new_owner,
                expiration,
            } => final(reg).config == old(reg).config && achieved(
                r,
                old(reg).ledger@,
                final(reg).ledger@,
                set_subdomain_outcome(
                    old(reg).ledger@,
                    now,
                    info.sender@,
                    domain@ + suffix(),
                    subdomain@,
                    new_resolver@,
                    new_owner@,
                    expiration,
                    owners.owner,
                ),
            ),
            ExecuteMsg::ExtendSubdomainExpiry { domain, subdomain, expiration } => final(reg).config == old(reg).config && achieved(
                r,
                old(reg).ledger@,
                final(reg).ledger@,
                extend_outcome(
                    old(reg).ledger@,
                    now,
                    info.sender@,
                    domain@ + suffix(),
                    subdomain@,
                    expiration,
                    owners.owner,
                ),
            ),
            ExecuteMsg::UpdateUserDomainData { name, metadata_update } => {
                &&& final(reg).config == old(reg).config
                &&& final(reg).ledger@ == old(reg).ledger@
                &&& match r {
                    Err(e) => !is_owner(owners.owner, info.sender@) && e@ == Failure::Unauthorized,
                    Ok(effects) => is_owner(owners.owner, info.sender@) && effects_view(effects@)
                        == seq![
                        EffectView::UpdateUserData { name: name@ + suffix(), update: metadata_update },
                    ],
                }
            },
            ExecuteMsg::UpdateConfig { config } => {
                &&& final(reg).ledger@ == old(reg).ledger@
                &&& match r {
                    Err(e) => admin_failure(old(reg).config, info.sender@) == Some(e@) && final(reg).config == old(reg).config,
                    Ok(effects) => admin_failure(old(reg).config, info.sender@) is None && final(reg).config == config && effects@.len() == 0,
                }
            },
            ExecuteMsg::Withdraw { amount } => {
                &&& final(reg).config == old(reg).config
                &&& final(reg).ledger@ == old(reg).ledger@
                &&& match r {
                    Err(e) => admin_failure(old(reg).config, info.sender@) == Some(e@),
                    Ok(effects) => admin_failure(old(reg).config, info.sender@) is None
                        && effects_view(effects@) == seq![
                        EffectView::Send { to: old(reg).config.wallet@, amount },
                    ],
                }
            },
            ExecuteMsg::RemoveSubdomain { domain, subdomain } => final(reg).config == old(reg).config && achieved(
                r,
                old(reg).ledger@,
                final(reg).ledger@,
                remove_outcome(
                    old(reg).ledger@,
                    now,
                    info.sender@,
                    domain@ + suffix(),
                    subdomain@,
                    owners.owner,
                    owners.subdomain_owner,
                ),
            ),
        },
{
    match msg {
        ExecuteMsg::Register { name } => execute_register(reg, now, info, format_name(name)),
        ExecuteMsg::RenewRegistration { name } => {
            execute_renew_registration(reg, now, info, format_name(name), owners.owner)
        },
        ExecuteMsg::UpdateResolver { name, new_resolver } => {
            execute_update_resolver(reg, now, info, format_name(name), new_resolver, owners.owner)
        },
        ExecuteMsg::RegisterSubdomain { domain, subdomain, new_resolver, new_owner, expiration } =>
            execute_set_subdomain(
            reg,
            now,
            info,
            format_name(domain),
            subdomain,
            new_resolver,
            new_owner,
            expiration,
            owners.owner,
        ),
        ExecuteMsg::ExtendSubdomainExpiry { domain, subdomain, expiration } =>
            execute_extend_subdomain_expiry(
            reg,
            now,
            info,
            format_name(domain),
            subdomain,
            expiration,
            owners.owner,
        ),
        ExecuteMsg::UpdateUserDomainData { name, metadata_update } => {
            execute_user_metadata_update(info, format_name(name), metadata_update, owners.owner)
        },
        ExecuteMsg::UpdateConfig { config } => execute_update_config(reg, info, config),
        ExecuteMsg::Withdraw { amount } => execute_withdraw_fees(reg, info, amount),
        ExecuteMsg::RemoveSubdomain { domain, subdomain } => execute_remove_subdomain(
            reg,
            now,
            info,
            format_name(domain),
            subdomain,
            owners.owner,
            owners.subdomain_owner,
        ),
    }
}

impl Config {
    /// A copy of the parameters.
    pub fn duplicate(&self) -> (r: Config)
        ensures
            r == *self,
    {
        Config {
            admin: self.admin.clone(),
            wallet: self.wallet.clone(),
            cw721: self.cw721.clone(),
            base_cost: self.base_cost,
            base_expiration: self.base_expiration,
        }
    }
}

/// Answers one question at time `now`.
pub fn query(reg: &Registry, now: u64, msg: QueryMsg) -> (r: QueryResponse)
    requires
        reg.ledger.wf(),
    ensures
        match msg {
            QueryMsg::ResolveRecord { name } => r matches QueryResponse::ResolveRecord(resp)
                && resolves_as(reg.ledger@, now, name@, resp),
            QueryMsg::ResolveAddress { address } => r matches QueryResponse::ResolveAddress(resp)
                && resp.names is Some && lists_names_of(
                reg.ledger@,
                now,
                address@,
                resp.names->0@,
            ),
            QueryMsg::RecordExpiration { name } => r matches QueryResponse::RecordExpiration(resp)
                && expires_as(reg.ledger@, name@, resp),
            QueryMsg::Config => r matches QueryResponse::Config(c) && c == reg.config,
        },
{
    match msg {
        QueryMsg::ResolveRecord { name } => QueryResponse::ResolveRecord(
            query_resolver(reg, now, name.as_str()),
        ),
        QueryMsg::ResolveAddress { address } => QueryResponse::ResolveAddress(
            query_resolver_address(reg, now, &address),
        ),
        QueryMsg::RecordExpiration { name } => QueryResponse::RecordExpiration(
            query_resolver_expiration(reg, name.as_str()),
        ),
        QueryMsg::Config => QueryResponse::Config(reg.config.duplicate()),
    }
}

/// The outcome of a reply to a message the registry sent: a failed message
/// fails the registry's command too.
pub fn reply(succeeded: bool) -> (r: Result<(), ContractError>)
    ensures
        succeeded <==> r is Ok,
        r matches Err(e) ==> e@ == Failure::Unauthorized,
{
    if succeeded {
        Ok(())
    } else {
        Err(ContractError::Unauthorized)
    }
}

/// A migration from the recorded contract name and version is allowed only
/// from this contract and from an earlier version (versions compare as byte
/// strings).
pub fn migrate(stored_contract: &str, stored_version: &str) -> (r: Result<(), ContractError>)
    ensures
        r is Ok <==> (stored_contract@ == CONTRACT_NAME@ && bytes_lt(
            bytes_key(stored_version@),
            bytes_key(CONTRACT_VERSION@),
        )),
        r matches Err(e) ==> e@ == Failure::InvalidInput,
{
    let same = compare_bytes(stored_contract.as_bytes(), CONTRACT_NAME.as_bytes());
    proof {
        crate::ledger::lemma_key_bytes_injective(stored_contract@, CONTRACT_NAME@);
    }
    match same {
        core::cmp::Ordering::Equal => {},
        _ => return Err(ContractError::InvalidInput),
    }
    match compare_bytes(stored_version.as_bytes(), CONTRACT_VERSION.as_bytes()) {
        core::cmp::Ordering::Less => Ok(()),
        _ => Err(ContractError::InvalidInput),
    }
}

} // verus!
