use std::collections::BTreeMap;

use archid_registry::contract::{
    execute, instantiate, owner_lookups, query, ExecuteMsg, InstantiateMsg, OwnerReport,
    QueryMsg, QueryResponse,
};
use archid_registry::error::{ContractError, PaymentError};
use archid_registry::metadata::{metadata_lookups, token_messages, Metadata, SubdomainEntry, TokenMsg};
use archid_registry::msg::{Account, Coin, Config, Effect, MessageInfo, MetaDataUpdateMsg, Website, DENOM};
use archid_registry::query::{
    query_resolver, query_resolver_address, query_resolver_expiration, RecordExpirationResponse,
    ResolveRecordResponse,
};
use archid_registry::state::Registry;

const START: u64 = 1_571_797_419;

fn copy_entry(e: &SubdomainEntry) -> SubdomainEntry {
    SubdomainEntry {
        name: e.name.clone(),
        resolver: e.resolver.clone(),
        minted: e.minted,
        created: e.created,
        expiry: e.expiry,
    }
}

fn copy_account(a: &Account) -> Account {
    Account {
        username: a.username.clone(),
        profile: a.profile.clone(),
        account_type: a.account_type.clone(),
        verfication_hash: a.verfication_hash.clone(),
    }
}

fn copy_website(w: &Website) -> Website {
    Website { url: w.url.clone(), domain: w.domain.clone(), verfication_hash: w.verfication_hash.clone() }
}

fn copy_metadata(m: &Metadata) -> Metadata {
    Metadata {
        name: m.name.clone(),
        description: m.description.clone(),
        image: m.image.clone(),
        created: m.created,
        expiry: m.expiry,
        domain: m.domain.clone(),
        subdomains: m.subdomains.as_ref().map(|v| v.iter().map(copy_entry).collect()),
        accounts: m.accounts.as_ref().map(|v| v.iter().map(copy_account).collect()),
        websites: m.websites.as_ref().map(|v| v.iter().map(copy_website).collect()),
    }
}

fn copy_effect(e: &Effect) -> Effect {
    match e {
        Effect::Mint { name, owner, created, expiration } => Effect::Mint {
            name: name.clone(),
            owner: owner.clone(),
            created: *created,
            expiration: *expiration,
        },
        Effect::MintSubdomain { domain, subdomain, owner, resolver, created, expiration } => {
            Effect::MintSubdomain {
                domain: domain.clone(),
                subdomain: subdomain.clone(),
                owner: owner.clone(),
                resolver: resolver.clone(),
                created: *created,
                expiration: *expiration,
            }
        }
        Effect::Burn { name } => Effect::Burn { name: name.clone() },
        Effect::UpdateExpiry { name, expiration } => {
            Effect::UpdateExpiry { name: name.clone(), expiration: *expiration }
        }
        Effect::UpdateSubdomainExpiry { domain, subdomain, expiration } => Effect::UpdateSubdomainExpiry {
            domain: domain.clone(),
            subdomain: subdomain.clone(),
            expiration: *expiration,
        },
        Effect::UpdateSubdomainResolver { domain, subdomain, resolver, expiration } => {
            Effect::UpdateSubdomainResolver {
                domain: domain.clone(),
                subdomain: subdomain.clone(),
                resolver: resolver.clone(),
                expiration: *expiration,
            }
        }
        Effect::RemoveSubdomainEntry { domain, subdomain } => Effect::RemoveSubdomainEntry {
            domain: domain.clone(),
            subdomain: subdomain.clone(),
        },
        Effect::UpdateUserData { name, update } => Effect::UpdateUserData {
            name: name.clone(),
            update: MetaDataUpdateMsg {
                description: update.description.clone(),
                image: update.image.clone(),
                accounts: update.accounts.as_ref().map(|v| v.iter().map(copy_account).collect()),
                websites: update.websites.as_ref().map(|v| v.iter().map(copy_website).collect()),
            },
        },
        Effect::Send { to, amount } => Effect::Send { to: to.clone(), amount: *amount },
    }
}

/// The token collaborator as the tests see it: who holds which token, with
/// which metadata, and every effect it was handed.
#[derive(Default)]
struct Tokens {
    owners: BTreeMap<String, String>,
    metadata: BTreeMap<String, Metadata>,
    minted: Vec<Effect>,
    sent: u128,
}

impl Tokens {
    fn apply(&mut self, effects: Vec<Effect>) {
        for e in effects {
            if let Effect::Send { amount, .. } = &e {
                self.sent += amount;
            }
            let current = metadata_lookups(&e)
                .iter()
                .map(|t| copy_metadata(self.metadata.get(t).expect("token metadata")))
                .collect();
            self.minted.push(copy_effect(&e));
            for m in token_messages(e, current) {
                match m {
                    TokenMsg::Mint { token_id, owner, extension } => {
                        assert!(!self.owners.contains_key(&token_id), "token claimed");
                        self.owners.insert(token_id.clone(), owner);
                        self.metadata.insert(token_id, extension);
                    }
                    TokenMsg::Burn { token_id } => {
                        self.owners.remove(&token_id);
                        self.metadata.remove(&token_id);
                    }
                    TokenMsg::UpdateMetadata { token_id, extension } => {
                        self.metadata.insert(token_id, extension);
                    }
                }
            }
        }
    }

    fn owner_of(&self, token: &str) -> Option<String> {
        self.owners.get(token).cloned()
    }
}

struct Chain {
    reg: Registry,
    tokens: Tokens,
    now: u64,
}

fn coins(amount: u128) -> Vec<Coin> {
    vec![Coin { denom: DENOM.to_string(), amount }]
}

fn config(admin: &str, wallet: &str, cw721: &str, base_cost: u128, base_expiration: u64) -> Config {
    Config {
        admin: admin.to_string(),
        wallet: wallet.to_string(),
        cw721: cw721.to_string(),
        base_cost,
        base_expiration,
    }
}

impl Chain {
    /// A registry created with a placeholder token address and a long base
    /// expiration, then reconfigured by its admin, as a deployment does.
    fn new(now: u64) -> Chain {
        let reg = instantiate(InstantiateMsg {
            admin: "owner".to_string(),
            wallet: "wallet".to_string(),
            cw721: "testtesttest".to_string(),
            base_cost: 5000,
            base_expiration: 10000000,
        });
        let mut chain = Chain { reg, tokens: Tokens::default(), now };
        let update = ExecuteMsg::UpdateConfig {
            config: config("owner", "wallet", "nft", 5000, 86400),
        };
        assert!(chain.run("owner", vec![], update).is_ok());
        chain
    }

    fn run(&mut self, sender: &str, funds: Vec<Coin>, msg: ExecuteMsg) -> Result<(), ContractError> {
        let (token, sub_token) = owner_lookups(&msg);
        let owners = OwnerReport {
            owner: token.and_then(|t| self.tokens.owner_of(&t)),
            subdomain_owner: sub_token.and_then(|t| self.tokens.owner_of(&t)),
        };
        let info = MessageInfo { sender: sender.to_string(), funds };
        let effects = execute(&mut self.reg, self.now, &info, msg, owners)?;
        self.tokens.apply(effects);
        Ok(())
    }

    fn resolve(&self, name: &str) -> ResolveRecordResponse {
        query_resolver(&self.reg, self.now, name).unwrap()
    }

    fn expiration(&self, name: &str) -> RecordExpirationResponse {
        query_resolver_expiration(&self.reg, name).unwrap()
    }
}

fn register(name: &str) -> ExecuteMsg {
    ExecuteMsg::Register { name: name.to_string() }
}

fn set_subdomain(domain: &str, sub: &str, resolver: &str, owner: &str, expiration: u64) -> ExecuteMsg {
    ExecuteMsg::RegisterSubdomain {
        domain: domain.to_string(),
        subdomain: sub.to_string(),
        new_resolver: resolver.to_string(),
        new_owner: owner.to_string(),
        expiration,
    }
}

#[test]
fn basic_domain_test() {
    let mut chain = Chain::new(START);
    chain.now = START + 1000;
    let register_msg = register("simpletest");
    assert!(chain.run("mintnames", vec![], register("simpletest")).is_err());
    assert!(chain.run("mintnames", coins(5000), register_msg).is_ok());
    assert!(chain.run("mintnames", coins(5000), register("simpletest")).is_err());

    let resolve = chain.resolve("simpletest.arch");
    assert_eq!(resolve.address, Some("mintnames".to_string()));
    let expiration = chain.expiration("simpletest.arch");

    let _ = chain.run(
        "mintnames",
        vec![],
        set_subdomain("simpletest", "dapp", "testtesttest", "testtesttest", expiration.expiration),
    );
    let sub = chain.resolve("dapp.simpletest.arch");
    assert_eq!(sub.address, Some("testtesttest".to_string()));
    let dapp_meta = &chain.tokens.metadata["dapp.simpletest.arch"];
    assert_eq!(dapp_meta.name, Some("dapp.simpletest".to_string()));
    assert_eq!(dapp_meta.description, Some("dapp.simpletest.arch subdomain".to_string()));
    assert_eq!(dapp_meta.image, None);
    assert_eq!(dapp_meta.created, Some(expiration.created));
    assert_eq!(dapp_meta.expiry, Some(expiration.expiration));
    assert_eq!(dapp_meta.domain, Some("dapp.simpletest.arch".to_string()));
    assert!(dapp_meta.subdomains.is_none() && dapp_meta.accounts.is_none() && dapp_meta.websites.is_none());
    let parent_list = chain.tokens.metadata["simpletest.arch"].subdomains.as_ref().unwrap();
    assert_eq!(parent_list.len(), 1);
    assert_eq!(parent_list[0].name, Some("dapp".to_string()));
    assert_eq!(parent_list[0].minted, Some(true));
    match chain.tokens.minted.last().unwrap() {
        Effect::MintSubdomain { domain, subdomain, owner, created, expiration: exp, .. } => {
            assert_eq!(domain, "simpletest.arch");
            assert_eq!(subdomain, "dapp");
            assert_eq!(owner, "testtesttest");
            assert_eq!(*created, expiration.created);
            assert_eq!(*exp, expiration.expiration);
        }
        other => panic!("unexpected effect {:?}", other),
    }

    let _ = chain.run(
        "mintnames",
        vec![],
        set_subdomain("simpletest", "subdomain2", "testtesttest", "testtesttest", expiration.expiration),
    );
    match chain.tokens.minted.last().unwrap() {
        Effect::MintSubdomain { subdomain, created, expiration: exp, .. } => {
            assert_eq!(subdomain, "subdomain2");
            assert_eq!(*created, expiration.created);
            assert_eq!(*exp, expiration.expiration);
        }
        other => panic!("unexpected effect {:?}", other),
    }
    let sub_meta = &chain.tokens.metadata["subdomain2.simpletest.arch"];
    assert_eq!(sub_meta.name, Some("subdomain2.simpletest".to_string()));
    assert_eq!(sub_meta.description, Some("subdomain2.simpletest.arch subdomain".to_string()));
    assert_eq!(sub_meta.image, None);
    assert_eq!(sub_meta.created, Some(expiration.created));
    assert_eq!(sub_meta.expiry, Some(expiration.expiration));
    assert_eq!(sub_meta.domain, Some("subdomain2.simpletest.arch".to_string()));
    assert!(sub_meta.subdomains.is_none() && sub_meta.accounts.is_none() && sub_meta.websites.is_none());
    assert_eq!(chain.tokens.owners.len(), 3);

    let records = query_resolver_address(&chain.reg, chain.now, &"mintnames".to_string());
    assert_eq!(records.names.unwrap().len(), 1);
}

#[test]
fn test_expired_domains() {
    let mut chain = Chain::new(START);
    let _ = chain.run("mintnames", coins(5000), register("simpletest"));
    chain.now = START + 86401;
    let resolve = chain.resolve("simpletest.arch");
    assert!(resolve.address == None);

    let msg = set_subdomain("simpletest", "subdomain", "testtesttest", "testtesttest", chain.now + 1000);
    assert!(chain.run("mintnames", vec![], msg).is_err());

    let _ = chain.run("mintothernames", coins(5000), register("simpletest"));
    assert!(chain.tokens.owner_of("simpletest.arch") == Some("mintothernames".to_string()));
    let info = &chain.tokens.metadata["simpletest.arch"];
    assert_eq!(info.name, Some("simpletest".to_string()));
    assert_eq!(info.description, Some("simpletest.arch domain".to_string()));
    assert_eq!(info.image, None);
    assert_eq!(info.domain, Some("simpletest.arch".to_string()));
    assert_eq!(info.subdomains.as_ref().map(|v| v.len()), Some(0));
    assert_eq!(info.accounts.as_ref().map(|v| v.len()), Some(0));
    assert_eq!(info.websites.as_ref().map(|v| v.len()), Some(0));
    let record = chain.expiration("simpletest.arch");
    assert_eq!(info.created, Some(record.created));
    assert_eq!(info.expiry, Some(record.expiration));
    assert_eq!(record.created, START + 86401);
    assert_eq!(record.expiration, START + 86401 + 86400);
}

#[test]
fn test_subdomain_rules() {
    let mut chain = Chain::new(START);
    let _ = chain.run("mintnames", coins(5000), register("simpletest"));
    let current_time = chain.now;
    let msg = || set_subdomain("simpletest", "subdomain", "mintothernames", "testtesttest", current_time + 43200);
    let _ = chain.run("mintnames", vec![], msg());
    assert!(chain.run("mintnames", vec![], msg()).is_err());
    let update_resolver_msg = || ExecuteMsg::UpdateResolver {
        name: "subdomain.simpletest".to_string(),
        new_resolver: "domain_owner".to_string(),
    };
    assert!(chain.run("mintnames", vec![], update_resolver_msg()).is_err());
    let _ = chain.run("mintothernames", vec![], update_resolver_msg());
    chain.now = current_time + 43205;
    let _ = chain.run("mintnames", vec![], msg());
    assert!(chain.tokens.owner_of("simpletest.arch") == Some("mintnames".to_string()));
}

#[test]
fn test_remint_subdomain() {
    let mut chain = Chain::new(START);
    let result = chain.run("mintnames", coins(5000), register("simpletest"));
    assert!(result.is_ok());
    let current_time = chain.now;
    let subdomain_msg = set_subdomain("simpletest", "subdomain", "mintothernames", "mintnames", current_time + 93200);
    let subdomain_msg2 =
        set_subdomain("simpletest", "subdomain", "mintothernames", "mintothernames", current_time + 93200);
    assert!(chain.run("mintnames", vec![], subdomain_msg).is_ok());
    let remove = ExecuteMsg::RemoveSubdomain {
        domain: "simpletest".to_string(),
        subdomain: "subdomain".to_string(),
    };
    let _ = chain.run("mintnames", vec![], remove);
    let _ = chain.run("mintnames", vec![], subdomain_msg2);
    let bad = || set_subdomain("simpletest22", "subdomain", "mintothernames", "mintnames", current_time + 43200);
    let _ = chain.run("mintnames", vec![], bad());
    assert!(chain.run("mintnames", vec![], bad()).is_err());
    let extend = || ExecuteMsg::ExtendSubdomainExpiry {
        domain: "simpletest".to_string(),
        subdomain: "subdomain".to_string(),
        expiration: current_time + 91200,
    };
    // only the domain owner can extend
    assert!(chain.run("mintothernames", vec![], extend()).is_err());
    assert!(chain.run("mintnames", vec![], extend()).is_ok());
    let extend_bad = ExecuteMsg::ExtendSubdomainExpiry {
        domain: "simpletest".to_string(),
        subdomain: "subdomain".to_string(),
        expiration: current_time,
    };
    // too early
    assert!(chain.run("mintnames", vec![], extend_bad).is_err());
}

#[test]
fn test_renewing_domains() {
    let mut chain = Chain::new(START);
    let base_expiration: u64 = 86400;
    let result = chain.run("mintnames", coins(5000), register("simpletest"));
    assert!(result.is_ok());
    let update_resolver_msg = ExecuteMsg::UpdateResolver {
        name: "simpletest".to_string(),
        new_resolver: "resolvenames".to_string(),
    };
    assert!(chain.run("mintnames", vec![], update_resolver_msg).is_ok());
    let original_expiration = chain.resolve("simpletest.arch").expiration;

    let renew = || ExecuteMsg::RenewRegistration { name: "simpletest".to_string() };
    assert!(chain.run("mintnames", coins(1000), renew()).is_err());
    assert!(chain.run("mintnames", coins(5000), renew()).is_ok());
    assert_eq!(chain.resolve("simpletest.arch").expiration, original_expiration + base_expiration);

    assert!(chain.run("mintnames", coins(5000 * 5), renew()).is_ok());
    let resolution = chain.resolve("simpletest.arch");
    assert_eq!(resolution.expiration, original_expiration + base_expiration.checked_mul(2u64).unwrap());
    assert_eq!(resolution.address.unwrap(), "resolvenames".to_string());
}

#[test]
fn registration_and_renewal_intervals() {
    let mut chain = Chain::new(START);
    assert!(chain.run("alice", coins(5000), register("example")).is_ok());
    assert_eq!(chain.expiration("example.arch").expiration, START + 86400);
    let renew = || ExecuteMsg::RenewRegistration { name: "example".to_string() };
    assert!(chain.run("alice", coins(5000), renew()).is_ok());
    assert_eq!(chain.expiration("example.arch").expiration, START + 2 * 86400);
    assert!(chain.run("alice", coins(25000), renew()).is_ok());
    assert_eq!(chain.expiration("example.arch").expiration, START + 3 * 86400);
    assert_eq!(chain.tokens.metadata["example.arch"].expiry, Some(START + 3 * 86400));
}

#[test]
fn registration_caps_at_three_intervals() {
    let mut chain = Chain::new(START);
    assert!(chain.run("alice", coins(5000 * 7), register("example")).is_ok());
    assert_eq!(chain.expiration("example.arch").expiration, START + 3 * 86400);
    assert!(chain.run("bob", coins(5000 * 2), register("other")).is_ok());
    assert_eq!(chain.expiration("other.arch").expiration, START + 2 * 86400);
    assert!(chain.run("carol", coins(14999), register("third")).is_ok());
    assert_eq!(chain.expiration("third.arch").expiration, START + 2 * 86400);
}

#[test]
fn underpayment_is_invalid_payment() {
    let mut chain = Chain::new(START);
    assert_eq!(
        chain.run("alice", coins(4999), register("example")),
        Err(ContractError::InvalidPayment { amount: 4999 })
    );
}

#[test]
fn short_name_is_refused() {
    let mut chain = Chain::new(START);
    assert_eq!(
        chain.run("alice", coins(5000), register("ab")),
        Err(ContractError::NameTooShort { length: 7, min_length: 3 })
    );
}

#[test]
fn long_name_and_bad_characters_are_refused() {
    let mut chain = Chain::new(START);
    let long = "a".repeat(65);
    assert_eq!(
        chain.run("alice", coins(5000), register(&long)),
        Err(ContractError::NameTooLong { length: 70, max_length: 64 })
    );
    assert!(chain.run("alice", coins(5000), register(&"a".repeat(64))).is_ok());
    assert_eq!(
        chain.run("alice", coins(5000), register("abC-d")),
        Err(ContractError::InvalidCharacter { c: 'C' })
    );
    assert_eq!(
        chain.run("alice", coins(5000), register("ab.cd")),
        Err(ContractError::InvalidCharacter { c: '.' })
    );
}

#[test]
fn taken_name_cannot_be_registered() {
    let mut chain = Chain::new(START);
    assert!(chain.run("alice", coins(5000), register("example")).is_ok());
    assert_eq!(
        chain.run("bob", coins(5000), register("example")),
        Err(ContractError::NameTaken { name: "example.arch".to_string() })
    );
}

#[test]
fn payment_errors() {
    let mut chain = Chain::new(START);
    assert_eq!(
        chain.run("alice", vec![], register("example")),
        Err(ContractError::Payment(PaymentError::NoFunds))
    );
    assert_eq!(
        chain.run("alice", coins(0), register("example")),
        Err(ContractError::Payment(PaymentError::NoFunds))
    );
    let other = vec![Coin { denom: "uatom".to_string(), amount: 5000 }];
    assert_eq!(
        chain.run("alice", other, register("example")),
        Err(ContractError::Payment(PaymentError::MissingDenom(DENOM.to_string())))
    );
    let two = vec![
        Coin { denom: DENOM.to_string(), amount: 5000 },
        Coin { denom: "uatom".to_string(), amount: 1 },
    ];
    assert_eq!(
        chain.run("alice", two, register("example")),
        Err(ContractError::Payment(PaymentError::MultipleDenoms))
    );
}

#[test]
fn expired_name_resolves_to_nothing() {
    let mut chain = Chain::new(START);
    assert!(chain.run("alice", coins(5000), register("example")).is_ok());
    chain.now = START + 86400;
    let r = chain.resolve("example.arch");
    assert_eq!(r.address, None);
    assert_eq!(r.expiration, START + 86400);
    chain.now = START + 86399;
    assert_eq!(chain.resolve("example.arch").address, Some("alice".to_string()));
    assert!(query_resolver(&chain.reg, chain.now, "missing.arch").is_none());
}

#[test]
fn foreign_subdomain_removal_is_refused() {
    let mut chain = Chain::new(START);
    assert!(chain.run("alice", coins(5000), register("example")).is_ok());
    assert!(chain
        .run("alice", vec![], set_subdomain("example", "app", "bob", "bob", START + 1000))
        .is_ok());
    let remove = || ExecuteMsg::RemoveSubdomain {
        domain: "example".to_string(),
        subdomain: "app".to_string(),
    };
    assert_eq!(
        chain.run("alice", vec![], remove()),
        Err(ContractError::NameTaken { name: "app.example.arch".to_string() })
    );
    assert_eq!(chain.resolve("app.example.arch").address, Some("bob".to_string()));
    assert_eq!(chain.run("bob", vec![], remove()), Err(ContractError::Unauthorized));
    chain.now = START + 1000;
    assert!(chain.run("alice", vec![], remove()).is_ok());
    assert!(query_resolver(&chain.reg, chain.now, "app.example.arch").is_none());
    assert!(chain.tokens.owner_of("app.example.arch").is_none());
    assert_eq!(chain.tokens.metadata["example.arch"].subdomains.as_ref().map(|v| v.len()), Some(0));
}

#[test]
fn active_subdomain_is_not_reissued() {
    let mut chain = Chain::new(START);
    assert!(chain.run("alice", coins(5000), register("example")).is_ok());
    assert!(chain
        .run("alice", vec![], set_subdomain("example", "app", "bob", "bob", START + 1000))
        .is_ok());
    assert_eq!(
        chain.run("alice", vec![], set_subdomain("example", "app", "alice", "alice", START + 2000)),
        Err(ContractError::Unauthorized)
    );
    assert_eq!(chain.tokens.owner_of("app.example.arch"), Some("bob".to_string()));
}

#[test]
fn subdomain_expiration_is_capped_by_parent() {
    let mut chain = Chain::new(START);
    assert!(chain.run("alice", coins(5000), register("example")).is_ok());
    assert!(chain
        .run("alice", vec![], set_subdomain("example", "app", "bob", "bob", START + 999_999))
        .is_ok());
    assert_eq!(chain.expiration("app.example.arch").expiration, START + 86400);
    let extend = ExecuteMsg::ExtendSubdomainExpiry {
        domain: "example".to_string(),
        subdomain: "app".to_string(),
        expiration: START + 86400,
    };
    assert_eq!(chain.run("alice", vec![], extend), Err(ContractError::InvalidInput));

    assert!(chain
        .run("alice", vec![], set_subdomain("example", "web", "bob", "bob", START + 1000))
        .is_ok());
    let extend = ExecuteMsg::ExtendSubdomainExpiry {
        domain: "example".to_string(),
        subdomain: "web".to_string(),
        expiration: START + 5000,
    };
    assert!(chain.run("alice", vec![], extend).is_ok());
    assert_eq!(chain.expiration("web.example.arch").expiration, START + 5000);
    assert_eq!(chain.tokens.metadata["web.example.arch"].expiry, Some(START + 5000));
    let list = chain.tokens.metadata["example.arch"].subdomains.as_ref().unwrap();
    let web = list.iter().find(|e| e.name == Some("web".to_string())).unwrap();
    assert_eq!(web.expiry, Some(START + 5000));
}

#[test]
fn subdomain_resolver_update_reaches_parent_metadata() {
    let mut chain = Chain::new(START);
    assert!(chain.run("alice", coins(5000), register("example")).is_ok());
    assert!(chain
        .run("alice", vec![], set_subdomain("example", "app", "bob", "bob", START + 1000))
        .is_ok());
    let msg = ExecuteMsg::UpdateResolver {
        name: "app.example".to_string(),
        new_resolver: "carol".to_string(),
    };
    assert!(chain.run("bob", vec![], msg).is_ok());
    assert_eq!(chain.resolve("app.example.arch").address, Some("carol".to_string()));
    match chain.tokens.minted.last().unwrap() {
        Effect::UpdateSubdomainResolver { domain, subdomain, resolver, expiration } => {
            assert_eq!(domain, "example.arch");
            assert_eq!(subdomain, "app");
            assert_eq!(resolver, "carol");
            assert_eq!(*expiration, START + 1000);
        }
        other => panic!("unexpected effect {:?}", other),
    }
    let list = chain.tokens.metadata["example.arch"].subdomains.as_ref().unwrap();
    assert_eq!(list.len(), 1);
    assert_eq!(list[0].resolver, Some("carol".to_string()));
}

#[test]
fn admin_commands() {
    let mut chain = Chain::new(START);
    let withdraw = || ExecuteMsg::Withdraw { amount: 777 };
    assert_eq!(chain.run("alice", vec![], withdraw()), Err(ContractError::Unauthorized));
    assert!(chain.run("owner", vec![], withdraw()).is_ok());
    match chain.tokens.minted.last().unwrap() {
        Effect::Send { to, amount } => {
            assert_eq!(to, "wallet");
            assert_eq!(*amount, 777);
        }
        other => panic!("unexpected effect {:?}", other),
    }
    let update = ExecuteMsg::UpdateConfig { config: config("alice", "w", "nft", 1, 2) };
    assert_eq!(chain.run("bob", vec![], update), Err(ContractError::Unauthorized));
    match query(&chain.reg, chain.now, QueryMsg::Config) {
        QueryResponse::Config(c) => {
            assert_eq!(c.admin, "owner");
            assert_eq!(c.base_cost, 5000);
            assert_eq!(c.base_expiration, 86400);
        }
        other => panic!("unexpected response {:?}", other),
    }
}

#[test]
fn zero_base_cost_is_invalid_input() {
    let mut chain = Chain::new(START);
    let update = ExecuteMsg::UpdateConfig { config: config("owner", "wallet", "nft", 0, 86400) };
    assert!(chain.run("owner", vec![], update).is_ok());
    assert_eq!(chain.run("alice", coins(5000), register("example")), Err(ContractError::InvalidInput));
}

#[test]
fn expiration_overflow_is_reported() {
    let mut chain = Chain::new(u64::MAX - 10);
    assert_eq!(chain.run("alice", coins(5000), register("example")), Err(ContractError::Overflow));
}

#[test]
fn names_resolving_to_an_address_are_sorted() {
    let mut chain = Chain::new(START);
    for name in ["zeta", "alpha", "mid"] {
        assert!(chain.run("alice", coins(5000), register(name)).is_ok());
    }
    assert!(chain.run("bob", coins(5000), register("bobs")).is_ok());
    let names = query_resolver_address(&chain.reg, chain.now, &"alice".to_string()).names.unwrap();
    assert_eq!(names, vec!["alpha.arch".to_string(), "mid.arch".to_string(), "zeta.arch".to_string()]);
    chain.now = START + 86400;
    let names = query_resolver_address(&chain.reg, chain.now, &"alice".to_string()).names.unwrap();
    assert!(names.is_empty());
}

#[test]
fn user_metadata_update_needs_the_owner() {
    let mut chain = Chain::new(START);
    assert!(chain.run("alice", coins(5000), register("example")).is_ok());
    let update = || ExecuteMsg::UpdateUserDomainData {
        name: "example".to_string(),
        metadata_update: MetaDataUpdateMsg {
            description: Some("mine".to_string()),
            image: None,
            accounts: None,
            websites: None,
        },
    };
    assert_eq!(chain.run("bob", vec![], update()), Err(ContractError::Unauthorized));
    assert!(chain.run("alice", vec![], update()).is_ok());
    match chain.tokens.minted.last().unwrap() {
        Effect::UpdateUserData { name, update } => {
            assert_eq!(name, "example.arch");
            assert_eq!(update.description, Some("mine".to_string()));
        }
        other => panic!("unexpected effect {:?}", other),
    }
    let m = &chain.tokens.metadata["example.arch"];
    assert_eq!(m.description, Some("mine".to_string()));
    assert_eq!(m.name, Some("example.arch".to_string()));
    assert_eq!(m.domain, Some("example.arch".to_string()));
}

#[test]
fn huge_payment_counts_as_three_intervals() {
    let huge: u128 = 5000u128 << 65;
    let mut chain = Chain::new(START);
    assert!(chain.run("alice", coins(huge), register("example")).is_ok());
    assert_eq!(chain.expiration("example.arch").expiration, START + 3 * 86400);
    assert_eq!(
        chain.run("bob", coins(huge), register("example")),
        Err(ContractError::NameTaken { name: "example.arch".to_string() })
    );
    assert!(chain.run("bob", coins(5000), register("other")).is_ok());
    let renew = ExecuteMsg::RenewRegistration { name: "other".to_string() };
    assert!(chain.run("bob", coins(huge), renew).is_ok());
    assert_eq!(chain.expiration("other.arch").expiration, START + 3 * 86400);
}
