use vstd::prelude::*;

verus! {

/// The native denomination in which fees are paid.
pub const DENOM: &'static str = "aarch";

/// An amount of one denomination.
#[derive(Debug)]
pub struct Coin {
    pub denom: String,
    pub amount: u128,
}

/// Who sent a command, and the funds sent with it.
#[derive(Debug)]
pub struct MessageInfo {
    pub sender: String,
    pub funds: Vec<Coin>,
}

/// The registry's parameters, set by its admin.
#[derive(Debug)]
pub struct Config {
    pub admin: String,
    pub wallet: String,
    /// Address of the token collaborator.
    pub cw721: String,
    /// Payment for one registration interval.
    pub base_cost: u128,
    /// Seconds that one paid interval grants.
    pub base_expiration: u64,
}

/// A linked account, as the token's metadata lists it.
#[derive(Debug)]
pub struct Account {
    pub username: Option<String>,
    pub profile: Option<String>,
    pub account_type: Option<String>,
    pub verfication_hash: Option<String>,
}

/// A linked website, as the token's metadata lists it.
#[derive(Debug)]
pub struct Website {
    pub url: Option<String>,
    pub domain: Option<String>,
    pub verfication_hash: Option<String>,
}

/// The parts of a token's metadata its owner may set.
#[derive(Debug)]
pub struct MetaDataUpdateMsg {
    pub description: Option<String>,
    pub image: Option<String>,
    pub accounts: Option<Vec<Account>>,
    pub websites: Option<Vec<Website>>,
}

/// A command for the token collaborator or the bank, emitted by a
/// successful registry command and carried out in the same atomic unit.
#[derive(Debug)]
pub enum Effect {
    /// Mint the token of top-level `name` for `owner`.
    Mint { name: String, owner: String, created: u64, expiration: u64 },
    /// Mint the token of `subdomain` under the suffixed `domain` for `owner`.
    MintSubdomain {
        domain: String,
        subdomain: String,
        owner: String,
        resolver: String,
        created: u64,
        expiration: u64,
    },
    /// Burn the token of `name`.
    Burn { name: String },
    /// Set the expiry in the metadata of `name`'s token.
    UpdateExpiry { name: String, expiration: u64 },
    /// Set the expiry of `subdomain` of `domain` in the metadata of both tokens.
    UpdateSubdomainExpiry { domain: String, subdomain: String, expiration: u64 },
    /// Set the resolver of `subdomain` in the metadata of `domain`'s token.
    UpdateSubdomainResolver { domain: String, subdomain: String, resolver: String, expiration: u64 },
    /// Drop `subdomain` from the metadata of `domain`'s token.
    RemoveSubdomainEntry { domain: String, subdomain: String },
    /// Replace the user-set parts of the metadata of `name`'s token.
    UpdateUserData { name: String, update: MetaDataUpdateMsg },
    /// Send `amount` of the fee denomination to `to`.
    Send { to: String, amount: u128 },
}

/// An effect with its text seen as characters.
pub enum EffectView {
    Mint { name: Seq<char>, owner: Seq<char>, created: u64, expiration: u64 },
    MintSubdomain {
        domain: Seq<char>,
        subdomain: Seq<char>,
        owner: Seq<char>,
        resolver: Seq<char>,
        created: u64,
        expiration: u64,
    },
    Burn { name: Seq<char> },
    UpdateExpiry { name: Seq<char>, expiration: u64 },
    UpdateSubdomainExpiry { domain: Seq<char>, subdomain: Seq<char>, expiration: u64 },
    UpdateSubdomainResolver {
        domain: Seq<char>,
        subdomain: Seq<char>,
        resolver: Seq<char>,
        expiration: u64,
    },
    RemoveSubdomainEntry { domain: Seq<char>, subdomain: Seq<char> },
    UpdateUserData { name: Seq<char>, update: MetaDataUpdateMsg },
    Send { to: Seq<char>, amount: u128 },
}

impl View for Effect {
    type V = EffectView;

    open spec fn view(&self) -> EffectView {
        match self {
            Effect::Mint { name, owner, created, expiration } => EffectView::Mint {
                name: name@,
                owner: owner@,
                created: *created,
                expiration: *expiration,
            },
            Effect::MintSubdomain { domain, subdomain, owner, resolver, created, expiration } =>
                EffectView::MintSubdomain {
                domain: domain@,
                subdomain: subdomain@,
                owner: owner@,
                resolver: resolver@,
                created: *created,
                expiration: *expiration,
            },
            Effect::Burn { name } => EffectView::Burn { name: name@ },
            Effect::UpdateExpiry { name, expiration } => EffectView::UpdateExpiry {
                name: name@,
                expiration: *expiration,
            },
            Effect::UpdateSubdomainExpiry { domain, subdomain, expiration } =>
                EffectView::UpdateSubdomainExpiry {
                domain: domain@,
                subdomain: subdomain@,
                expiration: *expiration,
            },
            Effect::UpdateSubdomainResolver { domain, subdomain, resolver, expiration } =>
                EffectView::UpdateSubdomainResolver {
                domain: domain@,
                subdomain: subdomain@,
                resolver: resolver@,
                expiration: *expiration,
            },
            Effect::RemoveSubdomainEntry { domain, subdomain } => EffectView::RemoveSubdomainEntry {
                domain: domain@,
                subdomain: subdomain@,
            },
            Effect::UpdateUserData { name, update } => EffectView::UpdateUserData {
                name: name@,
                update: *update,
            },
            Effect::Send { to, amount } => EffectView::Send { to: to@, amount: *amount },
        }
    }
}

/// The effects of a command, seen as characters.
pub open spec fn effects_view(v: Seq<Effect>) -> Seq<EffectView> {
    v.map_values(|e: Effect| e@)
}

} // verus!
