use vstd::prelude::*;
use crate::error::Failure;
use crate::handlers::{
    capped_intervals, denom, extend_outcome, register_outcome,
    remove_outcome, renew_outcome, renewed_expiration, set_subdomain_outcome,
    update_resolver_outcome, Outcome,
};
use crate::ledger::{expired, RecordView};
use crate::msg::{Coin, Config};
use crate::payment::payment_of;
use crate::state::{is_owner, lookup, MAX_BASE_INTERVAL};
use crate::validate::{
    body_of, first_invalid_from, has_suffix, is_name_char, name_failure, subdomain_key,
    valid_label, valid_name,
};

verus! {

/// Every subdomain held in the ledger has its parent held too, and expires
/// no later than the parent.
pub open spec fn subdomains_within_parent(ledger: Map<Seq<char>, RecordView>) -> bool {
    forall|sub: Seq<char>, dom: Seq<char>|
        #![trigger ledger.contains_key(subdomain_key(sub, dom))]
        valid_label(sub) && valid_name(dom) && ledger.contains_key(subdomain_key(sub, dom))
            ==> ledger.contains_key(dom) && ledger[subdomain_key(sub, dom)].expiration
            <= ledger[dom].expiration
}

/// No top-level name expires more than three base intervals after `now`.
pub open spec fn expirations_bounded(
    ledger: Map<Seq<char>, RecordView>,
    now: u64,
    base_expiration: u64,
) -> bool {
    forall|dom: Seq<char>|
        #[trigger] ledger.contains_key(dom) && valid_name(dom) ==> ledger[dom].expiration <= now
            + base_expiration * MAX_BASE_INTERVAL
}

/// What every command keeps true of the ledger at time `now`.
pub open spec fn registry_invariant(
    ledger: Map<Seq<char>, RecordView>,
    now: u64,
    base_expiration: u64,
) -> bool {
    subdomains_within_parent(ledger) && expirations_bounded(ledger, now, base_expiration)
}

proof fn lemma_first_invalid_none(s: Seq<char>, i: int)
    requires
        0 <= i,
        first_invalid_from(s, i) is None,
    ensures
        forall|j: int| i <= j < s.len() ==> is_name_char(#[trigger] s[j]),
    decreases s.len() - i,
{
    if i < s.len() {
        lemma_first_invalid_none(s, i + 1);
    }
}

proof fn lemma_label_has_no_dot(label: Seq<char>)
    requires
        valid_label(label),
    ensures
        forall|j: int| 0 <= j < label.len() ==> #[trigger] label[j] != '.',
{
    lemma_first_invalid_none(label, 0);
}

/// A subdomain key is never a valid top-level name.
proof fn lemma_key_not_top_level(sub: Seq<char>, dom: Seq<char>)
    requires
        has_suffix(dom),
    ensures
        !valid_name(subdomain_key(sub, dom)),
{
    let key = subdomain_key(sub, dom);
    if valid_name(key) {
        let body = body_of(key);
        lemma_first_invalid_none(body, 0);
        assert(body[sub.len() as int] == key[sub.len() as int]);
        assert(key[sub.len() as int] == '.');
    }
}

/// A subdomain key names one label and one parent only.
proof fn lemma_key_unique(a: Seq<char>, b: Seq<char>, c: Seq<char>, d: Seq<char>)
    requires
        valid_label(a),
        valid_label(c),
        subdomain_key(a, b) == subdomain_key(c, d),
    ensures
        a == c,
        b == d,
{
    let key = subdomain_key(a, b);
    lemma_label_has_no_dot(a);
    lemma_label_has_no_dot(c);
    if a.len() < c.len() {
        assert(key[a.len() as int] == '.');
        assert(key[a.len() as int] == c[a.len() as int]);
    } else if a.len() > c.len() {
        assert(key[c.len() as int] == '.');
        assert(key[c.len() as int] == a[c.len() as int]);
    }
    assert(a =~= key.subrange(0, a.len() as int));
    assert(c =~= key.subrange(0, c.len() as int));
    assert(b =~= key.subrange(a.len() as int + 1, key.len() as int));
    assert(d =~= key.subrange(c.len() as int + 1, key.len() as int));
}

proof fn lemma_capped_product(base: u64, k: int)
    requires
        0 <= k <= 3,
    ensures
        0 <= base * k <= base * 3,
{
    assert(0 <= base * k <= base * 3) by (nonlinear_arith)
        requires
            0 <= k <= 3,
            0 <= base,
    ;
}

proof fn lemma_nonneg_product(base: u64, k: int)
    requires
        0 <= k,
    ensures
        0 <= base * k,
{
    assert(0 <= base * k) by (nonlinear_arith)
        requires
            0 <= k,
            0 <= base,
    ;
}

/// A payment of `p` at base cost `c` buys floor(p/c) intervals: under one is
/// refused as an invalid payment, and more than three count as three.
pub proof fn law_payment_intervals(
    ledger: Map<Seq<char>, RecordView>,
    config: Config,
    now: u64,
    funds: Seq<Coin>,
    sender: Seq<char>,
    name: Seq<char>,
)
    requires
        name_failure(name) is None,
        payment_of(funds, denom()) is Ok,
        config.base_cost > 0,
    ensures
        ({
            let p = payment_of(funds, denom())->Ok_0;
            let k = p as int / config.base_cost as int;
            let outcome = register_outcome(ledger, config, now, funds, sender, name);
            &&& k < 1 ==> outcome == Outcome::Err(Failure::InvalidPayment { amount: p })
            &&& (k >= 1 && expired(lookup(ledger, name), now) && now + config.base_expiration * (
            if k > 3 {
                3
            } else {
                k
            }) <= u64::MAX) ==> outcome is Ok && outcome->Ok_0.0[name].expiration == now
                + config.base_expiration * (if k > 3 {
                3
            } else {
                k
            })
        }),
{
}

/// Time passing keeps the invariant.
pub proof fn law_invariant_later(
    ledger: Map<Seq<char>, RecordView>,
    now: u64,
    later: u64,
    base_expiration: u64,
)
    requires
        registry_invariant(ledger, now, base_expiration),
        now <= later,
    ensures
        registry_invariant(ledger, later, base_expiration),
{
}

/// A new configuration keeps the invariant where its base expiration is no
/// shorter.
pub proof fn law_config_update_keeps_invariant(
    ledger: Map<Seq<char>, RecordView>,
    now: u64,
    old_base: u64,
    new_base: u64,
)
    requires
        registry_invariant(ledger, now, old_base),
        old_base <= new_base,
    ensures
        registry_invariant(ledger, now, new_base),
{
    assert forall|dom: Seq<char>| #[trigger]
        ledger.contains_key(dom) && valid_name(dom) implies ledger[dom].expiration <= now
        + new_base * MAX_BASE_INTERVAL by {
        assert(old_base * 3 <= new_base * 3) by (nonlinear_arith)
            requires
                old_base <= new_base,
        ;
    }
}

/// Registering a name keeps every subdomain within its parent.
pub proof fn law_register_keeps_subdomains_within_parent(
    ledger: Map<Seq<char>, RecordView>,
    config: Config,
    now: u64,
    funds: Seq<Coin>,
    sender: Seq<char>,
    name: Seq<char>,
)
    requires
        has_suffix(name),
        subdomains_within_parent(ledger),
        register_outcome(ledger, config, now, funds, sender, name) is Ok,
    ensures
        subdomains_within_parent(
            register_outcome(ledger, config, now, funds, sender, name)->Ok_0.0,
        ),
{
    let next = register_outcome(ledger, config, now, funds, sender, name)->Ok_0.0;
    assert(valid_name(name));
    assert forall|sub: Seq<char>, dom: Seq<char>|
        valid_label(sub) && valid_name(dom) && #[trigger] next.contains_key(
            subdomain_key(sub, dom),
        ) implies next.contains_key(dom) && next[subdomain_key(sub, dom)].expiration
        <= next[dom].expiration by {
        lemma_key_not_top_level(sub, dom);
        assert(ledger.contains_key(subdomain_key(sub, dom)));
    }
}

/// Registering a name keeps the whole invariant: every subdomain
/// within its parent, every top-level name within three base intervals.
pub proof fn law_register_keeps_invariant(
    ledger: Map<Seq<char>, RecordView>,
    config: Config,
    now: u64,
    funds: Seq<Coin>,
    sender: Seq<char>,
    name: Seq<char>,
)
    requires
        has_suffix(name),
        registry_invariant(ledger, now, config.base_expiration),
        register_outcome(ledger, config, now, funds, sender, name) is Ok,
    ensures
        registry_invariant(
            register_outcome(ledger, config, now, funds, sender, name)->Ok_0.0,
            now,
            config.base_expiration,
        ),
{
    let next = register_outcome(ledger, config, now, funds, sender, name)->Ok_0.0;
    let amount = payment_of(funds, denom())->Ok_0;
    let k = capped_intervals(amount, config.base_cost);
    lemma_capped_product(config.base_expiration, k);
    assert(valid_name(name));
    law_register_keeps_subdomains_within_parent(ledger, config, now, funds, sender, name);
}

/// Renewing a name keeps the whole invariant. Unlike the other commands it
/// needs the bound on top-level expirations: the renewal clamp could
/// otherwise move a parent's expiration earlier.
pub proof fn law_renew_keeps_invariant(
    ledger: Map<Seq<char>, RecordView>,
    config: Config,
    now: u64,
    funds: Seq<Coin>,
    sender: Seq<char>,
    name: Seq<char>,
    owner: Option<String>,
)
    requires
        has_suffix(name),
        registry_invariant(ledger, now, config.base_expiration),
        renew_outcome(ledger, config, now, funds, sender, name, owner) is Ok,
    ensures
        registry_invariant(
            renew_outcome(ledger, config, now, funds, sender, name, owner)->Ok_0.0,
            now,
            config.base_expiration,
        ),
{
    let next = renew_outcome(ledger, config, now, funds, sender, name, owner)->Ok_0.0;
    let amount = payment_of(funds, denom())->Ok_0;
    lemma_nonneg_product(config.base_expiration, capped_intervals(amount, config.base_cost));
    assert(valid_name(name));
    assert(ledger[name].expiration <= renewed_expiration(
        config,
        now,
        ledger[name].expiration,
        amount,
    ));
    assert forall|sub: Seq<char>, dom: Seq<char>|
        valid_label(sub) && valid_name(dom) && #[trigger] next.contains_key(
            subdomain_key(sub, dom),
        ) implies next.contains_key(dom) && next[subdomain_key(sub, dom)].expiration
        <= next[dom].expiration by {
        lemma_key_not_top_level(sub, dom);
        assert(ledger.contains_key(subdomain_key(sub, dom)));
    }
}

/// Issuing a subdomain keeps every subdomain within its parent.
pub proof fn law_set_subdomain_keeps_subdomains_within_parent(
    ledger: Map<Seq<char>, RecordView>,
    now: u64,
    sender: Seq<char>,
    domain: Seq<char>,
    subdomain: Seq<char>,
    new_resolver: Seq<char>,
    new_owner: Seq<char>,
    expiration: u64,
    owner: Option<String>,
)
    requires
        has_suffix(domain),
        subdomains_within_parent(ledger),
        set_subdomain_outcome(
            ledger,
            now,
            sender,
            domain,
            subdomain,
            new_resolver,
            new_owner,
            expiration,
            owner,
        ) is Ok,
    ensures
        subdomains_within_parent(
            set_subdomain_outcome(
                ledger,
                now,
                sender,
                domain,
                subdomain,
                new_resolver,
                new_owner,
                expiration,
                owner,
            )->Ok_0.0,
        ),
{
    let next = set_subdomain_outcome(
        ledger,
        now,
        sender,
        domain,
        subdomain,
        new_resolver,
        new_owner,
        expiration,
        owner,
    )->Ok_0.0;
    let key = subdomain_key(subdomain, domain);
    assert(valid_name(domain) && valid_label(subdomain));
    lemma_key_not_top_level(subdomain, domain);
    assert(key != domain);
    assert forall|sub: Seq<char>, dom: Seq<char>|
        valid_label(sub) && valid_name(dom) && #[trigger] next.contains_key(
            subdomain_key(sub, dom),
        ) implies next.contains_key(dom) && next[subdomain_key(sub, dom)].expiration
        <= next[dom].expiration by {
        if subdomain_key(sub, dom) == key {
            lemma_key_unique(sub, dom, subdomain, domain);
        } else {
            assert(ledger.contains_key(subdomain_key(sub, dom)));
            lemma_key_not_top_level(sub, dom);
            assert(dom != key);
        }
    }
}

/// Issuing a subdomain keeps the whole invariant: every subdomain
/// within its parent, every top-level name within three base intervals.
pub proof fn law_set_subdomain_keeps_invariant(
    ledger: Map<Seq<char>, RecordView>,
    now: u64,
    base_expiration: u64,
    sender: Seq<char>,
    domain: Seq<char>,
    subdomain: Seq<char>,
    new_resolver: Seq<char>,
    new_owner: Seq<char>,
    expiration: u64,
    owner: Option<String>,
)
    requires
        has_suffix(domain),
        registry_invariant(ledger, now, base_expiration),
        set_subdomain_outcome(
            ledger,
            now,
            sender,
            domain,
            subdomain,
            new_resolver,
            new_owner,
            expiration,
            owner,
        ) is Ok,
    ensures
        registry_invariant(
            set_subdomain_outcome(
                ledger,
                now,
                sender,
                domain,
                subdomain,
                new_resolver,
                new_owner,
                expiration,
                owner,
            )->Ok_0.0,
            now,
            base_expiration,
        ),
{
    let next = set_subdomain_outcome(
        ledger,
        now,
        sender,
        domain,
        subdomain,
        new_resolver,
        new_owner,
        expiration,
        owner,
    )->Ok_0.0;
    let key = subdomain_key(subdomain, domain);
    assert(valid_name(domain) && valid_label(subdomain));
    lemma_key_not_top_level(subdomain, domain);
    assert(key != domain);
    law_set_subdomain_keeps_subdomains_within_parent(ledger, now, sender, domain, subdomain, new_resolver, new_owner, expiration, owner);
    assert forall|dom: Seq<char>|
        #[trigger] next.contains_key(dom) && valid_name(dom) implies next[dom].expiration <= now
        + base_expiration * MAX_BASE_INTERVAL by {
        assert(dom != key);
    }
}

/// Extending a subdomain keeps every subdomain within its parent.
pub proof fn law_extend_keeps_subdomains_within_parent(
    ledger: Map<Seq<char>, RecordView>,
    now: u64,
    sender: Seq<char>,
    domain: Seq<char>,
    subdomain: Seq<char>,
    expiration: u64,
    owner: Option<String>,
)
    requires
        has_suffix(domain),
        subdomains_within_parent(ledger),
        extend_outcome(ledger, now, sender, domain, subdomain, expiration, owner) is Ok,
    ensures
        subdomains_within_parent(
            extend_outcome(ledger, now, sender, domain, subdomain, expiration, owner)->Ok_0.0,
        ),
{
    let next = extend_outcome(ledger, now, sender, domain, subdomain, expiration, owner)->Ok_0.0;
    let key = subdomain_key(subdomain, domain);
    assert(valid_name(domain) && valid_label(subdomain));
    lemma_key_not_top_level(subdomain, domain);
    assert(key != domain);
    assert forall|sub: Seq<char>, dom: Seq<char>|
        valid_label(sub) && valid_name(dom) && #[trigger] next.contains_key(
            subdomain_key(sub, dom),
        ) implies next.contains_key(dom) && next[subdomain_key(sub, dom)].expiration
        <= next[dom].expiration by {
        if subdomain_key(sub, dom) == key {
            lemma_key_unique(sub, dom, subdomain, domain);
        } else {
            assert(ledger.contains_key(subdomain_key(sub, dom)));
            lemma_key_not_top_level(sub, dom);
            assert(dom != key);
        }
    }
}

/// Extending a subdomain keeps the whole invariant: every subdomain
/// within its parent, every top-level name within three base intervals.
pub proof fn law_extend_keeps_invariant(
    ledger: Map<Seq<char>, RecordView>,
    now: u64,
    base_expiration: u64,
    sender: Seq<char>,
    domain: Seq<char>,
    subdomain: Seq<char>,
    expiration: u64,
    owner: Option<String>,
)
    requires
        has_suffix(domain),
        registry_invariant(ledger, now, base_expiration),
        extend_outcome(ledger, now, sender, domain, subdomain, expiration, owner) is Ok,
    ensures
        registry_invariant(
            extend_outcome(ledger, now, sender, domain, subdomain, expiration, owner)->Ok_0.0,
            now,
            base_expiration,
        ),
{
    let next = extend_outcome(ledger, now, sender, domain, subdomain, expiration, owner)->Ok_0.0;
    let key = subdomain_key(subdomain, domain);
    assert(valid_name(domain) && valid_label(subdomain));
    lemma_key_not_top_level(subdomain, domain);
    assert(key != domain);
    law_extend_keeps_subdomains_within_parent(ledger, now, sender, domain, subdomain, expiration, owner);
    assert forall|dom: Seq<char>|
        #[trigger] next.contains_key(dom) && valid_name(dom) implies next[dom].expiration <= now
        + base_expiration * MAX_BASE_INTERVAL by {
        assert(dom != key);
    }
}

/// Pointing a name at a new resolver keeps every subdomain within its parent.
pub proof fn law_update_resolver_keeps_subdomains_within_parent(
    ledger: Map<Seq<char>, RecordView>,
    now: u64,
    sender: Seq<char>,
    name: Seq<char>,
    new_resolver: Seq<char>,
    owner: Option<String>,
)
    requires
        subdomains_within_parent(ledger),
        update_resolver_outcome(ledger, now, sender, name, new_resolver, owner) is Ok,
    ensures
        subdomains_within_parent(
            update_resolver_outcome(ledger, now, sender, name, new_resolver, owner)->Ok_0.0,
        ),
{
    let next = update_resolver_outcome(ledger, now, sender, name, new_resolver, owner)->Ok_0.0;
    assert(ledger.contains_key(name));
    assert forall|sub: Seq<char>, dom: Seq<char>|
        valid_label(sub) && valid_name(dom) && #[trigger] next.contains_key(
            subdomain_key(sub, dom),
        ) implies next.contains_key(dom) && next[subdomain_key(sub, dom)].expiration
        <= next[dom].expiration by {
        assert(ledger.contains_key(subdomain_key(sub, dom)));
    }
}

/// Pointing a name at a new resolver keeps the whole invariant: every subdomain
/// within its parent, every top-level name within three base intervals.
pub proof fn law_update_resolver_keeps_invariant(
    ledger: Map<Seq<char>, RecordView>,
    now: u64,
    base_expiration: u64,
    sender: Seq<char>,
    name: Seq<char>,
    new_resolver: Seq<char>,
    owner: Option<String>,
)
    requires
        registry_invariant(ledger, now, base_expiration),
        update_resolver_outcome(ledger, now, sender, name, new_resolver, owner) is Ok,
    ensures
        registry_invariant(
            update_resolver_outcome(ledger, now, sender, name, new_resolver, owner)->Ok_0.0,
            now,
            base_expiration,
        ),
{
    let next = update_resolver_outcome(ledger, now, sender, name, new_resolver, owner)->Ok_0.0;
    assert(ledger.contains_key(name));
    law_update_resolver_keeps_subdomains_within_parent(ledger, now, sender, name, new_resolver, owner);
}

/// Removing a subdomain keeps every subdomain within its parent.
pub proof fn law_remove_keeps_subdomains_within_parent(
    ledger: Map<Seq<char>, RecordView>,
    now: u64,
    sender: Seq<char>,
    domain: Seq<char>,
    subdomain: Seq<char>,
    domain_owner: Option<String>,
    subdomain_owner: Option<String>,
)
    requires
        has_suffix(domain),
        subdomains_within_parent(ledger),
        remove_outcome(ledger, now, sender, domain, subdomain, domain_owner, subdomain_owner) is Ok,
    ensures
        subdomains_within_parent(
            remove_outcome(
                ledger,
                now,
                sender,
                domain,
                subdomain,
                domain_owner,
                subdomain_owner,
            )->Ok_0.0,
        ),
{
    let next = remove_outcome(
        ledger,
        now,
        sender,
        domain,
        subdomain,
        domain_owner,
        subdomain_owner,
    )->Ok_0.0;
    let key = subdomain_key(subdomain, domain);
    lemma_key_not_top_level(subdomain, domain);
    assert forall|sub: Seq<char>, dom: Seq<char>|
        valid_label(sub) && valid_name(dom) && #[trigger] next.contains_key(
            subdomain_key(sub, dom),
        ) implies next.contains_key(dom) && next[subdomain_key(sub, dom)].expiration
        <= next[dom].expiration by {
        assert(ledger.contains_key(subdomain_key(sub, dom)));
        assert(dom != key);
    }
}

/// Removing a subdomain keeps the whole invariant: every subdomain
/// within its parent, every top-level name within three base intervals.
pub proof fn law_remove_keeps_invariant(
    ledger: Map<Seq<char>, RecordView>,
    now: u64,
    base_expiration: u64,
    sender: Seq<char>,
    domain: Seq<char>,
    subdomain: Seq<char>,
    domain_owner: Option<String>,
    subdomain_owner: Option<String>,
)
    requires
        has_suffix(domain),
        registry_invariant(ledger, now, base_expiration),
        remove_outcome(ledger, now, sender, domain, subdomain, domain_owner, subdomain_owner) is Ok,
    ensures
        registry_invariant(
            remove_outcome(
                ledger,
                now,
                sender,
                domain,
                subdomain,
                domain_owner,
                subdomain_owner,
            )->Ok_0.0,
            now,
            base_expiration,
        ),
{
    let next = remove_outcome(
        ledger,
        now,
        sender,
        domain,
        subdomain,
        domain_owner,
        subdomain_owner,
    )->Ok_0.0;
    let key = subdomain_key(subdomain, domain);
    lemma_key_not_top_level(subdomain, domain);
    law_remove_keeps_subdomains_within_parent(ledger, now, sender, domain, subdomain, domain_owner, subdomain_owner);
}

/// An active subdomain is never issued again, not even by the parent's owner.
pub proof fn law_active_subdomain_kept(
    ledger: Map<Seq<char>, RecordView>,
    now: u64,
    sender: Seq<char>,
    domain: Seq<char>,
    subdomain: Seq<char>,
    new_resolver: Seq<char>,
    new_owner: Seq<char>,
    expiration: u64,
    owner: Option<String>,
)
    requires
        !expired(lookup(ledger, subdomain_key(subdomain, domain)), now),
    ensures
        set_subdomain_outcome(
            ledger,
            now,
            sender,
            domain,
            subdomain,
            new_resolver,
            new_owner,
            expiration,
            owner,
        ) is Err,
{
}

/// Removing an active subdomain whose reported owner is not the sender
/// fails with `NameTaken`, even for the parent's owner; a failed command
/// leaves the ledger as it was.
pub proof fn law_foreign_subdomain_kept(
    ledger: Map<Seq<char>, RecordView>,
    now: u64,
    sender: Seq<char>,
    domain: Seq<char>,
    subdomain: Seq<char>,
    domain_owner: Option<String>,
    subdomain_owner: Option<String>,
)
    requires
        is_owner(domain_owner, sender),
        !expired(lookup(ledger, subdomain_key(subdomain, domain)), now),
        !is_owner(subdomain_owner, sender),
    ensures
        remove_outcome(ledger, now, sender, domain, subdomain, domain_owner, subdomain_owner)
            == Outcome::Err(Failure::NameTaken { name: subdomain_key(subdomain, domain) }),
{
}

} // verus!
