use vstd::prelude::*;
use crate::ledger::{Ledger, RecordView};
use crate::msg::Config;

verus! {

/// Most intervals that one payment can buy.
pub const MAX_BASE_INTERVAL: u64 = 3;

/// The registry's state: its parameters and its ledger.
#[derive(Debug)]
pub struct Registry {
    pub config: Config,
    pub ledger: Ledger,
}

/// The record held under `k`, if any.
pub open spec fn lookup(m: Map<Seq<char>, RecordView>, k: Seq<char>) -> Option<RecordView> {
    if m.contains_key(k) {
        Some(m[k])
    } else {
        None
    }
}

/// The owner reported for a token is `who`.
pub open spec fn is_owner(reported: Option<String>, who: Seq<char>) -> bool {
    match reported {
        Some(o) => o@ == who,
        None => false,
    }
}

/// Tells whether the owner reported for a token is `who`.
pub fn reports_owner(reported: &Option<String>, who: &String) -> (r: bool)
    ensures
        r == is_owner(*reported, who@),
{
    match reported {
        Some(o) => *o == *who,
        None => false,
    }
}

impl Registry {
    /// A registry with the given parameters and an empty ledger.
    pub fn new(config: Config) -> (r: Registry)
        ensures
            r.ledger.wf(),
            r.ledger@ == Map::<Seq<char>, RecordView>::empty(),
            r.config == config,
    {
        Registry { config, ledger: Ledger::new() }
    }
}

} // verus!
