//! The completion check of a job: a named rule over a fixed parameter map,
//! evaluated once when the job leaves the scheduler's running set.

use vstd::prelude::*;
use crate::params::{kv_keys_unique, kv_upsert, kv_insert, lemma_kv_upsert_unique, clone_string_pairs};

verus! {

/// The rule a completion check applies.  `AlwaysTrue` accepts every run as a
/// success, `AlwaysFalse` classifies every run as a failure.
#[derive(Clone, Copy, PartialEq, Eq, Structural, Debug)]
pub enum CompletionRule {
    AlwaysTrue,
    AlwaysFalse,
}

/// A named completion check bound to a fixed parameter map.  It is immutable
/// and pure: the verdict depends only on the rule and the parameters.
pub struct SlurmJobPostProcessing {
    pub param: Vec<(String, String)>,
    pub rule: CompletionRule,
}

impl Clone for SlurmJobPostProcessing {
    /// The clone carries the same rule and the same parameters.
    fn clone(&self) -> (r: Self)
        ensures
            r.rule == self.rule,
            r.param@ == self.param@,
    {
        SlurmJobPostProcessing { param: clone_string_pairs(&self.param), rule: self.rule }
    }
}

impl SlurmJobPostProcessing {
    pub open spec fn spec_rule(self) -> CompletionRule {
        self.rule
    }

    pub open spec fn spec_param(self) -> Seq<(String, String)> {
        self.param@
    }

    /// The verdict the check will reach.
    pub open spec fn spec_verdict(self) -> bool {
        self.rule is AlwaysTrue
    }

    pub open spec fn wf(self) -> bool {
        kv_keys_unique(self.param@)
    }

    /// Builds a check from a slice of key/value parameters (a later entry
    /// replaces an earlier one with the same key) and a rule.
    pub fn new(param: &[(String, String)], rule: CompletionRule) -> (r: SlurmJobPostProcessing)
        ensures
            r.wf(),
            r.spec_rule() == rule,
    {
        let mut map: Vec<(String, String)> = Vec::new();
        let n = param.len();
        let mut i: usize = 0;
        while i < n
            invariant
                i <= n,
                n == param@.len(),
                kv_keys_unique(map@),
            decreases n - i,
        {
            let key = param[i].0.clone();
            let value = param[i].1.clone();
            proof {
                lemma_kv_upsert_unique(map@, (key, value));
            }
            kv_insert(&mut map, key, value);
            i = i + 1;
        }
        SlurmJobPostProcessing { param: map, rule }
    }

    /// Evaluates the check.
    pub fn check(&self) -> (r: bool)
        ensures
            r == self.spec_verdict(),
    {
        match self.rule {
            CompletionRule::AlwaysTrue => true,
            CompletionRule::AlwaysFalse => false,
        }
    }

    /// The default check: a no-op that accepts every run as a success.
    pub fn do_nothing() -> (r: SlurmJobPostProcessing)
        ensures
            r.wf(),
            r.spec_rule() is AlwaysTrue,
            r.spec_verdict(),
            r.spec_param() == Seq::<(String, String)>::empty(),
    {
        SlurmJobPostProcessing { param: Vec::new(), rule: CompletionRule::AlwaysTrue }
    }
}

} // verus!
