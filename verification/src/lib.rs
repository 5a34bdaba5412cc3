//! Explains what a PAM-style module configuration will decide: parses policy
//! lines into rules, content-addresses each rule by a digest of its identity
//! fields, and folds the rules of each facility into one aggregate verdict
//! with the stacking semantics of the four control verbs.

pub mod policy;
pub mod rule;
pub mod ruleset;
pub mod text;
pub mod vocab;

pub use policy::RuleSets;
pub use policy::rules_from_vec_string;
pub use policy::rulesets_from_string;
pub use policy::set_result_by_hash;
pub use rule::Rule;
pub use rule::try_find_matching_rule_result;
pub use ruleset::FinalResult;
pub use ruleset::RuleSet;
pub use vocab::Control;
pub use vocab::Facility;
