use pam_explainer::rulesets_from_string;
use pam_explainer::set_result_by_hash;
use pam_explainer::Control;
use pam_explainer::Facility;
use pam_explainer::FinalResult;
use pam_explainer::Rule;
use pam_explainer::RuleSet;

fn rule_with(line: &str, order: u32, outcome: Option<FinalResult>) -> Rule {
    let no_results: Vec<Rule> = Vec::new();
    let mut rule = Rule::new(line, &order, &no_results).expect("line should parse");
    rule.final_result = outcome;
    rule
}

#[test]
fn get_rule_result_is_fail_closed() {
    let set = RuleSet::new(&Facility::Auth, Vec::new());
    let success = rule_with("auth required pam_a.so", 0, Some(FinalResult::Success));
    let failure = rule_with("auth required pam_b.so", 1, Some(FinalResult::Failure));
    let unresolved = rule_with("auth required pam_c.so", 2, None);
    assert!(set.get_rule_result(&success));
    assert!(!set.get_rule_result(&failure));
    assert!(!set.get_rule_result(&unresolved));
}

#[test]
fn empty_ruleset_succeeds() {
    let mut set = RuleSet::new(&Facility::Auth, Vec::new());
    assert_eq!(set.run_rules(), FinalResult::Success);
    assert_eq!(set.rules_run, 0);
}

#[test]
fn evaluation_is_deterministic() {
    let rules = vec![
        rule_with("auth required pam_env.so", 0, Some(FinalResult::Success)),
        rule_with("auth sufficient pam_unix.so", 1, Some(FinalResult::Failure)),
        rule_with("auth optional pam_cap.so", 2, None),
    ];
    let mut first = RuleSet::new(&Facility::Auth, rules.clone());
    let mut second = RuleSet::new(&Facility::Auth, rules);
    let first_verdict = first.run_rules();
    let second_verdict = second.run_rules();
    assert_eq!(first_verdict, second_verdict);
    assert_eq!(first.rules_run, second.rules_run);
}

#[test]
fn required_failure_dooms_but_later_rules_run() {
    // Scenario: a Required failure flips the verdict while the rules after
    // it are still evaluated.
    let rules = vec![
        rule_with("auth required pam_deny.so", 0, Some(FinalResult::Failure)),
        rule_with("auth optional pam_cap.so", 1, Some(FinalResult::Success)),
    ];
    let mut set = RuleSet::new(&Facility::Auth, rules);
    assert_eq!(set.run_rules(), FinalResult::Failure);
    assert_eq!(set.rules_run, 1);
    assert_eq!(set.finalresult, FinalResult::Failure);
}

#[test]
fn required_rules_after_failure_are_skipped() {
    let rules = vec![
        rule_with("auth required pam_deny.so", 0, Some(FinalResult::Failure)),
        rule_with("auth required pam_unix.so", 1, Some(FinalResult::Success)),
        rule_with("auth required pam_env.so", 2, Some(FinalResult::Failure)),
    ];
    let mut set = RuleSet::new(&Facility::Auth, rules);
    assert_eq!(set.run_rules(), FinalResult::Failure);
    // Only the first rule is evaluated; the later Required rules cannot
    // change a verdict that already fails.
    assert_eq!(set.rules_run, 1);
}

#[test]
fn requisite_failure_stops_the_facility() {
    let rules = vec![
        rule_with("account requisite pam_deny.so", 0, Some(FinalResult::Failure)),
        rule_with("account required pam_permit.so", 1, Some(FinalResult::Success)),
    ];
    let mut set = RuleSet::new(&Facility::Account, rules);
    assert_eq!(set.run_rules(), FinalResult::Failure);
    assert_eq!(set.rules_run, 1);
}

#[test]
fn requisite_success_continues() {
    let rules = vec![
        rule_with("account requisite pam_permit.so", 0, Some(FinalResult::Success)),
        rule_with("account required pam_unix.so", 1, Some(FinalResult::Success)),
    ];
    let mut set = RuleSet::new(&Facility::Account, rules);
    assert_eq!(set.run_rules(), FinalResult::Success);
    assert_eq!(set.rules_run, 2);
}

#[test]
fn sufficient_success_suppresses_later_sufficient_rules() {
    let rules = vec![
        rule_with("auth sufficient pam_unix.so", 0, Some(FinalResult::Success)),
        rule_with("auth sufficient pam_sss.so", 1, Some(FinalResult::Success)),
        rule_with("auth required pam_env.so", 2, Some(FinalResult::Success)),
    ];
    let mut set = RuleSet::new(&Facility::Auth, rules);
    assert_eq!(set.run_rules(), FinalResult::Success);
    // The second Sufficient rule is skipped; the Required rule still runs.
    assert_eq!(set.rules_run, 2);
    assert!(set.had_sufficient);
}

#[test]
fn sufficient_failure_does_not_suppress() {
    let rules = vec![
        rule_with("auth sufficient pam_unix.so", 0, Some(FinalResult::Failure)),
        rule_with("auth sufficient pam_sss.so", 1, Some(FinalResult::Success)),
    ];
    let mut set = RuleSet::new(&Facility::Auth, rules);
    assert_eq!(set.run_rules(), FinalResult::Success);
    assert_eq!(set.rules_run, 2);
}

#[test]
fn optional_failure_in_first_position_fails_the_facility() {
    let rules = vec![rule_with(
        "session optional pam_mail.so",
        0,
        Some(FinalResult::Failure),
    )];
    let mut set = RuleSet::new(&Facility::Session, rules);
    assert_eq!(set.run_rules(), FinalResult::Failure);
    assert_eq!(set.rules_run, 1);
}

#[test]
fn optional_failure_later_has_no_effect() {
    let rules = vec![
        rule_with("session required pam_limits.so", 0, Some(FinalResult::Success)),
        rule_with("session optional pam_mail.so", 1, Some(FinalResult::Failure)),
    ];
    let mut set = RuleSet::new(&Facility::Session, rules);
    assert_eq!(set.run_rules(), FinalResult::Success);
    assert_eq!(set.rules_run, 2);
}

#[test]
fn optional_success_is_not_counted() {
    let rules = vec![rule_with(
        "session optional pam_mail.so",
        0,
        Some(FinalResult::Success),
    )];
    let mut set = RuleSet::new(&Facility::Session, rules);
    assert_eq!(set.run_rules(), FinalResult::Success);
    assert_eq!(set.rules_run, 0);
}

#[test]
fn invalid_control_is_a_no_op() {
    let rules = vec![
        rule_with("auth mandatory pam_x.so", 0, Some(FinalResult::Failure)),
        rule_with("auth required pam_unix.so", 1, Some(FinalResult::Success)),
    ];
    let mut set = RuleSet::new(&Facility::Auth, rules);
    assert_eq!(set.run_rules(), FinalResult::Success);
    assert_eq!(set.rules_run, 1);
}

#[test]
fn fail_closed_default_fails_a_required_rule() {
    // Scenario: one Required rule, no recorded outcome, fail-closed resolver.
    let rules = vec![rule_with("auth required pam_unix.so", 0, None)];
    let mut set = RuleSet::new(&Facility::Auth, rules);
    assert_eq!(set.run_rules(), FinalResult::Failure);
    assert_eq!(set.rules_run, 1);
}

#[test]
fn trailing_required_failure_overrides_sufficient_success() {
    // Scenario: the trailing Required rule still executes and flips the
    // result even though a Sufficient rule already succeeded.
    let rules = vec![
        rule_with("auth required pam_env.so", 0, Some(FinalResult::Success)),
        rule_with("auth sufficient pam_unix.so", 1, Some(FinalResult::Success)),
        rule_with("auth required pam_deny.so", 2, Some(FinalResult::Failure)),
    ];
    let mut set = RuleSet::new(&Facility::Auth, rules);
    assert_eq!(set.run_rules(), FinalResult::Failure);
    assert_eq!(set.rules_run, 3);
}

#[test]
fn result_string_explains_each_verb() {
    let required_ok = rule_with("auth required pam_a.so", 3, Some(FinalResult::Success));
    assert_eq!(required_ok.result_string(), "Required rule succeeded");
    let requisite_bad = rule_with("auth requisite pam_b.so", 3, Some(FinalResult::Failure));
    assert_eq!(requisite_bad.result_string(), "Instant failure of this facility!");
    let optional_later = rule_with("auth optional pam_c.so", 3, Some(FinalResult::Failure));
    assert_eq!(
        optional_later.result_string(),
        "Result is irrelevant as it's not the only rule"
    );
    let optional_first = rule_with("auth optional pam_c.so", 0, Some(FinalResult::Failure));
    assert_eq!(
        optional_first.result_string(),
        "Optional rule failed, and thus the facility fails."
    );
    let unresolved = rule_with("auth required pam_d.so", 0, None);
    assert_eq!(
        unresolved.result_string(),
        "Final result not set, can't determine state!"
    );
}

#[test]
fn rulesets_are_grouped_and_ordered_canonically() {
    let text = "\
# a policy with every facility, out of order
session optional pam_mail.so
auth required pam_env.so
whatever required pam_x.so
account required pam_unix.so

auth sufficient pam_unix.so
password required pam_pwquality.so
";
    let sets = rulesets_from_string(text.to_string(), FinalResult::Success);
    assert_eq!(sets.len(), 5);
    assert_eq!(sets[0].facility, Facility::Account);
    assert_eq!(sets[1].facility, Facility::Auth);
    assert_eq!(sets[2].facility, Facility::Password);
    assert_eq!(sets[3].facility, Facility::Session);
    assert_eq!(sets[4].facility, Facility::Invalid("whatever".to_string()));
    assert_eq!(sets[1].rules.len(), 2);
    assert_eq!(sets[1].rules[0].module, "pam_env.so");
    assert_eq!(sets[1].rules[1].module, "pam_unix.so");
    for set in &sets {
        assert_eq!(set.finalresult, FinalResult::Success);
        assert!(!set.had_sufficient);
        assert_eq!(set.rules_run, 0);
        for rule in &set.rules {
            assert_eq!(rule.final_result, Some(FinalResult::Success));
        }
    }
}

#[test]
fn rulesets_keep_global_rule_order() {
    let text = "auth required pam_env.so\nsession optional pam_mail.so\nauth required pam_unix.so";
    let sets = rulesets_from_string(text.to_string(), FinalResult::Success);
    assert_eq!(sets.len(), 2);
    assert_eq!(sets[0].facility, Facility::Auth);
    assert_eq!(sets[0].rules[0].rule_order, Some(0));
    assert_eq!(sets[0].rules[1].rule_order, Some(2));
    assert_eq!(sets[1].facility, Facility::Session);
    assert_eq!(sets[1].rules[0].rule_order, Some(1));
}

#[test]
fn override_by_hash_changes_the_verdict() {
    let text = "auth required pam_unix.so";
    let sets = rulesets_from_string(text.to_string(), FinalResult::Success);
    let mut before = sets[0].clone();
    assert_eq!(before.run_rules(), FinalResult::Success);

    let hash = sets[0].rules[0].rulehash.clone().unwrap();
    let overridden = set_result_by_hash(sets, &hash, FinalResult::Failure);
    assert_eq!(
        overridden[0].rules[0].final_result,
        Some(FinalResult::Failure)
    );
    let mut after = overridden[0].clone();
    assert_eq!(after.run_rules(), FinalResult::Failure);
}

#[test]
fn override_with_unknown_hash_changes_nothing() {
    let text = "auth required pam_unix.so";
    let sets = rulesets_from_string(text.to_string(), FinalResult::Success);
    let overridden = set_result_by_hash(sets, "not a hash", FinalResult::Failure);
    assert_eq!(
        overridden[0].rules[0].final_result,
        Some(FinalResult::Success)
    );
}

#[test]
fn cloned_ruleset_is_equal_until_run() {
    let sets = rulesets_from_string(
        "auth required pam_unix.so".to_string(),
        FinalResult::Success,
    );
    let copy = sets[0].clone();
    assert_eq!(copy, sets[0]);
    let mut run = sets[0].clone();
    run.run_rules();
    assert_ne!(run, sets[0]);
}

#[test]
fn control_tokens_survive_grouping() {
    let text = "auth sufficient pam_unix.so try_first_pass";
    let sets = rulesets_from_string(text.to_string(), FinalResult::Failure);
    assert_eq!(sets.len(), 1);
    let rule = &sets[0].rules[0];
    assert_eq!(rule.control, Control::Sufficient);
    assert_eq!(rule.arguments, vec!["try_first_pass"]);
    assert_eq!(rule.final_result, Some(FinalResult::Failure));
}
