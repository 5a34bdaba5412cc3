use pam_explainer::rule::RuleParseError;
use pam_explainer::rules_from_vec_string;
use pam_explainer::try_find_matching_rule_result;
use pam_explainer::vocab::all_facilities;
use pam_explainer::Control;
use pam_explainer::Facility;
use pam_explainer::FinalResult;
use pam_explainer::Rule;

fn parse_one(line: &str) -> Rule {
    let no_results: Vec<Rule> = Vec::new();
    Rule::new(line, &0, &no_results).expect("line should parse")
}

#[test]
fn facility_round_trip() {
    for token in ["auth", "account", "password", "session"] {
        assert_eq!(Facility::parse(token).render(), token);
    }
}

#[test]
fn facility_unknown_token_is_kept() {
    match Facility::parse("bogus") {
        Facility::Invalid(t) => assert_eq!(t, "bogus"),
        other => panic!("expected Invalid, got {:?}", other),
    }
    assert_eq!(
        Facility::parse("bogus").render(),
        "invalid facility: bogus"
    );
}

#[test]
fn control_round_trip() {
    for token in ["required", "requisite", "sufficient", "optional"] {
        assert_eq!(Control::parse(token).render(), token);
    }
}

#[test]
fn control_unknown_token_is_kept() {
    match Control::parse("mandatory") {
        Control::Invalid(t) => assert_eq!(t, "mandatory"),
        other => panic!("expected Invalid, got {:?}", other),
    }
    assert_eq!(Control::parse("mandatory").render(), "invalid: mandatory");
}

#[test]
fn canonical_order_of_facilities() {
    let all = all_facilities();
    assert_eq!(all.len(), 4);
    assert_eq!(all[0], Facility::Account);
    assert_eq!(all[1], Facility::Auth);
    assert_eq!(all[2], Facility::Password);
    assert_eq!(all[3], Facility::Session);
    for (i, f) in all.iter().enumerate() {
        assert_eq!(f.canonical_index(), i);
    }
    assert_eq!(Facility::Invalid("x".to_string()).canonical_index(), 4);
}

#[test]
fn empty_line_is_rejected() {
    let no_results: Vec<Rule> = Vec::new();
    assert_eq!(
        Rule::new("", &0, &no_results),
        Err(RuleParseError::EmptyLine)
    );
    assert_eq!(
        Rule::new("   \t  ", &0, &no_results),
        Err(RuleParseError::EmptyLine)
    );
}

#[test]
fn short_line_is_rejected() {
    let no_results: Vec<Rule> = Vec::new();
    assert_eq!(
        Rule::new("auth", &0, &no_results),
        Err(RuleParseError::TooFewTokens)
    );
    assert_eq!(
        Rule::new("auth required", &0, &no_results),
        Err(RuleParseError::TooFewTokens)
    );
}

#[test]
fn minimal_line_parses() {
    let rule = parse_one("auth required pam_unix.so");
    assert_eq!(rule.facility, Facility::Auth);
    assert_eq!(rule.control, Control::Required);
    assert_eq!(rule.module, "pam_unix.so");
    assert!(rule.arguments.is_empty());
    assert_eq!(rule.final_result, None);
    assert_eq!(rule.rule_order, Some(0));
    assert!(rule.rulehash.is_some());
}

#[test]
fn arguments_keep_their_order() {
    let rule = parse_one("auth required pam_unix.so debug nullok try_first_pass");
    assert_eq!(rule.arguments, vec!["debug", "nullok", "try_first_pass"]);
}

#[test]
fn odd_whitespace_is_one_separator() {
    let rule = parse_one("  auth\t required   pam_unix.so \t debug  ");
    assert_eq!(rule.facility, Facility::Auth);
    assert_eq!(rule.control, Control::Required);
    assert_eq!(rule.module, "pam_unix.so");
    assert_eq!(rule.arguments, vec!["debug"]);
}

#[test]
fn hash_has_expected_value() {
    // SHA-256 of "authrequiredpam_unix.so".
    let rule = parse_one("auth required pam_unix.so");
    let expected = "39f386faa10d86f17c2cfe87d08f7460ede3d41c75d0a2df72b46085eefbb7a2";
    assert_eq!(rule.hash(), expected);
    assert_eq!(rule.rulehash, Some(expected.to_string()));
}

#[test]
fn hash_with_arguments_has_expected_value() {
    // SHA-256 of "authrequiredpam_unix.sodebug nullok".
    let rule = parse_one("auth required pam_unix.so debug nullok");
    let expected = "3fcb55d17b8a7c79878f1d287e4d76823e243070cc043720b818f9ac128f4200";
    assert_eq!(rule.hash(), expected);
}

#[test]
fn hash_ignores_order_and_outcome() {
    let no_results: Vec<Rule> = Vec::new();
    let a = Rule::new("auth required pam_unix.so debug", &0, &no_results).unwrap();
    let mut b = Rule::new("auth required pam_unix.so debug", &17, &no_results).unwrap();
    b.final_result = Some(FinalResult::Failure);
    assert_eq!(a.hash(), b.hash());
    assert_eq!(a.rulehash, b.rulehash);
}

#[test]
fn hash_depends_on_identity() {
    let a = parse_one("auth required pam_unix.so debug");
    let b = parse_one("auth required pam_unix.so nullok");
    let c = parse_one("auth sufficient pam_unix.so debug");
    assert_ne!(a.hash(), b.hash());
    assert_ne!(a.hash(), c.hash());
}

#[test]
fn to_shortstring_renders_without_facility() {
    let rule = parse_one("auth required pam_unix.so debug nullok");
    assert_eq!(rule.to_shortstring(), "required pam_unix.so debug nullok");
}

#[test]
fn malformed_lines_yield_no_rules() {
    let lines: Vec<String> = vec![
        "".to_string(),
        "   ".to_string(),
        "# a comment with many tokens".to_string(),
        "auth required".to_string(),
    ];
    let no_results: Vec<Rule> = Vec::new();
    let rules = rules_from_vec_string(lines, &no_results);
    assert!(rules.is_empty());
}

#[test]
fn surviving_rules_are_numbered_in_parse_order() {
    let lines: Vec<String> = vec![
        "# header".to_string(),
        "auth required pam_env.so".to_string(),
        "".to_string(),
        "bad line".to_string(),
        "session optional pam_mail.so".to_string(),
    ];
    let no_results: Vec<Rule> = Vec::new();
    let rules = rules_from_vec_string(lines, &no_results);
    assert_eq!(rules.len(), 2);
    assert_eq!(rules[0].module, "pam_env.so");
    assert_eq!(rules[0].rule_order, Some(0));
    assert_eq!(rules[1].module, "pam_mail.so");
    assert_eq!(rules[1].rule_order, Some(1));
}

#[test]
fn unknown_tokens_still_yield_a_rule() {
    let rule = parse_one("bogus mandatory pam_x.so");
    assert_eq!(rule.facility, Facility::Invalid("bogus".to_string()));
    assert_eq!(rule.control, Control::Invalid("mandatory".to_string()));
    assert_eq!(rule.module, "pam_x.so");
}

#[test]
fn matching_record_seeds_the_outcome() {
    let no_results: Vec<Rule> = Vec::new();
    let mut record = Rule::new("auth required pam_unix.so debug", &0, &no_results).unwrap();
    record.final_result = Some(FinalResult::Success);
    let results = vec![record];
    let rule = Rule::new("auth required pam_unix.so debug", &0, &results).unwrap();
    assert_eq!(rule.final_result, Some(FinalResult::Success));
}

#[test]
fn matching_is_order_sensitive_on_arguments() {
    let no_results: Vec<Rule> = Vec::new();
    let mut record = Rule::new("auth required pam_unix.so debug nullok", &0, &no_results).unwrap();
    record.final_result = Some(FinalResult::Success);
    let results = vec![record];
    let rule = Rule::new("auth required pam_unix.so nullok debug", &0, &results).unwrap();
    assert_eq!(rule.final_result, None);
}

#[test]
fn unresolved_records_are_passed_over() {
    let no_results: Vec<Rule> = Vec::new();
    let unresolved = Rule::new("auth required pam_unix.so", &0, &no_results).unwrap();
    let mut resolved = Rule::new("auth required pam_unix.so", &1, &no_results).unwrap();
    resolved.final_result = Some(FinalResult::Failure);
    let target = Rule::new("auth required pam_unix.so", &2, &no_results).unwrap();
    let results = vec![unresolved, resolved];
    assert_eq!(
        try_find_matching_rule_result(&results, &target),
        Some(FinalResult::Failure)
    );
}

#[test]
fn no_matching_record_means_no_outcome() {
    let no_results: Vec<Rule> = Vec::new();
    let record = Rule::new("auth required pam_env.so", &0, &no_results).unwrap();
    let target = Rule::new("auth required pam_unix.so", &1, &no_results).unwrap();
    let results = vec![record];
    assert_eq!(try_find_matching_rule_result(&results, &target), None);
}

#[test]
fn final_result_converts_to_and_from_bool() {
    assert!(bool::from(FinalResult::Success));
    assert!(!bool::from(FinalResult::Failure));
    assert_eq!(FinalResult::from(true), FinalResult::Success);
    assert_eq!(FinalResult::from(false), FinalResult::Failure);
}
