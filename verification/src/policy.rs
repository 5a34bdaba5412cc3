//! Whole-policy operations: parsing a batch of lines into rules, grouping
//! rules by facility into evaluation contexts, and overriding one rule's
//! outcome by its content hash.

use vstd::prelude::*;

use crate::rule::Rule;
use crate::rule::RuleView;
use crate::rule::spec_parse_rule;
use crate::ruleset::FinalResult;
use crate::ruleset::RuleSet;
use crate::ruleset::RuleSetView;
use crate::ruleset::spec_initial_state;
use crate::text;
use crate::text::str_eq;
use crate::vocab::Facility;
use crate::vocab::FacilityView;

verus! {

/// Whether a line yields a rule: at least three tokens, and the first one
/// does not open a comment.
pub open spec fn line_yields_rule(line: Seq<char>) -> bool {
    let toks = text::tokens_of(line);
    toks.len() >= 3 && toks[0][0] != '#'
}

/// Folds the lines from position `i` on into parsed rules: `order` numbers
/// the next rule, `acc` holds the rules already parsed. Blank lines,
/// comment lines and lines with fewer than three tokens yield nothing.
pub open spec fn spec_parse_lines_from(
    lines: Seq<Seq<char>>,
    i: int,
    order: int,
    results: Seq<RuleView>,
    acc: Seq<RuleView>,
) -> Seq<RuleView>
    decreases lines.len() - i,
{
    if i < 0 || i >= lines.len() {
        acc
    } else if line_yields_rule(lines[i]) {
        spec_parse_lines_from(
            lines,
            i + 1,
            order + 1,
            results,
            acc.push(spec_parse_rule(lines[i], order as u32, results)),
        )
    } else {
        spec_parse_lines_from(lines, i + 1, order, results, acc)
    }
}

/// The rules a batch of lines describes, numbered from zero in parse order.
pub open spec fn spec_parse_lines(lines: Seq<Seq<char>>, results: Seq<RuleView>) -> Seq<RuleView> {
    spec_parse_lines_from(lines, 0, 0, results, Seq::empty())
}

/// A line that is blank, whitespace-only, a comment, or holds fewer than
/// three tokens contributes no rule and does not advance the numbering.
pub proof fn lemma_malformed_line_dropped(
    lines: Seq<Seq<char>>,
    i: int,
    order: int,
    results: Seq<RuleView>,
    acc: Seq<RuleView>,
)
    requires
        0 <= i < lines.len(),
        !line_yields_rule(lines[i]),
    ensures
        spec_parse_lines_from(lines, i, order, results, acc) == spec_parse_lines_from(
            lines,
            i + 1,
            order,
            results,
            acc,
        ),
{
}

/// Parses a batch of lines into rules. Blank lines, comment lines and lines
/// with fewer than three tokens are dropped without aborting the batch; the
/// surviving rules are numbered consecutively in parse order, and each has
/// its outcome seeded from the first matching record in `results`.
pub fn rules_from_vec_string(value: Vec<String>, results: &Vec<Rule>) -> (r: Vec<Rule>)
    requires
        value@.len() <= u32::MAX,
    ensures
        r.deep_view() == spec_parse_lines(value.deep_view(), results.deep_view()),
{
    let ghost lines = value.deep_view();
    let ghost rdv = results.deep_view();
    let mut rules: Vec<Rule> = Vec::new();
    proof {
        assert(rules.deep_view() =~= Seq::<RuleView>::empty());
    }
    let mut rule_order: u32 = 0;
    let mut i: usize = 0;
    while i < value.len()
        invariant
            value.deep_view() == lines,
            results.deep_view() == rdv,
            value@.len() <= u32::MAX,
            i <= value.len(),
            rule_order <= i,
            spec_parse_lines_from(lines, i as int, rule_order as int, rdv, rules.deep_view())
                == spec_parse_lines(lines, rdv),
        decreases value.len() - i,
    {
        let line = &value[i];
        proof {
            assert(line@ == lines[i as int]);
            text::lemma_tokens_nonempty(line@);
        }
        let tokens = text::tokenize(line.as_str());
        let drop_line = if tokens.len() == 0 {
            true
        } else {
            tokens[0].as_str().get_char(0) == '#'
        };
        if !drop_line {
            match Rule::new(line.as_str(), &rule_order, results) {
                Ok(rule) => {
                    let ghost prev = rules.deep_view();
                    rules.push(rule);
                    proof {
                        assert(rules.deep_view() =~= prev.push(
                            spec_parse_rule(lines[i as int], rule_order, rdv),
                        ));
                    }
                    rule_order = rule_order + 1;
                },
                Err(_) => {
                    proof {
                        assert(!line_yields_rule(lines[i as int]));
                    }
                },
            }
        } else {
            proof {
                assert(!line_yields_rule(lines[i as int]));
            }
        }
        i = i + 1;
    }
    rules
}

/// The rule with its outcome replaced by `fr`.
pub open spec fn spec_with_outcome(r: RuleView, fr: FinalResult) -> RuleView {
    RuleView { final_result: Some(fr), ..r }
}

/// Every rule's outcome replaced by `fr`.
pub open spec fn spec_seed_outcomes(rules: Seq<RuleView>, fr: FinalResult) -> Seq<RuleView> {
    rules.map_values(|r: RuleView| spec_with_outcome(r, fr))
}

/// Whether some rule of the sequence belongs to facility `f`.
pub open spec fn spec_facility_appears(rules: Seq<RuleView>, f: FacilityView) -> bool {
    exists|i: int| 0 <= i < rules.len() && rules[i].facility == f
}

/// Folds the rules from position `i` on into the subsequence that belongs
/// to facility `f`, keeping the original order.
pub open spec fn spec_rules_with_facility_from(
    rules: Seq<RuleView>,
    f: FacilityView,
    i: int,
    acc: Seq<RuleView>,
) -> Seq<RuleView>
    decreases rules.len() - i,
{
    if i < 0 || i >= rules.len() {
        acc
    } else if rules[i].facility == f {
        spec_rules_with_facility_from(rules, f, i + 1, acc.push(rules[i]))
    } else {
        spec_rules_with_facility_from(rules, f, i + 1, acc)
    }
}

/// The rules of facility `f`, in their original order.
pub open spec fn spec_rules_with_facility(rules: Seq<RuleView>, f: FacilityView) -> Seq<RuleView> {
    spec_rules_with_facility_from(rules, f, 0, Seq::empty())
}

/// The recognized facilities that appear in the rules, in canonical
/// presentation order.
pub open spec fn spec_canon_facilities(rules: Seq<RuleView>) -> Seq<FacilityView> {
    (if spec_facility_appears(rules, FacilityView::Account) {
        seq![FacilityView::Account]
    } else {
        Seq::empty()
    }) + (if spec_facility_appears(rules, FacilityView::Auth) {
        seq![FacilityView::Auth]
    } else {
        Seq::empty()
    }) + (if spec_facility_appears(rules, FacilityView::Password) {
        seq![FacilityView::Password]
    } else {
        Seq::empty()
    }) + (if spec_facility_appears(rules, FacilityView::Session) {
        seq![FacilityView::Session]
    } else {
        Seq::empty()
    })
}

/// Folds the rules from position `i` on into the distinct unrecognized
/// facilities, in order of first appearance; `acc` holds those already seen.
pub open spec fn spec_invalid_facilities_from(
    rules: Seq<RuleView>,
    i: int,
    acc: Seq<FacilityView>,
) -> Seq<FacilityView>
    decreases rules.len() - i,
{
    if i < 0 || i >= rules.len() {
        acc
    } else if rules[i].facility is Invalid && !acc.contains(rules[i].facility) {
        spec_invalid_facilities_from(rules, i + 1, acc.push(rules[i].facility))
    } else {
        spec_invalid_facilities_from(rules, i + 1, acc)
    }
}

/// The distinct facilities of a rule sequence in presentation order: the
/// recognized ones that appear, in canonical order, then the unrecognized
/// ones in order of first appearance.
pub open spec fn spec_facility_order(rules: Seq<RuleView>) -> Seq<FacilityView> {
    spec_canon_facilities(rules) + spec_invalid_facilities_from(rules, 0, Seq::empty())
}

/// Whether `v` is the fresh evaluation context for facility `f` over the
/// rules of `f` among `rules`.
pub open spec fn spec_is_group(v: RuleSetView, rules: Seq<RuleView>, f: FacilityView) -> bool {
    v.facility == f && v.rules == spec_rules_with_facility(rules, f) && v.state()
        == spec_initial_state()
}

/// Whether some rule of the vector belongs to facility `f`.
fn contains_facility(rules: &Vec<Rule>, f: &Facility) -> (r: bool)
    ensures
        r == spec_facility_appears(rules.deep_view(), f@),
{
    let mut i: usize = 0;
    while i < rules.len()
        invariant
            i <= rules.len(),
            forall|j: int| 0 <= j < i ==> rules.deep_view()[j].facility != f@,
        decreases rules.len() - i,
    {
        if rules[i].facility == *f {
            proof {
                assert(rules.deep_view()[i as int].facility == f@);
            }
            return true;
        }
        i = i + 1;
    }
    false
}

/// Collects the rules that belong to facility `f`, keeping their order.
fn rules_with_facility(rules: &Vec<Rule>, f: &Facility) -> (r: Vec<Rule>)
    ensures
        r.deep_view() == spec_rules_with_facility(rules.deep_view(), f@),
{
    let ghost dv = rules.deep_view();
    let mut group: Vec<Rule> = Vec::new();
    proof {
        assert(group.deep_view() =~= Seq::<RuleView>::empty());
    }
    let mut i: usize = 0;
    while i < rules.len()
        invariant
            rules.deep_view() == dv,
            i <= rules.len(),
            spec_rules_with_facility_from(dv, f@, i as int, group.deep_view())
                == spec_rules_with_facility(dv, f@),
        decreases rules.len() - i,
    {
        if rules[i].facility == *f {
            let ghost prev = group.deep_view();
            group.push(rules[i].clone());
            proof {
                assert(group.deep_view() =~= prev.push(dv[i as int]));
            }
        }
        i = i + 1;
    }
    group
}

/// Whether the list already holds this facility.
fn facility_list_contains(seen: &Vec<Facility>, f: &Facility) -> (r: bool)
    ensures
        r == seen.deep_view().contains(f@),
{
    let mut i: usize = 0;
    while i < seen.len()
        invariant
            i <= seen.len(),
            forall|j: int| 0 <= j < i ==> seen.deep_view()[j] != f@,
        decreases seen.len() - i,
    {
        if seen[i] == *f {
            proof {
                assert(seen.deep_view()[i as int] == f@);
            }
            return true;
        }
        i = i + 1;
    }
    false
}

/// The ordered evaluation contexts of one policy text.
pub type RuleSets = Vec<RuleSet>;

/// Parses a whole policy text and groups the rules by facility: one fresh
/// evaluation context per distinct facility observed, presented in canonical
/// order, each holding its facility's rules in original order with every
/// outcome seeded to `default_result`.
pub fn rulesets_from_string(value: String, default_result: FinalResult) -> (r: RuleSets)
    requires
        value@.len() <= u32::MAX,
    ensures
        ({
            let parsed = spec_parse_lines(text::lines_of(value@), Seq::empty());
            let seeded = spec_seed_outcomes(parsed, default_result);
            let order = spec_facility_order(seeded);
            &&& r.deep_view().len() == order.len()
            &&& forall|k: int|
                0 <= k < order.len() ==> spec_is_group(
                    #[trigger] r.deep_view()[k],
                    seeded,
                    order[k],
                )
        }),
{
    let lines = text::split_into_lines(value.as_str());
    proof {
        text::lemma_split_lines_len(value@, 0, Seq::empty(), Seq::empty());
    }
    let no_results: Vec<Rule> = Vec::new();
    proof {
        assert(no_results.deep_view() =~= Seq::<RuleView>::empty());
    }
    let rules = rules_from_vec_string(lines, &no_results);
    let ghost parsed = rules.deep_view();

    // Seed every rule's outcome with the default.
    let mut seeded: Vec<Rule> = Vec::new();
    let mut i: usize = 0;
    while i < rules.len()
        invariant
            rules.deep_view() == parsed,
            i <= rules.len(),
            seeded.deep_view().len() == i,
            forall|j: int|
                0 <= j < i ==> seeded.deep_view()[j] == spec_with_outcome(
                    parsed[j],
                    default_result,
                ),
        decreases rules.len() - i,
    {
        let mut rule = rules[i].clone();
        rule.final_result = Some(default_result);
        proof {
            assert(rule@ =~= spec_with_outcome(parsed[i as int], default_result));
        }
        let ghost prev = seeded.deep_view();
        let ghost rule_view = rule@;
        seeded.push(rule);
        proof {
            assert(seeded.deep_view() =~= prev.push(rule_view));
        }
        i = i + 1;
    }
    let ghost sdv = seeded.deep_view();
    proof {
        assert(sdv =~= spec_seed_outcomes(parsed, default_result));
    }

    // The recognized facilities, in canonical order.
    let ghost canon = spec_canon_facilities(sdv);
    let mut out: Vec<RuleSet> = Vec::new();
    let account = Facility::Account;
    if contains_facility(&seeded, &account) {
        let group = rules_with_facility(&seeded, &account);
        out.push(RuleSet::new(&account, group));
    }
    let auth = Facility::Auth;
    if contains_facility(&seeded, &auth) {
        let group = rules_with_facility(&seeded, &auth);
        out.push(RuleSet::new(&auth, group));
    }
    let password = Facility::Password;
    if contains_facility(&seeded, &password) {
        let group = rules_with_facility(&seeded, &password);
        out.push(RuleSet::new(&password, group));
    }
    let session = Facility::Session;
    if contains_facility(&seeded, &session) {
        let group = rules_with_facility(&seeded, &session);
        out.push(RuleSet::new(&session, group));
    }
    proof {
        assert(out.deep_view().len() == canon.len());
        assert(forall|k: int|
            0 <= k < canon.len() ==> spec_is_group(#[trigger] out.deep_view()[k], sdv, canon[k]));
    }

    // The unrecognized facilities, in order of first appearance.
    let ghost inv_total = spec_invalid_facilities_from(sdv, 0, Seq::empty());
    let mut inv_seen: Vec<Facility> = Vec::new();
    proof {
        assert(inv_seen.deep_view() =~= Seq::<FacilityView>::empty());
    }
    let mut i: usize = 0;
    while i < seeded.len()
        invariant
            seeded.deep_view() == sdv,
            i <= seeded.len(),
            spec_invalid_facilities_from(sdv, i as int, inv_seen.deep_view()) == inv_total,
            out.deep_view().len() == canon.len() + inv_seen.deep_view().len(),
            forall|k: int|
                0 <= k < canon.len() ==> spec_is_group(
                    #[trigger] out.deep_view()[k],
                    sdv,
                    canon[k],
                ),
            forall|k: int|
                canon.len() <= k < out.deep_view().len() ==> spec_is_group(
                    #[trigger] out.deep_view()[k],
                    sdv,
                    inv_seen.deep_view()[k - canon.len()],
                ),
        decreases seeded.len() - i,
    {
        let is_invalid = match &seeded[i].facility {
            Facility::Invalid(_) => true,
            _ => false,
        };
        if is_invalid && !facility_list_contains(&inv_seen, &seeded[i].facility) {
            let f = seeded[i].facility.clone();
            let group = rules_with_facility(&seeded, &f);
            let ghost prev_out = out.deep_view();
            out.push(RuleSet::new(&f, group));
            let ghost prev_seen = inv_seen.deep_view();
            inv_seen.push(f);
            proof {
                assert(out.deep_view() =~= prev_out.push(out.deep_view()[prev_out.len() as int]));
                assert(inv_seen.deep_view() =~= prev_seen.push(sdv[i as int].facility));
            }
        }
        i = i + 1;
    }
    proof {
        assert(inv_seen.deep_view() == inv_total);
        let order = spec_facility_order(sdv);
        assert(order == canon + inv_total);
        assert forall|k: int| 0 <= k < order.len() implies spec_is_group(
            #[trigger] out.deep_view()[k],
            sdv,
            order[k],
        ) by {
            if k < canon.len() {
                assert(order[k] == canon[k]);
            } else {
                assert(order[k] == inv_total[k - canon.len()]);
            }
        }
    }
    out
}

/// The rule with its outcome overridden when its stored hash is `h`.
pub open spec fn spec_override_rule(r: RuleView, h: Seq<char>, v: FinalResult) -> RuleView {
    if r.rulehash == Some(h) {
        RuleView { final_result: Some(v), ..r }
    } else {
        r
    }
}

/// Replaces the outcome of every rule whose content hash is `rulehash` with
/// `value`, across all evaluation contexts; everything else is unchanged.
/// The caller then re-evaluates the affected contexts from scratch.
pub fn set_result_by_hash(rulesets: Vec<RuleSet>, rulehash: &str, value: FinalResult) -> (r: Vec<
    RuleSet,
>)
    ensures
        r.deep_view().len() == rulesets.deep_view().len(),
        forall|k: int|
            0 <= k < rulesets.deep_view().len() ==> {
                let before = rulesets.deep_view()[k];
                let after = #[trigger] r.deep_view()[k];
                &&& after.facility == before.facility
                &&& after.finalresult == before.finalresult
                &&& after.had_sufficient == before.had_sufficient
                &&& after.rules_run == before.rules_run
                &&& after.rules.len() == before.rules.len()
                &&& forall|j: int|
                    0 <= j < before.rules.len() ==> #[trigger] after.rules[j] == spec_override_rule(
                        before.rules[j],
                        rulehash@,
                        value,
                    )
            },
{
    let ghost before_all = rulesets.deep_view();
    let mut out: Vec<RuleSet> = Vec::new();
    let mut k: usize = 0;
    while k < rulesets.len()
        invariant
            rulesets.deep_view() == before_all,
            k <= rulesets.len(),
            out.deep_view().len() == k,
            forall|k2: int|
                0 <= k2 < k ==> {
                    let before = before_all[k2];
                    let after = #[trigger] out.deep_view()[k2];
                    &&& after.facility == before.facility
                    &&& after.finalresult == before.finalresult
                    &&& after.had_sufficient == before.had_sufficient
                    &&& after.rules_run == before.rules_run
                    &&& after.rules.len() == before.rules.len()
                    &&& forall|j: int|
                        0 <= j < before.rules.len() ==> #[trigger] after.rules[j]
                            == spec_override_rule(before.rules[j], rulehash@, value)
                },
        decreases rulesets.len() - k,
    {
        let set = &rulesets[k];
        let ghost before = before_all[k as int];
        let mut new_rules: Vec<Rule> = Vec::new();
        let mut j: usize = 0;
        while j < set.rules.len()
            invariant
                set.rules.deep_view() == before.rules,
                j <= set.rules.len(),
                new_rules.deep_view().len() == j,
                forall|j2: int|
                    0 <= j2 < j ==> #[trigger] new_rules.deep_view()[j2] == spec_override_rule(
                        before.rules[j2],
                        rulehash@,
                        value,
                    ),
            decreases set.rules.len() - j,
        {
            let mut rule = set.rules[j].clone();
            let hash_matches = match &rule.rulehash {
                Some(h) => str_eq(h.as_str(), rulehash),
                None => false,
            };
            if hash_matches {
                rule.final_result = Some(value);
                proof {
                    assert(rule@ =~= spec_override_rule(before.rules[j as int], rulehash@, value));
                }
            } else {
                proof {
                    assert(rule@.rulehash != Some(rulehash@));
                    assert(rule@ == spec_override_rule(before.rules[j as int], rulehash@, value));
                }
            }
            let ghost prev = new_rules.deep_view();
            let ghost rule_view = rule@;
            new_rules.push(rule);
            proof {
                assert(new_rules.deep_view() =~= prev.push(rule_view));
            }
            j = j + 1;
        }
        let new_set = RuleSet {
            facility: set.facility.clone(),
            rules: new_rules,
            finalresult: set.finalresult,
            had_sufficient: set.had_sufficient,
            rules_run: set.rules_run,
        };
        let ghost prev = out.deep_view();
        let ghost set_view = new_set@;
        out.push(new_set);
        proof {
            assert(out.deep_view() =~= prev.push(set_view));
        }
        k = k + 1;
    }
    out
}

} // verus!
