//! One parsed policy line, its content hash, and the match against
//! previously recorded outcomes.

use vstd::prelude::*;

use crate::ruleset::FinalResult;
use crate::text;
use crate::text::str_eq;
use crate::vocab::Control;
use crate::vocab::ControlView;
use crate::vocab::Facility;
use crate::vocab::FacilityView;

verus! {

/// Spec-level value of a [`Rule`].
#[verifier::ext_equal]
pub struct RuleView {
    pub facility: FacilityView,
    pub control: ControlView,
    pub module: Seq<char>,
    pub arguments: Seq<Seq<char>>,
    pub final_result: Option<FinalResult>,
    pub rule_order: Option<u32>,
    pub rulehash: Option<Seq<char>>,
}

/// One policy line: where it applies, how its outcome combines, which module
/// it names and with which arguments, plus the evaluation bookkeeping.
#[derive(Debug)]
pub struct Rule {
    pub facility: Facility,
    pub control: Control,
    /// The module's name, kept verbatim and never validated.
    pub module: String,
    /// The module's arguments; their order is part of the rule's identity.
    pub arguments: Vec<String>,
    /// The rule's outcome, unresolved until a resolver or a caller supplies one.
    pub final_result: Option<FinalResult>,
    /// Zero-based position in the original input stream.
    pub rule_order: Option<u32>,
    /// Content address over facility, control, module and arguments.
    pub rulehash: Option<String>,
}

impl View for Rule {
    type V = RuleView;

    open spec fn view(&self) -> RuleView {
        RuleView {
            facility: self.facility@,
            control: self.control@,
            module: self.module@,
            arguments: self.arguments.deep_view(),
            final_result: self.final_result,
            rule_order: self.rule_order,
            rulehash: match self.rulehash {
                Some(h) => Some(h@),
                None => None,
            },
        }
    }
}

impl DeepView for Rule {
    type V = RuleView;

    open spec fn deep_view(&self) -> RuleView {
        self.view()
    }
}

/// Compares two argument vectors element by element.
fn string_vecs_eq(a: &Vec<String>, b: &Vec<String>) -> (r: bool)
    ensures
        r == (a.deep_view() == b.deep_view()),
{
    if a.len() != b.len() {
        proof {
            assert(a.deep_view().len() != b.deep_view().len());
        }
        return false;
    }
    let mut i: usize = 0;
    while i < a.len()
        invariant
            a.len() == b.len(),
            i <= a.len(),
            forall|j: int| 0 <= j < i ==> a.deep_view()[j] == b.deep_view()[j],
        decreases a.len() - i,
    {
        if !str_eq(a[i].as_str(), b[i].as_str()) {
            proof {
                assert(a.deep_view()[i as int] != b.deep_view()[i as int]);
            }
            return false;
        }
        i = i + 1;
    }
    proof {
        assert(a.deep_view() =~= b.deep_view());
    }
    true
}

/// Compares two optional outcomes.
fn option_result_eq(a: &Option<FinalResult>, b: &Option<FinalResult>) -> (r: bool)
    ensures
        r == (*a == *b),
{
    match (a, b) {
        (Option::None, Option::None) => true,
        (Option::Some(x), Option::Some(y)) => *x == *y,
        _ => false,
    }
}

/// Compares two optional positions.
fn option_u32_eq(a: &Option<u32>, b: &Option<u32>) -> (r: bool)
    ensures
        r == (*a == *b),
{
    match (a, b) {
        (Option::None, Option::None) => true,
        (Option::Some(x), Option::Some(y)) => *x == *y,
        _ => false,
    }
}

/// Compares two optional hash strings.
fn option_string_eq(a: &Option<String>, b: &Option<String>) -> (r: bool)
    ensures
        r == (a.deep_view() == b.deep_view()),
{
    match (a, b) {
        (Option::None, Option::None) => true,
        (Option::Some(x), Option::Some(y)) => str_eq(x.as_str(), y.as_str()),
        _ => false,
    }
}

impl Clone for Rule {
    fn clone(&self) -> (r: Self)
        ensures
            r@ == self@,
    {
        let arguments = self.arguments.clone();
        proof {
            assert forall|i: int| 0 <= i < self.arguments@.len() implies arguments@[i]
                == self.arguments@[i] by {
                assert(cloned::<String>(self.arguments[i], arguments[i]));
            }
            assert(arguments@ =~= self.arguments@);
            assert(arguments.deep_view() =~= self.arguments.deep_view());
        }
        Rule {
            facility: self.facility.clone(),
            control: self.control.clone(),
            module: self.module.clone(),
            arguments,
            final_result: self.final_result,
            rule_order: self.rule_order,
            rulehash: match &self.rulehash {
                Some(h) => Some(h.clone()),
                None => None,
            },
        }
    }
}

impl PartialEq for Rule {
    fn eq(&self, other: &Self) -> (r: bool) {
        self.facility == other.facility && self.control == other.control && str_eq(
            self.module.as_str(),
            other.module.as_str(),
        ) && string_vecs_eq(&self.arguments, &other.arguments) && option_result_eq(
            &self.final_result,
            &other.final_result,
        ) && option_u32_eq(&self.rule_order, &other.rule_order) && option_string_eq(
            &self.rulehash,
            &other.rulehash,
        )
    }
}

impl vstd::std_specs::cmp::PartialEqSpecImpl for Rule {
    open spec fn obeys_eq_spec() -> bool {
        true
    }

    open spec fn eq_spec(&self, other: &Self) -> bool {
        self@ == other@
    }
}

/// Two rules are the same policy line when facility, control, module and
/// arguments all agree; outcome, position and stored hash play no part.
pub open spec fn same_identity(a: RuleView, b: RuleView) -> bool {
    a.facility == b.facility && a.control == b.control && a.module == b.module && a.arguments
        == b.arguments
}

/// The lowercase hexadecimal SHA-256 digest of a text, as characters.
pub uninterp spec fn sha256_hex_of(s: Seq<char>) -> Seq<char>;

/// Relies on sha256::digest, which hex-encodes the SHA-256 of the string's
/// UTF-8 bytes: the result is a function of the characters alone, and
/// hex::encode yields two digits for each of the 32 digest bytes.
#[verifier::external_body]
fn sha256_hex(input: &str) -> (r: String)
    ensures
        r@ == sha256_hex_of(input@),
        r@.len() == 64,
{
    sha256::digest(input)
}

/// The text a rule's content hash digests: rendered facility, rendered
/// control, module and space-joined arguments, in that order, unseparated.
pub open spec fn hash_input(r: RuleView) -> Seq<char> {
    Facility::spec_render(r.facility) + Control::spec_render(r.control) + r.module
        + text::join_spaces(r.arguments)
}

/// The content hash of a rule: a digest of its identity fields only.
pub open spec fn spec_rule_hash(r: RuleView) -> Seq<char> {
    sha256_hex_of(hash_input(r))
}

/// Rules with equal identity fields have equal content hashes, whatever
/// their position in the input stream or their outcome.
pub proof fn lemma_hash_ignores_position_and_outcome(a: RuleView, b: RuleView)
    requires
        same_identity(a, b),
    ensures
        spec_rule_hash(a) == spec_rule_hash(b),
{
}

/// The first recorded outcome whose rule has the same identity as the
/// target; records whose own outcome is unset are passed over.
pub open spec fn spec_find_match(results: Seq<RuleView>, target: RuleView) -> Option<FinalResult>
    decreases results.len(),
{
    if results.len() == 0 {
        None
    } else if same_identity(results[0], target) && results[0].final_result is Some {
        results[0].final_result
    } else {
        spec_find_match(results.drop_first(), target)
    }
}

/// Searches previously produced rules for one with the same identity as
/// `rule` and a known outcome, and hands that outcome back.
pub fn try_find_matching_rule_result(rules: &[Rule], rule: &Rule) -> (r: Option<FinalResult>)
    ensures
        r == spec_find_match(rules.deep_view(), rule@),
{
    proof {
        assert(rules.deep_view().skip(0) =~= rules.deep_view());
    }
    let mut i: usize = 0;
    while i < rules.len()
        invariant
            i <= rules.len(),
            spec_find_match(rules.deep_view().skip(i as int), rule@) == spec_find_match(
                rules.deep_view(),
                rule@,
            ),
        decreases rules.len() - i,
    {
        let candidate = &rules[i];
        let ghost dv = rules.deep_view();
        proof {
            assert(dv.skip(i as int)[0] == dv[i as int]);
            assert(dv.skip(i as int).drop_first() =~= dv.skip(i + 1));
        }
        let matches_identity = candidate.facility == rule.facility && candidate.control
            == rule.control && str_eq(candidate.module.as_str(), rule.module.as_str())
            && string_vecs_eq(&candidate.arguments, &rule.arguments);
        if matches_identity && candidate.final_result.is_some() {
            return candidate.final_result;
        }
        i = i + 1;
    }
    None
}

/// Why a line yields no rule.
#[derive(Clone, Copy, Debug, PartialEq, Eq, Structural)]
pub enum RuleParseError {
    /// The line holds no token at all.
    EmptyLine,
    /// The line holds fewer than the three mandatory tokens.
    TooFewTokens,
}

/// The rule a line describes, before outcome matching and hashing: the
/// first token classifies the facility, the second the control verb, the
/// third names the module, and the rest are its arguments.
pub open spec fn spec_parse_rule_bare(line: Seq<char>, order: u32) -> RuleView {
    let toks = text::tokens_of(line);
    RuleView {
        facility: Facility::spec_parse(toks[0]),
        control: Control::spec_parse(toks[1]),
        module: toks[2],
        arguments: toks.skip(3),
        final_result: None,
        rule_order: Some(order),
        rulehash: None,
    }
}

/// The rule a line describes: as [`spec_parse_rule_bare`], with the outcome
/// pre-seeded from the first matching record and the content hash filled in.
pub open spec fn spec_parse_rule(line: Seq<char>, order: u32, results: Seq<RuleView>) -> RuleView {
    let bare = spec_parse_rule_bare(line, order);
    RuleView {
        final_result: spec_find_match(results, bare),
        rulehash: Some(spec_rule_hash(bare)),
        ..bare
    }
}

impl Rule {
    /// The content address of the rule: a digest over facility, control,
    /// module and arguments, excluding outcome and position.
    pub fn hash(&self) -> (r: String)
        ensures
            r@ == spec_rule_hash(self@),
            r@.len() == 64,
    {
        let mut hash_string = self.facility.render();
        hash_string.append(self.control.render().as_str());
        hash_string.append(self.module.as_str());
        let joined = text::join_with_spaces(&self.arguments);
        hash_string.append(joined.as_str());
        proof {
            assert(hash_string@ =~= hash_input(self@));
        }
        sha256_hex(hash_string.as_str())
    }

    /// Parses one policy line into a rule numbered `rule_order`, seeding its
    /// outcome from the first matching record in `results`. A line without
    /// tokens is rejected as empty; one with fewer than three tokens is
    /// rejected as incomplete; every other line yields a rule.
    pub fn new(value: &str, rule_order: &u32, results: &Vec<Rule>) -> (r: Result<
        Rule,
        RuleParseError,
    >)
        ensures
            text::tokens_of(value@).len() == 0 ==> r == Err::<Rule, RuleParseError>(
                RuleParseError::EmptyLine,
            ),
            0 < text::tokens_of(value@).len() < 3 ==> r == Err::<Rule, RuleParseError>(
                RuleParseError::TooFewTokens,
            ),
            text::tokens_of(value@).len() >= 3 ==> r is Ok && r->Ok_0@ == spec_parse_rule(
                value@,
                *rule_order,
                results.deep_view(),
            ),
    {
        let tokens = text::tokenize(value);
        if tokens.len() == 0 {
            return Err(RuleParseError::EmptyLine);
        }
        if tokens.len() < 3 {
            return Err(RuleParseError::TooFewTokens);
        }
        let ghost toks = text::tokens_of(value@);
        let facility = Facility::parse(tokens[0].as_str());
        let control = Control::parse(tokens[1].as_str());
        let module = tokens[2].clone();
        let mut arguments: Vec<String> = Vec::new();
        proof {
            assert(arguments.deep_view() =~= toks.subrange(3, 3));
        }
        let mut i: usize = 3;
        while i < tokens.len()
            invariant
                3 <= i <= tokens.len(),
                tokens.deep_view() == toks,
                toks.len() >= 3,
                arguments.deep_view() == toks.subrange(3, i as int),
            decreases tokens.len() - i,
        {
            let ghost prev = arguments.deep_view();
            arguments.push(tokens[i].clone());
            proof {
                assert(arguments.deep_view() =~= prev.push(toks[i as int]));
                assert(toks.subrange(3, i + 1) =~= toks.subrange(3, i as int).push(toks[i as int]));
            }
            i = i + 1;
        }
        proof {
            assert(arguments.deep_view() == toks.skip(3));
        }
        let mut rule = Rule {
            facility,
            control,
            module,
            arguments,
            final_result: None,
            rule_order: Some(*rule_order),
            rulehash: None,
        };
        proof {
            assert(rule@ =~= spec_parse_rule_bare(value@, *rule_order));
        }
        rule.final_result = try_find_matching_rule_result(results.as_slice(), &rule);
        let h = rule.hash();
        proof {
            assert(hash_input(rule@) == hash_input(spec_parse_rule_bare(value@, *rule_order)));
        }
        rule.rulehash = Some(h);
        proof {
            assert(rule@ =~= spec_parse_rule(value@, *rule_order, results.deep_view()));
        }
        Ok(rule)
    }

    /// The control, module and arguments of a rule in one line of text.
    pub open spec fn spec_shortstring(r: RuleView) -> Seq<char> {
        Control::spec_render(r.control) + " "@ + r.module + " "@ + text::join_spaces(r.arguments)
    }

    /// Renders the rule without its facility: control, module, arguments.
    pub fn to_shortstring(&self) -> (r: String)
        ensures
            r@ == Rule::spec_shortstring(self@),
    {
        let mut r = self.control.render();
        r.append(" ");
        r.append(self.module.as_str());
        r.append(" ");
        let joined = text::join_with_spaces(&self.arguments);
        r.append(joined.as_str());
        proof {
            assert(r@ =~= Rule::spec_shortstring(self@));
        }
        r
    }

    /// The explanation of what the rule's outcome means for its facility.
    pub open spec fn spec_result_string(r: RuleView) -> Seq<char> {
        match r.final_result {
            None => "Final result not set, can't determine state!"@,
            Some(fr) => match r.control {
                ControlView::Required => if fr is Success {
                    "Required rule succeeded"@
                } else {
                    "Required rule failed - other rules will run but the event will fail."@
                },
                ControlView::Requisite => if fr is Success {
                    "Requisite rule continues."@
                } else {
                    "Instant failure of this facility!"@
                },
                ControlView::Sufficient => if fr is Success {
                    "This'll allow further 'sufficient' rules to be skipped."@
                } else {
                    "'sufficient' rule failed, but other rules will run."@
                },
                ControlView::Optional => if r.rule_order != Some(0u32) {
                    "Result is irrelevant as it's not the only rule"@
                } else if fr is Success {
                    "Optional rule succeeded, as it's the only rule the facility succeeds."@
                } else {
                    "Optional rule failed, and thus the facility fails."@
                },
                ControlView::Invalid(t) => "Invalid control configuration: "@ + t,
            },
        }
    }

    /// Explains what the rule's outcome means for its facility's verdict.
    pub fn result_string(&self) -> (r: String)
        ensures
            r@ == Rule::spec_result_string(self@),
    {
        match self.final_result {
            None => "Final result not set, can't determine state!".to_owned(),
            Some(fr) => match &self.control {
                Control::Required => match fr {
                    FinalResult::Success => "Required rule succeeded".to_owned(),
                    FinalResult::Failure => {
                        "Required rule failed - other rules will run but the event will fail.".to_owned()
                    },
                },
                Control::Requisite => match fr {
                    FinalResult::Success => "Requisite rule continues.".to_owned(),
                    FinalResult::Failure => "Instant failure of this facility!".to_owned(),
                },
                Control::Sufficient => match fr {
                    FinalResult::Success => {
                        "This'll allow further 'sufficient' rules to be skipped.".to_owned()
                    },
                    FinalResult::Failure => {
                        "'sufficient' rule failed, but other rules will run.".to_owned()
                    },
                },
                Control::Optional => {
                    let first = match self.rule_order {
                        Some(order) => order == 0,
                        None => false,
                    };
                    if !first {
                        "Result is irrelevant as it's not the only rule".to_owned()
                    } else {
                        match fr {
                            FinalResult::Success => {
                                "Optional rule succeeded, as it's the only rule the facility succeeds.".to_owned()
                            },
                            FinalResult::Failure => {
                                "Optional rule failed, and thus the facility fails.".to_owned()
                            },
                        }
                    }
                },
                Control::Invalid(t) => {
                    let mut r = String::from_str("Invalid control configuration: ");
                    r.append(t.as_str());
                    r
                },
            },
        }
    }
}

} // verus!
