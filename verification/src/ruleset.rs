//! The per-facility evaluation context and its stacking state machine: the
//! rules of one facility, walked once in order, folded into one aggregate
//! verdict under the semantics of the four control verbs.

use vstd::prelude::*;

use crate::rule::Rule;
use crate::rule::RuleView;
use crate::vocab::Control;
use crate::vocab::ControlView;
use crate::vocab::Facility;
use crate::vocab::FacilityView;

verus! {

/// The verdict of one rule or of a whole facility: isomorphic to a boolean,
/// `Success` standing for `true` and `Failure` for `false`.
#[derive(Clone, Copy, Debug, PartialEq, Eq, Structural)]
pub enum FinalResult {
    Success,
    Failure,
}

impl FinalResult {
    /// The boolean a verdict stands for.
    pub open spec fn spec_as_bool(self) -> bool {
        self is Success
    }

    /// The verdict a boolean stands for.
    pub open spec fn spec_of_bool(b: bool) -> FinalResult {
        if b {
            FinalResult::Success
        } else {
            FinalResult::Failure
        }
    }
}

impl From<FinalResult> for bool {
    fn from(value: FinalResult) -> (r: bool) {
        match value {
            FinalResult::Success => true,
            FinalResult::Failure => false,
        }
    }
}

impl vstd::std_specs::convert::FromSpecImpl<FinalResult> for bool {
    open spec fn obeys_from_spec() -> bool {
        true
    }

    open spec fn from_spec(value: FinalResult) -> bool {
        value.spec_as_bool()
    }
}

impl From<bool> for FinalResult {
    fn from(value: bool) -> (r: FinalResult) {
        if value {
            FinalResult::Success
        } else {
            FinalResult::Failure
        }
    }
}

impl vstd::std_specs::convert::FromSpecImpl<bool> for FinalResult {
    open spec fn obeys_from_spec() -> bool {
        true
    }

    open spec fn from_spec(value: bool) -> FinalResult {
        FinalResult::spec_of_bool(value)
    }
}

/// The running accumulator of one facility evaluation.
pub struct EvalState {
    /// The aggregate verdict so far.
    pub aggregate: FinalResult,
    /// Whether a Sufficient rule has already succeeded.
    pub had_sufficient: bool,
    /// How many rules were actually evaluated (skipped rules not counted).
    pub rules_run: nat,
}

/// Whether a rule's outcome counts as success: a recorded outcome speaks
/// for itself, an unresolved one resolves fail-closed to failure.
pub open spec fn spec_resolved(r: RuleView) -> bool {
    r.final_result == Some(FinalResult::Success)
}

/// A fresh accumulator: success until shown otherwise.
pub open spec fn spec_initial_state() -> EvalState {
    EvalState { aggregate: FinalResult::Success, had_sufficient: false, rules_run: 0 }
}

/// One facility's stacking evaluation from rule `i` on, starting from
/// accumulator `st`: yields the final accumulator and the returned verdict.
///
/// Per rule, by control verb: an Invalid verb is a logged no-op; Required
/// is skipped once the aggregate already fails, and a Required failure
/// dooms the aggregate while later rules still run; a Requisite failure
/// returns failure at once; Sufficient is skipped after one Sufficient
/// success, and a Sufficient success only suppresses later Sufficient
/// rules; an Optional rule counts and matters only when it fails, and only
/// a failure in first position fails the facility at once.
pub open spec fn spec_run_from(rules: Seq<RuleView>, i: int, st: EvalState) -> (EvalState,
    FinalResult,
)
    decreases rules.len() - i,
{
    if i < 0 || i >= rules.len() {
        (st, st.aggregate)
    } else {
        let r = rules[i];
        match r.control {
            ControlView::Invalid(_) => spec_run_from(rules, i + 1, st),
            ControlView::Required => {
                if st.aggregate is Failure {
                    spec_run_from(rules, i + 1, st)
                } else {
                    let st2 = EvalState {
                        aggregate: if spec_resolved(r) {
                            st.aggregate
                        } else {
                            FinalResult::Failure
                        },
                        rules_run: st.rules_run + 1,
                        ..st
                    };
                    spec_run_from(rules, i + 1, st2)
                }
            },
            ControlView::Requisite => {
                let st2 = EvalState { rules_run: st.rules_run + 1, ..st };
                if spec_resolved(r) {
                    spec_run_from(rules, i + 1, st2)
                } else {
                    (st2, FinalResult::Failure)
                }
            },
            ControlView::Sufficient => {
                if st.had_sufficient {
                    spec_run_from(rules, i + 1, st)
                } else {
                    let st2 = EvalState {
                        had_sufficient: spec_resolved(r),
                        rules_run: st.rules_run + 1,
                        ..st
                    };
                    spec_run_from(rules, i + 1, st2)
                }
            },
            ControlView::Optional => {
                if spec_resolved(r) {
                    spec_run_from(rules, i + 1, st)
                } else {
                    let st2 = EvalState { rules_run: st.rules_run + 1, ..st };
                    if i == 0 {
                        (st2, FinalResult::Failure)
                    } else {
                        spec_run_from(rules, i + 1, st2)
                    }
                }
            },
        }
    }
}

/// A whole evaluation: all rules from the first, out of a fresh accumulator.
pub open spec fn spec_run(rules: Seq<RuleView>) -> (EvalState, FinalResult) {
    spec_run_from(rules, 0, spec_initial_state())
}

/// Spec-level value of a [`RuleSet`].
#[verifier::ext_equal]
pub struct RuleSetView {
    pub facility: FacilityView,
    pub rules: Seq<RuleView>,
    pub finalresult: FinalResult,
    pub had_sufficient: bool,
    pub rules_run: usize,
}

impl RuleSetView {
    /// The accumulator the bookkeeping fields encode.
    pub open spec fn state(self) -> EvalState {
        EvalState {
            aggregate: self.finalresult,
            had_sufficient: self.had_sufficient,
            rules_run: self.rules_run as nat,
        }
    }
}

/// The evaluation context of one facility: its rules in evaluation order
/// and the running accumulator fields.
#[derive(Debug)]
pub struct RuleSet {
    pub facility: Facility,
    pub rules: Vec<Rule>,
    /// The aggregate verdict so far.
    pub finalresult: FinalResult,
    /// Whether a Sufficient rule has already succeeded.
    pub had_sufficient: bool,
    /// How many rules were actually evaluated.
    pub rules_run: usize,
}

impl View for RuleSet {
    type V = RuleSetView;

    open spec fn view(&self) -> RuleSetView {
        RuleSetView {
            facility: self.facility@,
            rules: self.rules.deep_view(),
            finalresult: self.finalresult,
            had_sufficient: self.had_sufficient,
            rules_run: self.rules_run,
        }
    }
}

impl DeepView for RuleSet {
    type V = RuleSetView;

    open spec fn deep_view(&self) -> RuleSetView {
        self.view()
    }
}

impl Clone for RuleSet {
    fn clone(&self) -> (r: Self)
        ensures
            r@ == self@,
    {
        let rules = self.rules.clone();
        proof {
            assert forall|i: int| 0 <= i < self.rules@.len() implies rules.deep_view()[i]
                == self.rules.deep_view()[i] by {
                assert(cloned::<Rule>(self.rules[i], rules[i]));
            }
            assert(rules.deep_view() =~= self.rules.deep_view());
        }
        RuleSet {
            facility: self.facility.clone(),
            rules,
            finalresult: self.finalresult,
            had_sufficient: self.had_sufficient,
            rules_run: self.rules_run,
        }
    }
}

/// Compares two rule vectors element by element.
fn rule_vecs_eq(a: &Vec<Rule>, b: &Vec<Rule>) -> (r: bool)
    ensures
        r == (a.deep_view() == b.deep_view()),
{
    if a.len() != b.len() {
        proof {
            assert(a.deep_view().len() != b.deep_view().len());
        }
        return false;
    }
    let mut i: usize = 0;
    while i < a.len()
        invariant
            a.len() == b.len(),
            i <= a.len(),
            forall|j: int| 0 <= j < i ==> a.deep_view()[j] == b.deep_view()[j],
        decreases a.len() - i,
    {
        if !(a[i] == b[i]) {
            proof {
                assert(a.deep_view()[i as int] != b.deep_view()[i as int]);
            }
            return false;
        }
        i = i + 1;
    }
    proof {
        assert(a.deep_view() =~= b.deep_view());
    }
    true
}

impl PartialEq for RuleSet {
    fn eq(&self, other: &Self) -> (r: bool) {
        self.facility == other.facility && rule_vecs_eq(&self.rules, &other.rules)
            && self.finalresult == other.finalresult && self.had_sufficient == other.had_sufficient
            && self.rules_run == other.rules_run
    }
}

impl vstd::std_specs::cmp::PartialEqSpecImpl for RuleSet {
    open spec fn obeys_eq_spec() -> bool {
        true
    }

    open spec fn eq_spec(&self, other: &Self) -> bool {
        self@ == other@
    }
}

impl RuleSet {
    /// Resolves a rule's outcome for this evaluation: a recorded outcome
    /// speaks for itself; an unresolved one resolves fail-closed to failure.
    pub fn get_rule_result(&self, rule: &Rule) -> (r: bool)
        ensures
            r == spec_resolved(rule@),
    {
        match &rule.final_result {
            Some(val) => match val {
                FinalResult::Success => true,
                FinalResult::Failure => false,
            },
            None => false,
        }
    }

    /// Builds a fresh evaluation context for one facility's rules.
    pub fn new(facility: &Facility, rules: Vec<Rule>) -> (r: RuleSet)
        ensures
            r@.facility == facility@,
            r@.rules == rules.deep_view(),
            r@.state() == spec_initial_state(),
    {
        RuleSet {
            facility: facility.clone(),
            rules,
            finalresult: FinalResult::Success,
            had_sufficient: false,
            rules_run: 0,
        }
    }

    /// Walks the facility's rules once in order, folding each outcome into
    /// the aggregate under its control verb, and returns the verdict.
    #[verifier::loop_isolation(false)]
    pub fn run_rules(&mut self) -> (r: FinalResult)
        requires
            old(self).rules_run + old(self)@.rules.len() <= usize::MAX,
        ensures
            final(self)@.facility == old(self)@.facility,
            final(self)@.rules == old(self)@.rules,
            final(self)@.state() == spec_run_from(old(self)@.rules, 0, old(self)@.state()).0,
            r == spec_run_from(old(self)@.rules, 0, old(self)@.state()).1,
    {
        let ghost rules0 = self@.rules;
        let ghost fac0 = self@.facility;
        let ghost st0 = self@.state();
        let n = self.rules.len();
        let mut index: usize = 0;
        while index < n
            invariant
                n == self.rules.len(),
                index <= n,
                self@.rules == rules0,
                self@.facility == fac0,
                self.rules_run + (n - index) <= usize::MAX,
                spec_run_from(rules0, index as int, self@.state()) == spec_run_from(
                    rules0,
                    0,
                    st0,
                ),
            decreases n - index,
        {
            let ghost st_before = self@.state();
            proof {
                assert(rules0[index as int] == self.rules[index as int]@);
            }
            let control = self.rules[index].control.clone();
            match control {
                Control::Invalid(_) => {},
                Control::Required => {
                    let already_failed = match self.finalresult {
                        FinalResult::Failure => true,
                        FinalResult::Success => false,
                    };
                    if !already_failed {
                        let rule_result = self.get_rule_result(&self.rules[index]);
                        if !rule_result {
                            self.finalresult = FinalResult::Failure;
                        }
                        self.rules_run = self.rules_run + 1;
                    }
                },
                Control::Requisite => {
                    self.rules_run = self.rules_run + 1;
                    let rule_result = self.get_rule_result(&self.rules[index]);
                    if !rule_result {
                        proof {
                            assert(spec_run_from(rules0, index as int, st_before) == (
                                self@.state(),
                                FinalResult::Failure,
                            ));
                        }
                        return FinalResult::Failure;
                    }
                },
                Control::Sufficient => {
                    if !self.had_sufficient {
                        let rule_result = self.get_rule_result(&self.rules[index]);
                        if rule_result {
                            self.had_sufficient = true;
                        }
                        self.rules_run = self.rules_run + 1;
                    }
                },
                Control::Optional => {
                    let rule_result = self.get_rule_result(&self.rules[index]);
                    if !rule_result {
                        self.rules_run = self.rules_run + 1;
                        if index == 0 {
                            proof {
                                assert(spec_run_from(rules0, index as int, st_before) == (
                                    self@.state(),
                                    FinalResult::Failure,
                                ));
                            }
                            return FinalResult::Failure;
                        }
                    }
                },
            }
            proof {
                assert(spec_run_from(rules0, index as int, st_before) == spec_run_from(
                    rules0,
                    index + 1,
                    self@.state(),
                ));
            }
            index = index + 1;
        }
        proof {
            assert(spec_run_from(rules0, n as int, self@.state()) == (
                self@.state(),
                self.finalresult,
            ));
        }
        self.finalresult
    }
}

/// Evaluation is a pure function of the rules and the starting accumulator:
/// two evaluation contexts over the same rules in the same state yield the
/// same final accumulator and the same verdict, however often it is re-run.
pub proof fn lemma_evaluation_deterministic(a: RuleSetView, b: RuleSetView)
    requires
        a.rules == b.rules,
        a.state() == b.state(),
    ensures
        spec_run_from(a.rules, 0, a.state()) == spec_run_from(b.rules, 0, b.state()),
{
}

/// Once the aggregate is failure, a later Required rule is skipped
/// outright: it is not evaluated and does not advance the count.
pub proof fn lemma_required_skipped_after_failure(rules: Seq<RuleView>, i: int, st: EvalState)
    requires
        0 <= i < rules.len(),
        rules[i].control is Required,
        st.aggregate is Failure,
    ensures
        spec_run_from(rules, i, st) == spec_run_from(rules, i + 1, st),
{
}

/// A failing Requisite rule ends its facility at once: it is counted, the
/// verdict is failure, and no later rule of the facility is examined.
pub proof fn lemma_requisite_short_circuit(rules: Seq<RuleView>, i: int, st: EvalState)
    requires
        0 <= i < rules.len(),
        rules[i].control is Requisite,
        !spec_resolved(rules[i]),
    ensures
        spec_run_from(rules, i, st) == (
            EvalState { rules_run: st.rules_run + 1, ..st },
            FinalResult::Failure,
        ),
{
}

/// After one Sufficient rule has succeeded, a later Sufficient rule is
/// skipped: it is not evaluated and does not advance the count.
pub proof fn lemma_sufficient_suppressed(rules: Seq<RuleView>, i: int, st: EvalState)
    requires
        0 <= i < rules.len(),
        rules[i].control is Sufficient,
        st.had_sufficient,
    ensures
        spec_run_from(rules, i, st) == spec_run_from(rules, i + 1, st),
{
}

/// A satisfied Sufficient mark is never cleared for the rest of the run.
pub proof fn lemma_had_sufficient_monotone(rules: Seq<RuleView>, i: int, st: EvalState)
    requires
        st.had_sufficient,
    ensures
        spec_run_from(rules, i, st).0.had_sufficient,
    decreases rules.len() - i,
{
    if i < 0 || i >= rules.len() {
    } else {
        let r = rules[i];
        match r.control {
            ControlView::Invalid(_) => lemma_had_sufficient_monotone(rules, i + 1, st),
            ControlView::Required => {
                if st.aggregate is Failure {
                    lemma_had_sufficient_monotone(rules, i + 1, st);
                } else {
                    let st2 = EvalState {
                        aggregate: if spec_resolved(r) {
                            st.aggregate
                        } else {
                            FinalResult::Failure
                        },
                        rules_run: st.rules_run + 1,
                        ..st
                    };
                    lemma_had_sufficient_monotone(rules, i + 1, st2);
                }
            },
            ControlView::Requisite => {
                let st2 = EvalState { rules_run: st.rules_run + 1, ..st };
                if spec_resolved(r) {
                    lemma_had_sufficient_monotone(rules, i + 1, st2);
                }
            },
            ControlView::Sufficient => {
                lemma_had_sufficient_monotone(rules, i + 1, st);
            },
            ControlView::Optional => {
                if spec_resolved(r) {
                    lemma_had_sufficient_monotone(rules, i + 1, st);
                } else {
                    let st2 = EvalState { rules_run: st.rules_run + 1, ..st };
                    if i != 0 {
                        lemma_had_sufficient_monotone(rules, i + 1, st2);
                    }
                }
            },
        }
    }
}

} // verus!
