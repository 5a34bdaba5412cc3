//! The closed vocabulary of policy lines: the functional area a rule belongs
//! to and the control verb that combines its outcome into the aggregate.
//! Unrecognized tokens are data, not faults: they are kept in an `Invalid`
//! variant together with the offending text.

use vstd::prelude::*;

use crate::text::str_eq;

verus! {

/// Spec-level value of a [`Facility`].
pub enum FacilityView {
    Account,
    Auth,
    Password,
    Session,
    Invalid(Seq<char>),
}

/// The functional area of a policy stack that a rule belongs to.
#[derive(Debug)]
pub enum Facility {
    /// Verifies that the user is who they claim to be.
    Auth,
    /// Verifies properties of the account itself.
    Account,
    /// Updates credentials.
    Password,
    /// Sets up and tears down a session.
    Session,
    /// An unrecognized facility token, kept verbatim.
    Invalid(String),
}

impl View for Facility {
    type V = FacilityView;

    open spec fn view(&self) -> FacilityView {
        match self {
            Facility::Account => FacilityView::Account,
            Facility::Auth => FacilityView::Auth,
            Facility::Password => FacilityView::Password,
            Facility::Session => FacilityView::Session,
            Facility::Invalid(t) => FacilityView::Invalid(t@),
        }
    }
}

impl DeepView for Facility {
    type V = FacilityView;

    open spec fn deep_view(&self) -> FacilityView {
        self.view()
    }
}

impl Clone for Facility {
    fn clone(&self) -> (r: Self)
        ensures
            r == *self,
    {
        match self {
            Facility::Account => Facility::Account,
            Facility::Auth => Facility::Auth,
            Facility::Password => Facility::Password,
            Facility::Session => Facility::Session,
            Facility::Invalid(t) => Facility::Invalid(t.clone()),
        }
    }
}

impl PartialEq for Facility {
    fn eq(&self, other: &Self) -> (r: bool) {
        match (self, other) {
            (Facility::Account, Facility::Account) => true,
            (Facility::Auth, Facility::Auth) => true,
            (Facility::Password, Facility::Password) => true,
            (Facility::Session, Facility::Session) => true,
            (Facility::Invalid(a), Facility::Invalid(b)) => str_eq(a.as_str(), b.as_str()),
            _ => false,
        }
    }
}

impl vstd::std_specs::cmp::PartialEqSpecImpl for Facility {
    open spec fn obeys_eq_spec() -> bool {
        true
    }

    open spec fn eq_spec(&self, other: &Self) -> bool {
        self@ == other@
    }
}

impl Facility {
    /// The facility a token stands for; an unknown token is kept as data.
    pub open spec fn spec_parse(token: Seq<char>) -> FacilityView {
        if token == "auth"@ {
            FacilityView::Auth
        } else if token == "account"@ {
            FacilityView::Account
        } else if token == "password"@ {
            FacilityView::Password
        } else if token == "session"@ {
            FacilityView::Session
        } else {
            FacilityView::Invalid(token)
        }
    }

    /// Classifies a token. Total: an unrecognized token becomes
    /// `Invalid` with the original text preserved for diagnostics.
    pub fn parse(token: &str) -> (r: Facility)
        ensures
            r@ == Facility::spec_parse(token@),
    {
        if str_eq(token, "auth") {
            Facility::Auth
        } else if str_eq(token, "account") {
            Facility::Account
        } else if str_eq(token, "password") {
            Facility::Password
        } else if str_eq(token, "session") {
            Facility::Session
        } else {
            Facility::Invalid(token.to_owned())
        }
    }

    /// The canonical token of a facility; an `Invalid` value renders as a
    /// diagnostic embedding the original token.
    pub open spec fn spec_render(f: FacilityView) -> Seq<char> {
        match f {
            FacilityView::Auth => "auth"@,
            FacilityView::Account => "account"@,
            FacilityView::Password => "password"@,
            FacilityView::Session => "session"@,
            FacilityView::Invalid(t) => "invalid facility: "@ + t,
        }
    }

    /// Renders the facility back to text.
    pub fn render(&self) -> (r: String)
        ensures
            r@ == Facility::spec_render(self@),
    {
        match self {
            Facility::Auth => "auth".to_owned(),
            Facility::Account => "account".to_owned(),
            Facility::Password => "password".to_owned(),
            Facility::Session => "session".to_owned(),
            Facility::Invalid(t) => {
                let mut r = String::from_str("invalid facility: ");
                r.append(t.as_str());
                r
            },
        }
    }

    /// Position in the canonical presentation order
    /// (account, auth, password, session, then anything unrecognized).
    pub open spec fn spec_canonical_index(f: FacilityView) -> int {
        match f {
            FacilityView::Account => 0,
            FacilityView::Auth => 1,
            FacilityView::Password => 2,
            FacilityView::Session => 3,
            FacilityView::Invalid(_) => 4,
        }
    }

    /// The facility's position in the canonical presentation order.
    pub fn canonical_index(&self) -> (r: usize)
        ensures
            r == Facility::spec_canonical_index(self@),
    {
        match self {
            Facility::Account => 0,
            Facility::Auth => 1,
            Facility::Password => 2,
            Facility::Session => 3,
            Facility::Invalid(_) => 4,
        }
    }
}

/// The four recognized facilities, in canonical presentation order.
pub fn all_facilities() -> (r: Vec<Facility>)
    ensures
        r.deep_view() =~= seq![
            FacilityView::Account,
            FacilityView::Auth,
            FacilityView::Password,
            FacilityView::Session,
        ],
{
    let mut r: Vec<Facility> = Vec::new();
    r.push(Facility::Account);
    r.push(Facility::Auth);
    r.push(Facility::Password);
    r.push(Facility::Session);
    proof {
        assert(r.deep_view() =~= seq![
            FacilityView::Account,
            FacilityView::Auth,
            FacilityView::Password,
            FacilityView::Session,
        ]);
    }
    r
}

/// Spec-level value of a [`Control`].
pub enum ControlView {
    Required,
    Requisite,
    Sufficient,
    Optional,
    Invalid(Seq<char>),
}

/// How one rule's outcome combines into the facility's aggregate verdict.
#[derive(Debug)]
pub enum Control {
    /// A failure dooms the facility's verdict, but later rules still run.
    Required,
    /// A failure ends the facility's evaluation at once.
    Requisite,
    /// A success satisfies all later `Sufficient` rules of the facility.
    Sufficient,
    /// Relevant only when the rule stands first in its facility's sequence.
    Optional,
    /// An unrecognized control token, kept verbatim.
    Invalid(String),
}

impl View for Control {
    type V = ControlView;

    open spec fn view(&self) -> ControlView {
        match self {
            Control::Required => ControlView::Required,
            Control::Requisite => ControlView::Requisite,
            Control::Sufficient => ControlView::Sufficient,
            Control::Optional => ControlView::Optional,
            Control::Invalid(t) => ControlView::Invalid(t@),
        }
    }
}

impl DeepView for Control {
    type V = ControlView;

    open spec fn deep_view(&self) -> ControlView {
        self.view()
    }
}

impl Clone for Control {
    fn clone(&self) -> (r: Self)
        ensures
            r == *self,
    {
        match self {
            Control::Required => Control::Required,
            Control::Requisite => Control::Requisite,
            Control::Sufficient => Control::Sufficient,
            Control::Optional => Control::Optional,
            Control::Invalid(t) => Control::Invalid(t.clone()),
        }
    }
}

impl PartialEq for Control {
    fn eq(&self, other: &Self) -> (r: bool) {
        match (self, other) {
            (Control::Required, Control::Required) => true,
            (Control::Requisite, Control::Requisite) => true,
            (Control::Sufficient, Control::Sufficient) => true,
            (Control::Optional, Control::Optional) => true,
            (Control::Invalid(a), Control::Invalid(b)) => str_eq(a.as_str(), b.as_str()),
            _ => false,
        }
    }
}

impl vstd::std_specs::cmp::PartialEqSpecImpl for Control {
    open spec fn obeys_eq_spec() -> bool {
        true
    }

    open spec fn eq_spec(&self, other: &Self) -> bool {
        self@ == other@
    }
}

impl Control {
    /// The control verb a token stands for; an unknown token is kept as data.
    pub open spec fn spec_parse(token: Seq<char>) -> ControlView {
        if token == "required"@ {
            ControlView::Required
        } else if token == "requisite"@ {
            ControlView::Requisite
        } else if token == "sufficient"@ {
            ControlView::Sufficient
        } else if token == "optional"@ {
            ControlView::Optional
        } else {
            ControlView::Invalid(token)
        }
    }

    /// Classifies a token. Total: an unrecognized token becomes
    /// `Invalid` with the original text preserved for diagnostics.
    pub fn parse(token: &str) -> (r: Control)
        ensures
            r@ == Control::spec_parse(token@),
    {
        if str_eq(token, "required") {
            Control::Required
        } else if str_eq(token, "requisite") {
            Control::Requisite
        } else if str_eq(token, "sufficient") {
            Control::Sufficient
        } else if str_eq(token, "optional") {
            Control::Optional
        } else {
            Control::Invalid(token.to_owned())
        }
    }

    /// The canonical token of a control verb; an `Invalid` value renders as a
    /// diagnostic embedding the original token.
    pub open spec fn spec_render(c: ControlView) -> Seq<char> {
        match c {
            ControlView::Required => "required"@,
            ControlView::Requisite => "requisite"@,
            ControlView::Sufficient => "sufficient"@,
            ControlView::Optional => "optional"@,
            ControlView::Invalid(t) => "invalid: "@ + t,
        }
    }

    /// Renders the control verb back to text.
    pub fn render(&self) -> (r: String)
        ensures
            r@ == Control::spec_render(self@),
    {
        match self {
            Control::Required => "required".to_owned(),
            Control::Requisite => "requisite".to_owned(),
            Control::Sufficient => "sufficient".to_owned(),
            Control::Optional => "optional".to_owned(),
            Control::Invalid(t) => {
                let mut r = String::from_str("invalid: ");
                r.append(t.as_str());
                r
            },
        }
    }
}

/// Parsing a canonical facility token and rendering the result gives the
/// token back, and every other token parses to `Invalid` holding it.
pub proof fn lemma_facility_round_trip(token: Seq<char>)
    ensures
        token == "auth"@ || token == "account"@ || token == "password"@ || token == "session"@
            ==> Facility::spec_render(Facility::spec_parse(token)) == token,
        !(token == "auth"@ || token == "account"@ || token == "password"@ || token == "session"@)
            ==> Facility::spec_parse(token) == FacilityView::Invalid(token),
{
    reveal_strlit("auth");
    reveal_strlit("account");
    reveal_strlit("password");
    reveal_strlit("session");
}

/// Parsing a canonical control token and rendering the result gives the
/// token back, and every other token parses to `Invalid` holding it.
pub proof fn lemma_control_round_trip(token: Seq<char>)
    ensures
        token == "required"@ || token == "requisite"@ || token == "sufficient"@ || token
            == "optional"@ ==> Control::spec_render(Control::spec_parse(token)) == token,
        !(token == "required"@ || token == "requisite"@ || token == "sufficient"@ || token
            == "optional"@) ==> Control::spec_parse(token) == ControlView::Invalid(token),
{
    reveal_strlit("required");
    reveal_strlit("requisite");
    reveal_strlit("sufficient");
    reveal_strlit("optional");
}

} // verus!
