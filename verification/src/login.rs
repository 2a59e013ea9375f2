//! The login state machine: a pure classifier from the observed page URL to
//! a closed page-state enumeration, one transition action per non-target
//! state, and a driver model over scripted observations. The browser-side
//! execution of each action lives outside the library; the library decides.

use vstd::prelude::*;
use crate::text::{bases_equal, contains_str, has_substring, url_base_eq};

verus! {

/// The target platform of a session.
#[derive(Clone, Copy, Debug, PartialEq, Eq, Structural)]
pub enum Site {
    Caseine,
    UcaMoodle,
}

impl Site {
    /// Which site a target URL belongs to.
    pub fn detect(url: &str) -> (r: Self)
        ensures
            r == (if has_substring(url@, "caseine.org"@) {
                Site::Caseine
            } else {
                Site::UcaMoodle
            }),
    {
        if contains_str(url, "caseine.org") {
            Site::Caseine
        } else {
            Site::UcaMoodle
        }
    }

    /// The host name of the site.
    pub fn name(&self) -> (r: &'static str)
        ensures
            *self is Caseine ==> r@ == "caseine.org"@,
            *self is UcaMoodle ==> r@ == "moodle2025.uca.fr"@,
    {
        match self {
            Site::Caseine => "caseine.org",
            Site::UcaMoodle => "moodle2025.uca.fr",
        }
    }
}

/// The kind of page the login loop currently sees.
#[derive(Clone, Copy, Debug, PartialEq, Eq, Structural)]
pub enum LoginPage {
    /// The target page is reached; login is complete.
    Target,
    /// Course enrollment gate with a continue button.
    Enrollment,
    /// The platform's login page with a credential-provider button.
    ProviderSelect,
    /// The identity-federation search page.
    FederationSearch,
    /// The credential form of the identity provider.
    CredentialForm,
    /// The consent screen of the identity provider.
    Consent,
    /// No known state matches.
    Unknown,
}

/// The single side-effecting action associated with a login state.
#[derive(Clone, Copy, Debug, PartialEq, Eq, Structural)]
pub enum LoginAction {
    /// Click the continue button of the enrollment gate.
    ClickContinue,
    /// Click the credential-provider login button.
    ClickProviderButton,
    /// Pick the university from the federation search.
    SelectUniversity,
    /// Fill and submit the credential form.
    SubmitCredentials,
    /// Accept the consent screen.
    ClickConsent,
}

/// Classification of a URL for the caseine site, by its URL markers in
/// priority order. The target comparison ignores query-string differences.
pub open spec fn spec_classify_caseine(url: Seq<char>, target: Seq<char>) -> LoginPage {
    if has_substring(url, "/mod/vpl/"@) && !has_substring(url, "login"@) && !has_substring(
        url,
        "enrol"@,
    ) {
        LoginPage::Target
    } else if has_substring(url, "enrol/index.php"@) {
        LoginPage::Enrollment
    } else if has_substring(url, "moodle.caseine.org/login/index.php"@) {
        LoginPage::ProviderSelect
    } else if has_substring(url, "discovery.renater.fr"@) || has_substring(url, "wayf"@) {
        LoginPage::FederationSearch
    } else if has_substring(url, "ent.uca.fr/cas"@) {
        LoginPage::CredentialForm
    } else if has_substring(url, "idp.uca.fr"@) {
        LoginPage::Consent
    } else if bases_equal(url, target) {
        LoginPage::Target
    } else {
        LoginPage::Unknown
    }
}

/// Classification of a URL for the university moodle site.
pub open spec fn spec_classify_uca_moodle(url: Seq<char>, target: Seq<char>) -> LoginPage {
    if bases_equal(url, target) {
        LoginPage::Target
    } else if has_substring(url, "ent.uca.fr/cas"@) {
        LoginPage::CredentialForm
    } else {
        LoginPage::Unknown
    }
}

/// Classification of a URL for a given site and target.
pub open spec fn spec_classify(site: Site, url: Seq<char>, target: Seq<char>) -> LoginPage {
    match site {
        Site::Caseine => spec_classify_caseine(url, target),
        Site::UcaMoodle => spec_classify_uca_moodle(url, target),
    }
}

/// Classify the current page URL into a login state. Pure: reads nothing but
/// its arguments, so it can be tested against captured URLs.
pub fn classify_page(site: Site, url: &str, target_url: &str) -> (r: LoginPage)
    ensures
        r == spec_classify(site, url@, target_url@),
{
    match site {
        Site::Caseine => {
            if contains_str(url, "/mod/vpl/") && !contains_str(url, "login") && !contains_str(
                url,
                "enrol",
            ) {
                LoginPage::Target
            } else if contains_str(url, "enrol/index.php") {
                LoginPage::Enrollment
            } else if contains_str(url, "moodle.caseine.org/login/index.php") {
                LoginPage::ProviderSelect
            } else if contains_str(url, "discovery.renater.fr") || contains_str(url, "wayf") {
                LoginPage::FederationSearch
            } else if contains_str(url, "ent.uca.fr/cas") {
                LoginPage::CredentialForm
            } else if contains_str(url, "idp.uca.fr") {
                LoginPage::Consent
            } else if url_base_eq(url, target_url) {
                LoginPage::Target
            } else {
                LoginPage::Unknown
            }
        },
        Site::UcaMoodle => {
            if url_base_eq(url, target_url) {
                LoginPage::Target
            } else if contains_str(url, "ent.uca.fr/cas") {
                LoginPage::CredentialForm
            } else {
                LoginPage::Unknown
            }
        },
    }
}

/// The one transition action of a login state. Exactly the states other
/// than `Target` and `Unknown` have an action; `Target` is terminal and
/// `Unknown` is handled by the wait-or-fail policy of `login_step`.
pub fn transition_action(state: LoginPage) -> (r: Option<LoginAction>)
    ensures
        r == spec_transition_action(state),
{
    match state {
        LoginPage::Target => None,
        LoginPage::Enrollment => Some(LoginAction::ClickContinue),
        LoginPage::ProviderSelect => Some(LoginAction::ClickProviderButton),
        LoginPage::FederationSearch => Some(LoginAction::SelectUniversity),
        LoginPage::CredentialForm => Some(LoginAction::SubmitCredentials),
        LoginPage::Consent => Some(LoginAction::ClickConsent),
        LoginPage::Unknown => None,
    }
}

/// Specification of `transition_action`.
pub open spec fn spec_transition_action(state: LoginPage) -> Option<LoginAction> {
    match state {
        LoginPage::Target => None,
        LoginPage::Enrollment => Some(LoginAction::ClickContinue),
        LoginPage::ProviderSelect => Some(LoginAction::ClickProviderButton),
        LoginPage::FederationSearch => Some(LoginAction::SelectUniversity),
        LoginPage::CredentialForm => Some(LoginAction::SubmitCredentials),
        LoginPage::Consent => Some(LoginAction::ClickConsent),
        LoginPage::Unknown => None,
    }
}

/// What the login loop does for one observed state.
#[derive(Clone, Copy, Debug, PartialEq, Eq, Structural)]
pub enum LoginStep {
    /// The target is reached; stop with success.
    Done,
    /// Perform this one action and loop.
    Act(LoginAction),
    /// Wait and re-poll: the page is unknown but a human may be
    /// intervening.
    Wait,
    /// The page is unknown and nobody is expected to intervene; fail.
    Fail,
}

/// One decision of the login loop. In semi-manual mode an unknown page
/// means "wait for the human"; otherwise it is an unexpected page and
/// fatal. Every state other than `Target` and `Unknown` yields exactly one
/// transition action.
pub fn login_step(state: LoginPage, semi_manual: bool) -> (r: LoginStep)
    ensures
        r == spec_login_step(state, semi_manual),
        state is Target <==> r is Done,
        (!(state is Target) && !(state is Unknown)) ==> r == LoginStep::Act(
            spec_transition_action(state)->0,
        ),
{
    match transition_action(state) {
        Some(action) => LoginStep::Act(action),
        None => {
            if matches!(state, LoginPage::Target) {
                LoginStep::Done
            } else if semi_manual {
                LoginStep::Wait
            } else {
                LoginStep::Fail
            }
        },
    }
}

/// Specification of `login_step`.
pub open spec fn spec_login_step(state: LoginPage, semi_manual: bool) -> LoginStep {
    match spec_transition_action(state) {
        Some(action) => LoginStep::Act(action),
        None => if state is Target {
            LoginStep::Done
        } else if semi_manual {
            LoginStep::Wait
        } else {
            LoginStep::Fail
        },
    }
}

/// The outcome of running the login loop over a scripted sequence of
/// classified page states, one observation per loop iteration.
#[derive(Clone, Copy, Debug, PartialEq, Eq, Structural)]
pub enum LoginRun {
    /// The target was reached after this many transition actions.
    Reached { actions: usize },
    /// An unknown page stopped the loop at this observation index.
    Failed { at: usize },
    /// The script ended before the target was reached.
    Exhausted { actions: usize },
}

/// The login loop over scripted observations: classify, stop on target,
/// fail on unknown (unless semi-manual), otherwise perform the one action
/// and continue.
pub open spec fn spec_run_login(states: Seq<LoginPage>, semi_manual: bool) -> LoginRun
    decreases states.len(),
{
    if states.len() == 0 {
        LoginRun::Exhausted { actions: 0 }
    } else {
        match spec_login_step(states[0], semi_manual) {
            LoginStep::Done => LoginRun::Reached { actions: 0 },
            LoginStep::Fail => LoginRun::Failed { at: 0 },
            LoginStep::Wait => match spec_run_login(states.subrange(1, states.len() as int),
                semi_manual,
            ) {
                LoginRun::Reached { actions } => LoginRun::Reached { actions },
                LoginRun::Failed { at } => LoginRun::Failed { at: (at + 1) as usize },
                LoginRun::Exhausted { actions } => LoginRun::Exhausted { actions },
            },
            LoginStep::Act(_) => match spec_run_login(states.subrange(1, states.len() as int),
                semi_manual,
            ) {
                LoginRun::Reached { actions } => LoginRun::Reached { actions: (actions + 1) as usize },
                LoginRun::Failed { at } => LoginRun::Failed { at: (at + 1) as usize },
                LoginRun::Exhausted { actions } => LoginRun::Exhausted { actions: (actions + 1) as usize },
            },
        }
    }
}

/// Run the login loop over a scripted sequence of classified states.
/// One transition action is attempted per non-target iteration, and the
/// loop never runs past the script: it terminates within `states.len()`
/// iterations.
pub fn run_login_script(states: &Vec<LoginPage>, semi_manual: bool) -> (r: LoginRun)
    ensures
        r == spec_run_login(states@, semi_manual),
        (match r {
            LoginRun::Reached { actions } => actions < states@.len() || states@.len() == 0,
            LoginRun::Failed { at } => at < states@.len(),
            LoginRun::Exhausted { actions } => actions <= states@.len(),
        }),
{
    proof {
        assert(states@.subrange(0, states@.len() as int) =~= states@);
    }
    run_login_from(states, 0, semi_manual)
}

/// The login loop from observation index `i` on.
fn run_login_from(states: &Vec<LoginPage>, i: usize, semi_manual: bool) -> (r: LoginRun)
    requires
        i <= states@.len(),
    ensures
        r == spec_run_login(states@.subrange(i as int, states@.len() as int), semi_manual),
        (match r {
            LoginRun::Reached { actions } => i + actions < states@.len() || states@.len() == i,
            LoginRun::Failed { at } => i + at < states@.len(),
            LoginRun::Exhausted { actions } => i + actions <= states@.len(),
        }),
    decreases states@.len() - i,
{
    let ghost suffix = states@.subrange(i as int, states@.len() as int);
    if i == states.len() {
        return LoginRun::Exhausted { actions: 0 };
    }
    proof {
        assert(suffix[0] == states@[i as int]);
        assert(suffix.subrange(1, suffix.len() as int) =~= states@.subrange(
            i + 1,
            states@.len() as int,
        ));
    }
    match login_step(states[i], semi_manual) {
        LoginStep::Done => LoginRun::Reached { actions: 0 },
        LoginStep::Fail => LoginRun::Failed { at: 0 },
        LoginStep::Wait => {
            match run_login_from(states, i + 1, semi_manual) {
                LoginRun::Reached { actions } => LoginRun::Reached { actions },
                LoginRun::Failed { at } => LoginRun::Failed { at: at + 1 },
                LoginRun::Exhausted { actions } => LoginRun::Exhausted { actions },
            }
        },
        LoginStep::Act(_) => {
            match run_login_from(states, i + 1, semi_manual) {
                LoginRun::Reached { actions } => LoginRun::Reached { actions: actions + 1 },
                LoginRun::Failed { at } => LoginRun::Failed { at: at + 1 },
                LoginRun::Exhausted { actions } => LoginRun::Exhausted { actions: actions + 1 },
            }
        },
    }
}

/// From any state other than `Target`, the full scripted chain of login
/// pages — enrollment gate, provider selection, federation search,
/// credential form, consent — reaches the target with exactly one action
/// per page, five in all, and so terminates in a bounded number of
/// iterations.
pub proof fn lemma_login_script_reaches_target()
    ensures
        spec_run_login(
            seq![
                LoginPage::Enrollment,
                LoginPage::ProviderSelect,
                LoginPage::FederationSearch,
                LoginPage::CredentialForm,
                LoginPage::Consent,
                LoginPage::Target,
            ],
            false,
        ) == (LoginRun::Reached { actions: 5 }),
{
    reveal_with_fuel(spec_run_login, 8);
    let s = seq![
        LoginPage::Enrollment,
        LoginPage::ProviderSelect,
        LoginPage::FederationSearch,
        LoginPage::CredentialForm,
        LoginPage::Consent,
        LoginPage::Target,
    ];
    assert(s.subrange(1, 6) =~= seq![
        LoginPage::ProviderSelect,
        LoginPage::FederationSearch,
        LoginPage::CredentialForm,
        LoginPage::Consent,
        LoginPage::Target,
    ]);
    assert(s.subrange(1, 6).subrange(1, 5) =~= seq![
        LoginPage::FederationSearch,
        LoginPage::CredentialForm,
        LoginPage::Consent,
        LoginPage::Target,
    ]);
    assert(s.subrange(1, 6).subrange(1, 5).subrange(1, 4) =~= seq![
        LoginPage::CredentialForm,
        LoginPage::Consent,
        LoginPage::Target,
    ]);
    assert(s.subrange(1, 6).subrange(1, 5).subrange(1, 4).subrange(1, 3) =~= seq![
        LoginPage::Consent,
        LoginPage::Target,
    ]);
    assert(s.subrange(1, 6).subrange(1, 5).subrange(1, 4).subrange(1, 3).subrange(1, 2)
        =~= seq![LoginPage::Target]);
}

} // verus!
