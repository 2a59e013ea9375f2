use uni_headless::login::{
    classify_page, run_login_script, transition_action, LoginAction, LoginPage, LoginRun, Site,
};

const TARGET: &str = "https://moodle.caseine.org/mod/quiz/view.php?id=1234";

#[test]
fn site_detection_by_host() {
    assert!(matches!(Site::detect("https://moodle.caseine.org/x"), Site::Caseine));
    assert!(matches!(Site::detect("https://moodle2025.uca.fr/x"), Site::UcaMoodle));
    assert_eq!(Site::Caseine.name(), "caseine.org");
    assert_eq!(Site::UcaMoodle.name(), "moodle2025.uca.fr");
}

#[test]
fn caseine_pages_classify_by_url_markers() {
    let s = Site::Caseine;
    assert!(matches!(
        classify_page(s, "https://moodle.caseine.org/enrol/index.php?id=7", TARGET),
        LoginPage::Enrollment
    ));
    assert!(matches!(
        classify_page(s, "https://moodle.caseine.org/login/index.php", TARGET),
        LoginPage::ProviderSelect
    ));
    assert!(matches!(
        classify_page(s, "https://discovery.renater.fr/idp?entityID=x", TARGET),
        LoginPage::FederationSearch
    ));
    assert!(matches!(
        classify_page(s, "https://ent.uca.fr/cas/login?service=y", TARGET),
        LoginPage::CredentialForm
    ));
    assert!(matches!(
        classify_page(s, "https://idp.uca.fr/consent", TARGET),
        LoginPage::Consent
    ));
    assert!(matches!(
        classify_page(s, "https://somewhere.example.org/", TARGET),
        LoginPage::Unknown
    ));
}

#[test]
fn target_comparison_ignores_query_string() {
    let s = Site::UcaMoodle;
    let reached = "https://moodle.caseine.org/mod/quiz/view.php?id=1234&tracking=zz";
    assert!(matches!(classify_page(s, reached, TARGET), LoginPage::Target));
    let other = "https://moodle.caseine.org/mod/quiz/review.php?id=1234";
    assert!(!matches!(classify_page(s, other, TARGET), LoginPage::Target));
}

#[test]
fn vpl_target_detected_directly() {
    let s = Site::Caseine;
    let vpl = "https://moodle.caseine.org/mod/vpl/view.php?id=9";
    assert!(matches!(classify_page(s, vpl, vpl), LoginPage::Target));
}

#[test]
fn every_intermediate_state_has_exactly_one_action() {
    assert!(matches!(
        transition_action(LoginPage::Enrollment),
        Some(LoginAction::ClickContinue)
    ));
    assert!(matches!(
        transition_action(LoginPage::ProviderSelect),
        Some(LoginAction::ClickProviderButton)
    ));
    assert!(matches!(
        transition_action(LoginPage::FederationSearch),
        Some(LoginAction::SelectUniversity)
    ));
    assert!(matches!(
        transition_action(LoginPage::CredentialForm),
        Some(LoginAction::SubmitCredentials)
    ));
    assert!(matches!(transition_action(LoginPage::Consent), Some(LoginAction::ClickConsent)));
    assert!(transition_action(LoginPage::Target).is_none());
    assert!(transition_action(LoginPage::Unknown).is_none());
}

#[test]
fn scripted_chain_reaches_target_in_five_actions() {
    let script = vec![
        LoginPage::Enrollment,
        LoginPage::ProviderSelect,
        LoginPage::FederationSearch,
        LoginPage::CredentialForm,
        LoginPage::Consent,
        LoginPage::Target,
    ];
    assert_eq!(run_login_script(&script, false), LoginRun::Reached { actions: 5 });
}

#[test]
fn unknown_page_fails_unless_semi_manual() {
    let script = vec![LoginPage::Enrollment, LoginPage::Unknown, LoginPage::Target];
    assert_eq!(run_login_script(&script, false), LoginRun::Failed { at: 1 });
    assert_eq!(run_login_script(&script, true), LoginRun::Reached { actions: 1 });
}
