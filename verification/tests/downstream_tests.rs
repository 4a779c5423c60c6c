use sso_relay::downstream::affairs_on_cas_response;
use sso_relay::downstream::affairs_on_service_response;
use sso_relay::downstream::combine_login_results;
use sso_relay::downstream::courseware_begin;
use sso_relay::downstream::courseware_conclude;
use sso_relay::downstream::courseware_stop_rule;
use sso_relay::downstream::identity_header;
use sso_relay::downstream::zdbk_cookies;
use sso_relay::downstream::ServiceWarning;
use sso_relay::errors::DeriveError;
use sso_relay::errors::ProtocolFault;
use sso_relay::redirect::chain_step;
use sso_relay::redirect::ChainStepResult;
use sso_relay::sso::on_submission;
use sso_relay::store::ServiceId;
use sso_relay::store::SessionHandle;
use sso_relay::store::SessionStore;

fn logged_in_store() -> SessionStore {
    let mut store = SessionStore::new();
    let set_cookies = vec!["iPlanetDirectoryPro=TGT-xyz; Path=/".to_string()];
    on_submission(&set_cookies, "student1", &mut store).unwrap();
    store
}

#[test]
fn identity_header_replays_the_cookie() {
    let store = logged_in_store();
    assert_eq!(identity_header(&store).as_deref(), Ok("iPlanetDirectoryPro=TGT-xyz"));
}

#[test]
fn derivation_requires_prior_login() {
    let empty = SessionStore::new();
    assert_eq!(identity_header(&empty).err(), Some(DeriveError::NotAuthenticated));
    assert_eq!(courseware_begin(&empty).err(), Some(DeriveError::NotAuthenticated));
    let mut store = SessionStore::new();
    let r = affairs_on_service_response(&vec!["JSESSIONID=A; Path=/jwglxt".to_string()], &mut store);
    assert_eq!(r.err(), Some(DeriveError::NotAuthenticated));
}

#[test]
fn cas_must_answer_with_a_redirect() {
    assert_eq!(
        affairs_on_cas_response(None).err(),
        Some(DeriveError::Protocol(ProtocolFault::MissingRedirect))
    );
    assert_eq!(
        affairs_on_cas_response(Some("http://zdbk.example/sso".to_string())).as_deref(),
        Ok("https://zdbk.example/sso")
    );
}

#[test]
fn affairs_harvests_both_cookies() {
    let mut store = logged_in_store();
    let lines = vec![
        "JSESSIONID=SESS1; Path=/jwglxt; HttpOnly".to_string(),
        "route=node7; Path=/".to_string(),
    ];
    affairs_on_service_response(&lines, &mut store).unwrap();
    let handle = store.get_downstream_session(ServiceId::AcademicAffairs).unwrap();
    assert_eq!(
        handle,
        SessionHandle::AffairsPair {
            session: "JSESSIONID=SESS1".to_string(),
            route: "route=node7".to_string(),
        }
    );
}

#[test]
fn affairs_session_cookie_must_name_the_application_path() {
    let mut store = logged_in_store();
    // A JSESSIONID scoped elsewhere does not count as the portal session.
    let lines = vec![
        "JSESSIONID=WRONG; Path=/other".to_string(),
        "route=node7; Path=/".to_string(),
    ];
    let r = affairs_on_service_response(&lines, &mut store);
    assert_eq!(r.err(), Some(DeriveError::Protocol(ProtocolFault::MissingAffairsSession)));
    assert_eq!(store.get_downstream_session(ServiceId::AcademicAffairs), None);
}

#[test]
fn affairs_requires_the_route_cookie() {
    let mut store = logged_in_store();
    let lines = vec!["JSESSIONID=SESS1; Path=/jwglxt".to_string()];
    let r = affairs_on_service_response(&lines, &mut store);
    assert_eq!(r.err(), Some(DeriveError::Protocol(ProtocolFault::MissingAffairsRoute)));
    assert_eq!(store.get_downstream_session(ServiceId::AcademicAffairs), None);
}

#[test]
fn zdbk_cookie_header_joins_the_pair() {
    assert_eq!(zdbk_cookies("JSESSIONID=S", "route=r"), "JSESSIONID=S; route=r");
}

#[test]
fn courseware_chain_derives_a_session() {
    let mut store = logged_in_store();
    let state = courseware_begin(&store).unwrap();
    assert_eq!(state.url, "https://courses.zju.edu.cn/user/index");
    assert_eq!(state.cookies, vec!["iPlanetDirectoryPro=TGT-xyz".to_string()]);
    let rule = courseware_stop_rule();

    // First hop: an intermediate SSO redirect that sets the session cookie.
    let r1 = chain_step(
        state,
        Some("https://courses.zju.edu.cn/login-complete".to_string()),
        &vec!["session=COURSETOK; Path=/; HttpOnly".to_string()],
        &rule,
    );
    let s1 = match r1 {
        ChainStepResult::Proceed(s) => s,
        _ => panic!("expected to proceed"),
    };

    // Second hop: back at the landing page with the session in hand.
    let r2 = chain_step(
        s1,
        Some("https://courses.zju.edu.cn/user/index".to_string()),
        &vec![],
        &rule,
    );
    assert!(matches!(r2, ChainStepResult::Stopped(_)));
    let token = courseware_conclude(r2, &mut store).unwrap();
    assert_eq!(token, "session=COURSETOK");
    assert_eq!(
        store.get_downstream_session(ServiceId::Courseware),
        Some(SessionHandle::CoursewareToken { token: "session=COURSETOK".to_string() })
    );
}

#[test]
fn courseware_chain_without_session_fails() {
    let mut store = logged_in_store();
    let state = courseware_begin(&store).unwrap();
    let rule = courseware_stop_rule();
    let r = chain_step(state, None, &vec!["other=x".to_string()], &rule);
    let err = courseware_conclude(r, &mut store).err();
    assert_eq!(err, Some(DeriveError::Protocol(ProtocolFault::SessionNotObtained)));
    assert_eq!(store.get_downstream_session(ServiceId::Courseware), None);
}

#[test]
fn partial_success_reports_exactly_one_warning() {
    // One downstream fixture succeeds, the other fails on a missing route
    // cookie: the overall login succeeds with one warning naming the failed
    // service, and only the succeeding service has a session.
    let mut store = logged_in_store();

    let affairs_lines = vec!["JSESSIONID=SESS1; Path=/jwglxt".to_string()];
    let affairs_result = affairs_on_service_response(&affairs_lines, &mut store);
    assert!(affairs_result.is_err());

    let state = courseware_begin(&store).unwrap();
    let rule = courseware_stop_rule();
    let r = chain_step(
        state,
        Some("https://courses.zju.edu.cn/user/index".to_string()),
        &vec!["session=TOK; Path=/".to_string()],
        &rule,
    );
    let courseware_result = courseware_conclude(r, &mut store).map(|_| ());
    assert!(courseware_result.is_ok());

    let warnings = combine_login_results(&affairs_result, &courseware_result);
    assert_eq!(
        warnings,
        vec![ServiceWarning {
            service: ServiceId::AcademicAffairs,
            fault: DeriveError::Protocol(ProtocolFault::MissingAffairsRoute),
        }]
    );
    assert_eq!(store.get_downstream_session(ServiceId::AcademicAffairs), None);
    assert!(store.get_downstream_session(ServiceId::Courseware).is_some());
}

#[test]
fn transport_failures_surface_as_warnings() {
    let warnings = combine_login_results(&Err(DeriveError::Transport), &Ok(()));
    assert_eq!(
        warnings,
        vec![ServiceWarning { service: ServiceId::AcademicAffairs, fault: DeriveError::Transport }]
    );
    let none = combine_login_results(&Ok(()), &Ok(()));
    assert!(none.is_empty());
}
