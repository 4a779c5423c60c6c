use sso_relay::errors::ProtocolFault;
use sso_relay::redirect::chain_outcome;
use sso_relay::redirect::chain_step;
use sso_relay::redirect::normalize_location;
use sso_relay::redirect::ChainState;
use sso_relay::redirect::ChainStepResult;
use sso_relay::redirect::StopRule;
use sso_relay::redirect::HOP_LIMIT;

fn fresh(url: &str) -> ChainState {
    ChainState { url: url.to_string(), cookies: Vec::new(), hops: 0 }
}

#[test]
fn normalizes_downgraded_scheme() {
    assert_eq!(normalize_location("http://zdbk.example/login"), "https://zdbk.example/login");
    assert_eq!(normalize_location("https://already.fine/"), "https://already.fine/");
    assert_eq!(normalize_location("relative/path"), "relative/path");
}

#[test]
fn self_redirecting_server_is_a_redirect_loop() {
    // A fixture server that always redirects back to itself must be cut off
    // at the hop ceiling and reported as a redirect loop.
    let mut state = fresh("https://loop.example/a");
    let mut steps = 0usize;
    loop {
        steps += 1;
        assert!(steps <= HOP_LIMIT, "the chain must terminate within the hop ceiling");
        let r = chain_step(
            state,
            Some("https://loop.example/a".to_string()),
            &vec!["seen=1; Path=/".to_string()],
            &StopRule::UntilChainEnds,
        );
        match r {
            ChainStepResult::Proceed(next) => state = next,
            other => {
                assert!(matches!(other, ChainStepResult::LoopDetected(_)));
                assert_eq!(chain_outcome(other).err(), Some(ProtocolFault::RedirectLoop));
                return;
            }
        }
    }
}

#[test]
fn chain_ends_when_no_location_comes() {
    let r = chain_step(
        fresh("https://one.example/"),
        None,
        &vec!["s=v; Path=/".to_string()],
        &StopRule::UntilChainEnds,
    );
    match r {
        ChainStepResult::Ended(state) => {
            assert_eq!(state.cookies, vec!["s=v".to_string()]);
            assert_eq!(state.hops, 0);
        }
        _ => panic!("expected the chain to end"),
    }
}

#[test]
fn chain_accumulates_cookies_across_hops() {
    let rule = StopRule::UntilChainEnds;
    let r1 = chain_step(
        fresh("https://a.example/"),
        Some("https://b.example/".to_string()),
        &vec!["first=1; Path=/".to_string()],
        &rule,
    );
    let s1 = match r1 {
        ChainStepResult::Proceed(s) => s,
        _ => panic!("expected to proceed"),
    };
    assert_eq!(s1.url, "https://b.example/");
    assert_eq!(s1.hops, 1);
    let r2 = chain_step(s1, None, &vec!["second=2".to_string()], &rule);
    match r2 {
        ChainStepResult::Ended(state) => {
            assert_eq!(state.cookies, vec!["first=1".to_string(), "second=2".to_string()]);
        }
        _ => panic!("expected the chain to end"),
    }
}

#[test]
fn stop_rule_needs_both_conditions() {
    let rule = StopRule::LandingWithCookie {
        landing: "https://portal.example/home".to_string(),
        cookie_name: "session".to_string(),
    };
    // Landing reached but no session cookie yet: keep following.
    let r = chain_step(
        fresh("https://portal.example/start"),
        Some("https://portal.example/home".to_string()),
        &vec!["unrelated=x".to_string()],
        &rule,
    );
    assert!(matches!(r, ChainStepResult::Proceed(_)));

    // Session cookie seen but an intermediate target: keep following.
    let r2 = chain_step(
        fresh("https://portal.example/start"),
        Some("https://portal.example/intermediate".to_string()),
        &vec!["session=tok; Path=/".to_string()],
        &rule,
    );
    let s2 = match r2 {
        ChainStepResult::Proceed(s) => s,
        _ => panic!("expected to proceed"),
    };

    // Both at once: stop.
    let r3 = chain_step(
        s2,
        Some("https://portal.example/home".to_string()),
        &vec![],
        &rule,
    );
    assert!(matches!(r3, ChainStepResult::Stopped(_)));
}
