use fortitude_webview::cookie::Cookie;
use fortitude_webview::session::{Action, Event, State};

fn navigated(url: &str) -> Event {
    Event::Navigated { url: url.to_string() }
}

fn fetched(pairs: &[(&str, &str)]) -> Event {
    let cookies = pairs
        .iter()
        .map(|(name, value)| Cookie {
            name: Some(name.to_string()),
            value: Some(value.to_string()),
        })
        .collect();
    Event::CookiesFetched { cookies }
}

fn awaiting() -> State {
    State::AwaitingMatch { query: None }
}

fn querying(scope: &str) -> State {
    State::AwaitingMatch { query: Some(scope.to_string()) }
}

fn matched(credential: &str) -> State {
    State::Matched { credential: credential.to_string() }
}

fn query(scope: &str) -> Action {
    Action::QueryCookies { scope: scope.to_string() }
}

fn finish(result: Option<&str>) -> Action {
    Action::Finish { result: result.map(|r| r.to_string()) }
}

#[test]
fn a_run_starts_by_waiting_for_an_address() {
    let state = State::new();
    assert_eq!(state, awaiting());
    assert_eq!(state.action(), Action::AwaitNavigation);
}

#[test]
fn login_through_two_pages_ends_with_the_credential() {
    let state = State::new();

    let (state, action) = state.step(&navigated("https://idp.example/login"));
    assert_eq!(state, awaiting());
    assert_eq!(action, Action::AwaitNavigation);

    let (state, action) = state.step(&navigated("https://idp.example/mfa"));
    assert_eq!(state, awaiting());
    assert_eq!(action, Action::AwaitNavigation);

    let (state, action) = state.step(&navigated("https://vpn.example.com/sslvpn/portal.html"));
    assert_eq!(state, querying("https://vpn.example.com/"));
    assert_eq!(action, query("https://vpn.example.com/"));

    let (state, action) = state.step(&fetched(&[("SVPNCOOKIE", "xyz")]));
    assert_eq!(state, matched("SVPNCOOKIE=xyz"));
    assert_eq!(action, finish(Some("SVPNCOOKIE=xyz")));
}

#[test]
fn replay_of_a_login_ends_with_the_credential() {
    let events = vec![
        navigated("https://idp.example/login"),
        navigated("https://idp.example/mfa"),
        navigated("https://vpn.example.com/sslvpn/portal.html"),
        fetched(&[("SVPNCOOKIE", "xyz")]),
    ];
    let end = State::new().replay(&events);
    assert_eq!(end, matched("SVPNCOOKIE=xyz"));
    assert_eq!(end.action(), finish(Some("SVPNCOOKIE=xyz")));
    for n in 0..events.len() {
        assert!(matches!(State::new().replay(&events[..n]), State::AwaitingMatch { .. }));
    }
}

#[test]
fn stream_that_closes_without_a_match_ends_without_a_result() {
    let events = vec![
        navigated("https://idp.example/login"),
        navigated("https://idp.example/mfa"),
        Event::StreamClosed,
    ];
    let mut state = State::new();
    for event in &events[..2] {
        let (after, action) = state.step(event);
        assert_eq!(action, Action::AwaitNavigation);
        state = after;
    }
    let (state, action) = state.step(&Event::StreamClosed);
    assert_eq!(state, State::StreamEnded);
    assert_eq!(action, finish(None));
    assert_eq!(State::new().replay(&events), State::StreamEnded);
}

#[test]
fn stream_that_closes_at_once_ends_without_a_result() {
    let (state, action) = State::new().step(&Event::StreamClosed);
    assert_eq!(state, State::StreamEnded);
    assert_eq!(action, finish(None));
}

#[test]
fn second_arrival_at_the_portal_gives_no_second_credential() {
    let portal = "https://vpn.example.com/sslvpn/portal.html";
    let (state, _) = State::new().step(&navigated(portal));
    let (state, first) = state.step(&fetched(&[("SVPNCOOKIE", "xyz")]));
    assert_eq!(first, finish(Some("SVPNCOOKIE=xyz")));

    let (state, action) = state.step(&navigated(portal));
    assert_eq!(state, matched("SVPNCOOKIE=xyz"));
    assert_eq!(action, finish(Some("SVPNCOOKIE=xyz")));

    let (state, action) = state.step(&fetched(&[("SVPNCOOKIE", "other")]));
    assert_eq!(state, matched("SVPNCOOKIE=xyz"));
    assert_eq!(action, finish(Some("SVPNCOOKIE=xyz")));
}

#[test]
fn run_that_is_over_heeds_no_event() {
    let events = vec![
        navigated("https://vpn.example.com/sslvpn/portal.html"),
        fetched(&[("SVPNCOOKIE", "other")]),
        Event::CookieQueryFailed,
        Event::StreamClosed,
        navigated("https://idp.example/login"),
    ];
    for event in &events {
        let (state, action) = matched("SVPNCOOKIE=xyz").step(event);
        assert_eq!(state, matched("SVPNCOOKIE=xyz"));
        assert_eq!(action, finish(Some("SVPNCOOKIE=xyz")));

        let (state, action) = State::StreamEnded.step(event);
        assert_eq!(state, State::StreamEnded);
        assert_eq!(action, finish(None));
    }
    assert_eq!(matched("SVPNCOOKIE=xyz").replay(&events), matched("SVPNCOOKIE=xyz"));
    assert_eq!(State::StreamEnded.replay(&events), State::StreamEnded);
}

#[test]
fn portal_without_the_cookie_lets_the_run_go_on() {
    let portal = "https://vpn.example.com/sslvpn/portal.html";
    let (state, action) = State::new().step(&navigated(portal));
    assert_eq!(action, query("https://vpn.example.com/"));

    let (state, action) = state.step(&fetched(&[("OTHER", "x"), ("svpncookie", "abc123")]));
    assert_eq!(state, awaiting());
    assert_eq!(action, Action::AwaitNavigation);

    let (state, action) = state.step(&navigated(portal));
    assert_eq!(action, query("https://vpn.example.com/"));
    let (state, action) = state.step(&fetched(&[("OTHER", "x"), ("SVPNCOOKIE", "abc123")]));
    assert_eq!(state, matched("SVPNCOOKIE=abc123"));
    assert_eq!(action, finish(Some("SVPNCOOKIE=abc123")));
}

#[test]
fn failed_query_lets_the_run_go_on() {
    let (state, _) = State::new().step(&navigated("https://a/sslvpn/portal.html"));
    let (state, action) = state.step(&Event::CookieQueryFailed);
    assert_eq!(state, awaiting());
    assert_eq!(action, Action::AwaitNavigation);
}

#[test]
fn malformed_session_cookie_lets_the_run_go_on() {
    let (state, _) = State::new().step(&navigated("https://a/sslvpn/portal.html"));
    let cookies = vec![Cookie { name: Some("SVPNCOOKIE".to_string()), value: None }];
    let (state, action) = state.step(&Event::CookiesFetched { cookies });
    assert_eq!(state, awaiting());
    assert_eq!(action, Action::AwaitNavigation);
}

#[test]
fn cookies_that_nobody_asked_for_are_not_heeded() {
    let (state, action) = State::new().step(&fetched(&[("SVPNCOOKIE", "xyz")]));
    assert_eq!(state, awaiting());
    assert_eq!(action, Action::AwaitNavigation);

    let (state, action) = state.step(&Event::CookieQueryFailed);
    assert_eq!(state, awaiting());
    assert_eq!(action, Action::AwaitNavigation);
}

#[test]
fn address_that_comes_during_a_query_is_not_heeded() {
    let (state, action) = querying("https://a/").step(&navigated("https://b/sslvpn/portal.html"));
    assert_eq!(state, querying("https://a/"));
    assert_eq!(action, query("https://a/"));

    let (state, action) = state.step(&navigated("https://idp.example/login"));
    assert_eq!(state, querying("https://a/"));
    assert_eq!(action, query("https://a/"));
}

#[test]
fn stream_that_closes_during_a_query_ends_the_run() {
    let (state, action) = querying("https://a/").step(&Event::StreamClosed);
    assert_eq!(state, State::StreamEnded);
    assert_eq!(action, finish(None));
}

#[test]
fn other_address_asks_for_no_query() {
    for url in ["", "https://idp.example/login", "https://vpn.example.com/SSLVPN/portal.html"] {
        let (state, action) = State::new().step(&navigated(url));
        assert_eq!(state, awaiting());
        assert_eq!(action, Action::AwaitNavigation);
    }
}

#[test]
fn query_is_asked_under_the_scope_of_the_address() {
    let (state, action) =
        State::new().step(&navigated("https://vpn.example.com/sslvpn/portal.html?x=1"));
    assert_eq!(state, querying("https://vpn.example.com/"));
    assert_eq!(action, query("https://vpn.example.com/"));

    let (state, action) = State::new().step(&navigated("sslvpn/portal.html"));
    assert_eq!(state, querying(""));
    assert_eq!(action, query(""));
}

#[test]
fn action_goes_by_the_state() {
    assert_eq!(awaiting().action(), Action::AwaitNavigation);
    assert_eq!(querying("https://a/").action(), query("https://a/"));
    assert_eq!(matched("SVPNCOOKIE=xyz").action(), finish(Some("SVPNCOOKIE=xyz")));
    assert_eq!(State::StreamEnded.action(), finish(None));
}

#[test]
fn replay_of_nothing_changes_nothing() {
    assert_eq!(State::new().replay(&[]), awaiting());
    assert_eq!(querying("https://a/").replay(&[]), querying("https://a/"));
}

#[test]
fn replay_is_stepping_through() {
    let events = vec![
        navigated("https://idp.example/login"),
        fetched(&[("SVPNCOOKIE", "early")]),
        navigated("https://vpn.example.com/sslvpn/portal.html"),
        Event::CookieQueryFailed,
        navigated("https://vpn.example.com/sslvpn/portal.html#again"),
        fetched(&[("OTHER", "x"), ("SVPNCOOKIE", "abc123")]),
        navigated("https://vpn.example.com/sslvpn/portal.html"),
    ];
    let mut state = State::new();
    for (n, event) in events.iter().enumerate() {
        let (after, action) = state.step(event);
        assert_eq!(after, State::new().replay(&events[..n + 1]));
        assert_eq!(action, after.action());
        state = after;
    }
    assert_eq!(state, matched("SVPNCOOKIE=abc123"));
}
