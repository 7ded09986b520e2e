//! The retry/backoff/progress state machine and the registry.

use sublist3r_rs::domains::DomainSet;
use sublist3r_rs::enumerate::{Engine, EngineTag, Enumerator, RoundOutcome};
use sublist3r_rs::virustotal::VirusTotal;

#[test]
fn backoff_overflow_stops_the_loop() {
    let en = Enumerator::new(Engine::from_tag(EngineTag::Google, "example.com"));
    let outcomes: Vec<RoundOutcome> = (0..10).map(|_| RoundOutcome::NetworkError).collect();
    let (found, consumed) = en.enumerate(outcomes);
    // backoff runs 1, 2, 4, 8, 16: the cap is hit within five failures
    assert!(consumed <= 5);
    assert_eq!(consumed, 4);
    assert_eq!(found.len(), 0);
}

#[test]
fn retry_cap_stops_the_loop_on_stagnation() {
    let en = Enumerator::new(Engine::from_tag(EngineTag::Yahoo, "example.com"));
    // yahoo allows 50 rounds, but ten stagnant pages exhaust the retries
    let outcomes: Vec<RoundOutcome> = (0..50)
        .map(|_| RoundOutcome::Body("no matches".to_owned()))
        .collect();
    let (found, consumed) = en.enumerate(outcomes);
    assert_eq!(consumed, 10);
    assert_eq!(found.len(), 0);
}

#[test]
fn progress_rewards_keep_the_loop_alive_until_the_round_cap() {
    let en = Enumerator::new(Engine::from_tag(EngineTag::Google, "example.com"));
    // one new hostname on every odd round, nothing on even rounds
    let outcomes: Vec<RoundOutcome> = (0..30)
        .map(|i| {
            if i % 2 == 0 {
                RoundOutcome::Body(format!("<span>h{i}.example.com &#8250; t</span>"))
            } else {
                RoundOutcome::Body("nothing new".to_owned())
            }
        })
        .collect();
    let (found, consumed) = en.enumerate(outcomes);
    // google's round cap is 20; retries oscillate between 0 and 1
    assert_eq!(consumed, 20);
    assert_eq!(found.len(), 10);
    assert!(found.contains_str("h0.example.com"));
    assert!(found.contains_str("h18.example.com"));
    assert!(!found.contains_str("h20.example.com"));
}

#[test]
fn single_shot_source_stops_after_one_round() {
    let en = Enumerator::new(Engine::from_tag(EngineTag::HackerTarget, "ex.com"));
    let outcomes = vec![
        RoundOutcome::Body("a.ex.com,1.2.3.4".to_owned()),
        RoundOutcome::Body("b.ex.com,1.2.3.4".to_owned()),
    ];
    let (found, consumed) = en.enumerate(outcomes);
    assert_eq!(consumed, 1);
    assert_eq!(found.len(), 1);
    assert!(found.contains_str("a.ex.com"));
}

#[test]
fn exhausted_stream_stops_without_a_request() {
    // a cursorless page ends the stream: the next round makes no request
    let mut vt = VirusTotal::new("ex.com");
    vt.extract(r#"{"data":[{"id":"a.ex.com"}],"meta":{}}"#);
    let en = Enumerator::new(Engine::VirusTotal(vt));
    let outcomes = vec![RoundOutcome::Body("{}".to_owned())];
    let (found, consumed) = en.enumerate(outcomes);
    assert_eq!(consumed, 0);
    assert_eq!(found.len(), 0);
}

#[test]
fn failure_transition_doubles_backoff_and_counts_a_retry() {
    let mut en = Enumerator::new(Engine::from_tag(EngineTag::Bing, "ex.com"));
    let sleep = en.on_request_failure();
    assert_eq!(sleep, 1);
    assert_eq!(en.retries, 1);
    assert_eq!(en.backoff_secs, 2);
    assert_eq!(en.rounds, 0);
    let sleep = en.on_request_failure();
    assert_eq!(sleep, 2);
    assert_eq!(en.backoff_secs, 4);
}

#[test]
fn progress_pays_two_retries_back() {
    let mut en = Enumerator::new(Engine::from_tag(EngineTag::Bing, "ex.com"));
    en.on_body_failure();
    en.on_body_failure();
    en.on_body_failure();
    assert_eq!(en.retries, 3);
    en.absorb("<cite>https://app.ex.com</cite>");
    assert_eq!(en.retries, 1);
    assert_eq!(en.page, 0);
    assert_eq!(en.rounds, 1);
    en.absorb("<cite>https://app.ex.com</cite>");
    // nothing new: the page advances and a retry is charged
    assert_eq!(en.retries, 2);
    assert_eq!(en.page, 1);
    assert_eq!(en.rounds, 2);
}

#[test]
fn registry_builds_every_source() {
    let engines = Engine::all("example.com");
    assert_eq!(engines.len(), 9);
    let names: Vec<String> = engines.iter().map(|e| e.settings().name).collect();
    assert_eq!(
        names,
        vec![
            "AlienVault",
            "Baidu",
            "Bing",
            "CrtSh",
            "DNSDumpster",
            "Google",
            "HackerTarget",
            "VirusTotal",
            "Yahoo"
        ]
    );
}

#[test]
fn settings_round_caps_match_the_sources() {
    let caps: Vec<usize> = Engine::all("example.com")
        .iter()
        .map(|e| e.settings().max_rounds)
        .collect();
    assert_eq!(caps, vec![1, 20, 10, 1, 1, 20, 1, 15, 50]);
}

#[test]
fn delays_match_the_sources() {
    let delays: Vec<u64> = Engine::all("example.com")
        .iter()
        .map(|e| e.delay_millis())
        .collect();
    assert_eq!(delays, vec![0, 500, 500, 0, 0, 500, 0, 1000, 500]);
}

#[test]
fn scraper_results_stay_under_the_domain() {
    let mut en = Enumerator::new(Engine::from_tag(EngineTag::Bing, "example.com"));
    en.absorb("<cite>https://a.example.com</cite><cite>https://b.other.com</cite>");
    let found = en.into_subdomains();
    let v = found.into_vec();
    assert_eq!(v.len(), 1);
    for h in &v {
        assert!(h.ends_with(".example.com"));
    }
}
