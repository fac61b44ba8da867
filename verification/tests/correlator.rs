use chat_feed::correlator::{
    Abandoned, BodyFetchResult, NetworkResponseEvent, PollAction, ResponseCorrelator,
};

const PREFIX: &str = "https://www.youtube.com/youtubei/v1/live_chat/get_live_chat";

fn correlator(count: usize, interval: u64) -> ResponseCorrelator {
    ResponseCorrelator::new(PREFIX.to_string(), count, interval)
}

fn response(url: &str) -> NetworkResponseEvent {
    NetworkResponseEvent { request_id: "1000.1".to_string(), url: url.to_string() }
}

fn body(text: &str) -> BodyFetchResult {
    BodyFetchResult::Body(text.to_string())
}

#[test]
fn response_from_elsewhere_is_ignored() {
    let c = correlator(10, 500_000_000);
    let (mut pending, action) = c.on_response(response("https://www.youtube.com/api/stats/watchtime"));
    assert_eq!(action, PollAction::Ignore);
    assert!(pending.is_finished());
    assert_eq!(pending.on_fetch(body("{}")), PollAction::Ignore);
}

#[test]
fn prefix_must_stand_at_the_start() {
    let c = correlator(10, 500_000_000);
    assert!(c.is_relevant(PREFIX));
    assert!(c.is_relevant(
        "https://www.youtube.com/youtubei/v1/live_chat/get_live_chat?key=abc"
    ));
    assert!(!c.is_relevant("https://www.youtube.com/youtubei/v1/live_chat/get_live"));
    assert!(!c.is_relevant(
        "x https://www.youtube.com/youtubei/v1/live_chat/get_live_chat"
    ));
    assert!(!c.is_relevant(""));
}

#[test]
fn empty_prefix_takes_every_response() {
    let c = ResponseCorrelator::new(String::new(), 1, 1);
    assert!(c.is_relevant(""));
    assert!(c.is_relevant("anything"));
}

#[test]
fn chat_response_starts_polling() {
    let c = correlator(10, 500_000_000);
    let (pending, action) = c.on_response(response(PREFIX));
    assert_eq!(action, PollAction::WaitThenFetch { interval: 500_000_000 });
    assert!(!pending.is_finished());
}

#[test]
fn body_is_handed_off_as_it_came() {
    let c = correlator(10, 500_000_000);
    let (mut pending, _) = c.on_response(response(PREFIX));
    let action = pending.on_fetch(body("  {\"a\": 1}\n"));
    assert_eq!(action, PollAction::HandOff { body: "  {\"a\": 1}\n".to_string() });
    assert!(pending.is_finished());
}

#[test]
fn blank_body_is_fetched_again() {
    let c = correlator(10, 500_000_000);
    let (mut pending, _) = c.on_response(response(PREFIX));
    assert_eq!(
        pending.on_fetch(body("")),
        PollAction::WaitThenFetch { interval: 500_000_000 }
    );
    assert_eq!(
        pending.on_fetch(body(" \n\t")),
        PollAction::WaitThenFetch { interval: 500_000_000 }
    );
    assert_eq!(pending.on_fetch(body("{}")), PollAction::HandOff { body: "{}".to_string() });
}

#[test]
fn failed_fetch_is_not_tried_again() {
    let c = correlator(10, 500_000_000);
    let (mut pending, _) = c.on_response(response(PREFIX));
    assert_eq!(pending.on_fetch(body("")), PollAction::WaitThenFetch { interval: 500_000_000 });
    assert_eq!(
        pending.on_fetch(BodyFetchResult::TransportError),
        PollAction::Abandon { reason: Abandoned::TransportError }
    );
    assert!(pending.is_finished());
    assert_eq!(pending.on_fetch(body("{}")), PollAction::Ignore);
}

#[test]
fn ten_blank_bodies_use_up_a_budget_of_ten() {
    let c = correlator(10, 500_000_000);
    let (mut pending, first) = c.on_response(response(PREFIX));
    assert_eq!(first, PollAction::WaitThenFetch { interval: 500_000_000 });
    for _ in 0..9 {
        assert_eq!(
            pending.on_fetch(body("")),
            PollAction::WaitThenFetch { interval: 500_000_000 }
        );
    }
    assert_eq!(
        pending.on_fetch(body("")),
        PollAction::Abandon { reason: Abandoned::BudgetExhausted }
    );
    assert!(pending.is_finished());
    assert_eq!(pending.on_fetch(body("{}")), PollAction::Ignore);
}

#[test]
fn fifty_blank_bodies_use_up_a_budget_of_fifty() {
    let c = correlator(50, 100_000_000);
    let (mut pending, _) = c.on_response(response(PREFIX));
    let mut fetches = 0;
    loop {
        fetches += 1;
        match pending.on_fetch(body("  ")) {
            PollAction::WaitThenFetch { interval } => assert_eq!(interval, 100_000_000),
            PollAction::Abandon { reason } => {
                assert_eq!(reason, Abandoned::BudgetExhausted);
                break;
            }
            other => panic!("{:?}", other),
        }
    }
    assert_eq!(fetches, 50);
}

#[test]
fn body_on_the_last_attempt_is_still_taken() {
    let c = correlator(3, 1);
    let (mut pending, _) = c.on_response(response(PREFIX));
    assert_eq!(pending.on_fetch(body("")), PollAction::WaitThenFetch { interval: 1 });
    assert_eq!(pending.on_fetch(body("")), PollAction::WaitThenFetch { interval: 1 });
    assert_eq!(pending.on_fetch(body("x")), PollAction::HandOff { body: "x".to_string() });
}

#[test]
fn budget_of_nothing_gives_up_at_once() {
    let c = correlator(0, 1);
    let (mut pending, action) = c.on_response(response(PREFIX));
    assert_eq!(action, PollAction::Abandon { reason: Abandoned::BudgetExhausted });
    assert!(pending.is_finished());
    assert_eq!(pending.on_fetch(body("{}")), PollAction::Ignore);
}

#[test]
fn two_responses_are_polled_apart() {
    let c = correlator(2, 7);
    let (mut one, _) = c.on_response(response(PREFIX));
    let (mut two, _) = c.on_response(response(PREFIX));
    assert_eq!(one.on_fetch(body("")), PollAction::WaitThenFetch { interval: 7 });
    assert_eq!(two.on_fetch(body("b")), PollAction::HandOff { body: "b".to_string() });
    assert_eq!(
        one.on_fetch(body("")),
        PollAction::Abandon { reason: Abandoned::BudgetExhausted }
    );
}

#[test]
fn attempts_left_count_down() {
    let c = correlator(3, 1);
    let (mut pending, _) = c.on_response(response(PREFIX));
    assert_eq!(pending.attempts_left(), 3);
    pending.on_fetch(body(""));
    assert_eq!(pending.attempts_left(), 2);
    pending.on_fetch(body("x"));
    assert_eq!(pending.attempts_left(), 0);
    let (ignored, _) = c.on_response(response("https://example.com/"));
    assert_eq!(ignored.attempts_left(), 0);
}

#[test]
fn polling_keeps_the_name_of_its_request() {
    let c = correlator(2, 1);
    let event = NetworkResponseEvent { request_id: "77.5".to_string(), url: PREFIX.to_string() };
    let (mut pending, _) = c.on_response(event);
    assert_eq!(pending.request_id(), "77.5");
    pending.on_fetch(body(""));
    assert_eq!(pending.request_id(), "77.5");
    let other = NetworkResponseEvent { request_id: "8".to_string(), url: String::new() };
    let (ignored, action) = c.on_response(other);
    assert_eq!(action, PollAction::Ignore);
    assert_eq!(ignored.request_id(), "8");
}
