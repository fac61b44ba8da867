use chat_feed::config::{
    live_chat_url, CHAT_POLL_PREFIX, COMMENT_EVENT, DEFAULT_FETCH_PERIOD, POLL_COUNT,
    POLL_INTERVAL, STATS_EVENT, WINDOW_SLOTS,
};
use chat_feed::correlator::{
    Abandoned, BodyFetchResult, NetworkResponseEvent, PollAction, ResponseCorrelator,
};

#[test]
fn usual_values() {
    assert_eq!(WINDOW_SLOTS, 5);
    assert_eq!(POLL_COUNT, 50);
    assert_eq!(POLL_INTERVAL, 100_000_000);
    assert_eq!(DEFAULT_FETCH_PERIOD, 5_200_000_000);
    assert_eq!(COMMENT_EVENT, "comment");
    assert_eq!(STATS_EVENT, "stats");
    assert_eq!(
        CHAT_POLL_PREFIX,
        "https://www.youtube.com/youtubei/v1/live_chat/get_live_chat"
    );
}

#[test]
fn chat_page_address_ends_with_the_video() {
    assert_eq!(live_chat_url("abc123"), "https://www.youtube.com/live_chat?v=abc123");
    assert_eq!(live_chat_url(""), "https://www.youtube.com/live_chat?v=");
}

#[test]
fn default_correlator_polls_the_chat_fifty_times() {
    let c = ResponseCorrelator::default();
    assert!(c.is_relevant(
        "https://www.youtube.com/youtubei/v1/live_chat/get_live_chat?alt=json"
    ));
    assert!(!c.is_relevant("https://www.youtube.com/live_chat?v=abc"));
    let (mut pending, first) = c.on_response(NetworkResponseEvent {
        request_id: "1".to_string(),
        url: CHAT_POLL_PREFIX.to_string(),
    });
    assert_eq!(first, PollAction::WaitThenFetch { interval: 100_000_000 });
    for _ in 0..49 {
        assert_eq!(
            pending.on_fetch(BodyFetchResult::Body(String::new())),
            PollAction::WaitThenFetch { interval: 100_000_000 }
        );
    }
    assert_eq!(
        pending.on_fetch(BodyFetchResult::Body(String::new())),
        PollAction::Abandon { reason: Abandoned::BudgetExhausted }
    );
}
