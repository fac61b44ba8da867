//! The values that the feed runs with unless the caller chooses others.

use crate::correlator::ResponseCorrelator;
use crate::listener::FeedListener;
use crate::rate::Nanos;
use vstd::prelude::*;
use vstd::string::StringExecFns;

verus! {

/// Number of polling periods that are averaged.
pub const WINDOW_SLOTS: usize = 5;

/// Most fetches tried for the body of one response.
pub const POLL_COUNT: usize = 50;

/// Pause before each fetch of a body: a tenth of a second.
pub const POLL_INTERVAL: Nanos = 100_000_000;

/// Polling period assumed for the first fetch: 5.2 seconds.
pub const DEFAULT_FETCH_PERIOD: Nanos = 5_200_000_000;

/// Address prefix of the requests by which the chat page polls for new
/// messages.
pub const CHAT_POLL_PREFIX: &'static str =
    "https://www.youtube.com/youtubei/v1/live_chat/get_live_chat";

/// Address of the chat page without the video it belongs to.
pub const CHAT_PAGE_PREFIX: &'static str = "https://www.youtube.com/live_chat?v=";

/// Name of the event that carries one comment to the display.
pub const COMMENT_EVENT: &'static str = "comment";

/// Name of the event that carries the rate of comments to the display.
pub const STATS_EVENT: &'static str = "stats";

/// The address of the chat page of the video `video_id`.
pub fn live_chat_url(video_id: &str) -> (url: String)
    ensures
        url@ == CHAT_PAGE_PREFIX@ + video_id@,
{
    String::from_str(CHAT_PAGE_PREFIX).concat(video_id)
}

impl Default for ResponseCorrelator {
    /// The correlator for the chat's own poll requests, with the usual
    /// budget.
    fn default() -> (correlator: Self)
        ensures
            correlator.prefix() == CHAT_POLL_PREFIX@,
            correlator.poll_count() == POLL_COUNT,
            correlator.poll_interval() == POLL_INTERVAL,
    {
        ResponseCorrelator::new(String::from_str(CHAT_POLL_PREFIX), POLL_COUNT, POLL_INTERVAL)
    }
}

impl<const N: usize> Default for FeedListener<N> {
    /// A new listener that assumes the usual period for the first fetch.
    fn default() -> (listener: Self)
        ensures
            listener.is_fresh(),
            listener.default_period() == DEFAULT_FETCH_PERIOD,
    {
        FeedListener::new(DEFAULT_FETCH_PERIOD)
    }
}

} // verus!
