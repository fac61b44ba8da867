//! Reads the comments out of a poll response.
//!
//! A response is a JSON document in which the comments lie deep: under a
//! fixed path stands a list of actions, some of which add a text message,
//! which is a list of runs, each a piece of text or an emoji. Whatever does
//! not have the expected shape is passed over, be it the whole document, one
//! action or one run.

use crate::comment::{CommentElement, ElementView, SerializedComment};
use crate::json::{array_view, decode, json_of_text, Json, JsonView};
use crate::sequence::{kept_places, lemma_filter_map_counts_mapped, lemma_filter_map_places};
use vstd::prelude::*;

verus! {

/// The width that an image candidate declares: its member `width`, where
/// that is an integer in the range of `i64`.
pub open spec fn declared_width(candidate: JsonView) -> Option<i64> {
    match candidate.get("width"@) {
        Some(width) => width.as_i64(),
        None => None,
    }
}

/// Index of the widest candidate among those that declare a width, the last
/// of them where several are equally wide.
pub open spec fn widest(candidates: Seq<JsonView>) -> Option<int>
    decreases candidates.len(),
{
    if candidates.len() == 0 {
        None
    } else {
        let earlier = widest(candidates.drop_last());
        match declared_width(candidates.last()) {
            None => earlier,
            Some(width) => match earlier {
                None => Some(candidates.len() - 1),
                Some(k) => if declared_width(candidates[k]) matches Some(w) && w > width {
                    earlier
                } else {
                    Some(candidates.len() - 1)
                },
            },
        }
    }
}

/// The image chosen for an emoji: the only candidate where there is one,
/// else the widest of those that declare a width.
pub open spec fn emoji_image(candidates: Seq<JsonView>) -> Option<JsonView> {
    if candidates.len() == 1 {
        Some(candidates[0])
    } else {
        match widest(candidates) {
            Some(k) => Some(candidates[k]),
            None => None,
        }
    }
}

/// The image candidates that an emoji descriptor lists.
pub open spec fn emoji_candidates(emoji: JsonView) -> Option<Seq<JsonView>> {
    match JsonView::then_get(emoji.get("image"@), "thumbnails"@) {
        Some(list) => list.as_array(),
        None => None,
    }
}

/// The address of the image chosen for an emoji descriptor.
pub open spec fn emoji_url(emoji: JsonView) -> Option<Seq<char>> {
    match emoji_candidates(emoji) {
        Some(candidates) => match emoji_image(candidates) {
            Some(image) => match image.get("url"@) {
                Some(url) => url.as_str(),
                None => None,
            },
            None => None,
        },
        None => None,
    }
}

/// The element that a message run stands for. A run with a member `emoji`
/// is read as an emoji and as nothing else; a run without one is read as
/// text.
pub open spec fn run_element(run: JsonView) -> Option<ElementView> {
    match run.get("emoji"@) {
        Some(emoji) => match emoji_url(emoji) {
            Some(url) => Some(ElementView::Emoji { url }),
            None => None,
        },
        None => match run.get("text"@) {
            Some(text) => match text.as_str() {
                Some(content) => Some(ElementView::Text { content }),
                None => None,
            },
            None => None,
        },
    }
}

/// The elements that a list of runs stands for, in the order of the runs.
pub open spec fn elements(runs: Seq<JsonView>) -> Seq<ElementView> {
    runs.filter_map(|run: JsonView| run_element(run))
}

/// The runs of the text message that an action adds to the chat.
pub open spec fn action_runs(action: JsonView) -> Option<Seq<JsonView>> {
    let item = JsonView::then_get(action.get("addChatItemAction"@), "item"@);
    let message = JsonView::then_get(
        JsonView::then_get(item, "liveChatTextMessageRenderer"@),
        "message"@,
    );
    match JsonView::then_get(message, "runs"@) {
        Some(runs) => runs.as_array(),
        None => None,
    }
}

/// The comment that an action adds to the chat: none where the action is of
/// another kind, and none where its runs give no element.
pub open spec fn action_comment(action: JsonView) -> Option<Seq<ElementView>> {
    match action_runs(action) {
        Some(runs) => if elements(runs).len() == 0 {
            None
        } else {
            Some(elements(runs))
        },
        None => None,
    }
}

/// The comments that a list of actions adds, in the order of the actions.
pub open spec fn comments(actions: Seq<JsonView>) -> Seq<Seq<ElementView>> {
    actions.filter_map(|action: JsonView| action_comment(action))
}

/// The list of actions that a poll response carries.
pub open spec fn action_list(document: JsonView) -> Option<Seq<JsonView>> {
    let continuation = JsonView::then_get(
        document.get("continuationContents"@),
        "liveChatContinuation"@,
    );
    match JsonView::then_get(continuation, "actions"@) {
        Some(actions) => actions.as_array(),
        None => None,
    }
}

/// The batch of comments in a poll response: none where the document is not
/// a chat continuation.
pub open spec fn batch(document: JsonView) -> Option<Seq<Seq<ElementView>>> {
    match action_list(document) {
        Some(actions) => Some(comments(actions)),
        None => None,
    }
}

/// The batch of comments in a response body: none where the body is not
/// JSON, and none where it is no chat continuation.
pub open spec fn text_batch(raw: Seq<char>) -> Option<Seq<Seq<ElementView>>> {
    match json_of_text(raw) {
        Some(document) => batch(document),
        None => None,
    }
}

/// What `widest` picks: a candidate that declares a width, no narrower than
/// any other and wider than every one after it; and nothing exactly when
/// no candidate declares a width.
pub proof fn lemma_widest(candidates: Seq<JsonView>)
    ensures
        widest(candidates) is None <==> forall|i: int|
            0 <= i < candidates.len() ==> declared_width(#[trigger] candidates[i]) is None,
        widest(candidates) matches Some(k) ==> {
            &&& 0 <= k < candidates.len()
            &&& declared_width(candidates[k]) is Some
            &&& forall|i: int|
                0 <= i < candidates.len() ==> (declared_width(
                    #[trigger] candidates[i],
                ) matches Some(w) ==> {
                    &&& w <= declared_width(candidates[k])->Some_0
                    &&& i > k ==> w < declared_width(candidates[k])->Some_0
                })
        },
    decreases candidates.len(),
{
    if candidates.len() > 0 {
        let front = candidates.drop_last();
        lemma_widest(front);
        assert forall|i: int| 0 <= i < front.len() implies front[i] == candidates[i] by {}
        if widest(candidates) is None {
            assert forall|i: int| 0 <= i < candidates.len() implies declared_width(
                #[trigger] candidates[i],
            ) is None by {
                if i < front.len() {
                    assert(front[i] == candidates[i]);
                }
            }
        } else {
            let k = widest(candidates)->Some_0;
            assert forall|i: int| 0 <= i < candidates.len() implies (declared_width(
                #[trigger] candidates[i],
            ) matches Some(w) ==> {
                &&& w <= declared_width(candidates[k])->Some_0
                &&& i > k ==> w < declared_width(candidates[k])->Some_0
            }) by {
                if i < front.len() {
                    assert(front[i] == candidates[i]);
                }
            }
        }
    }
}

/// A document holds a batch exactly when the whole way to its list of
/// actions is there: with any node of it missing, or no array at its end,
/// there is none.
pub proof fn lemma_batch_needs_whole_path(document: JsonView)
    ensures
        batch(document) is Some <==> {
            &&& document.get("continuationContents"@) matches Some(contents)
            &&& contents.get("liveChatContinuation"@) matches Some(continuation)
            &&& continuation.get("actions"@) matches Some(actions)
            &&& actions is Array
        },
{
}

/// A comment keeps the order of the runs: its elements are those of the
/// runs that can be read, each in the place that the order of the runs
/// gives it.
pub proof fn lemma_comment_keeps_run_order(runs: Seq<JsonView>)
    ensures
        ({
            let places = kept_places(runs, |run: JsonView| run_element(run));
            &&& places.len() == elements(runs).len()
            &&& forall|i: int|
                0 <= i < places.len() ==> {
                    &&& 0 <= #[trigger] places[i] < runs.len()
                    &&& run_element(runs[places[i]]) == Some(elements(runs)[i])
                }
            &&& forall|i: int, j: int|
                0 <= i < j < places.len() ==> #[trigger] places[i] < #[trigger] places[j]
            &&& forall|k: int|
                0 <= k < runs.len() && run_element(#[trigger] runs[k]) is Some
                    ==> places.contains(k)
        }),
{
    lemma_filter_map_places(runs, |run: JsonView| run_element(run));
}

/// A batch keeps the order of the actions: its comments are those of the
/// actions that add one, each in the place that the order of the actions
/// gives it.
pub proof fn lemma_batch_keeps_action_order(document: JsonView)
    requires
        batch(document) is Some,
    ensures
        ({
            let actions = action_list(document)->Some_0;
            let comments = batch(document)->Some_0;
            let places = kept_places(actions, |action: JsonView| action_comment(action));
            &&& places.len() == comments.len()
            &&& forall|i: int|
                0 <= i < places.len() ==> {
                    &&& 0 <= #[trigger] places[i] < actions.len()
                    &&& action_comment(actions[places[i]]) == Some(comments[i])
                }
            &&& forall|i: int, j: int|
                0 <= i < j < places.len() ==> #[trigger] places[i] < #[trigger] places[j]
            &&& forall|k: int|
                0 <= k < actions.len() && action_comment(#[trigger] actions[k]) is Some
                    ==> places.contains(k)
        }),
{
    lemma_filter_map_places(
        action_list(document)->Some_0,
        |action: JsonView| action_comment(action),
    );
}

/// No comment of a batch is empty, and a batch has one comment for each
/// action that adds a message with at least one element, and no other: a
/// message whose runs give no element adds nothing.
pub proof fn lemma_batch_holds_valid_comments_only(document: JsonView)
    requires
        batch(document) is Some,
    ensures
        forall|i: int|
            0 <= i < batch(document)->Some_0.len() ==> (#[trigger] batch(
                document,
            )->Some_0[i]).len() > 0,
        batch(document)->Some_0.len() == action_list(document)->Some_0.filter(
            |action: JsonView| action_comment(action) is Some,
        ).len(),
        forall|k: int|
            0 <= k < action_list(document)->Some_0.len() ==> (action_runs(
                #[trigger] action_list(document)->Some_0[k],
            ) matches Some(runs) && elements(runs).len() == 0 ==> action_comment(
                action_list(document)->Some_0[k],
            ) is None),
{
    let actions = action_list(document)->Some_0;
    let read = |action: JsonView| action_comment(action);
    lemma_filter_map_counts_mapped(
        actions,
        read,
        |action: JsonView| action_comment(action) is Some,
    );
    lemma_filter_map_places(actions, read);
    let places = kept_places(actions, read);
    assert forall|i: int| 0 <= i < batch(document)->Some_0.len() implies (#[trigger] batch(
        document,
    )->Some_0[i]).len() > 0 by {
        assert(read(actions[places[i]]) == Some(batch(document)->Some_0[i]));
    }
}

/// The image chosen for an emoji among `candidates`.
fn select_image(candidates: &Vec<Json>) -> (image: Option<&Json>)
    ensures
        match image {
            Some(chosen) => emoji_image(array_view(candidates@)) == Some(chosen@),
            None => emoji_image(array_view(candidates@)) is None,
        },
{
    let ghost all = array_view(candidates@);
    if candidates.len() == 1 {
        return Some(&candidates[0]);
    }
    let mut best: Option<(usize, i64)> = None;
    let mut i: usize = 0;
    while i < candidates.len()
        invariant
            i <= candidates@.len(),
            all == array_view(candidates@),
            match best {
                Some((k, width)) => widest(all.take(i as int)) == Some(k as int) && k < i
                    && declared_width(all[k as int]) == Some(width),
                None => widest(all.take(i as int)) is None,
            },
        decreases candidates@.len() - i,
    {
        proof {
            assert(all.take(i + 1).drop_last() == all.take(i as int));
            assert(all.take(i + 1).last() == candidates@[i as int]@);
        }
        let declared = match candidates[i].get("width") {
            Some(width) => width.as_i64(),
            None => None,
        };
        match declared {
            Some(width) => {
                let keep = match best {
                    Some((_, widest_so_far)) => widest_so_far > width,
                    None => false,
                };
                if !keep {
                    best = Some((i, width));
                }
            },
            None => {},
        }
        i += 1;
    }
    proof {
        assert(all.take(i as int) == all);
    }
    match best {
        Some((k, _)) => Some(&candidates[k]),
        None => None,
    }
}

/// The address of the image chosen for an emoji descriptor.
fn emoji_to_url(emoji: &Json) -> (url: Option<&str>)
    ensures
        match url {
            Some(address) => emoji_url(emoji@) == Some(address@),
            None => emoji_url(emoji@) is None,
        },
{
    let image = match emoji.get("image") {
        Some(image) => image,
        None => return None,
    };
    let thumbnails = match image.get("thumbnails") {
        Some(thumbnails) => thumbnails,
        None => return None,
    };
    let candidates = match thumbnails.as_array() {
        Some(candidates) => candidates,
        None => return None,
    };
    let chosen = match select_image(candidates) {
        Some(chosen) => chosen,
        None => return None,
    };
    match chosen.get("url") {
        Some(url) => url.as_str(),
        None => None,
    }
}

/// Reads one message run. A run that carries an emoji descriptor becomes
/// an emoji with the address of the chosen image, or nothing where no image
/// can be chosen or the chosen one has no address. Any other run becomes
/// text where it carries a string under `text`, and nothing otherwise.
pub fn run_to_element(run: &Json) -> (element: Option<CommentElement>)
    ensures
        element.deep_view() == run_element(run@),
{
    match run.get("emoji") {
        Some(emoji) => match emoji_to_url(emoji) {
            Some(url) => Some(CommentElement::Emoji { url: url.to_owned() }),
            None => None,
        },
        None => match run.get("text") {
            Some(text) => match text.as_str() {
                Some(content) => Some(CommentElement::Text { content: content.to_owned() }),
                None => None,
            },
            None => None,
        },
    }
}

/// Reads the runs of one message, leaving out those that give no element.
fn runs_to_elements(runs: &Vec<Json>) -> (out: Vec<CommentElement>)
    ensures
        out.deep_view() == elements(array_view(runs@)),
{
    let ghost all = array_view(runs@);
    let ghost read = |run: JsonView| run_element(run);
    let mut out: Vec<CommentElement> = Vec::new();
    let mut i: usize = 0;
    proof {
        assert(all.take(0) == Seq::<JsonView>::empty());
    }
    while i < runs.len()
        invariant
            i <= runs@.len(),
            all == array_view(runs@),
            read == |run: JsonView| run_element(run),
            out.deep_view() == all.take(i as int).filter_map(read),
        decreases runs@.len() - i,
    {
        let ghost before = out.deep_view();
        proof {
            all.lemma_filter_map_take_succ(read, i as int);
            assert(all[i as int] == runs@[i as int]@);
        }
        match run_to_element(&runs[i]) {
            Some(element) => {
                out.push(element);
                proof {
                    assert(out.deep_view() == before.push(element@));
                }
            },
            None => {},
        }
        i += 1;
    }
    proof {
        assert(all.take(i as int) == all);
    }
    out
}

/// The runs of the text message that `action` adds to the chat.
fn message_runs(action: &Json) -> (runs: Option<&Vec<Json>>)
    ensures
        match runs {
            Some(list) => action_runs(action@) == Some(array_view(list@)),
            None => action_runs(action@) is None,
        },
{
    let added = match action.get("addChatItemAction") {
        Some(added) => added,
        None => return None,
    };
    let item = match added.get("item") {
        Some(item) => item,
        None => return None,
    };
    let renderer = match item.get("liveChatTextMessageRenderer") {
        Some(renderer) => renderer,
        None => return None,
    };
    let message = match renderer.get("message") {
        Some(message) => message,
        None => return None,
    };
    match message.get("runs") {
        Some(runs) => runs.as_array(),
        None => None,
    }
}

/// The list of actions that the poll response `raw` carries.
fn actions_of(raw: &Json) -> (actions: Option<&Vec<Json>>)
    ensures
        match actions {
            Some(list) => action_list(raw@) == Some(array_view(list@)),
            None => action_list(raw@) is None,
        },
{
    let contents = match raw.get("continuationContents") {
        Some(contents) => contents,
        None => return None,
    };
    let continuation = match contents.get("liveChatContinuation") {
        Some(continuation) => continuation,
        None => return None,
    };
    match continuation.get("actions") {
        Some(actions) => actions.as_array(),
        None => None,
    }
}

/// Reads the comments out of a poll response.
///
/// Returns `None` where the document is not a chat continuation with a list
/// of actions. Otherwise returns, in the order of the actions, one comment
/// for each action that adds a text message with at least one readable run.
/// Actions of other kinds, runs of unknown shape and messages left without
/// elements are passed over.
pub fn parse_json(raw: &Json) -> (parsed: Option<Vec<SerializedComment>>)
    ensures
        parsed.deep_view() == batch(raw@),
        parsed is None <==> action_list(raw@) is None,
{
    let actions = match actions_of(raw) {
        Some(actions) => actions,
        None => return None,
    };
    let ghost all = array_view(actions@);
    let ghost read = |action: JsonView| action_comment(action);
    let mut out: Vec<SerializedComment> = Vec::new();
    let mut i: usize = 0;
    proof {
        assert(all.take(0) == Seq::<JsonView>::empty());
    }
    while i < actions.len()
        invariant
            i <= actions@.len(),
            all == array_view(actions@),
            read == |action: JsonView| action_comment(action),
            out.deep_view() == all.take(i as int).filter_map(read),
        decreases actions@.len() - i,
    {
        let ghost before = out.deep_view();
        proof {
            all.lemma_filter_map_take_succ(read, i as int);
            assert(all[i as int] == actions@[i as int]@);
        }
        match message_runs(&actions[i]) {
            Some(runs) => match SerializedComment::new(runs_to_elements(runs)) {
                Some(comment) => {
                    out.push(comment);
                    proof {
                        assert(out.deep_view() == before.push(comment@));
                    }
                },
                None => {},
            },
            None => {},
        }
        i += 1;
    }
    proof {
        assert(all.take(i as int) == all);
    }
    Some(out)
}

/// Reads the comments out of the text of a poll response: `None` where
/// the text is not JSON, and else what `parse_json` reads out of the
/// document that the text stands for.
pub fn parse(raw: &str) -> (parsed: Option<Vec<SerializedComment>>)
    ensures
        parsed.deep_view() == text_batch(raw@),
{
    match decode(raw) {
        Some(document) => parse_json(&document),
        None => None,
    }
}

} // verus!
