use chat_feed::comment::{CommentElement, SerializedComment};
use chat_feed::pacer::{Pacer, PacerAction};

fn comment(text: &str) -> SerializedComment {
    SerializedComment::new(vec![CommentElement::Text { content: text.to_string() }]).unwrap()
}

#[test]
fn three_comments_over_three_seconds() {
    let mut pacer = Pacer::new(vec![comment("A"), comment("B"), comment("C")], 3_000_000_000);
    assert!(!pacer.is_done());
    assert_eq!(pacer.next_action(), PacerAction::Deliver(comment("A")));
    assert_eq!(pacer.next_action(), PacerAction::Wait(1_000_000_000));
    assert_eq!(pacer.next_action(), PacerAction::Deliver(comment("B")));
    assert_eq!(pacer.next_action(), PacerAction::Wait(1_000_000_000));
    assert_eq!(pacer.next_action(), PacerAction::Deliver(comment("C")));
    assert!(!pacer.is_done());
    assert_eq!(pacer.next_action(), PacerAction::Wait(1_000_000_000));
    assert!(pacer.is_done());
    assert_eq!(pacer.next_action(), PacerAction::Done);
    assert_eq!(pacer.next_action(), PacerAction::Done);
}

#[test]
fn pauses_of_a_batch_add_up_to_the_total() {
    let mut pacer = Pacer::new(vec![comment("A"), comment("B"), comment("C")], 3_000_000_000);
    let mut delivered = Vec::new();
    let mut waited: u64 = 0;
    loop {
        match pacer.next_action() {
            PacerAction::Deliver(c) => delivered.push(c),
            PacerAction::Wait(delay) => waited += delay,
            PacerAction::Done => break,
        }
    }
    assert_eq!(delivered, vec![comment("A"), comment("B"), comment("C")]);
    assert_eq!(waited, 3_000_000_000);
}

#[test]
fn empty_batch_is_done_at_once() {
    let mut pacer = Pacer::new(Vec::new(), 3_000_000_000);
    assert!(pacer.is_done());
    assert_eq!(pacer.next_action(), PacerAction::Done);
    assert_eq!(pacer.next_action(), PacerAction::Done);
}

#[test]
fn one_comment_takes_the_whole_time() {
    let mut pacer = Pacer::new(vec![comment("A")], 5_200_000_000);
    assert_eq!(pacer.next_action(), PacerAction::Deliver(comment("A")));
    assert_eq!(pacer.next_action(), PacerAction::Wait(5_200_000_000));
    assert_eq!(pacer.next_action(), PacerAction::Done);
}

#[test]
fn delay_is_rounded_down() {
    let mut pacer = Pacer::new(vec![comment("A"), comment("B")], 3);
    assert_eq!(pacer.next_action(), PacerAction::Deliver(comment("A")));
    assert_eq!(pacer.next_action(), PacerAction::Wait(1));
    assert_eq!(pacer.next_action(), PacerAction::Deliver(comment("B")));
    assert_eq!(pacer.next_action(), PacerAction::Wait(1));
    assert_eq!(pacer.next_action(), PacerAction::Done);
}

#[test]
fn no_time_to_spread_over_gives_no_delay() {
    let mut pacer = Pacer::new(vec![comment("A"), comment("B")], 0);
    assert_eq!(pacer.next_action(), PacerAction::Deliver(comment("A")));
    assert_eq!(pacer.next_action(), PacerAction::Wait(0));
    assert_eq!(pacer.next_action(), PacerAction::Deliver(comment("B")));
    assert_eq!(pacer.next_action(), PacerAction::Wait(0));
    assert_eq!(pacer.next_action(), PacerAction::Done);
}

#[test]
fn more_comments_than_nanoseconds() {
    let mut pacer = Pacer::new(vec![comment("A"), comment("B"), comment("C")], 2);
    assert_eq!(pacer.next_action(), PacerAction::Deliver(comment("A")));
    assert_eq!(pacer.next_action(), PacerAction::Wait(0));
}

#[test]
fn long_batch_keeps_its_order() {
    let items: Vec<SerializedComment> = (0..100).map(|i| comment(&format!("c{}", i))).collect();
    let mut pacer = Pacer::new(items, 100_000);
    for i in 0..100 {
        assert_eq!(pacer.next_action(), PacerAction::Deliver(comment(&format!("c{}", i))));
        assert_eq!(pacer.next_action(), PacerAction::Wait(1_000));
    }
    assert_eq!(pacer.next_action(), PacerAction::Done);
}
