use bloxide::merge::{MergeAction, MergeEvent, MergedItem, MergedStream2, SourcePoll};

type Merge = MergedStream2<(), ()>;

#[test]
fn first_source_goes_first_when_both_are_ready() {
    let mut m = Merge::new((), ());
    assert_eq!(m.on_poll::<u8, u8>(MergeEvent::Start), MergeAction::PollFirst);
    assert_eq!(
        m.on_poll::<u8, u8>(MergeEvent::First(SourcePoll::Item(1))),
        MergeAction::Yield(MergedItem::From1(1))
    );
    // The next round asks the first source again before the second.
    assert_eq!(m.on_poll::<u8, u8>(MergeEvent::Start), MergeAction::PollFirst);
}

#[test]
fn second_source_is_asked_when_first_is_pending() {
    let mut m = Merge::new((), ());
    assert_eq!(m.on_poll::<u8, u8>(MergeEvent::Start), MergeAction::PollFirst);
    assert_eq!(m.on_poll::<u8, u8>(MergeEvent::First(SourcePoll::Pending)), MergeAction::PollSecond);
    assert_eq!(
        m.on_poll::<u8, u8>(MergeEvent::Second(SourcePoll::Item(2))),
        MergeAction::Yield(MergedItem::From2(2))
    );
}

#[test]
fn both_pending_waits() {
    let mut m = Merge::new((), ());
    let _ = m.on_poll::<u8, u8>(MergeEvent::Start);
    let _ = m.on_poll::<u8, u8>(MergeEvent::First(SourcePoll::Pending));
    assert_eq!(m.on_poll::<u8, u8>(MergeEvent::Second(SourcePoll::Pending)), MergeAction::Wait);
}

#[test]
fn merge_ends_only_when_both_sources_end() {
    let mut m = Merge::new((), ());
    let _ = m.on_poll::<u8, u8>(MergeEvent::Start);
    assert_eq!(m.on_poll::<u8, u8>(MergeEvent::First(SourcePoll::Ended)), MergeAction::PollSecond);
    assert!(m.s1_ended);
    assert_eq!(
        m.on_poll::<u8, u8>(MergeEvent::Second(SourcePoll::Item(4))),
        MergeAction::Yield(MergedItem::From2(4))
    );
    // An ended first source is not asked again.
    assert_eq!(m.on_poll::<u8, u8>(MergeEvent::Start), MergeAction::PollSecond);
    assert_eq!(m.on_poll::<u8, u8>(MergeEvent::Second(SourcePoll::Ended)), MergeAction::Finish);
    assert_eq!(m.on_poll::<u8, u8>(MergeEvent::Start), MergeAction::Finish);
}

#[test]
fn second_ending_first_keeps_waiting_on_first() {
    let mut m = Merge::new((), ());
    let _ = m.on_poll::<u8, u8>(MergeEvent::Start);
    let _ = m.on_poll::<u8, u8>(MergeEvent::First(SourcePoll::Pending));
    assert_eq!(m.on_poll::<u8, u8>(MergeEvent::Second(SourcePoll::Ended)), MergeAction::Wait);
    assert_eq!(m.on_poll::<u8, u8>(MergeEvent::Start), MergeAction::PollFirst);
    assert_eq!(m.on_poll::<u8, u8>(MergeEvent::First(SourcePoll::Pending)), MergeAction::Wait);
    assert_eq!(m.on_poll::<u8, u8>(MergeEvent::First(SourcePoll::Ended)), MergeAction::Finish);
}
