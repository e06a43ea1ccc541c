//! The strict-priority merge of two sources: the first source is always asked first, so an
//! item it has ready always comes out before one the second source has ready at the same
//! time; the merge ends once both sources have ended.
use vstd::prelude::*;

verus! {

/// An item of the merge, tagged with the source it came from.
#[derive(Debug, PartialEq, Eq)]
pub enum MergedItem<I1, I2> {
    From1(I1),
    From2(I2),
}

/// What asking one source gave.
#[derive(Debug, PartialEq, Eq)]
pub enum SourcePoll<I> {
    Item(I),
    Ended,
    Pending,
}

/// What the driver of the merge reports: a new round of asking, or what a source gave.
#[derive(Debug, PartialEq, Eq)]
pub enum MergeEvent<I1, I2> {
    Start,
    First(SourcePoll<I1>),
    Second(SourcePoll<I2>),
}

/// What the driver of the merge does next.
#[derive(Debug, PartialEq, Eq)]
pub enum MergeAction<I1, I2> {
    /// Ask the first source.
    PollFirst,
    /// Ask the second source.
    PollSecond,
    /// Hand out this item.
    Yield(MergedItem<I1, I2>),
    /// Both sources have ended: the merge ends.
    Finish,
    /// Nothing is ready: wait to be woken.
    Wait,
}

/// Two sources merged with priority to the first.
pub struct MergedStream2<S1, S2> {
    pub s1_ended: bool,
    pub s2_ended: bool,
    pub s1: S1,
    pub s2: S2,
}

/// The next action once the first source has been dealt with.
pub open spec fn after_first<I1, I2>(s1_ended: bool, s2_ended: bool) -> MergeAction<I1, I2> {
    if !s2_ended {
        MergeAction::PollSecond
    } else if s1_ended {
        MergeAction::Finish
    } else {
        MergeAction::Wait
    }
}

/// One step of the merge: the flags that say which sources ended, and the next action.
pub open spec fn merge_step<I1, I2>(s1_ended: bool, s2_ended: bool, ev: MergeEvent<I1, I2>) -> (
    bool,
    bool,
    MergeAction<I1, I2>,
) {
    match ev {
        MergeEvent::Start => if !s1_ended {
            (s1_ended, s2_ended, MergeAction::PollFirst)
        } else {
            (s1_ended, s2_ended, after_first(s1_ended, s2_ended))
        },
        MergeEvent::First(SourcePoll::Item(x)) => (
            s1_ended,
            s2_ended,
            MergeAction::Yield(MergedItem::From1(x)),
        ),
        MergeEvent::First(SourcePoll::Ended) => (true, s2_ended, after_first(true, s2_ended)),
        MergeEvent::First(SourcePoll::Pending) => (
            s1_ended,
            s2_ended,
            after_first(s1_ended, s2_ended),
        ),
        MergeEvent::Second(SourcePoll::Item(y)) => (
            s1_ended,
            s2_ended,
            MergeAction::Yield(MergedItem::From2(y)),
        ),
        MergeEvent::Second(SourcePoll::Ended) => (
            s1_ended,
            true,
            if s1_ended {
                MergeAction::Finish
            } else {
                MergeAction::Wait
            },
        ),
        MergeEvent::Second(SourcePoll::Pending) => (
            s1_ended,
            s2_ended,
            if s1_ended && s2_ended {
                MergeAction::Finish
            } else {
                MergeAction::Wait
            },
        ),
    }
}

impl<S1, S2> MergedStream2<S1, S2> {
    /// A merge of two sources, neither of which has ended.
    pub fn new(s1: S1, s2: S2) -> (r: Self)
        ensures
            r.s1 == s1,
            r.s2 == s2,
            !r.s1_ended,
            !r.s2_ended,
    {
        MergedStream2 { s1, s2, s1_ended: false, s2_ended: false }
    }

    /// Takes what happened and says what to do next. A round starts with `Start`; the first
    /// source, while it has not ended, is always asked before the second, and an item it
    /// gives is handed out at once.
    pub fn on_poll<I1, I2>(&mut self, ev: MergeEvent<I1, I2>) -> (r: MergeAction<I1, I2>)
        ensures
            (final(self).s1_ended, final(self).s2_ended, r) == merge_step(
                old(self).s1_ended,
                old(self).s2_ended,
                ev,
            ),
            final(self).s1 == old(self).s1,
            final(self).s2 == old(self).s2,
    {
        match ev {
            MergeEvent::Start => {
                if !self.s1_ended {
                    MergeAction::PollFirst
                } else {
                    self.next_after_first()
                }
            },
            MergeEvent::First(p) => match p {
                SourcePoll::Item(x) => MergeAction::Yield(MergedItem::From1(x)),
                SourcePoll::Ended => {
                    self.s1_ended = true;
                    self.next_after_first()
                },
                SourcePoll::Pending => self.next_after_first(),
            },
            MergeEvent::Second(p) => match p {
                SourcePoll::Item(y) => MergeAction::Yield(MergedItem::From2(y)),
                SourcePoll::Ended => {
                    self.s2_ended = true;
                    if self.s1_ended {
                        MergeAction::Finish
                    } else {
                        MergeAction::Wait
                    }
                },
                SourcePoll::Pending => {
                    if self.s1_ended && self.s2_ended {
                        MergeAction::Finish
                    } else {
                        MergeAction::Wait
                    }
                },
            },
        }
    }

    fn next_after_first<I1, I2>(&self) -> (r: MergeAction<I1, I2>)
        ensures
            r == after_first::<I1, I2>(self.s1_ended, self.s2_ended),
    {
        if !self.s2_ended {
            MergeAction::PollSecond
        } else if self.s1_ended {
            MergeAction::Finish
        } else {
            MergeAction::Wait
        }
    }
}

/// The merge ends only once both sources have ended, and while the first source has not
/// ended a round always asks it first and hands out what it gives before asking the second.
pub proof fn lemma_merge_priority<I1, I2>(s1_ended: bool, s2_ended: bool, ev: MergeEvent<I1, I2>)
    ensures
        merge_step(s1_ended, s2_ended, ev).2 is Finish ==> merge_step(s1_ended, s2_ended, ev).0
            && merge_step(s1_ended, s2_ended, ev).1,
        !s1_ended && ev is Start ==> merge_step(s1_ended, s2_ended, ev).2 is PollFirst,
        ev matches MergeEvent::First(SourcePoll::Item(x)) ==> merge_step(
            s1_ended,
            s2_ended,
            ev,
        ).2 == MergeAction::<I1, I2>::Yield(MergedItem::From1(x)),
{
}

} // verus!
