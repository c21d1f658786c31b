//! What holds of a mount guard over its whole life, whatever events reach
//! it and in whatever order.

use vstd::prelude::*;
use crate::channel::{framed, ChannelView};
use crate::layout::{BasisLayout, SystemLayout};
use crate::mount::{
    starting_guard, ActionView, EventView, GuardView, MountError, ReleaseReport, Stage,
};
use crate::text::decimal;

verus! {

/// The stage belongs to a guard whose merged view was mounted.
pub open spec fn is_acquired(stage: Stage) -> bool {
    stage is Mounted || stage is Unmounting || stage is Closing || stage is Released
}

/// The event says how the elevated shell ended, or that this cannot be
/// known.
pub open spec fn is_exit(event: EventView) -> bool {
    event is Exited || event is WaitFailed
}

impl GuardView {
    /// The channel of a guard is in step with its stage: the mount
    /// statement is the first statement of the shell and the unmount
    /// statement the second, and nothing has gone wrong before the release
    /// began.
    pub open spec fn wf(self) -> bool {
        match self.stage {
            Stage::Starting => self.channel == ChannelView::fresh() && self.report
                == ReleaseReport::clean(),
            Stage::Mounting => self.channel == ChannelView::fresh().submitted() && self.report
                == ReleaseReport::clean(),
            Stage::Mounted => self.channel == ChannelView::fresh().submitted().acknowledged()
                && self.report == ReleaseReport::clean(),
            Stage::Unmounting => self.channel
                == ChannelView::fresh().submitted().acknowledged().submitted() && self.report
                == ReleaseReport::clean(),
            Stage::Closing => !self.report.exit_failure && !self.report.wait_failed,
            _ => true,
        }
    }

    /// The guard after all of `events`, first to last.
    pub open spec fn run(self, events: Seq<EventView>) -> GuardView
        decreases events.len(),
    {
        if events.len() == 0 {
            self
        } else {
            self.step(events[0]).0.run(events.drop_first())
        }
    }

    /// The answers of the guard to `events`, one for each.
    pub open spec fn actions(self, events: Seq<EventView>) -> Seq<ActionView>
        decreases events.len(),
    {
        if events.len() == 0 {
            Seq::empty()
        } else {
            seq![self.step(events[0]).1] + self.step(events[0]).0.actions(events.drop_first())
        }
    }

    /// The texts that the guard has sent to the shell while `events`
    /// arrive, in order.
    pub open spec fn sent(self, events: Seq<EventView>) -> Seq<Seq<u8>>
        decreases events.len(),
    {
        if events.len() == 0 {
            Seq::empty()
        } else {
            let text = match self.step(events[0]).1 {
                ActionView::Send(text) => seq![text],
                _ => Seq::empty(),
            };
            text + self.step(events[0]).0.sent(events.drop_first())
        }
    }
}

/// A guard is in step with its channel when it is handed out.
pub proof fn lemma_starting_guard_wf(basis: BasisLayout, system: SystemLayout)
    ensures
        starting_guard(basis, system).wf(),
{
}

/// No event takes a guard out of step with its channel.
pub proof fn lemma_step_keeps_wf(guard: GuardView, event: EventView)
    requires
        guard.wf(),
    ensures
        guard.step(event).0.wf(),
{
}

/// The merged view is handed out on the acknowledgment of the mount
/// statement and on nothing else: a guard that waits for it answers
/// `Mounted` exactly to the line that holds the first marker.
pub proof fn lemma_mounted_on_acknowledgment(guard: GuardView, event: EventView)
    requires
        guard.wf(),
        guard.stage is Mounting,
    ensures
        guard.step(event).1 is Mounted <==> event == EventView::Line(decimal(0)),
        guard.step(event).0.stage is Mounted <==> event == EventView::Line(decimal(0)),
        guard.step(event).1 is Mounted ==> guard.step(event).1 == ActionView::Mounted(
            guard.merged_path,
        ),
{
}

/// The unmount statement is sent exactly once for each acquired guard.
///
/// From the moment the merged view is mounted, whatever events arrive: if
/// the end of the operation is among them, then the one text that the guard
/// sends is the unmount statement, with the second marker; if it is not,
/// the guard sends nothing. Reporting the end twice does not send it twice,
/// and a guard that is past `Mounted` sends nothing more.
pub proof fn lemma_unmount_sent_once(guard: GuardView, events: Seq<EventView>)
    requires
        guard.wf(),
        is_acquired(guard.stage),
    ensures
        guard.sent(events) == if guard.stage is Mounted && events.contains(EventView::Release) {
            seq![framed(guard.unmount_statement, 1)]
        } else {
            Seq::<Seq<u8>>::empty()
        },
    decreases events.len(),
{
    if events.len() == 0 {
        assert(!events.contains(EventView::Release));
    } else {
        let rest = events.drop_first();
        let next = guard.step(events[0]).0;
        lemma_step_keeps_wf(guard, events[0]);
        lemma_unmount_sent_once(next, rest);
        if rest.contains(EventView::Release) {
            let i = choose|i: int| 0 <= i < rest.len() && rest[i] == EventView::Release;
            assert(events[i + 1] == EventView::Release);
        }
        if events.contains(EventView::Release) && events[0] != EventView::Release {
            let i = choose|i: int| 0 <= i < events.len() && events[i] == EventView::Release;
            assert(rest[i - 1] == EventView::Release);
        }
        if events[0] == EventView::Release {
            assert(events.contains(EventView::Release));
        }
        assert(guard.sent(events) =~= if guard.stage is Mounted && events.contains(
            EventView::Release,
        ) {
            seq![framed(guard.unmount_statement, 1)]
        } else {
            Seq::<Seq<u8>>::empty()
        });
    }
}

/// The release of a guard never fails the operation that the guard served.
///
/// From the moment the merged view is mounted, whatever events arrive, the
/// guard stays acquired and answers none of them with `Failed`.
pub proof fn lemma_release_never_fails(guard: GuardView, events: Seq<EventView>)
    requires
        is_acquired(guard.stage),
    ensures
        is_acquired(guard.run(events).stage),
        guard.actions(events).len() == events.len(),
        forall|i: int|
            0 <= i < events.len() ==> !(#[trigger] guard.actions(events)[i] is Failed),
    decreases events.len(),
{
    if events.len() > 0 {
        let next = guard.step(events[0]).0;
        let rest = events.drop_first();
        lemma_release_never_fails(next, rest);
        assert forall|i: int| 0 <= i < events.len() implies !(#[trigger] guard.actions(events)[i]
            is Failed) by {
            if i > 0 {
                assert(guard.actions(events)[i] == next.actions(rest)[i - 1]);
            }
        }
    }
}

/// The release of a guard completes, and a failure in it is recorded.
///
/// Once the unmount statement is sent, let any events arrive of which none
/// says how the shell ended, and then one that does. The guard is then
/// released, and stays so with the same report ever after. The report
/// records a failure status of the shell exactly when the shell ended with
/// one, and a failed wait exactly when the wait failed; and where the
/// unmount was not acknowledged before, it says so.
pub proof fn lemma_release_completes(guard: GuardView, before: Seq<EventView>, end: EventView)
    requires
        guard.wf(),
        guard.stage is Unmounting || guard.stage is Closing,
        forall|i: int| 0 <= i < before.len() ==> !is_exit(#[trigger] before[i]),
        is_exit(end),
    ensures
        ({
            let last = guard.run(before);
            let (released, answer) = last.step(end);
            &&& last.stage is Unmounting || last.stage is Closing
            &&& released.stage is Released
            &&& answer == ActionView::Released(released.report)
            &&& released.report.exit_failure <==> end == EventView::Exited(false)
            &&& released.report.wait_failed <==> end is WaitFailed
            &&& released.report.unmount_unconfirmed <==> last.stage is Unmounting
                || last.report.unmount_unconfirmed
            &&& forall|later: EventView| #[trigger]
                released.step(later) == (released, ActionView::Released(released.report))
        }),
    decreases before.len(),
{
    if before.len() > 0 {
        lemma_step_keeps_wf(guard, before[0]);
        let rest = before.drop_first();
        assert forall|i: int| 0 <= i < rest.len() implies !is_exit(#[trigger] rest[i]) by {
            assert(rest[i] == before[i + 1]);
        }
        lemma_release_completes(guard.step(before[0]).0, rest, end);
    }
}

/// A failed mount is an error of the operation, and no guard comes of it.
///
/// While the mount statement awaits its acknowledgment, let the pipe close
/// or not, and the shell then end with a failure status. The guard answers
/// `Failed` with `MountFailed`. Whatever events arrive after that, it stays
/// failed, answers each with the same error, and sends nothing: no unmount
/// is attempted.
pub proof fn lemma_failed_mount_propagates(
    guard: GuardView,
    pipe_closed: bool,
    events: Seq<EventView>,
)
    requires
        guard.stage is Mounting,
    ensures
        ({
            let lost = if pipe_closed {
                guard.step(EventView::Closed).0
            } else {
                guard
            };
            let (failed, answer) = lost.step(EventView::Exited(false));
            &&& answer == ActionView::Failed(MountError::MountFailed)
            &&& failed.stage == Stage::Failed(MountError::MountFailed)
            &&& failed.run(events).stage == Stage::Failed(MountError::MountFailed)
            &&& failed.sent(events) == Seq::<Seq<u8>>::empty()
            &&& failed.actions(events).len() == events.len()
            &&& forall|i: int|
                0 <= i < events.len() ==> #[trigger] failed.actions(events)[i]
                    == ActionView::Failed(MountError::MountFailed)
        }),
{
    let lost = if pipe_closed {
        guard.step(EventView::Closed).0
    } else {
        guard
    };
    let failed = lost.step(EventView::Exited(false)).0;
    lemma_failed_stays_failed(failed, MountError::MountFailed, events);
}

/// A guard that failed stays failed: it answers every event with its
/// error and sends nothing.
pub proof fn lemma_failed_stays_failed(guard: GuardView, error: MountError, events: Seq<EventView>)
    requires
        guard.stage == Stage::Failed(error),
    ensures
        guard.run(events) == guard,
        guard.sent(events) == Seq::<Seq<u8>>::empty(),
        guard.actions(events).len() == events.len(),
        forall|i: int|
            0 <= i < events.len() ==> #[trigger] guard.actions(events)[i] == ActionView::Failed(
                error,
            ),
    decreases events.len(),
{
    if events.len() > 0 {
        let rest = events.drop_first();
        lemma_failed_stays_failed(guard, error, rest);
        assert forall|i: int| 0 <= i < events.len() implies #[trigger] guard.actions(events)[i]
            == ActionView::Failed(error) by {
            if i > 0 {
                assert(guard.actions(events)[i] == guard.actions(rest)[i - 1]);
            }
        }
        assert(guard.sent(events) =~= Seq::<Seq<u8>>::empty());
    }
}

} // verus!
