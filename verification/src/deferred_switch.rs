//! Retain a switch gesture while the shell dismisses its foreground menu.

use crate::input::InputAction;
use std::time::Duration;
use vstd::prelude::*;

verus! {

/// At most this many actions wait for the shell.
pub const MAX_ACTIONS: usize = 32;

/// After this many nanoseconds with the shell still in front, its dismissal is tried again.
pub const RETRY_AFTER_NANOS: u128 = 150_000_000;

/// After this many nanoseconds the pending opening is given up.
pub const TIMEOUT_NANOS: u128 = 500_000_000;

#[derive(Debug, PartialEq)]
pub enum DeferredSwitchPoll {
    Wait,
    RetryDismissal,
    Ready(Vec<InputAction>),
    Cancel,
}

/// A poll's answer as the contracts speak of it.
pub enum PollView {
    Wait,
    RetryDismissal,
    Ready(Seq<InputAction>),
    Cancel,
}

pub open spec fn poll_view(poll: DeferredSwitchPoll) -> PollView {
    match poll {
        DeferredSwitchPoll::Wait => PollView::Wait,
        DeferredSwitchPoll::RetryDismissal => PollView::RetryDismissal,
        DeferredSwitchPoll::Ready(actions) => PollView::Ready(actions@),
        DeferredSwitchPoll::Cancel => PollView::Cancel,
    }
}

pub struct DeferredSwitch {
    actions: Vec<InputAction>,
    retried: bool,
    cancelled: bool,
}

/// A deferred switch as the contracts speak of it.
pub struct DeferredModel {
    pub actions: Seq<InputAction>,
    pub retried: bool,
    pub cancelled: bool,
}

impl View for DeferredSwitch {
    type V = DeferredModel;

    closed spec fn view(&self) -> DeferredModel {
        DeferredModel { actions: self.actions@, retried: self.retried, cancelled: self.cancelled }
    }
}

/// The whole nanoseconds `elapsed` holds, as `Duration::as_nanos` counts them.
pub uninterp spec fn duration_nanos(elapsed: Duration) -> u128;

/// `Duration::as_nanos`: the total number of whole nanoseconds the duration holds.
#[verifier::external_body]
fn elapsed_nanos(elapsed: Duration) -> (nanos: u128)
    ensures
        nanos == duration_nanos(elapsed),
{
    elapsed.as_nanos()
}

/// Actions that only display or move the selection and can run before the shell lets go.
pub open spec fn is_preview(action: InputAction) -> bool {
    match action {
        InputAction::Switch(_) | InputAction::Navigate(_) | InputAction::SelectFirst
        | InputAction::SelectLast | InputAction::MouseWheel(_)
        | InputAction::AppendSearchCharacter(_) | InputAction::BackspaceSearch => true,
        _ => false,
    }
}

/// How many actions at the front of `actions` are previews.
pub open spec fn preview_count(actions: Seq<InputAction>) -> nat
    decreases actions.len(),
{
    if actions.len() == 0 || !is_preview(actions[0]) {
        0
    } else {
        1 + preview_count(actions.drop_first())
    }
}

pub open spec fn pushed(m: DeferredModel, action: InputAction) -> (DeferredModel, bool) {
    if m.cancelled || action == InputAction::DismissOverlay || m.actions.len() == MAX_ACTIONS {
        (DeferredModel { actions: Seq::empty(), cancelled: true, ..m }, false)
    } else {
        (DeferredModel { actions: m.actions.push(action), ..m }, true)
    }
}

/// What a poll after `elapsed_nanos` decides, and what it leaves.
pub open spec fn polled(m: DeferredModel, shell_has_focus: bool, elapsed_nanos: u128) -> (
    DeferredModel,
    PollView,
) {
    if m.cancelled || elapsed_nanos >= TIMEOUT_NANOS {
        (DeferredModel { actions: Seq::empty(), cancelled: true, ..m }, PollView::Cancel)
    } else if !shell_has_focus {
        (DeferredModel { actions: Seq::empty(), ..m }, PollView::Ready(m.actions))
    } else if !m.retried && elapsed_nanos >= RETRY_AFTER_NANOS {
        (DeferredModel { retried: true, ..m }, PollView::RetryDismissal)
    } else {
        (m, PollView::Wait)
    }
}

fn is_preview_action(action: InputAction) -> (preview: bool)
    ensures
        preview == is_preview(action),
{
    matches!(
        action,
        InputAction::Switch(_) | InputAction::Navigate(_) | InputAction::SelectFirst
            | InputAction::SelectLast | InputAction::MouseWheel(_)
            | InputAction::AppendSearchCharacter(_) | InputAction::BackspaceSearch
    )
}

proof fn lemma_preview_count_step(actions: Seq<InputAction>, count: int)
    requires
        0 <= count < actions.len(),
        forall|i: int| 0 <= i < count ==> is_preview(#[trigger] actions[i]),
    ensures
        preview_count(actions) == count <==> !is_preview(actions[count]),
        !is_preview(actions[count]) ==> preview_count(actions) == count,
    decreases count,
{
    if count > 0 {
        let rest = actions.drop_first();
        assert forall|i: int| 0 <= i < count - 1 implies is_preview(#[trigger] rest[i]) by {
            assert(rest[i] == actions[i + 1]);
        }
        lemma_preview_count_step(rest, count - 1);
        assert(rest[count - 1] == actions[count]);
    }
}

proof fn lemma_preview_count_all(actions: Seq<InputAction>)
    requires
        forall|i: int| 0 <= i < actions.len() ==> is_preview(#[trigger] actions[i]),
    ensures
        preview_count(actions) == actions.len(),
    decreases actions.len(),
{
    if actions.len() > 0 {
        let rest = actions.drop_first();
        assert forall|i: int| 0 <= i < rest.len() implies is_preview(#[trigger] rest[i]) by {
            assert(rest[i] == actions[i + 1]);
        }
        lemma_preview_count_all(rest);
    }
}

impl DeferredSwitch {
    pub fn new(first: InputAction) -> (deferred: Self)
        ensures
            deferred@ == (DeferredModel { actions: seq![first], retried: false, cancelled: false }),
    {
        let mut actions = Vec::new();
        actions.push(first);
        proof {
            assert(actions@ =~= seq![first]);
        }
        Self { actions, retried: false, cancelled: false }
    }

    /// False cancels the pending opening, including a Windows-key or Escape dismissal.
    pub fn push(&mut self, action: InputAction) -> (kept: bool)
        ensures
            (final(self)@, kept) == pushed(old(self)@, action),
    {
        if self.cancelled || action == InputAction::DismissOverlay || self.actions.len()
            == MAX_ACTIONS {
            self.actions.clear();
            self.cancelled = true;
            return false;
        }
        self.actions.push(action);
        true
    }

    /// Display and navigate immediately, but preserve ordering once an action needs focus.
    pub fn take_preview_actions(&mut self) -> (previews: Vec<InputAction>)
        ensures
            previews@ == old(self)@.actions.take(preview_count(old(self)@.actions) as int),
            final(self)@ == (DeferredModel {
                actions: old(self)@.actions.skip(preview_count(old(self)@.actions) as int),
                ..old(self)@
            }),
    {
        let ghost actions = self.actions@;
        let mut count: usize = 0;
        while count < self.actions.len()
            invariant
                count <= self.actions.len(),
                self.actions@ == actions,
                forall|i: int| 0 <= i < count ==> is_preview(#[trigger] actions[i]),
            ensures
                count <= self.actions.len(),
                self.actions@ == actions,
                forall|i: int| 0 <= i < count ==> is_preview(#[trigger] actions[i]),
                count == actions.len() || !is_preview(actions[count as int]),
            decreases self.actions.len() - count,
        {
            if !is_preview_action(self.actions[count]) {
                break;
            }
            count = count + 1;
        }
        proof {
            if count == actions.len() {
                lemma_preview_count_all(actions);
            } else {
                lemma_preview_count_step(actions, count as int);
            }
        }
        let mut previews = self.actions.split_off(count);
        std::mem::swap(&mut self.actions, &mut previews);
        proof {
            assert(previews@ =~= actions.take(count as int));
            assert(self.actions@ =~= actions.skip(count as int));
        }
        previews
    }

    /// Decides, `elapsed` after the gesture started, whether the queued actions can run.
    pub fn poll(&mut self, shell_has_focus: bool, elapsed: Duration) -> (poll: DeferredSwitchPoll)
        ensures
            (final(self)@, poll_view(poll)) == polled(
                old(self)@,
                shell_has_focus,
                duration_nanos(elapsed),
            ),
    {
        let nanos = elapsed_nanos(elapsed);
        self.poll_nanos(shell_has_focus, nanos)
    }

    /// `poll` for a time given in whole nanoseconds.
    pub fn poll_nanos(&mut self, shell_has_focus: bool, elapsed_nanos: u128) -> (poll:
        DeferredSwitchPoll)
        ensures
            (final(self)@, poll_view(poll)) == polled(old(self)@, shell_has_focus, elapsed_nanos),
    {
        if self.cancelled || elapsed_nanos >= TIMEOUT_NANOS {
            self.actions.clear();
            self.cancelled = true;
            DeferredSwitchPoll::Cancel
        } else if !shell_has_focus {
            let mut actions = Vec::new();
            std::mem::swap(&mut self.actions, &mut actions);
            DeferredSwitchPoll::Ready(actions)
        } else if !self.retried && elapsed_nanos >= RETRY_AFTER_NANOS {
            self.retried = true;
            DeferredSwitchPoll::RetryDismissal
        } else {
            DeferredSwitchPoll::Wait
        }
    }
}


/// A queue that never holds more than `MAX_ACTIONS` actions, and none once cancelled.
pub open spec fn bounded(m: DeferredModel) -> bool {
    m.actions.len() <= MAX_ACTIONS && (m.cancelled ==> m.actions.len() == 0)
}

/// The queue stays bounded through every push, poll and preview: the backlog of input that
/// waits for the shell is capped, and a cancelled queue holds nothing.
pub proof fn law_backlog_stays_bounded(
    m: DeferredModel,
    action: InputAction,
    shell_has_focus: bool,
    elapsed_nanos: u128,
)
    requires
        bounded(m),
    ensures
        bounded(pushed(m, action).0),
        bounded(polled(m, shell_has_focus, elapsed_nanos).0),
        bounded(DeferredModel { actions: m.actions.skip(preview_count(m.actions) as int), ..m }),
{
    lemma_preview_count_bounded(m.actions);
}

proof fn lemma_preview_count_bounded(actions: Seq<InputAction>)
    ensures
        preview_count(actions) <= actions.len(),
    decreases actions.len(),
{
    if actions.len() > 0 && is_preview(actions[0]) {
        lemma_preview_count_bounded(actions.drop_first());
    }
}

/// Once cancelled, a gesture never reopens: every later push is refused and every later poll
/// cancels. Dismissing the overlay, or a full backlog, cancels it.
pub proof fn law_cancellation_is_final(
    m: DeferredModel,
    action: InputAction,
    shell_has_focus: bool,
    elapsed_nanos: u128,
)
    ensures
        m.cancelled ==> !pushed(m, action).1 && pushed(m, action).0.cancelled,
        m.cancelled ==> polled(m, shell_has_focus, elapsed_nanos).1 == PollView::Cancel,
        pushed(m, InputAction::DismissOverlay).0.cancelled,
        m.actions.len() == MAX_ACTIONS ==> pushed(m, action).0.cancelled,
{
}

/// Previews are the longest run of display-only actions at the front of the queue: they and the
/// actions left behind make up the queue in its order, and what is left starts with an action
/// that needs focus.
pub proof fn law_previews_split_the_queue(actions: Seq<InputAction>)
    ensures
        ({
            let count = preview_count(actions) as int;
            &&& count <= actions.len()
            &&& actions.take(count) + actions.skip(count) == actions
            &&& forall|i: int| 0 <= i < count ==> is_preview(#[trigger] actions[i])
            &&& count < actions.len() ==> !is_preview(actions[count])
        }),
    decreases actions.len(),
{
    lemma_preview_count_bounded(actions);
    let count = preview_count(actions) as int;
    assert(actions.take(count) + actions.skip(count) =~= actions);
    if actions.len() > 0 && is_preview(actions[0]) {
        let rest = actions.drop_first();
        law_previews_split_the_queue(rest);
        assert forall|i: int| 0 <= i < count implies is_preview(#[trigger] actions[i]) by {
            if i > 0 {
                assert(actions[i] == rest[i - 1]);
            }
        }
        if count < actions.len() {
            assert(actions[count] == rest[count - 1]);
        }
    }
}

/// When the shell lets go in time, every queued action is handed over, in the order queued, and
/// the queue is left empty.
pub proof fn law_release_hands_over_the_queue(m: DeferredModel, elapsed_nanos: u128)
    requires
        !m.cancelled,
        elapsed_nanos < TIMEOUT_NANOS,
    ensures
        polled(m, false, elapsed_nanos).1 == PollView::Ready(m.actions),
        polled(m, false, elapsed_nanos).0.actions.len() == 0,
{
}

} // verus!
