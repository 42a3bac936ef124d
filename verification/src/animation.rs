//! The animator: one state at a time, held for that state's duration.

use crate::timer::{start_timer, tick_timer, timer_view};
use bevy::time::Timer;
use vstd::prelude::*;
use vstd::std_specs::convert::FromSpecImpl;

verus! {

/// What a state of an animation answers for. How a state poses its entity at
/// a given progress is the host's concern and no part of this contract.
pub trait AnimatorStateMachine: Default + Clone + Sized {
    /// How long the state lasts, in nanoseconds. Zero: it rests until
    /// replaced. A type that says nothing has states without duration.
    open spec fn spec_duration(&self) -> u64 {
        0
    }

    /// The state that follows when this one runs out, if it names one. A type
    /// that says nothing names none.
    open spec fn spec_next(&self) -> Option<Self> {
        None
    }

    fn duration(&self) -> (nanos: u64)
        ensures
            nanos == self.spec_duration(),
    ;

    fn next(&self) -> (state: Option<Self>)
        ensures
            state == self.spec_next(),
    ;
}

/// What one frame did to an animator.
#[derive(Debug, Clone, Copy, PartialEq, Eq, Structural)]
pub enum FrameAction {
    /// The state has no duration: no time was counted and no progress is
    /// meaningful.
    Rest,
    /// The state is under way: it is to be posed at the timer's progress.
    Pose,
    /// The state ran out in this frame and was replaced; the old state is not
    /// posed any more.
    Transitioned,
}

/// The engine's timer for the current state. It is always a one-shot timer
/// that runs and has not finished: an animator moves on in the very frame in
/// which its state runs out.
struct Countdown {
    timer: Timer,
}

/// The current state and where its timer stands.
#[derive(Clone)]
pub struct Animator<T: AnimatorStateMachine> {
    state: T,
    countdown: Countdown,
}

/// An animator as contracts see it. Progress is `elapsed / duration`.
pub struct AnimatorView<T> {
    pub state: T,
    /// Nanoseconds counted since the timer was armed.
    pub elapsed: nat,
    /// Nanoseconds the timer was armed for.
    pub duration: nat,
}

/// An animator that has just entered `state`.
pub open spec fn armed<T: AnimatorStateMachine>(state: T) -> AnimatorView<T> {
    AnimatorView { state, elapsed: 0, duration: state.spec_duration() as nat }
}

/// `next` may follow `state`: it is the successor that `state` names, or,
/// where it names none, a default of the type.
pub open spec fn follows<T: AnimatorStateMachine>(state: T, next: T) -> bool {
    match state.spec_next() {
        Some(named) => next == named,
        None => call_ensures(T::default, (), next),
    }
}

/// One frame of `delta` nanoseconds, from `before` to `after`.
///
/// A state without duration rests: nothing moves. Otherwise the time counts;
/// when it reaches what the timer was armed for, the animator enters the
/// state that follows, else it poses at the new progress.
pub open spec fn advanced<T: AnimatorStateMachine>(
    before: AnimatorView<T>,
    delta: u64,
    action: FrameAction,
    after: AnimatorView<T>,
) -> bool {
    if before.state.spec_duration() == 0 {
        action == FrameAction::Rest && after == before
    } else if before.elapsed + delta >= before.duration {
        &&& action == FrameAction::Transitioned
        &&& follows(before.state, after.state)
        &&& after == armed(after.state)
    } else {
        &&& action == FrameAction::Pose
        &&& after == (AnimatorView { elapsed: (before.elapsed + delta) as nat, ..before })
    }
}

/// A run of frames: `views[0]` is where an animator starts, and frame `i`,
/// of `deltas[i]` nanoseconds, takes it from `views[i]` to `views[i + 1]`
/// and does `actions[i]`.
pub open spec fn is_run<T: AnimatorStateMachine>(
    views: Seq<AnimatorView<T>>,
    deltas: Seq<u64>,
    actions: Seq<FrameAction>,
) -> bool {
    &&& views.len() == deltas.len() + 1
    &&& actions.len() == deltas.len()
    &&& forall|i: int|
        0 <= i < deltas.len() ==> advanced(
            #[trigger] views[i],
            deltas[i],
            actions[i],
            views[i + 1],
        )
}

/// The time that a run of frames covers.
pub open spec fn total(deltas: Seq<u64>) -> nat
    decreases deltas.len(),
{
    if deltas.len() == 0 {
        0
    } else {
        total(deltas.drop_last()) + deltas.last() as nat
    }
}

/// One more frame adds its time.
pub proof fn lemma_total_step(deltas: Seq<u64>, i: int)
    requires
        0 <= i < deltas.len(),
    ensures
        total(deltas.take(i + 1)) == total(deltas.take(i)) + deltas[i],
{
    assert(deltas.take(i + 1).drop_last() =~= deltas.take(i));
}

/// More frames never cover less time.
pub proof fn lemma_total_grows(deltas: Seq<u64>, i: int, j: int)
    requires
        0 <= i <= j <= deltas.len(),
    ensures
        total(deltas.take(i)) <= total(deltas.take(j)),
    decreases j - i,
{
    if i < j {
        lemma_total_grows(deltas, i, j - 1);
        lemma_total_step(deltas, j - 1);
    }
}

/// A state without duration rests for good: whatever the frames, each
/// reports `Rest`, none a transition, and state and timer stay as they were.
pub proof fn lemma_rest_persists<T: AnimatorStateMachine>(
    views: Seq<AnimatorView<T>>,
    deltas: Seq<u64>,
    actions: Seq<FrameAction>,
    k: int,
)
    requires
        is_run(views, deltas, actions),
        views[0].state.spec_duration() == 0,
        0 <= k < deltas.len(),
    ensures
        actions[k] == FrameAction::Rest,
        views[k + 1] == views[0],
    decreases k,
{
    if k > 0 {
        lemma_rest_persists(views, deltas, actions, k - 1);
    }
}

/// While a timed state has time left, each frame poses it: after `k` frames
/// that together stay short of the duration, the state is the same, the time
/// counted is the sum of the frames, and progress is below one.
pub proof fn lemma_poses_while_short<T: AnimatorStateMachine>(
    views: Seq<AnimatorView<T>>,
    deltas: Seq<u64>,
    actions: Seq<FrameAction>,
    k: int,
)
    requires
        is_run(views, deltas, actions),
        views[0].state.spec_duration() > 0,
        0 <= k <= deltas.len(),
        views[0].elapsed + total(deltas.take(k)) < views[0].duration,
    ensures
        views[k] == (AnimatorView {
            elapsed: views[0].elapsed + total(deltas.take(k)),
            ..views[0]
        }),
        forall|i: int| 0 <= i < k ==> #[trigger] actions[i] == FrameAction::Pose,
    decreases k,
{
    if k > 0 {
        lemma_total_step(deltas, k - 1);
        lemma_poses_while_short(views, deltas, actions, k - 1);
    }
}

/// A timed state runs out exactly once. Take frames of which the last is the
/// first to bring the time counted up to the duration. Then every frame
/// before the last poses the state at a progress below one, and the last
/// frame is the transition: into the state that the old one names, or into a
/// default where it names none, with the timer armed anew for that state.
pub proof fn lemma_runs_out_once<T: AnimatorStateMachine>(
    views: Seq<AnimatorView<T>>,
    deltas: Seq<u64>,
    actions: Seq<FrameAction>,
)
    requires
        is_run(views, deltas, actions),
        views[0].state.spec_duration() > 0,
        deltas.len() > 0,
        views[0].elapsed + total(deltas.drop_last()) < views[0].duration,
        views[0].elapsed + total(deltas) >= views[0].duration,
    ensures
        forall|i: int|
            0 <= i < deltas.len() - 1 ==> {
                &&& #[trigger] actions[i] == FrameAction::Pose
                &&& views[i + 1].state == views[0].state
                &&& views[i + 1].duration == views[0].duration
                &&& views[i + 1].elapsed == views[0].elapsed + total(deltas.take(i + 1))
                &&& views[i + 1].elapsed < views[i + 1].duration
            },
        actions.last() == FrameAction::Transitioned,
        follows(views[0].state, views.last().state),
        views.last() == armed(views.last().state),
{
    let n = deltas.len() as int;
    lemma_poses_while_short(views, deltas, actions, n - 1);
    assert forall|i: int| 0 <= i < n - 1 implies {
        &&& #[trigger] actions[i] == FrameAction::Pose
        &&& views[i + 1].state == views[0].state
        &&& views[i + 1].duration == views[0].duration
        &&& views[i + 1].elapsed == views[0].elapsed + total(deltas.take(i + 1))
        &&& views[i + 1].elapsed < views[i + 1].duration
    } by {
        lemma_total_grows(deltas, i + 1, n - 1);
        lemma_poses_while_short(views, deltas, actions, i + 1);
    }
}

impl Countdown {
    #[verifier::type_invariant]
    spec fn running(self) -> bool {
        let t = timer_view(self.timer);
        &&& !t.paused
        &&& !t.repeating
        &&& !t.finished
        &&& !t.just_finished
        &&& t.duration <= u64::MAX
        &&& (t.elapsed < t.duration || t.elapsed == 0)
    }

    closed spec fn elapsed(&self) -> nat {
        timer_view(self.timer).elapsed
    }

    closed spec fn duration(&self) -> nat {
        timer_view(self.timer).duration
    }

    /// A countdown of `duration` nanoseconds, at its start.
    fn start(duration: u64) -> (countdown: Countdown)
        ensures
            countdown.elapsed() == 0,
            countdown.duration() == duration,
    {
        Countdown { timer: start_timer(duration) }
    }

    /// Counts `delta` nanoseconds and says whether that completes the
    /// countdown. A countdown that completes is spent and stays as it was.
    fn count(&mut self, delta: u64) -> (done: bool)
        ensures
            done == (old(self).elapsed() + delta >= old(self).duration()),
            done ==> *final(self) == *old(self),
            !done ==> final(self).elapsed() == old(self).elapsed() + delta,
            final(self).duration() == old(self).duration(),
    {
        proof {
            use_type_invariant(&*self);
        }
        let mut timer = self.timer.clone();
        tick_timer(&mut timer, delta);
        if timer.just_finished() {
            true
        } else {
            self.timer = timer;
            false
        }
    }
}

impl Clone for Countdown {
    fn clone(&self) -> (copy: Self)
        ensures
            copy == *self,
    {
        proof {
            use_type_invariant(self);
        }
        Countdown { timer: self.timer.clone() }
    }
}

impl<T: AnimatorStateMachine> View for Animator<T> {
    type V = AnimatorView<T>;

    closed spec fn view(&self) -> AnimatorView<T> {
        AnimatorView {
            state: self.state,
            elapsed: self.countdown.elapsed(),
            duration: self.countdown.duration(),
        }
    }
}

impl<T: AnimatorStateMachine> Animator<T> {
    /// The timer as contracts see it.
    pub closed spec fn clock(&self) -> Timer {
        self.countdown.timer
    }

    /// Enters `state`, whatever the animator was doing: the timer starts
    /// over, armed for the new state's duration. Returns the state left.
    pub fn transition_into(&mut self, state: T) -> (previous: T)
        ensures
            previous == old(self)@.state,
            final(self)@ == armed(state),
    {
        self.countdown = Countdown::start(state.duration());
        let mut previous = state;
        std::mem::swap(&mut self.state, &mut previous);
        previous
    }

    /// Edits the state in place. The timer is not touched, so the state's
    /// animation goes on from where it stood.
    pub fn mutate_state(&mut self, mut mutator: impl FnMut(&mut T))
        requires
            forall|s: &mut T| *s == old(self)@.state ==> mutator.requires((s,)),
        ensures
            exists|s: &mut T|
                *s == old(self)@.state && *final(s) == final(self)@.state && mutator.ensures(
                    (s,),
                    (),
                ),
            final(self)@.elapsed == old(self)@.elapsed,
            final(self)@.duration == old(self)@.duration,
            final(self).clock() == old(self).clock(),
    {
        mutator(&mut self.state)
    }

    /// Runs one frame of `delta` nanoseconds.
    ///
    /// A state without duration is left alone, timer and all. Any other has
    /// the frame counted on its timer; if that completes the timer, the
    /// animator enters the successor that the state names, or a default
    /// state where it names none, and the frame poses nothing.
    pub fn advance(&mut self, delta: u64) -> (action: FrameAction)
        ensures
            advanced(old(self)@, delta, action, final(self)@),
            action == FrameAction::Rest ==> *final(self) == *old(self),
    {
        if self.state.duration() == 0 {
            return FrameAction::Rest;
        }
        if self.countdown.count(delta) {
            let next = match self.state.next() {
                Some(named) => named,
                None => T::default(),
            };
            self.transition_into(next);
            FrameAction::Transitioned
        } else {
            FrameAction::Pose
        }
    }

    /// The current state.
    pub fn state(&self) -> (state: &T)
        ensures
            *state == self@.state,
    {
        &self.state
    }

    /// The timer, for reading its progress. Progress never passes one and
    /// stays below it while a timed state is under way; the timer handed out
    /// is never finished.
    pub fn timer(&self) -> (timer: &Timer)
        ensures
            *timer == self.clock(),
            timer_view(*timer).elapsed == self@.elapsed,
            timer_view(*timer).duration == self@.duration,
            self@.elapsed <= self@.duration <= u64::MAX,
            self@.duration > 0 ==> self@.elapsed < self@.duration,
            !timer_view(*timer).finished,
            !timer_view(*timer).just_finished,
    {
        proof {
            use_type_invariant(&self.countdown);
        }
        &self.countdown.timer
    }
}

impl<T: AnimatorStateMachine> FromSpecImpl<T> for Animator<T> {
    open spec fn obeys_from_spec() -> bool {
        false
    }

    open spec fn from_spec(state: T) -> Self {
        arbitrary()
    }
}

impl<T: AnimatorStateMachine> From<T> for Animator<T> {
    /// An animator that has just entered `state`.
    fn from(state: T) -> (animator: Self)
        ensures
            animator@ == armed(state),
    {
        let countdown = Countdown::start(state.duration());
        Animator { state, countdown }
    }
}

impl<T: AnimatorStateMachine> Default for Animator<T> {
    /// An animator that has just entered a default state.
    fn default() -> (animator: Self)
        ensures
            call_ensures(T::default, (), animator@.state),
            animator@ == armed(animator@.state),
    {
        let state = T::default();
        let countdown = Countdown::start(state.duration());
        Animator { state, countdown }
    }
}

/// Runs one frame of `delta` nanoseconds on every animator, and says for each
/// what the frame did.
pub fn animator_system<T: AnimatorStateMachine>(animators: &mut Vec<Animator<T>>, delta: u64) -> (actions:
    Vec<FrameAction>)
    ensures
        final(animators).len() == old(animators).len(),
        actions.len() == old(animators).len(),
        forall|i: int|
            0 <= i < old(animators).len() ==> advanced(
                (#[trigger] old(animators)[i])@,
                delta,
                actions[i],
                final(animators)[i]@,
            ),
{
    let mut actions: Vec<FrameAction> = Vec::new();
    let n = animators.len();
    let mut i: usize = 0;
    while i < n
        invariant
            i <= n,
            n == animators.len(),
            n == old(animators).len(),
            actions.len() == i,
            forall|j: int| i <= j < n ==> #[trigger] animators[j] == old(animators)[j],
            forall|j: int|
                0 <= j < i ==> advanced(
                    old(animators)[j]@,
                    delta,
                    #[trigger] actions[j],
                    animators[j]@,
                ),
        decreases n - i,
    {
        let action = animators[i].advance(delta);
        actions.push(action);
        i += 1;
    }
    actions
}

} // verus!
