use async_channel::Receiver as ChannelReceiver;
use vstd::prelude::*;

use crate::channel::try_receive;

verus! {

/// Builds one execution of a task.
///
/// The execution is whatever the driver of the task polls (in practice a boxed
/// future); it is built from the task's current fields, which it reads but
/// does not change.
pub trait Defer {
    type Future;

    /// The execution that `into_fut` builds from the task as it stands.
    spec fn built(&self) -> Self::Future;

    fn into_fut(&self) -> (r: Self::Future)
        ensures
            r == self.built(),
    ;
}

/// A task whose execution is built lazily, at most once, on its first drive.
pub struct DeferFuture<T: Defer> {
    fut: Option<T::Future>,
    defer: T,
}

impl<T: Defer> DeferFuture<T> {
    /// Whether the execution has been built.
    pub closed spec fn is_started(self) -> bool {
        self.fut is Some
    }

    /// The task that builds the execution.
    pub closed spec fn task(self) -> T {
        self.defer
    }

    /// The execution, once it has been built.
    pub closed spec fn execution(self) -> T::Future {
        self.fut->Some_0
    }

    /// Wraps a task; nothing is built and no task code runs.
    pub fn new(defer: T) -> (r: Self)
        ensures
            !r.is_started(),
            r.task() == defer,
    {
        Self { fut: None, defer }
    }

    /// Whether the execution has been built.
    pub fn started(&self) -> (r: bool)
        ensures
            r == self.is_started(),
    {
        self.fut.is_some()
    }

    /// Drives the task: builds the execution if this is the first drive, and
    /// hands out the execution to be polled. An execution that exists is
    /// never rebuilt.
    pub fn drive(&mut self) -> (r: &mut T::Future)
        ensures
            final(self).is_started(),
            final(self).task() == old(self).task(),
            old(self).is_started() ==> *r == old(self).execution(),
            !old(self).is_started() ==> *r == old(self).task().built(),
            final(self).execution() == *final(r),
    {
        if self.fut.is_none() {
            self.fut = Some(self.defer.into_fut());
        }
        self.fut.as_mut().unwrap()
    }
}

/// What a non-blocking look at a state channel found.
pub enum StateCheck<S> {
    /// A new state value was waiting.
    Ready(S),
    /// Nothing was waiting.
    Empty,
    /// The channel is closed and drained: no state will come any more.
    Closed,
}

/// The kind of a look at the state channel, without its value.
pub enum Signal {
    /// A new state value was waiting.
    Update,
    /// Nothing was waiting.
    Quiet,
    /// The channel was found closed.
    Hangup,
}

/// The kind of a look, forgetting the value it found.
pub open spec fn signal_of<S>(check: StateCheck<S>) -> Signal {
    match check {
        StateCheck::Ready(_) => Signal::Update,
        StateCheck::Empty => Signal::Quiet,
        StateCheck::Closed => Signal::Hangup,
    }
}

/// What the driver of a restartable task does after a look at its state
/// channel.
#[derive(Debug, PartialEq, Eq, Structural)]
pub enum Step {
    /// A fresh execution was built: poll it.
    Start,
    /// Keep polling the execution in flight.
    Poll,
    /// The execution in flight was discarded and the state updated; do not
    /// poll now, drive again at the next opportunity.
    Restart,
}

/// The abstract state of the restart-on-update engine: whether an execution
/// is in flight, whether the state channel is still open, how many updates
/// have been folded in (the version of the state), and the version of the
/// state that each execution was built from, in order.
pub struct EngineView {
    pub running: bool,
    pub open: bool,
    pub version: nat,
    pub launched: Seq<nat>,
}

impl EngineView {
    pub open spec fn initial() -> EngineView {
        EngineView { running: false, open: true, version: 0, launched: seq![] }
    }

    /// An execution is built from the current state if none is in flight.
    pub open spec fn launch(self) -> EngineView {
        if self.running {
            self
        } else {
            EngineView { running: true, launched: self.launched.push(self.version), ..self }
        }
    }

    /// The transition on one look at the state channel. The channel is looked
    /// at before the execution is polled: an update discards the execution in
    /// flight and is folded into the state; the next execution is built at the
    /// next drive, never in the same one.
    pub open spec fn next(self, sig: Signal) -> EngineView {
        match sig {
            Signal::Update => EngineView { running: false, version: self.version + 1, ..self },
            Signal::Quiet => self.launch(),
            Signal::Hangup => EngineView { open: false, ..self.launch() },
        }
    }

    /// What the driver is told to do on one look at the state channel.
    pub open spec fn step(self, sig: Signal) -> Step {
        match sig {
            Signal::Update => Step::Restart,
            _ => if self.running {
                Step::Poll
            } else {
                Step::Start
            },
        }
    }
}

/// The engine's abstract state after a sequence of looks at the state channel.
pub open spec fn run(sigs: Seq<Signal>) -> EngineView
    decreases sigs.len(),
{
    if sigs.len() == 0 {
        EngineView::initial()
    } else {
        run(sigs.drop_last()).next(sigs.last())
    }
}

/// A task that can be restarted with an updated state.
///
/// `update` folds an incoming state value into the task's stored state, as
/// `merged` says; the policy (replace, accumulate, ...) is the task's own.
pub trait Undefer: Defer + Sized {
    type State;

    /// The task after `state` is folded into it.
    spec fn merged(self, state: Self::State) -> Self;

    fn update(&mut self, state: Self::State)
        ensures
            *final(self) == old(self).merged(state),
    ;
}

/// The restart-on-update engine: drives a task whose execution is discarded
/// and rebuilt whenever a new state value arrives.
pub struct UndeferFuture<T: Undefer> {
    fut: Option<T::Future>,
    defer: T,
    open: bool,
    version: Ghost<nat>,
    launched: Ghost<Seq<nat>>,
    history: Ghost<Seq<T>>,
}

impl<T: Undefer> UndeferFuture<T> {
    /// The engine's abstract state.
    pub closed spec fn view(self) -> EngineView {
        EngineView {
            running: self.fut is Some,
            open: self.open,
            version: self.version@,
            launched: self.launched@,
        }
    }

    /// The task, holding the state that the next execution is built from.
    pub closed spec fn task(self) -> T {
        self.defer
    }

    /// The task as it stood at each version of the state: the task it was
    /// created with, then after each update, in order.
    pub closed spec fn history(self) -> Seq<T> {
        self.history@
    }

    /// The execution in flight.
    pub closed spec fn execution(self) -> T::Future {
        self.fut->Some_0
    }

    /// Well-formedness, which every method keeps: the task is the last entry
    /// of its history, one entry per version, and no execution was built from
    /// a version that does not exist yet.
    pub closed spec fn wf(self) -> bool {
        &&& self.history@.len() == self.version@ + 1
        &&& self.history@.last() == self.defer
        &&& forall|k: int| 0 <= k < self.launched@.len() ==> #[trigger] self.launched@[k] <= self.version@
    }

    /// Wraps a task; nothing is built and no task code runs.
    pub fn new(defer: T) -> (r: Self)
        ensures
            r.wf(),
            r.view() == EngineView::initial(),
            r.task() == defer,
            r.history() == seq![defer],
    {
        Self {
            fut: None,
            defer,
            open: true,
            version: Ghost(0),
            launched: Ghost(Seq::empty()),
            history: Ghost(Seq::empty().push(defer)),
        }
    }

    /// Whether the state channel may still deliver updates.
    pub fn state_open(&self) -> (r: bool)
        ensures
            r == self.view().open,
    {
        self.open
    }

    /// The task, holding the state that the next execution is built from.
    pub fn defer(&self) -> (r: &T)
        ensures
            *r == self.task(),
    {
        &self.defer
    }

    /// Applies one look at the state channel. A new value discards the
    /// execution in flight, then is folded into the task; otherwise an
    /// execution is built from the task if none is in flight.
    pub fn on_check(&mut self, check: StateCheck<T::State>) -> (r: Step)
        requires
            old(self).wf(),
        ensures
            final(self).wf(),
            final(self).view() == old(self).view().next(signal_of(check)),
            r == old(self).view().step(signal_of(check)),
            check matches StateCheck::Ready(s) ==> final(self).task() == old(self).task().merged(s),
            check is Ready ==> final(self).history() == old(self).history().push(final(self).task()),
            !(check is Ready) ==> final(self).history() == old(self).history(),
            !(check is Ready) ==> final(self).task() == old(self).task(),
            (!(check is Ready) && old(self).view().running) ==> final(self).execution()
                == old(self).execution(),
            (!(check is Ready) && !old(self).view().running) ==> final(self).execution()
                == final(self).task().built(),
    {
        match check {
            StateCheck::Ready(state) => {
                self.fut = None;
                self.defer.update(state);
                self.version = Ghost(self.version@ + 1);
                self.history = Ghost(self.history@.push(self.defer));
                Step::Restart
            },
            StateCheck::Empty => self.launch(),
            StateCheck::Closed => {
                self.open = false;
                self.launch()
            },
        }
    }

    fn launch(&mut self) -> (r: Step)
        requires
            old(self).wf(),
        ensures
            final(self).wf(),
            final(self).view() == (EngineView { open: old(self).view().open, ..old(self).view().launch() }),
            r == (if old(self).view().running { Step::Poll } else { Step::Start }),
            final(self).history() == old(self).history(),
            final(self).task() == old(self).task(),
            old(self).view().running ==> final(self).execution() == old(self).execution(),
            !old(self).view().running ==> final(self).execution() == final(self).task().built(),
    {
        if self.fut.is_some() {
            Step::Poll
        } else {
            self.fut = Some(self.defer.into_fut());
            self.launched = Ghost(self.launched@.push(self.version@));
            Step::Start
        }
    }

    /// Looks at the state channel without suspending (while it is open) and
    /// applies what was found, as `on_check` does. Which look it was depends on
    /// the senders of the channel; once the channel was seen closed it is not
    /// looked at again.
    pub fn check(&mut self, srx: &ChannelReceiver<T::State>) -> (r: Step)
        requires
            old(self).wf(),
        ensures
            final(self).wf(),
            (exists|c: StateCheck<T::State>| Self::applied(*old(self), *final(self), c, r)),
    {
        if self.open {
            let c = try_receive(srx);
            let ghost g = c;
            let r = self.on_check(c);
            assert(Self::applied(*old(self), *final(self), g, r));
            r
        } else {
            let r = self.on_check(StateCheck::Empty);
            assert(Self::applied(*old(self), *final(self), StateCheck::Empty, r));
            r
        }
    }

    /// `after` and `r` are what `on_check` gives from `before` on the look
    /// `c`; a look at a channel known closed is taken as finding nothing.
    pub open spec fn applied(before: Self, after: Self, c: StateCheck<T::State>, r: Step) -> bool {
        &&& after.view() == before.view().next(signal_of(c))
        &&& r == before.view().step(signal_of(c))
        &&& (!before.view().open ==> c is Empty)
        &&& (c matches StateCheck::Ready(s) ==> after.task() == before.task().merged(s)
            && after.history() == before.history().push(after.task()))
        &&& (!(c is Ready) ==> after.task() == before.task() && after.history()
            == before.history())
        &&& (!(c is Ready) && before.view().running ==> after.execution()
            == before.execution())
        &&& (!(c is Ready) && !before.view().running ==> after.execution()
            == after.task().built())
    }

    /// Whether an execution is in flight.
    pub fn in_flight(&self) -> (r: bool)
        ensures
            r == self.view().running,
    {
        self.fut.is_some()
    }

    /// The execution in flight, to be polled.
    pub fn execution_mut(&mut self) -> (r: &mut T::Future)
        requires
            old(self).wf(),
            old(self).view().running,
        ensures
            final(self).wf(),
            *r == old(self).execution(),
            final(self).execution() == *final(r),
            final(self).view() == old(self).view(),
            final(self).task() == old(self).task(),
            final(self).history() == old(self).history(),
    {
        self.fut.as_mut().unwrap()
    }
}

} // verus!
