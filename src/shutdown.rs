use vstd::prelude::*;

verus! {

/// The two operator signals the watcher races.
#[derive(Clone, Copy, Debug, PartialEq, Eq, Structural)]
pub enum SignalSource {
    /// An interrupt request (Ctrl+C); every platform has it.
    Interrupt,
    /// A polite termination request; only platforms with process signals have it.
    Terminate,
}

/// Where the watcher stands: `Unarmed`, then `Armed`, then `Signaled` for good.
#[derive(Clone, Copy, Debug, PartialEq, Eq, Structural)]
pub enum WatcherState {
    Unarmed,
    Armed,
    /// The shutdown event has fired; `by` is the source that won the race.
    Signaled { by: SignalSource },
}

/// What the caller does after handing a signal to the watcher.
#[derive(Clone, Copy, Debug, PartialEq, Eq, Structural)]
pub enum Reaction {
    /// Nothing: the watcher is not armed, the source cannot fire here, or the
    /// event has already fired.
    Ignore,
    /// Log the shutdown message and trigger the serve loop's cancellation.
    StartShutdown,
}

/// Consolidates the signal sources into one shutdown event that fires at most once.
pub struct ShutdownWatcher {
    pub state: WatcherState,
    /// Whether the platform offers the termination signal. Without it that
    /// source is a placeholder that never resolves.
    pub terminate_supported: bool,
}

/// Whether `src` can resolve the race on a platform with or without termination signals.
pub open spec fn source_available(terminate_supported: bool, src: SignalSource) -> bool {
    match src {
        SignalSource::Interrupt => true,
        SignalSource::Terminate => terminate_supported,
    }
}

/// The watcher's transition on one signal: the next state, and whether the
/// shutdown event fires.
pub open spec fn step(w: ShutdownWatcher, src: SignalSource) -> (ShutdownWatcher, bool) {
    if w.state == WatcherState::Armed && source_available(w.terminate_supported, src) {
        (ShutdownWatcher { state: WatcherState::Signaled { by: src }, ..w }, true)
    } else {
        (w, false)
    }
}

/// The watcher after a sequence of signals, in order.
pub open spec fn run(w: ShutdownWatcher, signals: Seq<SignalSource>) -> ShutdownWatcher
    decreases signals.len(),
{
    if signals.len() == 0 {
        w
    } else {
        run(step(w, signals[0]).0, signals.drop_first())
    }
}

/// How many times the shutdown event fires over a sequence of signals.
pub open spec fn fire_count(w: ShutdownWatcher, signals: Seq<SignalSource>) -> nat
    decreases signals.len(),
{
    if signals.len() == 0 {
        0
    } else {
        let (next, fired) = step(w, signals[0]);
        (if fired { 1nat } else { 0nat }) + fire_count(next, signals.drop_first())
    }
}

/// Index of the first signal in `signals` that can resolve the race, if any.
pub open spec fn first_available(terminate_supported: bool, signals: Seq<SignalSource>) -> Option<int>
    decreases signals.len(),
{
    if signals.len() == 0 {
        None
    } else if source_available(terminate_supported, signals[0]) {
        Some(0)
    } else {
        match first_available(terminate_supported, signals.drop_first()) {
            Some(i) => Some(i + 1),
            None => None,
        }
    }
}

impl ShutdownWatcher {
    /// A watcher that is not armed yet.
    pub fn new(terminate_supported: bool) -> (r: ShutdownWatcher)
        ensures
            r.state == WatcherState::Unarmed,
            r.terminate_supported == terminate_supported,
    {
        ShutdownWatcher { state: WatcherState::Unarmed, terminate_supported }
    }

    /// Arms the watcher once its signal handlers are installed. Arming a watcher
    /// that is already armed or signaled changes nothing.
    pub fn arm(&mut self)
        ensures
            final(self).terminate_supported == old(self).terminate_supported,
            old(self).state == WatcherState::Unarmed ==> final(self).state == WatcherState::Armed,
            old(self).state != WatcherState::Unarmed ==> final(self).state == old(self).state,
    {
        if self.state == WatcherState::Unarmed {
            self.state = WatcherState::Armed;
        }
    }

    /// Whether the shutdown event has fired.
    pub fn is_signaled(&self) -> (r: bool)
        ensures
            r == (self.state is Signaled),
    {
        match self.state {
            WatcherState::Signaled { .. } => true,
            _ => false,
        }
    }

    /// Hands one resolved signal to the watcher. The first signal that an armed
    /// watcher can take fires the shutdown event; every later one is ignored.
    pub fn on_signal(&mut self, src: SignalSource) -> (r: Reaction)
        ensures
            (*final(self), r == Reaction::StartShutdown) == step(*old(self), src),
    {
        let available = match src {
            SignalSource::Interrupt => true,
            SignalSource::Terminate => self.terminate_supported,
        };
        if self.state == WatcherState::Armed && available {
            self.state = WatcherState::Signaled { by: src };
            Reaction::StartShutdown
        } else {
            Reaction::Ignore
        }
    }
}

/// A watcher that is not armed neither fires nor moves, whatever signals come.
proof fn lemma_not_armed_is_inert(w: ShutdownWatcher, signals: Seq<SignalSource>)
    requires
        w.state != WatcherState::Armed,
    ensures
        fire_count(w, signals) == 0,
        run(w, signals) == w,
    decreases signals.len(),
{
    if signals.len() > 0 {
        lemma_not_armed_is_inert(w, signals.drop_first());
    }
}

/// The shutdown event fires at most once, however many signals arrive from
/// whichever sources, and once it has fired the watcher stays signaled.
pub proof fn lemma_fires_at_most_once(w: ShutdownWatcher, signals: Seq<SignalSource>)
    ensures
        fire_count(w, signals) <= 1,
        w.state is Signaled ==> run(w, signals) == w,
    decreases signals.len(),
{
    if w.state != WatcherState::Armed {
        lemma_not_armed_is_inert(w, signals);
    } else if signals.len() > 0 {
        let (next, fired) = step(w, signals[0]);
        if fired {
            lemma_not_armed_is_inert(next, signals.drop_first());
        } else {
            lemma_fires_at_most_once(next, signals.drop_first());
        }
    }
}

/// From an armed watcher, the first signal whose source can fire wins the
/// race: the event fires exactly once and records that source. If no signal
/// can fire, nothing happens.
pub proof fn lemma_first_signal_wins(w: ShutdownWatcher, signals: Seq<SignalSource>)
    requires
        w.state == WatcherState::Armed,
    ensures
        match first_available(w.terminate_supported, signals) {
            Some(i) => {
                &&& 0 <= i < signals.len()
                &&& fire_count(w, signals) == 1
                &&& run(w, signals).state == WatcherState::Signaled { by: signals[i] }
            },
            None => fire_count(w, signals) == 0 && run(w, signals) == w,
        },
    decreases signals.len(),
{
    if signals.len() > 0 {
        let (next, fired) = step(w, signals[0]);
        if fired {
            lemma_not_armed_is_inert(next, signals.drop_first());
        } else {
            lemma_first_signal_wins(next, signals.drop_first());
        }
    }
}

/// The race is symmetric: on a platform with termination signals, a
/// termination request that comes before any interrupt starts the shutdown
/// just as an interrupt would, and later signals change nothing.
pub proof fn lemma_termination_first_still_shuts_down(w: ShutdownWatcher, later: Seq<SignalSource>)
    requires
        w.state == WatcherState::Armed,
        w.terminate_supported,
    ensures
        fire_count(w, seq![SignalSource::Terminate] + later) == 1,
        run(w, seq![SignalSource::Terminate] + later).state
            == (WatcherState::Signaled { by: SignalSource::Terminate }),
{
    let signals = seq![SignalSource::Terminate] + later;
    assert(signals[0] == SignalSource::Terminate);
    lemma_first_signal_wins(w, signals);
}

/// Without termination signals on the platform, only an interrupt can resolve
/// the race: termination requests alone never fire the event, and when it has
/// fired, the interrupt won.
pub proof fn lemma_unsupported_termination_never_resolves(
    w: ShutdownWatcher,
    signals: Seq<SignalSource>,
)
    requires
        !w.terminate_supported,
        !(w.state is Signaled),
    ensures
        (forall|i: int| 0 <= i < signals.len() ==> signals[i] == SignalSource::Terminate)
            ==> fire_count(w, signals) == 0,
        run(w, signals).state is Signaled ==> run(w, signals).state
            == (WatcherState::Signaled { by: SignalSource::Interrupt }),
    decreases signals.len(),
{
    if w.state != WatcherState::Armed {
        lemma_not_armed_is_inert(w, signals);
    } else if signals.len() > 0 {
        let (next, fired) = step(w, signals[0]);
        if fired {
            lemma_not_armed_is_inert(next, signals.drop_first());
        } else {
            lemma_unsupported_termination_never_resolves(next, signals.drop_first());
            assert forall|i: int| 0 <= i < signals.len() - 1 && (forall|j: int| 0 <= j < signals.len() ==> signals[j] == SignalSource::Terminate) implies signals.drop_first()[i] == SignalSource::Terminate by {
                assert(signals.drop_first()[i] == signals[i + 1]);
            }
        }
    }
}

/// The line logged once the shutdown event fires.
pub open spec fn shutdown_message_text() -> Seq<char> {
    "signal received, starting graceful shutdown"@
}

/// The message to log when `on_signal` answers `StartShutdown`.
pub fn shutdown_message() -> (r: String)
    ensures
        r@ == shutdown_message_text(),
{
    "signal received, starting graceful shutdown".to_string()
}

} // verus!
