use vstd::prelude::*;

verus! {

/// The decision on a newly accepted connection.
#[derive(Clone, Copy, Debug, PartialEq, Eq, Structural)]
pub enum Admission {
    /// Serve it.
    Admit,
    /// Close it unserved: the server is draining.
    Refuse,
}

/// What happens to the serve loop, one event at a time.
#[derive(Clone, Copy, Debug, PartialEq, Eq, Structural)]
pub enum ServeEvent {
    /// A connection arrived at the listener.
    Connection,
    /// An admitted connection finished and its response went out.
    Completed,
    /// The shutdown event fired.
    Shutdown,
}

/// The serve loop's admission and drain state: a draining flag and the number
/// of admitted connections still in flight.
pub struct ServeState {
    pub draining: bool,
    pub in_flight: u64,
}

/// The serve state as a mathematical value.
pub struct ServeView {
    pub draining: bool,
    pub in_flight: nat,
}

impl View for ServeState {
    type V = ServeView;

    open spec fn view(&self) -> ServeView {
        ServeView { draining: self.draining, in_flight: self.in_flight as nat }
    }
}

/// The serve state's transition on one event: the next state, and whether a
/// connection was admitted.
pub open spec fn serve_step(g: ServeView, ev: ServeEvent) -> (ServeView, bool) {
    match ev {
        ServeEvent::Connection => if g.draining {
            (g, false)
        } else {
            (ServeView { in_flight: g.in_flight + 1, ..g }, true)
        },
        ServeEvent::Completed => if g.in_flight > 0 {
            (ServeView { in_flight: (g.in_flight - 1) as nat, ..g }, false)
        } else {
            (g, false)
        },
        ServeEvent::Shutdown => (ServeView { draining: true, ..g }, false),
    }
}

/// Whether an event is a completion that the server counts (one is in flight).
pub open spec fn completes(g: ServeView, ev: ServeEvent) -> bool {
    ev == ServeEvent::Completed && g.in_flight > 0
}

/// The serve state after a sequence of events, in order.
pub open spec fn serve_run(g: ServeView, events: Seq<ServeEvent>) -> ServeView
    decreases events.len(),
{
    if events.len() == 0 {
        g
    } else {
        serve_run(serve_step(g, events[0]).0, events.drop_first())
    }
}

/// How many connections the server admits over a sequence of events.
pub open spec fn admissions(g: ServeView, events: Seq<ServeEvent>) -> nat
    decreases events.len(),
{
    if events.len() == 0 {
        0
    } else {
        let (next, admitted) = serve_step(g, events[0]);
        (if admitted { 1nat } else { 0nat }) + admissions(next, events.drop_first())
    }
}

/// How many admitted connections complete over a sequence of events.
pub open spec fn completions(g: ServeView, events: Seq<ServeEvent>) -> nat
    decreases events.len(),
{
    if events.len() == 0 {
        0
    } else {
        (if completes(g, events[0]) { 1nat } else { 0nat }) + completions(
            serve_step(g, events[0]).0,
            events.drop_first(),
        )
    }
}

/// Whether the serve loop may return: it is draining and nothing is in flight.
pub open spec fn finished(g: ServeView) -> bool {
    g.draining && g.in_flight == 0
}

impl ServeState {
    /// A serve state that admits connections and has none in flight.
    pub fn new() -> (r: ServeState)
        ensures
            r@ == (ServeView { draining: false, in_flight: 0 }),
    {
        ServeState { draining: false, in_flight: 0 }
    }

    /// Whether the listener should still wait for connections.
    pub fn is_accepting(&self) -> (r: bool)
        ensures
            r == !self.draining,
    {
        !self.draining
    }

    /// Decides on a connection that the listener accepted: admitted until the
    /// shutdown event, refused after it.
    pub fn on_connection(&mut self) -> (r: Admission)
        requires
            !old(self).draining ==> old(self).in_flight < u64::MAX,
        ensures
            (final(self)@, r == Admission::Admit) == serve_step(old(self)@, ServeEvent::Connection),
    {
        if self.draining {
            Admission::Refuse
        } else {
            self.in_flight = self.in_flight + 1;
            Admission::Admit
        }
    }

    /// Records that an admitted connection finished.
    pub fn on_completed(&mut self)
        requires
            old(self).in_flight > 0,
        ensures
            final(self)@ == serve_step(old(self)@, ServeEvent::Completed).0,
    {
        self.in_flight = self.in_flight - 1;
    }

    /// Records the shutdown event: from now on no connection is admitted.
    pub fn on_shutdown(&mut self)
        ensures
            final(self)@ == serve_step(old(self)@, ServeEvent::Shutdown).0,
    {
        self.draining = true;
    }

    /// Whether the serve loop may return to its caller.
    pub fn is_finished(&self) -> (r: bool)
        ensures
            r == finished(self@),
    {
        self.draining && self.in_flight == 0
    }
}

/// Running two sequences of events one after the other is running their
/// concatenation, and the counts add up.
pub proof fn lemma_serve_run_append(g: ServeView, a: Seq<ServeEvent>, b: Seq<ServeEvent>)
    ensures
        serve_run(g, a + b) == serve_run(serve_run(g, a), b),
        admissions(g, a + b) == admissions(g, a) + admissions(serve_run(g, a), b),
        completions(g, a + b) == completions(g, a) + completions(serve_run(g, a), b),
    decreases a.len(),
{
    if a.len() == 0 {
        assert(a + b =~= b);
    } else {
        assert((a + b).drop_first() =~= a.drop_first() + b);
        assert((a + b)[0] == a[0]);
        lemma_serve_run_append(serve_step(g, a[0]).0, a.drop_first(), b);
    }
}

/// A draining server admits nothing more and keeps draining, whatever comes.
pub proof fn lemma_draining_admits_nothing(g: ServeView, events: Seq<ServeEvent>)
    requires
        g.draining,
    ensures
        admissions(g, events) == 0,
        serve_run(g, events).draining,
    decreases events.len(),
{
    if events.len() > 0 {
        lemma_draining_admits_nothing(serve_step(g, events[0]).0, events.drop_first());
    }
}

/// Once the shutdown event reaches the server, no later connection is admitted:
/// every admission over the whole run happened before it.
pub proof fn lemma_shutdown_stops_admission(
    g: ServeView,
    before: Seq<ServeEvent>,
    after: Seq<ServeEvent>,
)
    ensures
        admissions(g, before + seq![ServeEvent::Shutdown] + after) == admissions(g, before),
        serve_run(g, before + seq![ServeEvent::Shutdown] + after).draining,
{
    let mid = serve_run(g, before);
    let shut = seq![ServeEvent::Shutdown];
    lemma_serve_run_append(g, before, shut);
    lemma_serve_run_append(g, before + shut, after);
    let next = serve_step(mid, ServeEvent::Shutdown).0;
    assert(shut[0] == ServeEvent::Shutdown);
    assert(shut.drop_first() =~= Seq::<ServeEvent>::empty());
    assert(serve_run(next, Seq::<ServeEvent>::empty()) == next);
    assert(admissions(next, Seq::<ServeEvent>::empty()) == 0);
    assert(serve_run(mid, shut) == next);
    assert(admissions(mid, shut) == 0);
    lemma_draining_admits_nothing(serve_run(mid, shut), after);
}

/// Every admitted connection is accounted for: those in flight at the start
/// plus those admitted since are either completed or still in flight. So once
/// the serve loop may return, every connection admitted before the shutdown
/// has completed.
pub proof fn lemma_return_waits_for_admitted(g: ServeView, events: Seq<ServeEvent>)
    ensures
        g.in_flight + admissions(g, events) == completions(g, events) + serve_run(g, events).in_flight,
        finished(serve_run(g, events)) ==> completions(g, events) == g.in_flight + admissions(g, events),
    decreases events.len(),
{
    if events.len() > 0 {
        lemma_return_waits_for_admitted(serve_step(g, events[0]).0, events.drop_first());
    }
}

} // verus!
