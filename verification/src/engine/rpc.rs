use vstd::prelude::*;

verus! {

/// What the worker side of the connection reports to the engine.
pub enum RemoteEvent<S, H, I> {
    /// The worker was created in a scope.
    Created(S),
    /// An interface connected with a handler.
    Connected(H),
    /// The interface with a handler disconnected.
    Disconnected(H),
    /// An intent arrived.
    Received(I),
}

/// The engine's record of the worker connection: scope, connected handler and the
/// intents received and not yet processed.
pub struct Dispatcher<S, H, I> {
    scope: Option<S>,
    handler_id: Option<H>,
    inbox: Vec<I>,
}

/// The connection as values: scope, handler, inbox.
pub type Connection<S, H, I> = (Option<S>, Option<H>, Seq<I>);

/// The connection after one event.
pub open spec fn step<S, H, I>(c: Connection<S, H, I>, e: RemoteEvent<S, H, I>) -> Connection<S, H, I> {
    match e {
        RemoteEvent::Created(scope) => (Some(scope), c.1, c.2),
        RemoteEvent::Connected(id) => (c.0, Some(id), c.2),
        RemoteEvent::Disconnected(_) => (c.0, None, c.2),
        RemoteEvent::Received(intent) => (c.0, c.1, c.2.push(intent)),
    }
}

/// An event that the connection accepts: a worker is created once, an interface
/// connects only when none is connected, and only the connected interface
/// disconnects.
pub open spec fn accepts<S, H, I>(c: Connection<S, H, I>, e: RemoteEvent<S, H, I>) -> bool {
    match e {
        RemoteEvent::Created(_) => c.0 is None,
        RemoteEvent::Connected(_) => c.1 is None,
        RemoteEvent::Disconnected(id) => c.1 == Some(id),
        RemoteEvent::Received(_) => true,
    }
}

/// The connection after a sequence of events, applied first to last.
pub open spec fn run<S, H, I>(c: Connection<S, H, I>, events: Seq<RemoteEvent<S, H, I>>) -> Connection<
    S,
    H,
    I,
>
    decreases events.len(),
{
    if events.len() == 0 {
        c
    } else {
        run(step(c, events[0]), events.subrange(1, events.len() as int))
    }
}

/// Every event of a sequence is accepted in the state that the events before it
/// lead to.
pub open spec fn all_accepted<S, H, I>(c: Connection<S, H, I>, events: Seq<RemoteEvent<S, H, I>>) -> bool
    decreases events.len(),
{
    if events.len() == 0 {
        true
    } else {
        accepts(c, events[0]) && all_accepted(
            step(c, events[0]),
            events.subrange(1, events.len() as int),
        )
    }
}

/// The intents that a sequence of events carries, in order.
pub open spec fn received_intents<S, H, I>(events: Seq<RemoteEvent<S, H, I>>) -> Seq<I>
    decreases events.len(),
{
    if events.len() == 0 {
        Seq::empty()
    } else {
        let rest = received_intents(events.subrange(1, events.len() as int));
        match events[0] {
            RemoteEvent::Received(intent) => seq![intent] + rest,
            _ => rest,
        }
    }
}

impl<S, H, I> Dispatcher<S, H, I> {
    /// The connection this dispatcher records.
    pub closed spec fn connection(self) -> Connection<S, H, I> {
        (self.scope, self.handler_id, self.inbox@)
    }

    /// Nothing created, nothing connected, nothing received.
    pub fn new() -> (r: Self)
        ensures
            r.connection() == (None::<S>, None::<H>, Seq::<I>::empty()),
    {
        Dispatcher { scope: None, handler_id: None, inbox: Vec::new() }
    }

    /// Applies one event.
    pub fn receive(&mut self, event: RemoteEvent<S, H, I>)
        requires
            accepts(old(self).connection(), event),
        ensures
            final(self).connection() == step(old(self).connection(), event),
    {
        match event {
            RemoteEvent::Created(scope) => {
                self.scope = Some(scope);
            },
            RemoteEvent::Connected(id) => {
                self.handler_id = Some(id);
            },
            RemoteEvent::Disconnected(_) => {
                self.handler_id = None;
            },
            RemoteEvent::Received(intent) => {
                self.inbox.push(intent);
            },
        }
    }

    /// Applies the events that the worker reported, first to last.
    pub fn receive_all(&mut self, events: Vec<RemoteEvent<S, H, I>>)
        requires
            all_accepted(old(self).connection(), events@),
        ensures
            final(self).connection() == run(old(self).connection(), events@),
    {
        let ghost all = events@;
        let mut pending = events;
        while pending.len() > 0
            invariant
                run(self.connection(), pending@) == run(old(self).connection(), all),
                all_accepted(self.connection(), pending@),
            decreases pending@.len(),
        {
            let ghost before = pending@;
            let event = pending.remove(0);
            proof {
                assert(before.subrange(1, before.len() as int) =~= pending@);
            }
            self.receive(event);
        }
    }

    /// Takes every received intent, oldest first.
    pub fn drain_inbox(&mut self) -> (r: Vec<I>)
        ensures
            r@ == old(self).connection().2,
            final(self).connection() == (old(self).connection().0, old(self).connection().1, Seq::<I>::empty()),
    {
        let mut taken: Vec<I> = Vec::new();
        core::mem::swap(&mut taken, &mut self.inbox);
        taken
    }

    /// The worker scope and the connected handler, to respond through; responding
    /// needs both.
    pub fn responder(&self) -> (r: Option<(&S, &H)>)
        ensures
            r is Some <==> (self.connection().0 is Some && self.connection().1 is Some),
            r matches Some(p) ==> Some(*p.0) == self.connection().0 && Some(*p.1) == self.connection().1,
    {
        match (&self.scope, &self.handler_id) {
            (Some(scope), Some(id)) => Some((scope, id)),
            _ => None,
        }
    }
}

/// Events never lose or reorder intents: the inbox afterwards is the inbox before,
/// followed by the intents the events carried, in the order they arrived.
pub proof fn lemma_inbox_keeps_arrival_order<S, H, I>(
    c: Connection<S, H, I>,
    events: Seq<RemoteEvent<S, H, I>>,
)
    ensures
        run(c, events).2 == c.2 + received_intents(events),
    decreases events.len(),
{
    if events.len() > 0 {
        let rest = events.subrange(1, events.len() as int);
        lemma_inbox_keeps_arrival_order(step(c, events[0]), rest);
        match events[0] {
            RemoteEvent::Received(intent) => {
                assert(c.2.push(intent) + received_intents(rest) =~= c.2 + (seq![intent]
                    + received_intents(rest)));
            },
            _ => {
                assert(c.2 + received_intents(rest) =~= c.2 + received_intents(events));
            },
        }
    } else {
        assert(c.2 + Seq::<I>::empty() =~= c.2);
    }
}

/// A connection that is opened and then closed by the same interface is left with
/// no handler, whatever it held before, and keeps its scope and inbox.
pub proof fn lemma_connect_then_disconnect<S, H, I>(c: Connection<S, H, I>, id: H)
    requires
        c.1 is None,
    ensures
        all_accepted(c, seq![RemoteEvent::Connected(id), RemoteEvent::Disconnected(id)]),
        run(c, seq![RemoteEvent::Connected(id), RemoteEvent::Disconnected(id)]) == (c.0, None::<H>, c.2),
{
    let events = seq![RemoteEvent::<S, H, I>::Connected(id), RemoteEvent::Disconnected(id)];
    let rest = events.subrange(1, 2);
    assert(rest =~= seq![RemoteEvent::<S, H, I>::Disconnected(id)]);
    assert(rest.subrange(1, 1) =~= Seq::<RemoteEvent<S, H, I>>::empty());
    reveal_with_fuel(run, 3);
    reveal_with_fuel(all_accepted, 3);
}

} // verus!
