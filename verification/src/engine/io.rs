use vstd::prelude::*;

verus! {

/// The engine side of the worker connection: the intents received from the user
/// interface, the messages waiting to be sent back, and the connection itself.
///
/// `S` is the worker scope, `H` the handler that identifies the connected interface,
/// `I` an incoming and `O` an outgoing message.
pub struct Dispatcher<S, H, I, O> {
    inputs: Vec<I>,
    outputs: Vec<O>,
    scope: Option<S>,
    handler_id: Option<H>,
}

impl<S, H, I, O> Dispatcher<S, H, I, O> {
    /// Intents received and not yet taken, oldest first.
    pub closed spec fn pending_inputs(self) -> Seq<I> {
        self.inputs@
    }

    /// Messages queued and not yet sent, oldest first.
    pub closed spec fn pending_outputs(self) -> Seq<O> {
        self.outputs@
    }

    /// The worker scope, once the worker exists.
    pub closed spec fn scope_of(self) -> Option<S> {
        self.scope
    }

    /// The handler of the connected interface, while one is connected.
    pub closed spec fn handler_of(self) -> Option<H> {
        self.handler_id
    }

    /// Responses can be sent: the worker exists and an interface is connected.
    pub open spec fn can_respond(self) -> bool {
        self.scope_of() is Some && self.handler_of() is Some
    }

    /// A dispatcher with no worker, no connection and no messages.
    pub fn new() -> (r: Self)
        ensures
            r.pending_inputs() == Seq::<I>::empty(),
            r.pending_outputs() == Seq::<O>::empty(),
            r.scope_of() is None,
            r.handler_of() is None,
    {
        Dispatcher { inputs: Vec::new(), outputs: Vec::new(), scope: None, handler_id: None }
    }

    /// The worker was created in `scope`.
    pub fn created(&mut self, scope: S)
        ensures
            final(self).scope_of() == Some(scope),
            final(self).handler_of() == old(self).handler_of(),
            final(self).pending_inputs() == old(self).pending_inputs(),
            final(self).pending_outputs() == old(self).pending_outputs(),
    {
        self.scope = Some(scope);
    }

    /// An interface connected with handler `id`.
    pub fn connected(&mut self, id: H)
        ensures
            final(self).handler_of() == Some(id),
            final(self).scope_of() == old(self).scope_of(),
            final(self).pending_inputs() == old(self).pending_inputs(),
            final(self).pending_outputs() == old(self).pending_outputs(),
    {
        self.handler_id = Some(id);
    }

    /// The interface disconnected.
    pub fn disconnected(&mut self)
        ensures
            final(self).handler_of() is None,
            final(self).scope_of() == old(self).scope_of(),
            final(self).pending_inputs() == old(self).pending_inputs(),
            final(self).pending_outputs() == old(self).pending_outputs(),
    {
        self.handler_id = None;
    }

    /// An intent arrived; it is kept after those that arrived before it.
    pub fn received(&mut self, msg: I)
        ensures
            final(self).pending_inputs() == old(self).pending_inputs().push(msg),
            final(self).scope_of() == old(self).scope_of(),
            final(self).handler_of() == old(self).handler_of(),
            final(self).pending_outputs() == old(self).pending_outputs(),
    {
        self.inputs.push(msg);
    }

    /// The worker was destroyed.
    pub fn destroyed(&mut self)
        ensures
            final(self).scope_of() is None,
            final(self).handler_of() == old(self).handler_of(),
            final(self).pending_inputs() == old(self).pending_inputs(),
            final(self).pending_outputs() == old(self).pending_outputs(),
    {
        self.scope = None;
    }

    /// Takes every received intent, oldest first, and leaves none behind.
    pub fn take_inputs(&mut self) -> (r: Vec<I>)
        ensures
            r@ == old(self).pending_inputs(),
            final(self).pending_inputs() == Seq::<I>::empty(),
            final(self).scope_of() == old(self).scope_of(),
            final(self).handler_of() == old(self).handler_of(),
            final(self).pending_outputs() == old(self).pending_outputs(),
    {
        let mut taken: Vec<I> = Vec::new();
        core::mem::swap(&mut taken, &mut self.inputs);
        taken
    }

    /// Queues messages to be sent after those already queued, in their order.
    pub fn queue_outputs(&mut self, msgs: Vec<O>)
        ensures
            final(self).pending_outputs() == old(self).pending_outputs() + msgs@,
            final(self).scope_of() == old(self).scope_of(),
            final(self).handler_of() == old(self).handler_of(),
            final(self).pending_inputs() == old(self).pending_inputs(),
    {
        let mut msgs = msgs;
        self.outputs.append(&mut msgs);
    }

    /// Takes every queued message, oldest first, to be sent to the connected
    /// interface; only a connected dispatcher sends.
    pub fn send_responses(&mut self) -> (r: Vec<O>)
        requires
            old(self).can_respond(),
        ensures
            r@ == old(self).pending_outputs(),
            final(self).pending_outputs() == Seq::<O>::empty(),
            final(self).scope_of() == old(self).scope_of(),
            final(self).handler_of() == old(self).handler_of(),
            final(self).pending_inputs() == old(self).pending_inputs(),
    {
        let mut taken: Vec<O> = Vec::new();
        core::mem::swap(&mut taken, &mut self.outputs);
        taken
    }

    /// Whether responses can be sent.
    pub fn is_connected(&self) -> (r: bool)
        ensures
            r == self.can_respond(),
    {
        self.scope.is_some() && self.handler_id.is_some()
    }

    /// The worker scope and the handler of the connected interface, when there is a
    /// connection.
    pub fn responder(&self) -> (r: Option<(&S, &H)>)
        ensures
            r is Some <==> self.can_respond(),
            r matches Some(p) ==> Some(*p.0) == self.scope_of() && Some(*p.1) == self.handler_of(),
    {
        match (&self.scope, &self.handler_id) {
            (Some(scope), Some(id)) => Some((scope, id)),
            _ => None,
        }
    }
}

} // verus!
