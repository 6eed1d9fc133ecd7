use vstd::prelude::*;

verus! {

/// A per-request typed store that carries the verified identity of the caller
/// to the stages behind the guard. It holds at most one identity.
pub struct RequestContext {
    identity: Option<u32>,
}

impl View for RequestContext {
    type V = Option<u32>;

    closed spec fn view(&self) -> Option<u32> {
        self.identity
    }
}

impl RequestContext {
    /// An empty context: no identity has been stored.
    pub fn new() -> (r: RequestContext)
        ensures
            r@ == None::<u32>,
    {
        RequestContext { identity: None }
    }

    /// Stores `id`, replacing any identity stored before.
    pub fn insert(&mut self, id: u32)
        ensures
            final(self)@ == Some(id),
    {
        self.identity = Some(id);
    }

    /// The identity stored in this context, if any.
    pub fn get(&self) -> (r: Option<u32>)
        ensures
            r == self@,
    {
        self.identity
    }
}

} // verus!
