//! The broadcast lobby: the set of connected live-log sessions.

use vstd::prelude::*;

verus! {

/// A text message broadcast to every connected session.
#[derive(Clone)]
pub struct WsMessage(pub String);

/// The sessions connected to the live log, in order of connection.
pub struct PalemachineLobby<R> {
    sessions: Vec<R>,
}

impl<R> View for PalemachineLobby<R> {
    type V = Seq<R>;

    closed spec fn view(&self) -> Seq<R> {
        self.sessions@
    }
}

impl<R> PalemachineLobby<R> {
    /// A lobby with no session.
    pub fn new() -> (res: Self)
        ensures
            res@ == Seq::<R>::empty(),
    {
        PalemachineLobby { sessions: Vec::new() }
    }

    /// Registers a session; it receives every later broadcast.
    pub fn connect(&mut self, addr: R)
        ensures
            final(self)@ == old(self)@.push(addr),
    {
        self.sessions.push(addr);
    }

    /// The sessions a broadcast goes to: all of them, in order of
    /// connection.
    pub fn recipients(&self) -> (res: &[R])
        ensures
            res@ == self@,
    {
        self.sessions.as_slice()
    }
}

} // verus!
