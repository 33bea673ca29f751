//! A model of the shutdown-aware acceptor: the accept loop turns each
//! OS-level accept outcome into a connection event, ends the stream on
//! the failure that signals a deliberately closed socket, and carries
//! on past transient failures. The shutdown handle that closes the
//! socket is idempotent. The sockets themselves live outside the
//! library; connections and failure causes appear here as identities.

use vstd::prelude::*;

verus! {

/// What one OS-level accept attempt yielded: a connection, a
/// transient failure, or the failure that says the listening socket
/// was deliberately closed.
#[derive(Clone, Copy, Debug, PartialEq, Eq, Structural)]
pub enum RawAccept {
    /// A connection was accepted, named by an identity.
    Conn(u64),
    /// The accept failed for a passing reason, named by an identity.
    Failure(u64),
    /// The accept failed because the socket was closed under it.
    ClosedFailure,
}

/// One event of the acceptor's stream. `Closed` is terminal: once it
/// is observed, no further event is produced.
#[derive(Clone, Copy, Debug, PartialEq, Eq, Structural)]
pub enum ConnectionEvent {
    /// A connection was handed over.
    Accepted(u64),
    /// An accept attempt failed; the loop goes on.
    AcceptError(u64),
    /// The socket was closed; the stream ends here.
    Closed,
}

/// The event stream that a sequence of accept outcomes produces: one
/// event per outcome up to and including the first closed-socket
/// failure, and nothing after it.
pub open spec fn spec_events(raws: Seq<RawAccept>) -> Seq<ConnectionEvent>
    decreases raws.len(),
{
    if raws.len() == 0 {
        Seq::empty()
    } else {
        match raws[0] {
            RawAccept::Conn(id) => seq![ConnectionEvent::Accepted(id)] + spec_events(
                raws.drop_first(),
            ),
            RawAccept::Failure(id) => seq![ConnectionEvent::AcceptError(id)] + spec_events(
                raws.drop_first(),
            ),
            RawAccept::ClosedFailure => seq![ConnectionEvent::Closed],
        }
    }
}

/// The accept loop's state: whether the terminal event has been
/// produced. Exactly one loop runs per listening socket.
pub struct Acceptor {
    terminated: bool,
}

impl Acceptor {
    /// Whether the terminal event has been produced.
    pub closed spec fn is_terminated(&self) -> bool {
        self.terminated
    }

    /// A fresh accept loop over a newly bound socket.
    pub fn new() -> (r: Acceptor)
        ensures
            !r.is_terminated(),
    {
        Acceptor { terminated: false }
    }

    /// Turns one accept outcome into the next event of the stream.
    /// After the terminal event, the stream yields nothing more,
    /// whatever the socket would say.
    pub fn next_event(&mut self, raw: RawAccept) -> (r: Option<ConnectionEvent>)
        ensures
            old(self).is_terminated() ==> r is None && final(self).is_terminated(),
            !old(self).is_terminated() ==> match raw {
                RawAccept::Conn(id) => r == Some(ConnectionEvent::Accepted(id))
                    && !final(self).is_terminated(),
                RawAccept::Failure(id) => r == Some(ConnectionEvent::AcceptError(id))
                    && !final(self).is_terminated(),
                RawAccept::ClosedFailure => r == Some(ConnectionEvent::Closed)
                    && final(self).is_terminated(),
            },
    {
        if self.terminated {
            return None;
        }
        match raw {
            RawAccept::Conn(id) => Some(ConnectionEvent::Accepted(id)),
            RawAccept::Failure(id) => Some(ConnectionEvent::AcceptError(id)),
            RawAccept::ClosedFailure => {
                self.terminated = true;
                Some(ConnectionEvent::Closed)
            },
        }
    }

    /// Runs the loop over a whole sequence of accept outcomes and
    /// collects the event stream it produces.
    pub fn events_of(raws: &Vec<RawAccept>) -> (evs: Vec<ConnectionEvent>)
        ensures
            evs@ == spec_events(raws@),
    {
        let mut acc = Acceptor::new();
        let mut evs: Vec<ConnectionEvent> = Vec::new();
        let n = raws.len();
        let mut i: usize = 0;
        proof {
            assert(raws@.skip(0) =~= raws@);
            assert(evs@ + spec_events(raws@.skip(0)) =~= spec_events(raws@));
        }
        while i < n
            invariant
                i <= n,
                n == raws@.len(),
                !acc.is_terminated() ==> spec_events(raws@) =~= evs@ + spec_events(
                    raws@.skip(i as int),
                ),
                acc.is_terminated() ==> spec_events(raws@) =~= evs@,
            decreases n - i,
        {
            let ghost rest = raws@.skip(i as int);
            let ghost prev = evs@;
            proof {
                assert(rest[0] == raws@[i as int]);
                assert(rest.drop_first() =~= raws@.skip(i + 1 as int));
            }
            match acc.next_event(raws[i]) {
                Some(ev) => {
                    evs.push(ev);
                    proof {
                        match rest[0] {
                            RawAccept::Conn(id) => {
                                assert(spec_events(rest) =~= seq![ConnectionEvent::Accepted(id)]
                                    + spec_events(rest.drop_first()));
                                assert(evs@ + spec_events(raws@.skip(i + 1 as int)) =~= prev
                                    + spec_events(rest));
                            },
                            RawAccept::Failure(id) => {
                                assert(spec_events(rest) =~= seq![ConnectionEvent::AcceptError(id)]
                                    + spec_events(rest.drop_first()));
                                assert(evs@ + spec_events(raws@.skip(i + 1 as int)) =~= prev
                                    + spec_events(rest));
                            },
                            RawAccept::ClosedFailure => {
                                assert(spec_events(rest) =~= seq![ConnectionEvent::Closed]);
                                assert(evs@ =~= prev + spec_events(rest));
                            },
                        }
                    }
                },
                None => {},
            }
            i += 1;
        }
        proof {
            assert(raws@.skip(n as int) =~= Seq::<RawAccept>::empty());
        }
        evs
    }
}

/// The capability that closes the listening socket. It is decoupled
/// from the acceptor, safe to call from another thread, and
/// idempotent: only the first call has effect.
pub struct ShutdownHandle {
    fired: bool,
}

impl ShutdownHandle {
    /// Whether the socket has been closed through this handle.
    pub closed spec fn has_fired(&self) -> bool {
        self.fired
    }

    /// A handle over a freshly bound socket.
    pub fn new() -> (r: ShutdownHandle)
        ensures
            !r.has_fired(),
    {
        ShutdownHandle { fired: false }
    }

    /// Closes the socket. The first call fires; a later call is a
    /// benign no-op that reports the socket already closed.
    pub fn shutdown(&mut self) -> (already: bool)
        ensures
            final(self).has_fired(),
            already == old(self).has_fired(),
    {
        let already = self.fired;
        self.fired = true;
        already
    }
}

/// Closing the socket ends the stream: as soon as the accept loop
/// sees the closed-socket failure — which closing the socket forces,
/// even while no connection ever arrives — the stream finishes with
/// `Closed`, produces nothing after it, and `Closed` appears nowhere
/// earlier.
pub proof fn lemma_shutdown_terminates(raws: Seq<RawAccept>, i: int)
    requires
        0 <= i < raws.len(),
        raws[i] == RawAccept::ClosedFailure,
        forall|j: int| 0 <= j < i ==> raws[j] != RawAccept::ClosedFailure,
    ensures
        spec_events(raws).len() == i + 1,
        spec_events(raws)[i] == ConnectionEvent::Closed,
        forall|j: int| 0 <= j < i ==> spec_events(raws)[j] != ConnectionEvent::Closed,
    decreases i,
{
    if i == 0 {
    } else {
        assert(raws.drop_first()[i - 1] == raws[i]);
        assert(forall|j: int| 0 <= j < i - 1 ==> raws.drop_first()[j] == raws[j + 1]);
        lemma_shutdown_terminates(raws.drop_first(), i - 1);
        match raws[0] {
            RawAccept::Conn(id) => {
                assert(spec_events(raws) =~= seq![ConnectionEvent::Accepted(id)] + spec_events(
                    raws.drop_first(),
                ));
            },
            RawAccept::Failure(id) => {
                assert(spec_events(raws) =~= seq![ConnectionEvent::AcceptError(id)] + spec_events(
                    raws.drop_first(),
                ));
            },
            RawAccept::ClosedFailure => {
                assert(false);
            },
        }
    }
}

} // verus!
