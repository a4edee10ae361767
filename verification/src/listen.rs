use crate::error::Error;
use crate::wire::{spec_parse, IpAddress, IpEndpoint, IpProtocol, TcpControl, TcpRepr};
use vstd::prelude::*;

verus! {

/// A description of an incoming TCP connection: who it is for, who initiated
/// it, and the initiator's initial sequence number. Immutable once created;
/// consumed exactly once by `Listener::accept`.
#[derive(Clone, Copy, Debug, PartialEq, Eq, Structural)]
pub struct Incoming {
    pub local_end: IpEndpoint,
    pub remote_end: IpEndpoint,
    pub seq_number: u32,
}

impl Incoming {
    /// Return the local endpoint: the address and port the SYN was sent to.
    pub fn local_end(&self) -> (r: IpEndpoint)
        ensures
            r == self.local_end,
    {
        self.local_end
    }

    /// Return the remote endpoint: the address and port of the initiator.
    pub fn remote_end(&self) -> (r: IpEndpoint)
        ensures
            r == self.remote_end,
    {
        self.remote_end
    }
}

/// A TCP server (listening) socket: a fixed-capacity queue of pending
/// incoming connections, bound to one local endpoint.
///
/// The `length` slots starting at `accept_at` (wrapping at the end of
/// `backlog`) are populated, oldest first; every other slot is empty.
pub struct Listener {
    endpoint: IpEndpoint,
    backlog: Vec<Option<Incoming>>,
    accept_at: usize,
    length: usize,
}

impl Listener {
    /// The fixed number of backlog slots.
    pub closed spec fn capacity(self) -> int {
        self.backlog@.len() as int
    }

    /// The endpoint this listener serves; an `Unspecified` address means any
    /// local address.
    pub closed spec fn bound_endpoint(self) -> IpEndpoint {
        self.endpoint
    }

    /// The slot that holds the `j`-th oldest pending connection: `accept_at`
    /// advanced by `j`, wrapped once at the end of the backlog.
    pub closed spec fn slot_ofs(self, j: int) -> int {
        if self.accept_at + j < self.capacity() {
            self.accept_at + j
        } else {
            self.accept_at + j - self.capacity()
        }
    }

    /// The pending connections, oldest first.
    pub closed spec fn pending(self) -> Seq<Incoming> {
        Seq::new(self.length as nat, |j: int| self.backlog@[self.slot_ofs(j)]->0)
    }

    /// Well-formedness: the cursor lies within the backlog, no more entries
    /// are pending than there are slots, and exactly the `length` slots
    /// starting at `accept_at` (wrapping) are populated.
    pub closed spec fn wf(self) -> bool {
        &&& self.length <= self.capacity()
        &&& if self.capacity() == 0 {
            self.accept_at == 0
        } else {
            self.accept_at < self.capacity()
        }
        &&& forall|i: int|
            0 <= i < self.capacity() ==> (self.backlog@[i] is Some <==> exists|j: int|
                0 <= j < self.length && i == #[trigger] self.slot_ofs(j))
    }

    /// Distinct pending positions occupy distinct slots.
    proof fn lemma_slot_ofs_injective(self)
        requires
            self.wf(),
        ensures
            forall|j1: int, j2: int|
                0 <= j1 < self.capacity() && 0 <= j2 < self.capacity() && j1 != j2
                    ==> #[trigger] self.slot_ofs(j1) != #[trigger] self.slot_ofs(j2),
    {
    }

    /// Create a listening socket bound to `endpoint`, over the given backlog
    /// storage; the storage's length is the backlog capacity, fixed for the
    /// listener's lifetime.
    pub fn new(endpoint: IpEndpoint, backlog: Vec<Option<Incoming>>) -> (r: Listener)
        requires
            forall|i: int| 0 <= i < backlog@.len() ==> backlog@[i] is None,
        ensures
            r.wf(),
            r.bound_endpoint() == endpoint,
            r.capacity() == backlog@.len(),
            r.pending() == Seq::<Incoming>::empty(),
    {
        let r = Listener { endpoint, backlog, accept_at: 0, length: 0 };
        proof {
            assert(r.pending() =~= Seq::<Incoming>::empty());
        }
        r
    }

    /// Accept a connection from this server socket: remove and return the
    /// oldest pending connection, or return nothing — changing no state — if
    /// none is pending.
    pub fn accept(&mut self) -> (r: Option<Incoming>)
        requires
            old(self).wf(),
        ensures
            final(self).wf(),
            final(self).bound_endpoint() == old(self).bound_endpoint(),
            final(self).capacity() == old(self).capacity(),
            old(self).pending().len() == 0 ==> r is None && *final(self) == *old(self),
            old(self).pending().len() > 0 ==> {
                &&& r == Some(old(self).pending()[0])
                &&& final(self).pending() == old(self).pending().skip(1)
            },
    {
        if self.length == 0 {
            return None;
        }
        let accept_at = self.accept_at;
        proof {
            let pre = *old(self);
            assert(pre.capacity() > 0);
            assert(pre.accept_at < pre.capacity());
            assert(accept_at == pre.slot_ofs(0));
            assert(pre.backlog@[accept_at as int] is Some);
        }
        let cap = self.backlog.len();
        self.accept_at = if self.accept_at + 1 == cap {
            0
        } else {
            self.accept_at + 1
        };
        self.length = self.length - 1;
        let r = self.backlog[accept_at];
        self.backlog[accept_at] = None;
        proof {
            let pre = *old(self);
            let post = *self;
            let cap = pre.capacity();
            pre.lemma_slot_ofs_injective();
            assert forall|j: int| 0 <= j < post.length implies post.slot_ofs(j) == pre.slot_ofs(
                j + 1,
            ) by {}
            assert forall|i: int| 0 <= i < cap implies (post.backlog@[i] is Some <==> exists|j: int|
                0 <= j < post.length && i == #[trigger] post.slot_ofs(j)) by {
                if i == accept_at {
                    assert forall|j: int| 0 <= j < post.length implies i != post.slot_ofs(j) by {
                        assert(post.slot_ofs(j) == pre.slot_ofs(j + 1));
                        assert(pre.slot_ofs(j + 1) != pre.slot_ofs(0));
                    }
                } else {
                    if post.backlog@[i] is Some {
                        let j = choose|j: int|
                            0 <= j < pre.length && i == #[trigger] pre.slot_ofs(j);
                        assert(j != 0);
                        assert(i == post.slot_ofs(j - 1));
                    }
                    if exists|j: int| 0 <= j < post.length && i == #[trigger] post.slot_ofs(j) {
                        let j = choose|j: int|
                            0 <= j < post.length && i == #[trigger] post.slot_ofs(j);
                        assert(i == pre.slot_ofs(j + 1));
                    }
                }
            }
            assert forall|j: int| 0 <= j < post.length implies post.pending()[j]
                == pre.pending().skip(1)[j] by {
                assert(post.slot_ofs(j) == pre.slot_ofs(j + 1));
                assert(pre.slot_ofs(j + 1) != pre.slot_ofs(0));
                assert(post.backlog@[post.slot_ofs(j)] == pre.backlog@[pre.slot_ofs(j + 1)]);
            }
            assert(post.pending() =~= pre.pending().skip(1));
        }
        r
    }

    /// Take in one inbound datagram already routed to this listener: validate
    /// it and either queue a pending connection or report why not, exactly as
    /// `spec_collect_outcome` describes. On any error the listener is left
    /// unchanged.
    pub fn collect(
        &mut self,
        src_addr: &IpAddress,
        dst_addr: &IpAddress,
        protocol: IpProtocol,
        payload: &[u8],
    ) -> (r: Result<(), Error>)
        requires
            old(self).wf(),
        ensures
            final(self).wf(),
            final(self).bound_endpoint() == old(self).bound_endpoint(),
            final(self).capacity() == old(self).capacity(),
            match spec_collect_outcome(*old(self), *src_addr, *dst_addr, protocol, payload@) {
                Err(e) => r == Err::<(), Error>(e) && *final(self) == *old(self),
                Ok(inc) => r == Ok::<(), Error>(()) && final(self).pending() == old(
                    self,
                ).pending().push(inc),
            },
    {
        if protocol != IpProtocol::Tcp {
            return Err(Error::Rejected);
        }
        let repr = match TcpRepr::parse(payload) {
            Ok(repr) => repr,
            Err(e) => {
                return Err(e);
            },
        };
        if repr.dst_port != self.endpoint.port {
            return Err(Error::Rejected);
        }
        if !self.endpoint.addr.is_unspecified() {
            if self.endpoint.addr != *dst_addr {
                return Err(Error::Rejected);
            }
        }
        match (repr.control, repr.ack_number) {
            (TcpControl::Syn, None) => {
                if self.length == self.backlog.len() {
                    return Err(Error::Exhausted);
                }
                let cap = self.backlog.len();
                let until_end = cap - self.accept_at;
                let inject_at = if self.length >= until_end {
                    self.length - until_end
                } else {
                    self.accept_at + self.length
                };
                let inc = Incoming {
                    local_end: IpEndpoint::new(*dst_addr, repr.dst_port),
                    remote_end: IpEndpoint::new(*src_addr, repr.src_port),
                    seq_number: repr.seq_number,
                };
                proof {
                    let pre = *old(self);
                    pre.lemma_slot_ofs_injective();
                    assert(inject_at == pre.slot_ofs(pre.length as int));
                    // Inserting into a populated slot is provably impossible:
                    // the target slot lies outside the populated run.
                    assert(pre.backlog@[inject_at as int] is None) by {
                        if pre.backlog@[inject_at as int] is Some {
                            let j = choose|j: int|
                                0 <= j < pre.length && inject_at == #[trigger] pre.slot_ofs(j);
                            assert(pre.slot_ofs(j) != pre.slot_ofs(pre.length as int));
                        }
                    }
                }
                self.length = self.length + 1;
                self.backlog[inject_at] = Some(inc);
                proof {
                    let pre = *old(self);
                    let post = *self;
                    pre.lemma_slot_ofs_injective();
                    assert forall|j: int| 0 <= j <= pre.length implies post.slot_ofs(j)
                        == pre.slot_ofs(j) by {}
                    assert forall|i: int| 0 <= i < post.capacity() implies (post.backlog@[i]
                        is Some <==> exists|j: int|
                        0 <= j < post.length && i == #[trigger] post.slot_ofs(j)) by {
                        if i == inject_at {
                            assert(i == post.slot_ofs(pre.length as int));
                        } else {
                            if post.backlog@[i] is Some {
                                let j = choose|j: int|
                                    0 <= j < pre.length && i == #[trigger] pre.slot_ofs(j);
                                assert(i == post.slot_ofs(j));
                            }
                            if exists|j: int|
                                0 <= j < post.length && i == #[trigger] post.slot_ofs(j) {
                                let j = choose|j: int|
                                    0 <= j < post.length && i == #[trigger] post.slot_ofs(j);
                                assert(j != pre.length);
                                assert(i == pre.slot_ofs(j));
                            }
                        }
                    }
                    assert forall|j: int| 0 <= j < post.length implies post.pending()[j]
                        == pre.pending().push(inc)[j] by {
                        if j < pre.length {
                            assert(pre.slot_ofs(j) != pre.slot_ofs(pre.length as int));
                            assert(post.backlog@[post.slot_ofs(j)] == pre.backlog@[pre.slot_ofs(
                                j,
                            )]);
                        } else {
                            assert(post.backlog@[post.slot_ofs(j)] == Some(inc));
                        }
                    }
                    assert(post.pending() =~= pre.pending().push(inc));
                }
                Ok(())
            },
            _ => Err(Error::Rejected),
        }
    }
}

/// What one `collect` call does, as a function of the listener's state and
/// the datagram: either the connection record that is queued, or the error
/// that is returned with the listener unchanged.
///
/// A datagram is `Rejected` when it is not TCP, not addressed to the bound
/// port, not addressed to the bound address (unless the listener is bound to
/// the wildcard), or not a bare SYN — the first leg of the handshake, with no
/// acknowledgment number; a SYN-ACK in particular is rejected. A malformed
/// segment fails with the decoder's error. A bare SYN that would be queued
/// fails with `Exhausted` — distinctly, so that the caller can tell "not for
/// me" from "no room" — exactly when every backlog slot is pending.
pub open spec fn spec_collect_outcome(
    pre: Listener,
    src_addr: IpAddress,
    dst_addr: IpAddress,
    protocol: IpProtocol,
    payload: Seq<u8>,
) -> Result<Incoming, Error> {
    if protocol != IpProtocol::Tcp {
        Err(Error::Rejected)
    } else {
        match spec_parse(payload) {
            Err(e) => Err(e),
            Ok(repr) => {
                if repr.dst_port != pre.bound_endpoint().port {
                    Err(Error::Rejected)
                } else if !(pre.bound_endpoint().addr is Unspecified) && pre.bound_endpoint().addr
                    != dst_addr {
                    Err(Error::Rejected)
                } else if !(repr.control is Syn && repr.ack_number is None) {
                    Err(Error::Rejected)
                } else if pre.pending().len() == pre.capacity() {
                    Err(Error::Exhausted)
                } else {
                    Ok(
                        Incoming {
                            local_end: IpEndpoint { addr: dst_addr, port: repr.dst_port },
                            remote_end: IpEndpoint { addr: src_addr, port: repr.src_port },
                            seq_number: repr.seq_number,
                        },
                    )
                }
            },
        }
    }
}

/// FIFO order: if the pending queue holds the records `incs` — each
/// successful `collect` appends one, so `incs` lists them in the order their
/// SYNs were queued — then after `k` accepts the queue holds `incs.skip(k)`,
/// and the next accept returns `incs[k]`. Records therefore come back in
/// exactly the order they were queued.
pub proof fn lemma_fifo_order(incs: Seq<Incoming>, k: int)
    requires
        0 <= k < incs.len(),
    ensures
        incs.skip(k)[0] == incs[k],
        incs.skip(k).skip(1) == incs.skip(k + 1),
{
    assert(incs.skip(k).skip(1) =~= incs.skip(k + 1));
}

/// Backpressure recovery: a datagram that `collect` refused only for want of
/// room (`Exhausted`) is taken by the same listener as soon as room exists.
/// Whenever the backlog is again below capacity with the bound endpoint
/// unchanged — one `accept` on a full backlog does exactly that — the same
/// datagram yields `Ok`.
pub proof fn lemma_exhausted_syn_accepted_after_free(
    pre: Listener,
    post: Listener,
    src_addr: IpAddress,
    dst_addr: IpAddress,
    protocol: IpProtocol,
    payload: Seq<u8>,
)
    requires
        spec_collect_outcome(pre, src_addr, dst_addr, protocol, payload) == Err::<Incoming, Error>(
            Error::Exhausted,
        ),
        post.bound_endpoint() == pre.bound_endpoint(),
        post.pending().len() < post.capacity(),
    ensures
        spec_collect_outcome(post, src_addr, dst_addr, protocol, payload) is Ok,
{
}

/// Endpoint filtering, port: a TCP datagram whose destination port differs
/// from the bound port is rejected unconditionally.
pub proof fn lemma_wrong_port_rejected(
    pre: Listener,
    src_addr: IpAddress,
    dst_addr: IpAddress,
    payload: Seq<u8>,
    repr: TcpRepr,
)
    requires
        spec_parse(payload) == Ok::<TcpRepr, Error>(repr),
        repr.dst_port != pre.bound_endpoint().port,
    ensures
        spec_collect_outcome(pre, src_addr, dst_addr, IpProtocol::Tcp, payload) == Err::<
            Incoming,
            Error,
        >(Error::Rejected),
{
}

/// Endpoint filtering, address: a listener bound to a specific (non-wildcard)
/// address rejects a datagram addressed to any other address.
pub proof fn lemma_wrong_addr_rejected(
    pre: Listener,
    src_addr: IpAddress,
    dst_addr: IpAddress,
    payload: Seq<u8>,
    repr: TcpRepr,
)
    requires
        spec_parse(payload) == Ok::<TcpRepr, Error>(repr),
        !(pre.bound_endpoint().addr is Unspecified),
        pre.bound_endpoint().addr != dst_addr,
    ensures
        spec_collect_outcome(pre, src_addr, dst_addr, IpProtocol::Tcp, payload) == Err::<
            Incoming,
            Error,
        >(Error::Rejected),
{
}

/// Handshake filtering, protocol: a datagram of any protocol other than TCP
/// is rejected, whatever it carries.
pub proof fn lemma_non_tcp_rejected(
    pre: Listener,
    src_addr: IpAddress,
    dst_addr: IpAddress,
    protocol: IpProtocol,
    payload: Seq<u8>,
)
    requires
        protocol != IpProtocol::Tcp,
    ensures
        spec_collect_outcome(pre, src_addr, dst_addr, protocol, payload) == Err::<Incoming, Error>(
            Error::Rejected,
        ),
{
}

/// Handshake filtering, control: a well-formed segment that is not a bare
/// SYN — a SYN carrying an acknowledgment number (a SYN-ACK), or any other
/// control combination — is rejected, never queued and never `Exhausted`.
pub proof fn lemma_non_bare_syn_rejected(
    pre: Listener,
    src_addr: IpAddress,
    dst_addr: IpAddress,
    payload: Seq<u8>,
    repr: TcpRepr,
)
    requires
        spec_parse(payload) == Ok::<TcpRepr, Error>(repr),
        !(repr.control is Syn && repr.ack_number is None),
    ensures
        spec_collect_outcome(pre, src_addr, dst_addr, IpProtocol::Tcp, payload) == Err::<
            Incoming,
            Error,
        >(Error::Rejected),
{
}

} // verus!
