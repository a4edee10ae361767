use vstd::prelude::*;

verus! {

/// A TCP stream ring buffer: a fixed-capacity circular byte buffer over
/// storage supplied once at construction.
///
/// The `length` bytes starting at offset `read_at` (wrapping at the end of
/// `storage`) are the queued data, oldest first. The write cursor is always
/// `(read_at + length) mod capacity`, derived rather than stored.
pub struct SocketBuffer {
    storage: Vec<u8>,
    read_at: usize,
    length: usize,
}

impl View for SocketBuffer {
    type V = Seq<u8>;

    /// The queued bytes, oldest first.
    closed spec fn view(&self) -> Seq<u8> {
        Seq::new(
            self.length as nat,
            |i: int|
                if self.read_at + i < self.storage@.len() {
                    self.storage@[self.read_at + i]
                } else {
                    self.storage@[self.read_at + i - self.storage@.len()]
                },
        )
    }
}

impl SocketBuffer {
    /// The fixed size of the underlying storage.
    pub closed spec fn capacity(self) -> int {
        self.storage@.len() as int
    }

    /// Offset of the oldest queued byte within the storage.
    pub closed spec fn read_ofs(self) -> int {
        self.read_at as int
    }

    /// Well-formedness: the cursor lies within the storage and no more bytes
    /// are queued than the storage can hold.
    pub closed spec fn wf(self) -> bool {
        &&& if self.capacity() == 0 {
            self.read_at == 0
        } else {
            self.read_at < self.capacity()
        }
        &&& self.length <= self.capacity()
    }

    /// Number of bytes that can still be queued.
    pub open spec fn free_space(self) -> int {
        self.capacity() - self@.len()
    }

    /// An offset advanced by `n`, wrapped once at the end of the storage.
    pub open spec fn wrap_ofs(self, ofs: int) -> int {
        if ofs < self.capacity() {
            ofs
        } else {
            ofs - self.capacity()
        }
    }

    /// Offset of the next byte to be written within the storage.
    pub open spec fn write_ofs(self) -> int {
        self.wrap_ofs(self.read_ofs() + self@.len())
    }

    /// How many bytes one `enqueue` call transfers: the request, capped by the
    /// data supplied, the free space, and the contiguous run from the write
    /// cursor to the end of the storage.
    pub open spec fn enqueue_grant(self, size: int, avail: int) -> int {
        let req = if size <= avail {
            size
        } else {
            avail
        };
        let room = if self.free_space() <= self.capacity() - self.write_ofs() {
            self.free_space()
        } else {
            self.capacity() - self.write_ofs()
        };
        if req <= room {
            req
        } else {
            room
        }
    }

    /// How many bytes one `dequeue` call transfers: the request, capped by the
    /// queued data and the contiguous run from the read cursor to the end of
    /// the storage.
    pub open spec fn dequeue_grant(self, size: int) -> int {
        let have = if self@.len() <= self.capacity() - self.read_ofs() {
            self@.len() as int
        } else {
            self.capacity() - self.read_ofs()
        };
        if size <= have {
            size
        } else {
            have
        }
    }

    /// Create a stream buffer over the given storage; the storage's length is
    /// the buffer's capacity, fixed for the buffer's lifetime.
    pub fn new(storage: Vec<u8>) -> (r: SocketBuffer)
        ensures
            r.wf(),
            r.capacity() == storage@.len(),
            r.read_ofs() == 0,
            r@ == Seq::<u8>::empty(),
    {
        let r = SocketBuffer { storage, read_at: 0, length: 0 };
        proof {
            assert(r@ =~= Seq::<u8>::empty());
        }
        r
    }

    /// Queue up to `size` bytes taken from the front of `data`, and return how
    /// many were transferred: the request capped by the data supplied, the
    /// free space, and the contiguous run up to the end of the storage. The
    /// transfer commits immediately; a caller that meant to queue more must
    /// call again with the remainder.
    pub fn enqueue(&mut self, size: usize, data: &[u8]) -> (n: usize)
        requires
            old(self).wf(),
        ensures
            final(self).wf(),
            final(self).capacity() == old(self).capacity(),
            final(self).read_ofs() == old(self).read_ofs(),
            n == old(self).enqueue_grant(size as int, data@.len() as int),
            final(self)@ == old(self)@ + data@.take(n as int),
    {
        let cap = self.storage.len();
        let until_read_end = cap - self.read_at;
        let write_at = if self.length >= until_read_end {
            self.length - until_read_end
        } else {
            self.read_at + self.length
        };
        proof {
            assert(write_at == self.write_ofs());
        }
        let mut n = size;
        if n > data.len() {
            n = data.len();
        }
        let free = cap - self.length;
        if n > free {
            n = free;
        }
        let until_end = cap - write_at;
        if n > until_end {
            n = until_end;
        }
        let mut j: usize = 0;
        while j < n
            invariant
                j <= n,
                n <= data@.len(),
                write_at + n <= cap,
                cap == self.storage@.len(),
                self.read_at == old(self).read_at,
                self.length == old(self).length,
                forall|k: int|
                    0 <= k < cap && !(write_at <= k < write_at + j) ==> self.storage@[k]
                        == old(self).storage@[k],
                forall|k: int| 0 <= k < j ==> self.storage@[write_at + k] == data@[k],
            decreases n - j,
        {
            self.storage[write_at + j] = data[j];
            j += 1;
        }
        self.length = self.length + n;
        proof {
            let pre = *old(self);
            let post = *self;
            let cap = cap as int;
            let w = write_at as int;
            let nn = n as int;
            assert forall|i: int| 0 <= i < post@.len() implies post@[i] == (pre@ + data@.take(
                nn,
            ))[i] by {
                if i < pre.length {
                    if pre.read_at + i < cap {
                        let pos = pre.read_at + i;
                        assert(!(w <= pos < w + nn));
                        assert(post.storage@[pos] == pre.storage@[pos]);
                    } else {
                        let pos = pre.read_at + i - cap;
                        assert(!(w <= pos < w + nn));
                        assert(post.storage@[pos] == pre.storage@[pos]);
                    }
                } else {
                    let k = i - pre.length;
                    if pre.read_at + pre.length < cap {
                        assert(pre.read_at + i == w + k);
                        assert(post.storage@[w + k] == data@[k]);
                    } else {
                        assert(pre.read_at + i - cap == w + k);
                        assert(post.storage@[w + k] == data@[k]);
                    }
                }
            }
            assert(post@ =~= pre@ + data@.take(nn));
        }
        n
    }

    /// Dequeue up to `size` bytes and return them, oldest first: the request
    /// capped by the queued data and the contiguous run up to the end of the
    /// storage. Never blocks: an empty result means no data was queued (or
    /// none was requested). A caller that meant to read more must call again.
    pub fn dequeue(&mut self, size: usize) -> (r: Vec<u8>)
        requires
            old(self).wf(),
        ensures
            final(self).wf(),
            final(self).capacity() == old(self).capacity(),
            r@.len() == old(self).dequeue_grant(size as int),
            r@ == old(self)@.take(r@.len() as int),
            final(self)@ == old(self)@.skip(r@.len() as int),
            final(self).read_ofs() == old(self).wrap_ofs(old(self).read_ofs() + r@.len()),
    {
        let cap = self.storage.len();
        let mut n = size;
        if n > self.length {
            n = self.length;
        }
        let until_end = cap - self.read_at;
        if n > until_end {
            n = until_end;
        }
        let read_at = self.read_at;
        let mut out: Vec<u8> = Vec::new();
        let mut j: usize = 0;
        while j < n
            invariant
                j <= n,
                read_at + n <= cap,
                cap == self.storage@.len(),
                out@.len() == j,
                forall|k: int| 0 <= k < j ==> out@[k] == self.storage@[read_at + k],
            decreases n - j,
        {
            out.push(self.storage[read_at + j]);
            j += 1;
        }
        self.read_at = if until_end == n {
            0
        } else {
            self.read_at + n
        };
        self.length = self.length - n;
        proof {
            let pre = *old(self);
            let post = *self;
            let cap = cap as int;
            let nn = n as int;
            assert forall|k: int| 0 <= k < nn implies out@[k] == pre@[k] by {
                assert(pre.read_at + k < cap);
            }
            assert(out@ =~= pre@.take(nn));
            assert forall|i: int| 0 <= i < post@.len() implies post@[i] == pre@.skip(nn)[i] by {
                if pre.read_at + nn < cap {
                    assert(post.read_at == pre.read_at + nn);
                } else {
                    assert(post.read_at == pre.read_at + nn - cap);
                }
            }
            assert(post@ =~= pre@.skip(nn));
        }
        out
    }
}

/// Capacity invariant: a well-formed buffer never holds fewer than zero nor
/// more than `capacity` bytes. Since `new` establishes well-formedness and
/// `enqueue` and `dequeue` each preserve it, this bound holds after every
/// call.
pub proof fn lemma_capacity_invariant(b: SocketBuffer)
    requires
        b.wf(),
    ensures
        0 <= b@.len() <= b.capacity(),
{
}

/// Conservation, enqueue step: if the bytes ever enqueued are the bytes ever
/// dequeued followed by the buffer's current contents, the same holds after
/// an enqueue appends `written` to the contents.
pub proof fn lemma_conservation_enqueue(
    enqueued: Seq<u8>,
    dequeued: Seq<u8>,
    contents: Seq<u8>,
    written: Seq<u8>,
)
    requires
        enqueued == dequeued + contents,
    ensures
        enqueued + written == dequeued + (contents + written),
{
    assert(enqueued + written =~= dequeued + (contents + written));
}

/// Conservation, dequeue step: if the bytes ever enqueued are the bytes ever
/// dequeued followed by the buffer's current contents, the same holds after a
/// dequeue removes and returns the first `n` bytes of the contents.
pub proof fn lemma_conservation_dequeue(
    enqueued: Seq<u8>,
    dequeued: Seq<u8>,
    contents: Seq<u8>,
    n: int,
)
    requires
        enqueued == dequeued + contents,
        0 <= n <= contents.len(),
    ensures
        enqueued == (dequeued + contents.take(n)) + contents.skip(n),
{
    assert(enqueued =~= (dequeued + contents.take(n)) + contents.skip(n));
}

/// Conservation: whenever the bytes ever enqueued are the bytes ever dequeued
/// followed by the current contents — the invariant the two lemmas above
/// carry through every call — the dequeued stream is a prefix of the enqueued
/// stream: no byte is reordered, duplicated, lost or invented, and no more is
/// ever dequeued than was enqueued.
pub proof fn lemma_dequeued_prefix_of_enqueued(enqueued: Seq<u8>, dequeued: Seq<u8>, contents: Seq<
    u8,
>)
    requires
        enqueued == dequeued + contents,
    ensures
        dequeued.len() <= enqueued.len(),
        dequeued == enqueued.take(dequeued.len() as int),
{
    assert(dequeued =~= enqueued.take(dequeued.len() as int));
}

} // verus!
