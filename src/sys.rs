//! Sending a sequence of buffers over a connected stream socket.
//!
//! Two strategies: one scatter/gather `sendmsg` call on a raw descriptor,
//! and a sequence of ordinary writes that stops at the first short one.

use vstd::prelude::*;

verus! {

/// std's I/O error, carried through opaque.
#[verifier::external_type_specification]
#[verifier::external_body]
pub struct ExIoError(std::io::Error);


/// The contents of each buffer of `iov`.
pub open spec fn buffers(iov: Seq<&[u8]>) -> Seq<Seq<u8>> {
    Seq::new(iov.len(), |i: int| iov[i]@)
}

/// Number of bytes in all the buffers together.
pub open spec fn total_len(bufs: Seq<Seq<u8>>) -> nat
    decreases bufs.len(),
{
    if bufs.len() == 0 {
        0
    } else {
        total_len(bufs.drop_last()) + bufs.last().len()
    }
}

/// The buffers joined end to end.
pub open spec fn flatten(bufs: Seq<Seq<u8>>) -> Seq<u8>
    decreases bufs.len(),
{
    if bufs.len() == 0 {
        Seq::empty()
    } else {
        flatten(bufs.drop_last()) + bufs.last()
    }
}

/// Sum of a sequence of byte counts.
pub open spec fn sum(counts: Seq<nat>) -> nat
    decreases counts.len(),
{
    if counts.len() == 0 {
        0
    } else {
        sum(counts.drop_last()) + counts.last()
    }
}

/// Bytes put on the wire by writes that accepted `counts[i]` leading bytes
/// of buffer `i`, in order.
pub open spec fn transmitted(bufs: Seq<Seq<u8>>, counts: Seq<nat>) -> Seq<u8>
    decreases counts.len(),
{
    if counts.len() == 0 {
        Seq::empty()
    } else {
        transmitted(bufs, counts.drop_last()) + bufs[counts.len() - 1].take(
            counts.last() as int,
        )
    }
}

/// `counts` are the results of writes of the first buffers of `bufs`, in
/// order, where every write but the last accepted its whole buffer.
pub open spec fn is_sequential_prefix(bufs: Seq<Seq<u8>>, counts: Seq<nat>) -> bool {
    &&& counts.len() <= bufs.len()
    &&& forall|i: int| 0 <= i < counts.len() ==> #[trigger] counts[i] <= bufs[i].len()
    &&& forall|i: int| 0 <= i < counts.len() - 1 ==> #[trigger] counts[i] == bufs[i].len()
}

/// No more writes are due after `counts`: every buffer was written, or the
/// last write was short.
pub open spec fn is_finished(bufs: Seq<Seq<u8>>, counts: Seq<nat>) -> bool {
    counts.len() == bufs.len() || (counts.len() > 0 && counts.last() < bufs[counts.len()
        - 1].len())
}

/// `counts` are the results of one complete run of the sequential strategy.
pub open spec fn is_sequential_run(bufs: Seq<Seq<u8>>, counts: Seq<nat>) -> bool {
    is_sequential_prefix(bufs, counts) && is_finished(bufs, counts)
}

proof fn lemma_flatten_len(bufs: Seq<Seq<u8>>)
    ensures
        flatten(bufs).len() == total_len(bufs),
    decreases bufs.len(),
{
    if bufs.len() > 0 {
        lemma_flatten_len(bufs.drop_last());
    }
}

/// Joining the first `k` buffers gives a prefix of joining them all.
proof fn lemma_flatten_take(bufs: Seq<Seq<u8>>, k: int)
    requires
        0 <= k <= bufs.len(),
    ensures
        total_len(bufs.take(k)) <= total_len(bufs),
        flatten(bufs).take(total_len(bufs.take(k)) as int) == flatten(bufs.take(k)),
    decreases bufs.len(),
{
    lemma_flatten_len(bufs);
    lemma_flatten_len(bufs.take(k));
    if k == bufs.len() {
        assert(bufs.take(k) =~= bufs);
        assert(flatten(bufs).take(total_len(bufs) as int) =~= flatten(bufs));
    } else {
        let dl = bufs.drop_last();
        assert(bufs.take(k) =~= dl.take(k));
        lemma_flatten_take(dl, k);
        lemma_flatten_len(dl);
        let t = total_len(bufs.take(k)) as int;
        assert(flatten(bufs) == flatten(dl) + bufs.last());
        assert((flatten(dl) + bufs.last()).take(t) =~= flatten(dl).take(t));
    }
}

/// Whole writes of the first buffers transmit those buffers joined.
proof fn lemma_whole_writes(bufs: Seq<Seq<u8>>, counts: Seq<nat>)
    requires
        counts.len() <= bufs.len(),
        forall|i: int| 0 <= i < counts.len() ==> #[trigger] counts[i] == bufs[i].len(),
    ensures
        transmitted(bufs, counts) == flatten(bufs.take(counts.len() as int)),
        sum(counts) == total_len(bufs.take(counts.len() as int)),
    decreases counts.len(),
{
    let m = counts.len() as int;
    if m > 0 {
        let dl = counts.drop_last();
        lemma_whole_writes(bufs, dl);
        assert(bufs.take(m).drop_last() =~= bufs.take(m - 1));
        assert(bufs[m - 1].take(counts[m - 1] as int) =~= bufs[m - 1]);
    } else {
        assert(bufs.take(0) =~= Seq::<Seq<u8>>::empty());
    }
}

/// The sequential strategy keeps byte order: a run transmits exactly the
/// first `k` bytes of the buffers joined, where `k` is the count it
/// reports, and `k` never exceeds the total length. When `k` falls short of
/// the total, the last write was the first short one, and no buffer after
/// it was written at all.
pub proof fn lemma_sequential_run_sends_prefix(bufs: Seq<Seq<u8>>, counts: Seq<nat>)
    requires
        is_sequential_run(bufs, counts),
    ensures
        sum(counts) <= total_len(bufs),
        transmitted(bufs, counts) == flatten(bufs).take(sum(counts) as int),
        sum(counts) < total_len(bufs) ==> {
            &&& counts.len() > 0
            &&& counts.last() < bufs[counts.len() - 1].len()
            &&& forall|i: int| 0 <= i < counts.len() - 1 ==> #[trigger] counts[i] == bufs[i].len()
        },
{
    let m = counts.len() as int;
    lemma_flatten_len(bufs);
    if m == 0 {
        assert(bufs =~= Seq::<Seq<u8>>::empty());
        assert(flatten(bufs).take(0) =~= Seq::<u8>::empty());
    } else {
        let dl = counts.drop_last();
        let c = counts.last() as int;
        lemma_whole_writes(bufs, dl);
        lemma_flatten_take(bufs, m);
        lemma_flatten_len(bufs.take(m));
        lemma_flatten_len(bufs.take(m - 1));
        assert(bufs.take(m).drop_last() =~= bufs.take(m - 1));
        assert(bufs.take(m).last() == bufs[m - 1]);
        let head = flatten(bufs.take(m - 1));
        let whole = flatten(bufs.take(m));
        assert(whole == head + bufs[m - 1]);
        let k = sum(counts) as int;
        assert(k == head.len() + c);
        assert(flatten(bufs).take(k) =~= flatten(bufs).take(whole.len() as int).take(k));
        assert((head + bufs[m - 1]).take(k) =~= head + bufs[m - 1].take(c));
        if k < total_len(bufs) && c == bufs[m - 1].len() {
            assert(m == bufs.len());
            assert(bufs.take(m) =~= bufs);
        }
    }
}

/// Sending two buffers in full transmits the same bytes as sending their
/// concatenation in full.
pub proof fn lemma_two_buffers_as_one(a: Seq<u8>, b: Seq<u8>, counts: Seq<nat>)
    requires
        is_sequential_run(seq![a, b], counts),
        sum(counts) == a.len() + b.len(),
    ensures
        transmitted(seq![a, b], counts) == a + b,
        transmitted(seq![a, b], counts) == transmitted(seq![a + b], seq![(a.len() + b.len()) as nat]),
{
    let bufs = seq![a, b];
    lemma_sequential_run_sends_prefix(bufs, counts);
    assert(bufs.drop_last() =~= seq![a]);
    assert(seq![a].drop_last() =~= Seq::<Seq<u8>>::empty());
    assert(seq![a].last() == a);
    assert(flatten(Seq::<Seq<u8>>::empty()) == Seq::<u8>::empty());
    assert(flatten(seq![a]) == flatten(Seq::<Seq<u8>>::empty()) + a);
    assert(flatten(seq![a]) =~= a);
    assert(flatten(bufs) == flatten(seq![a]) + b);
    assert(flatten(bufs) =~= a + b);
    assert((a + b).take((a.len() + b.len()) as int) =~= a + b);
    let one = seq![a + b];
    let all = seq![(a.len() + b.len()) as nat];
    assert(all.drop_last() =~= Seq::<nat>::empty());
    assert(transmitted(one, all.drop_last()) =~= Seq::<u8>::empty());
    assert(transmitted(one, all) =~= (a + b).take((a.len() + b.len()) as int));
}

/// Relies on nix::sys::socket::sendmsg, which makes one `sendmsg(2)` call
/// with no flags, no control data and no address, and returns the kernel's
/// count of the bytes it sent from the given buffers (so at most their
/// total length); a failure comes back as the errno, turned into an
/// `std::io::Error` by nix's `From<Errno>`.
#[verifier::external_body]
fn sendmsg_call(fd: i32, iov: &[&[u8]]) -> (r: Result<usize, std::io::Error>)
    ensures
        r matches Ok(n) ==> n <= total_len(buffers(iov@)),
{
    let slices: Vec<std::io::IoSlice> = iov.iter().map(|b| std::io::IoSlice::new(b)).collect();
    nix::sys::socket::sendmsg::<()>(
        fd,
        &slices,
        &[],
        nix::sys::socket::MsgFlags::empty(),
        None,
    ).map_err(std::io::Error::from)
}

/// A full send of the buffers `[a, b]` and a full send of the single buffer
/// `a ++ b` add the same bytes, `a ++ b`, to what a stream has accepted (as
/// `SendAll::send_all` states it: the first `n` bytes of the buffers
/// joined, with `n` their whole length).
pub proof fn lemma_full_send_of_two_is_concatenation(a: Seq<u8>, b: Seq<u8>)
    ensures
        flatten(seq![a, b]).take((a.len() + b.len()) as int) == a + b,
        flatten(seq![a + b]).take((a.len() + b.len()) as int) == a + b,
{
    assert(seq![a, b].drop_last() =~= seq![a]);
    assert(seq![a].drop_last() =~= Seq::<Seq<u8>>::empty());
    assert(seq![a + b].drop_last() =~= Seq::<Seq<u8>>::empty());
    assert(flatten(Seq::<Seq<u8>>::empty()) == Seq::<u8>::empty());
    assert(flatten(seq![a]) == flatten(Seq::<Seq<u8>>::empty()) + a);
    assert(flatten(seq![a]) =~= a);
    assert(flatten(seq![a + b]) == flatten(Seq::<Seq<u8>>::empty()) + (a + b));
    assert(flatten(seq![a, b]) =~= a + b);
    assert(flatten(seq![a + b]) =~= a + b);
    assert((a + b).take((a.len() + b.len()) as int) =~= a + b);
}

/// Relies on nix::sys::socket::send, which makes one `send(2)` call with no
/// flags and returns the kernel's count of the bytes it sent from `buf` (so
/// at most its length); a failure comes back as the errno, turned into an
/// `std::io::Error` by nix's `From<Errno>`.
#[verifier::external_body]
fn send_call(fd: i32, buf: &[u8]) -> (r: Result<usize, std::io::Error>)
    ensures
        r matches Ok(n) ==> n <= buf@.len(),
{
    nix::sys::socket::send(fd, buf, nix::sys::socket::MsgFlags::empty()).map_err(
        std::io::Error::from,
    )
}

/// Scatter/gather strategy: sends all the buffers of `iov` with one
/// `sendmsg` call on the connected socket `fd`.
///
/// Returns how many bytes the kernel accepted, which may be fewer than the
/// total (a short send: the caller sends the rest), or the OS error.
pub fn sendmsg(fd: i32, iov: &[&[u8]]) -> (r: Result<usize, std::io::Error>)
    ensures
        r matches Ok(n) ==> n <= total_len(buffers(iov@)),
{
    sendmsg_call(fd, iov)
}

/// A connected stream socket, by its descriptor.
///
/// Its model keeps the bytes that the sends made through it reported as
/// accepted, in the order they went out: a send that returns `Ok(n)` put
/// the first `n` bytes of what it was given on the wire.
pub struct RawSocket {
    fd: i32,
    sent: Ghost<Seq<u8>>,
}

impl RawSocket {
    /// The descriptor.
    pub closed spec fn spec_fd(&self) -> i32 {
        self.fd
    }

    /// Bytes accepted by the sends made through this handle, in order.
    pub closed spec fn spec_sent(&self) -> Seq<u8> {
        self.sent@
    }

    /// Takes the connected socket `fd`; nothing has been sent through it yet.
    pub fn new(fd: i32) -> (r: Self)
        ensures
            r.spec_fd() == fd,
            r.spec_sent() == Seq::<u8>::empty(),
    {
        RawSocket { fd, sent: Ghost(Seq::empty()) }
    }

    /// Returns the descriptor.
    pub fn fd(&self) -> (r: i32)
        ensures
            r == self.spec_fd(),
    {
        self.fd
    }
}

/// Progress of the sequential strategy over one sequence of buffers: which
/// buffer is written next, and what the writes so far accepted.
pub struct SequentialSend {
    next: usize,
    sent: usize,
    stopped: bool,
    counts: Ghost<Seq<nat>>,
}

impl SequentialSend {
    /// Bytes accepted by each write so far, in order.
    pub closed spec fn counts(&self) -> Seq<nat> {
        self.counts@
    }

    /// The counters agree with the recorded writes.
    #[verifier::type_invariant]
    spec fn counters_agree(&self) -> bool {
        self.next == self.counts@.len() && self.sent == sum(self.counts@)
    }

    /// The state describes a run of the sequential strategy over `bufs`.
    pub closed spec fn wf(&self, bufs: Seq<Seq<u8>>) -> bool {
        &&& is_sequential_prefix(bufs, self.counts@)
        &&& self.stopped == (self.counts@.len() > 0 && self.counts@.last() < bufs[self.counts@.len()
            - 1].len())
    }

    /// No write done yet.
    pub fn new() -> (r: Self)
        ensures
            r.counts() == Seq::<nat>::empty(),
            forall|bufs: Seq<Seq<u8>>| #[trigger] r.wf(bufs),
    {
        SequentialSend { next: 0, sent: 0, stopped: false, counts: Ghost(Seq::empty()) }
    }

    /// Which buffer to write next: `None` once every buffer was written or
    /// a write was short.
    pub fn next_buffer(&self, iov: &[&[u8]]) -> (r: Option<usize>)
        requires
            self.wf(buffers(iov@)),
        ensures
            r is None <==> is_finished(buffers(iov@), self.counts()),
            r matches Some(i) ==> i == self.counts().len() && i < iov@.len(),
    {
        proof {
            use_type_invariant(self);
        }
        if self.stopped || self.next >= iov.len() {
            None
        } else {
            Some(self.next)
        }
    }

    /// Records that the write of the next buffer accepted `written` bytes.
    pub fn record(&mut self, iov: &[&[u8]], written: usize)
        requires
            old(self).wf(buffers(iov@)),
            !is_finished(buffers(iov@), old(self).counts()),
            written <= iov@[old(self).counts().len() as int]@.len(),
            total_len(buffers(iov@)) <= usize::MAX,
        ensures
            final(self).counts() == old(self).counts().push(written as nat),
            final(self).wf(buffers(iov@)),
    {
        proof {
            use_type_invariant(&*self);
        }
        let ghost bufs = buffers(iov@);
        let ghost c = self.counts@;
        proof {
            assert(c.push(written as nat).drop_last() =~= c);
            let ext = c.push(written as nat);
            lemma_prefix_within_total(bufs, ext);
        }
        let len = iov[self.next].len();
        *self = SequentialSend {
            next: self.next + 1,
            sent: self.sent + written,
            stopped: written < len,
            counts: Ghost(c.push(written as nat)),
        };
    }

    /// Total bytes accepted by the writes so far.
    pub fn sent(&self) -> (r: usize)
        ensures
            r == sum(self.counts()),
    {
        proof {
            use_type_invariant(self);
        }
        self.sent
    }
}

/// The bytes that a prefix of a run accepted fit in the total length.
proof fn lemma_prefix_within_total(bufs: Seq<Seq<u8>>, counts: Seq<nat>)
    requires
        is_sequential_prefix(bufs, counts),
    ensures
        sum(counts) <= total_len(bufs),
{
    let m = counts.len() as int;
    if m > 0 {
        lemma_whole_writes(bufs, counts.drop_last());
        lemma_flatten_take(bufs, m);
        assert(bufs.take(m).drop_last() =~= bufs.take(m - 1));
    }
}

/// Sequential strategy: writes the buffers of `iov` to `sock` one after
/// another with ordinary sends, and stops after the first send that
/// accepts less than its whole buffer.
///
/// Returns the bytes accepted by all the sends, or the first send error.
/// On success the writes form a sequential run whose counts sum to the
/// result, and the socket's output grew by exactly the first `n` bytes of
/// the buffers joined.
pub fn send_sequential(sock: &mut RawSocket, iov: &[&[u8]]) -> (r: Result<usize, std::io::Error>)
    requires
        total_len(buffers(iov@)) <= usize::MAX,
    ensures
        final(sock).spec_fd() == old(sock).spec_fd(),
        iov@.len() == 0 ==> (r matches Ok(n) && n == 0),
        r matches Ok(n) ==> exists|counts: Seq<nat>|
            is_sequential_run(buffers(iov@), counts) && #[trigger] sum(counts) == n
                && final(sock).spec_sent() == old(sock).spec_sent() + transmitted(
                buffers(iov@),
                counts,
            ),
        r matches Ok(n) ==> n <= total_len(buffers(iov@)) && final(sock).spec_sent()
            == old(sock).spec_sent() + flatten(buffers(iov@)).take(n as int),
{
    let ghost bufs = buffers(iov@);
    let ghost start = sock.sent@;
    let mut state = SequentialSend::new();
    assert(state.wf(bufs));
    loop
        invariant
            bufs == buffers(iov@),
            state.wf(bufs),
            total_len(bufs) <= usize::MAX,
            sock.fd == old(sock).fd,
            start == old(sock).sent@,
            sock.sent@ == start + transmitted(bufs, state.counts()),
            iov@.len() == 0 ==> state.counts().len() == 0,
        decreases iov@.len() - state.counts().len(),
    {
        match state.next_buffer(iov) {
            None => {
                let n = state.sent();
                proof {
                    lemma_sequential_run_sends_prefix(bufs, state.counts());
                    if iov@.len() == 0 {
                        assert(state.counts() =~= Seq::<nat>::empty());
                    }
                }
                return Ok(n);
            },
            Some(i) => {
                match send_call(sock.fd, iov[i]) {
                    Ok(n) => {
                        let ghost before = state.counts();
                        state.record(iov, n);
                        proof {
                            assert(state.counts().drop_last() =~= before);
                            assert(bufs[i as int] == iov@[i as int]@);
                        }
                        sock.sent = Ghost(sock.sent@ + iov@[i as int]@.take(n as int));
                        assert(sock.sent@ =~= start + transmitted(bufs, state.counts()));
                    },
                    Err(e) => {
                        return Err(e);
                    },
                }
            },
        }
    }
}

/// Sending a sequence of buffers, in order, over a connected stream.
pub trait SendAll {
    /// Bytes that the stream accepted from the sends so far, in order.
    spec fn sent_bytes(&self) -> Seq<u8>;

    /// Makes one attempt to send the buffers of `iov`, in order.
    ///
    /// Returns how many bytes were accepted, at most their total length:
    /// they are the first bytes of the buffers joined, and the caller sends
    /// whatever is left. With no buffers, nothing is sent and the result is
    /// `Ok(0)`.
    fn send_all(&mut self, iov: &[&[u8]]) -> (r: Result<usize, std::io::Error>)
        ensures
            iov@.len() == 0 ==> (r matches Ok(n) && n == 0),
            r matches Ok(n) ==> n <= total_len(buffers(iov@)) && final(self).sent_bytes()
                == old(self).sent_bytes() + flatten(buffers(iov@)).take(n as int),
    ;
}

/// On a raw descriptor the buffers go out with one `sendmsg` call.
impl SendAll for RawSocket {
    open spec fn sent_bytes(&self) -> Seq<u8> {
        self.spec_sent()
    }

    fn send_all(&mut self, iov: &[&[u8]]) -> (r: Result<usize, std::io::Error>) {
        if iov.len() == 0 {
            return Ok(0);
        }
        let r = sendmsg(self.fd, iov);
        if let Ok(n) = r {
            self.sent = Ghost(self.sent@ + flatten(buffers(iov@)).take(n as int));
        }
        r
    }
}

} // verus!
