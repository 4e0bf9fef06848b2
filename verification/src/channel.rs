//! A bounded channel of plain values over a circular buffer: senders append
//! to the back of a queue and receivers take from its front, each waiting
//! while the queue is full or empty, until the other side has gone.
use vstd::prelude::*;
use std::sync::Arc;
use crate::circular_buffer::{
    CircularBuffer, CreateError, aligned_length_spec, allocation_bytes, get_allocation_granularity,
    lemma_aligned_length_law, offset_from, wrap_index, wrapped_run,
};

use crate::channel_lock::{
    Core, guarded, notify_all, notify_one, wait_until_receivable, wait_until_sendable,
};

verus! {

/// Where the next element is written, where the next one is read, and how
/// many are queued between the two; indices run over `0..=capacity`.
#[derive(Clone, Copy, Debug)]
struct RingState {
    write_index: usize,
    read_index: usize,
    total_used: usize,
}

/// The queue shared by the senders and receivers of a channel.
#[derive(Debug)]
pub struct Buffer<T> {
    data: CircularBuffer<T>,
    state: RingState,
    total_senders: usize,
    total_receivers: usize,
}

/// Why a send failed.
#[derive(Copy, Clone, Debug, PartialEq, Eq, Structural)]
pub enum SendError {
    /// No receiver is left.
    Closed,
    /// The lock of the queue was poisoned.
    Poisoned,
}

/// Why a receive failed.
#[derive(Copy, Clone, Debug, PartialEq, Eq, Structural)]
pub enum ReceiveError {
    /// No sender is left and the queue is empty.
    Closed,
    /// The lock of the queue was poisoned.
    Poisoned,
}

impl<T> Buffer<T> {
    #[verifier::type_invariant]
    closed spec fn inv(self) -> bool {
        let len = self.data@.len() as int;
        &&& 0 < len <= isize::MAX
        &&& self.state.read_index <= len
        &&& self.state.write_index <= len
        &&& self.state.total_used <= len
        &&& wrap_index(self.state.write_index as int, len)
            == wrap_index(wrap_index(self.state.read_index as int, len) + self.state.total_used, len)
    }

    /// How many elements the queue can hold.
    pub closed spec fn capacity(&self) -> nat {
        self.data@.len()
    }

    /// The queued elements, oldest first.
    pub closed spec fn contents(&self) -> Seq<T> {
        wrapped_run(self.data@, wrap_index(self.state.read_index as int, self.data@.len() as int), self.state.total_used as int)
    }

    /// How many senders are attached.
    pub closed spec fn senders(&self) -> nat {
        self.total_senders as nat
    }

    /// How many receivers are attached.
    pub closed spec fn receivers(&self) -> nat {
        self.total_receivers as nat
    }

    /// How many more elements fit.
    pub fn total_unused(&self) -> (r: usize)
        ensures
            self.contents().len() <= self.capacity(),
            r == self.capacity() - self.contents().len(),
    {
        proof { use_type_invariant(self); }
        self.data.len() - self.state.total_used
    }

    /// Whether no more element fits.
    pub fn is_full(&self) -> (r: bool)
        ensures
            r == (self.contents().len() == self.capacity()),
    {
        proof { use_type_invariant(self); }
        self.state.total_used == self.data.len()
    }

    /// Whether nothing is queued.
    pub fn is_empty(&self) -> (r: bool)
        ensures
            r == (self.contents().len() == 0),
    {
        self.state.total_used == 0
    }

    /// Whether a sender has to wait: receivers are attached and no element fits.
    pub(crate) fn is_send_blocked(&self) -> (r: bool)
        ensures
            r == (self.receivers() > 0 && self.contents().len() == self.capacity()),
    {
        self.total_receivers > 0 && self.is_full()
    }

    /// Whether a receiver has to wait: senders are attached and nothing is queued.
    pub(crate) fn is_receive_blocked(&self) -> (r: bool)
        ensures
            r == (self.senders() > 0 && self.contents().len() == 0),
    {
        self.total_senders > 0 && self.is_empty()
    }

    /// Appends to the queue as many elements of `src[offset..]` as fit, where
    /// a receiver is attached.
    fn push_from(&mut self, src: &[T], offset: usize) -> (r: Result<usize, SendError>)
        where T: Copy
        requires
            offset <= src@.len(),
        ensures
            final(self).capacity() == old(self).capacity(),
            final(self).senders() == old(self).senders(),
            final(self).receivers() == old(self).receivers(),
            old(self).receivers() == 0 ==> r == Err::<usize, SendError>(SendError::Closed)
                && final(self).contents() == old(self).contents(),
            old(self).receivers() > 0 ==> (r matches Ok(n) && {
                &&& n == min_nat((src@.len() - offset) as nat, (old(self).capacity() - old(self).contents().len()) as nat)
                &&& final(self).contents() == old(self).contents() + src@.subrange(offset as int, offset + n)
            }),
    {
        proof { use_type_invariant(&*self); }
        if self.total_receivers == 0 {
            return Err(SendError::Closed);
        }
        let ghost old_contents = self.contents();
        let ghost d0 = self.data@;
        let len = self.data.len();
        let unused = len - self.state.total_used;
        let remaining = src.len() - offset;
        let n = if remaining < unused { remaining } else { unused };
        let part = vstd::slice::slice_to_vec(vstd::slice::slice_subrange(src, offset, offset + n));
        let w = self.state.write_index;
        self.data.write_range(w, &part);
        let new_w = if w + n > len { w + n - len } else { w + n };
        let read = self.state.read_index;
        let used = self.state.total_used;
        self.state = RingState { write_index: new_w, read_index: read, total_used: used + n };
        proof {
            let l = len as int;
            let rr = wrap_index(read as int, l);
            let ww = wrap_index(w as int, l);
            assert(ww == wrap_index(rr + used, l));
            assert forall|j: int| 0 <= j < used + n implies
                #[trigger] self.contents()[j] == (old_contents + part@)[j] by {
                let p = wrap_index(rr + j, l);
                if j < used {
                    assert(offset_from(p, ww, l) >= n);
                } else {
                    assert(offset_from(p, ww, l) == j - used);
                }
            }
            assert(self.contents() =~= old_contents + part@);
        }
        Ok(n)
    }

    /// Moves as many queued elements as fit into `dst[offset..]`, oldest
    /// first, unless no sender is attached and nothing is queued.
    fn pop_into(&mut self, dst: &mut [T], offset: usize) -> (r: Result<usize, ReceiveError>)
        where T: Copy
        requires
            offset <= old(dst)@.len(),
        ensures
            final(self).capacity() == old(self).capacity(),
            final(self).senders() == old(self).senders(),
            final(self).receivers() == old(self).receivers(),
            final(dst)@.len() == old(dst)@.len(),
            (old(self).senders() == 0 && old(self).contents().len() == 0) ==>
                r == Err::<usize, ReceiveError>(ReceiveError::Closed)
                && final(self).contents() == old(self).contents()
                && final(dst)@ == old(dst)@,
            !(old(self).senders() == 0 && old(self).contents().len() == 0) ==> (r matches Ok(n) && {
                &&& n == min_nat((old(dst)@.len() - offset) as nat, old(self).contents().len())
                &&& final(dst)@ == old(dst)@.take(offset as int) + old(self).contents().take(n as int)
                        + old(dst)@.skip(offset + n)
                &&& final(self).contents() == old(self).contents().skip(n as int)
            }),
    {
        proof { use_type_invariant(&*self); }
        if self.total_senders == 0 && self.state.total_used == 0 {
            return Err(ReceiveError::Closed);
        }
        let ghost old_contents = self.contents();
        let ghost old_dst = dst@;
        let len = self.data.len();
        let remaining = dst.len() - offset;
        let used = self.state.total_used;
        let n = if remaining < used { remaining } else { used };
        let read = self.state.read_index;
        let mut k: usize = 0;
        while k < n
            invariant
                k <= n <= used <= len <= isize::MAX,
                read <= len,
                len == self.data@.len(),
                offset + n <= old_dst.len(),
                offset + n <= usize::MAX,
                old_contents == self.contents(),
                old_contents.len() == used,
                old_contents == wrapped_run(self.data@, wrap_index(read as int, len as int), used as int),
                dst@.len() == old_dst.len(),
                forall|i: int| 0 <= i < dst@.len() ==> #[trigger] dst@[i] ==
                    (if offset <= i < offset + k { old_contents[i - offset] } else { old_dst[i] }),
            decreases n - k,
        {
            let v = self.data.get(read + k);
            dst[offset + k] = v;
            k = k + 1;
        }
        let new_read = if read + n > len { read + n - len } else { read + n };
        let write = self.state.write_index;
        self.state = RingState { write_index: write, read_index: new_read, total_used: used - n };
        proof {
            assert(dst@ =~= old_dst.take(offset as int) + old_contents.take(n as int) + old_dst.skip(offset + n));
            let l = len as int;
            let rr = wrap_index(read as int, l);
            assert forall|j: int| 0 <= j < used - n implies
                #[trigger] self.contents()[j] == old_contents.skip(n as int)[j] by {
                assert(wrap_index(wrap_index(new_read as int, l) + j, l) == wrap_index(rr + n + j, l));
            }
            assert(self.contents() =~= old_contents.skip(n as int));
        }
        Ok(n)
    }
}

/// Elements leave a queue in the order they came: after `sent` was appended
/// to a queue holding `queued`, taking `k` elements gives the oldest of
/// `queued` first and reaches `sent` only once `queued` is used up, and what
/// stays queued is the rest of `queued` followed by the rest of `sent`.
pub proof fn lemma_first_in_first_out<T>(queued: Seq<T>, sent: Seq<T>, k: nat)
    requires
        k <= queued.len() + sent.len(),
    ensures
        (queued + sent).take(k as int) == (if k <= queued.len() { queued.take(k as int) }
            else { queued + sent.take(k - queued.len()) }),
        (queued + sent).skip(k as int) == (if k <= queued.len() { queued.skip(k as int) + sent }
            else { sent.skip(k - queued.len()) }),
{
    if k <= queued.len() {
        assert((queued + sent).take(k as int) =~= queued.take(k as int));
        assert((queued + sent).skip(k as int) =~= queued.skip(k as int) + sent);
    } else {
        assert((queued + sent).take(k as int) =~= queued + sent.take(k - queued.len()));
        assert((queued + sent).skip(k as int) =~= sent.skip(k - queued.len()));
    }
}

/// The smaller of two numbers.
pub open spec fn min_nat(a: nat, b: nat) -> nat {
    if a <= b { a } else { b }
}

impl<T> Buffer<T> {
    /// One more sender is attached (the count stops at its largest value).
    fn add_sender(&mut self)
        ensures
            final(self).contents() == old(self).contents(),
            final(self).capacity() == old(self).capacity(),
            final(self).receivers() == old(self).receivers(),
            final(self).senders() == if old(self).senders() < usize::MAX { old(self).senders() + 1 } else { old(self).senders() },
    {
        proof { use_type_invariant(&*self); }
        if self.total_senders < usize::MAX {
            self.total_senders = self.total_senders + 1;
        }
    }

    /// One more receiver is attached (the count stops at its largest value).
    fn add_receiver(&mut self)
        ensures
            final(self).contents() == old(self).contents(),
            final(self).capacity() == old(self).capacity(),
            final(self).senders() == old(self).senders(),
            final(self).receivers() == if old(self).receivers() < usize::MAX { old(self).receivers() + 1 } else { old(self).receivers() },
    {
        proof { use_type_invariant(&*self); }
        if self.total_receivers < usize::MAX {
            self.total_receivers = self.total_receivers + 1;
        }
    }

    /// One sender leaves; tells whether none is left.
    fn remove_sender(&mut self) -> (r: bool)
        ensures
            final(self).contents() == old(self).contents(),
            final(self).capacity() == old(self).capacity(),
            final(self).receivers() == old(self).receivers(),
            final(self).senders() == if old(self).senders() > 0 { old(self).senders() - 1 } else { 0 },
            r == (final(self).senders() == 0),
        opens_invariants none
        no_unwind
    {
        proof { use_type_invariant(&*self); }
        if self.total_senders > 0 {
            self.total_senders = self.total_senders - 1;
        }
        self.total_senders == 0
    }

    /// One receiver leaves; tells whether none is left.
    fn remove_receiver(&mut self) -> (r: bool)
        ensures
            final(self).contents() == old(self).contents(),
            final(self).capacity() == old(self).capacity(),
            final(self).senders() == old(self).senders(),
            final(self).receivers() == if old(self).receivers() > 0 { old(self).receivers() - 1 } else { 0 },
            r == (final(self).receivers() == 0),
        opens_invariants none
        no_unwind
    {
        proof { use_type_invariant(&*self); }
        if self.total_receivers > 0 {
            self.total_receivers = self.total_receivers - 1;
        }
        self.total_receivers == 0
    }
}

/// The sending end of a channel.
#[verifier::reject_recursive_types(T)]
pub struct Sender<T>(Arc<Core<T>>);

/// The receiving end of a channel.
#[verifier::reject_recursive_types(T)]
pub struct Receiver<T>(Arc<Core<T>>);

/// A channel from which senders and receivers are made.
#[verifier::reject_recursive_types(T)]
pub struct Channel<T>(Arc<Core<T>>);

impl<T: Copy> Sender<T> {
    /// Waits until the queue has room or no receiver is left, then appends
    /// as much of `src_buf[offset..]` as fits; gives also the elements that
    /// went onto the back of the queue.
    fn send_from(&self, src_buf: &[T], offset: usize) -> (r: (Result<usize, SendError>, Ghost<Seq<T>>))
        requires
            offset < src_buf@.len(),
        ensures
            r.0 matches Ok(n) ==> 0 < n <= src_buf@.len() - offset
                && r.1@ == src_buf@.subrange(offset as int, offset + n),
    {
        let locked = match self.0.acquire() {
            Some(g) => g,
            None => { return (Err(SendError::Poisoned), Ghost(Seq::empty())); },
        };
        let mut locked = match wait_until_sendable(locked) {
            Some(g) => g,
            None => { return (Err(SendError::Poisoned), Ghost(Seq::empty())); },
        };
        let buffer = guarded(&mut locked);
        proof { use_type_invariant(&*buffer); }
        // `wait_while` hands the lock back only once the wait condition is
        // false, as std documents; the queue's state under the lock is not
        // visible here, so that is checked rather than assumed.
        if buffer.is_send_blocked() {
            return (Err(SendError::Poisoned), Ghost(Seq::empty()));
        }
        let ghost before = buffer.contents();
        let r = buffer.push_from(src_buf, offset);
        let ghost appended = buffer.contents().skip(before.len() as int);
        proof {
            if let Ok(n) = r {
                assert(appended =~= src_buf@.subrange(offset as int, offset + n));
            }
        }
        notify_one(self.0.receiver_signal());
        (r, Ghost(appended))
    }

    /// Waits until the queue has room or no receiver is left, then appends as
    /// much of `src_buf` as fits and tells how much. Fails with `Closed` where
    /// no receiver is left; what fits depends on the other threads of the channel.
    pub fn send(&self, src_buf: &[T]) -> (r: Result<usize, SendError>)
        ensures
            r matches Ok(n) ==> n <= src_buf@.len() && (src_buf@.len() > 0 ==> n > 0),
    {
        if src_buf.len() == 0 {
            return self.send_empty();
        }
        self.send_from(src_buf, 0).0
    }

    /// A send of nothing: fails only where no receiver is left.
    fn send_empty(&self) -> (r: Result<usize, SendError>)
        ensures
            r matches Ok(n) ==> n == 0,
    {
        let locked = match self.0.acquire() {
            Some(g) => g,
            None => { return Err(SendError::Poisoned); },
        };
        let mut locked = match wait_until_sendable(locked) {
            Some(g) => g,
            None => { return Err(SendError::Poisoned); },
        };
        let buffer = guarded(&mut locked);
        let empty: Vec<T> = Vec::new();
        let r = buffer.push_from(empty.as_slice(), 0);
        notify_one(self.0.receiver_signal());
        r
    }

    /// Sends all of `src_buf`, waiting for room as often as needed; nothing
    /// to send succeeds at once, without taking the lock. On success gives the
    /// runs of elements that the successive sends put on the back of the
    /// queue: none empty, together `src_buf` in order.
    pub fn send_all(&self, src_buf: &[T]) -> (r: Result<Ghost<Seq<Seq<T>>>, SendError>)
        ensures
            src_buf@.len() == 0 ==> (r matches Ok(sent) && sent@.len() == 0),
            r matches Ok(sent) ==> runs_make_up(sent@, src_buf@),
    {
        let mut offset: usize = 0;
        let ghost mut sent: Seq<Seq<T>> = Seq::empty();
        proof { assert(src_buf@.take(0) =~= sent.flatten()); }
        while offset < src_buf.len()
            invariant
                offset <= src_buf@.len(),
                runs_make_up(sent, src_buf@.take(offset as int)),
            decreases src_buf@.len() - offset,
        {
            let (r, appended) = self.send_from(src_buf, offset);
            let n = r?;
            proof {
                sent.lemma_flatten_push(appended@);
                assert(src_buf@.take(offset + n) =~= src_buf@.take(offset as int) + appended@);
                sent = sent.push(appended@);
            }
            offset = offset + n;
        }
        proof { assert(src_buf@.take(offset as int) =~= src_buf@); }
        Ok(Ghost(sent))
    }
}

/// Whether the runs `runs`, none of them empty, make up `whole` in order.
pub open spec fn runs_make_up<T>(runs: Seq<Seq<T>>, whole: Seq<T>) -> bool {
    &&& runs.flatten() == whole
    &&& forall|k: int| 0 <= k < runs.len() ==> #[trigger] runs[k].len() > 0
}

impl<T: Copy> Receiver<T> {
    /// Waits until something is queued or no sender is left, then moves as
    /// much as fits into `dst_buf[offset..]`.
    fn receive_into(&self, dst_buf: &mut [T], offset: usize) -> (r: (Result<usize, ReceiveError>, Ghost<Seq<T>>))
        requires
            offset < old(dst_buf)@.len(),
        ensures
            final(dst_buf)@.len() == old(dst_buf)@.len(),
            final(dst_buf)@.take(offset as int) == old(dst_buf)@.take(offset as int),
            r.0 matches Ok(n) ==> 0 < n <= old(dst_buf)@.len() - offset
                && final(dst_buf)@.skip(offset + n) == old(dst_buf)@.skip(offset + n)
                && r.1@ == final(dst_buf)@.subrange(offset as int, offset + n),
            r.0 is Err ==> final(dst_buf)@ == old(dst_buf)@,
    {
        let locked = match self.0.acquire() {
            Some(g) => g,
            None => { return (Err(ReceiveError::Poisoned), Ghost(Seq::empty())); },
        };
        let mut locked = match wait_until_receivable(locked) {
            Some(g) => g,
            None => { return (Err(ReceiveError::Poisoned), Ghost(Seq::empty())); },
        };
        let buffer = guarded(&mut locked);
        proof { use_type_invariant(&*buffer); }
        // as in `send_from`: the wait condition is false once the lock is
        // back, which is checked rather than assumed.
        if buffer.is_receive_blocked() {
            return (Err(ReceiveError::Poisoned), Ghost(Seq::empty()));
        }
        let ghost d0 = dst_buf@;
        let ghost before = buffer.contents();
        let r = buffer.pop_into(dst_buf, offset);
        let ghost taken = match r { Ok(n) => before.take(n as int), Err(_) => Seq::empty() };
        notify_one(self.0.sender_signal());
        proof {
            if let Ok(n) = r {
                assert(dst_buf@.take(offset as int) =~= d0.take(offset as int));
                assert(dst_buf@.skip(offset + n) =~= d0.skip(offset + n));
                assert(taken =~= dst_buf@.subrange(offset as int, offset + n));
            }
        }
        (r, Ghost(taken))
    }

    /// Waits until something is queued or no sender is left, then moves as
    /// much as fits into the front of `dst_buf` and tells how much. Fails with
    /// `Closed` where no sender is left and nothing is queued.
    pub fn receive(&self, dst_buf: &mut [T]) -> (r: Result<usize, ReceiveError>)
        ensures
            final(dst_buf)@.len() == old(dst_buf)@.len(),
            r matches Ok(n) ==> n <= old(dst_buf)@.len() && (old(dst_buf)@.len() > 0 ==> n > 0)
                && final(dst_buf)@.skip(n as int) == old(dst_buf)@.skip(n as int),
            r is Err ==> final(dst_buf)@ == old(dst_buf)@,
    {
        if dst_buf.len() == 0 {
            return self.receive_empty();
        }
        self.receive_into(dst_buf, 0).0
    }

    /// A receive into nothing: fails only where no sender is left and nothing is queued.
    fn receive_empty(&self) -> (r: Result<usize, ReceiveError>)
        ensures
            r matches Ok(n) ==> n == 0,
    {
        let locked = match self.0.acquire() {
            Some(g) => g,
            None => { return Err(ReceiveError::Poisoned); },
        };
        let mut locked = match wait_until_receivable(locked) {
            Some(g) => g,
            None => { return Err(ReceiveError::Poisoned); },
        };
        let buffer = guarded(&mut locked);
        let mut empty: Vec<T> = Vec::new();
        let r = buffer.pop_into(empty.as_mut_slice(), 0);
        notify_one(self.0.sender_signal());
        r
    }

    /// Fills all of `dst_buf`, waiting for data as often as needed; nothing
    /// to fill succeeds at once, without taking the lock. On success gives the
    /// runs of elements that the successive receives took from the front of
    /// the queue: none empty, together the new contents of `dst_buf` in order.
    pub fn receive_all(&self, dst_buf: &mut [T]) -> (r: Result<Ghost<Seq<Seq<T>>>, ReceiveError>)
        ensures
            final(dst_buf)@.len() == old(dst_buf)@.len(),
            old(dst_buf)@.len() == 0 ==> (r matches Ok(received) && received@.len() == 0)
                && final(dst_buf)@ == old(dst_buf)@,
            r matches Ok(received) ==> runs_make_up(received@, final(dst_buf)@),
    {
        let mut offset: usize = 0;
        let ghost mut received: Seq<Seq<T>> = Seq::empty();
        proof { assert(dst_buf@.take(0) =~= received.flatten()); }
        while offset < dst_buf.len()
            invariant
                offset <= dst_buf@.len(),
                dst_buf@.len() == old(dst_buf)@.len(),
                runs_make_up(received, dst_buf@.take(offset as int)),
            decreases dst_buf@.len() - offset,
        {
            let ghost d0 = dst_buf@;
            let (r, taken) = self.receive_into(dst_buf, offset);
            let n = r?;
            proof {
                received.lemma_flatten_push(taken@);
                assert(d0.take(offset as int) =~= dst_buf@.take(offset as int));
                assert(dst_buf@.take(offset + n) =~= dst_buf@.take(offset as int) + taken@);
                received = received.push(taken@);
            }
            offset = offset + n;
        }
        proof { assert(dst_buf@.take(offset as int) =~= dst_buf@); }
        Ok(Ghost(received))
    }
}

impl<T> Drop for Sender<T> {
    /// Detaches the sender; the last one to leave wakes every waiting receiver.
    fn drop(&mut self)
        opens_invariants none
        no_unwind
    {
        if let Some(mut locked) = self.0.acquire() {
            let buffer = guarded(&mut locked);
            if buffer.remove_sender() {
                notify_all(self.0.receiver_signal());
            }
        }
    }
}

impl<T> Clone for Sender<T> {
    /// Another sender of the same channel.
    fn clone(&self) -> (r: Self) {
        if let Some(mut locked) = self.0.acquire() {
            let buffer = guarded(&mut locked);
            buffer.add_sender();
        }
        Sender(self.0.clone())
    }
}

impl<T> Drop for Receiver<T> {
    /// Detaches the receiver; the last one to leave wakes every waiting sender.
    fn drop(&mut self)
        opens_invariants none
        no_unwind
    {
        if let Some(mut locked) = self.0.acquire() {
            let buffer = guarded(&mut locked);
            if buffer.remove_receiver() {
                notify_all(self.0.sender_signal());
            }
        }
    }
}

impl<T> Clone for Receiver<T> {
    /// Another receiver of the same channel.
    fn clone(&self) -> (r: Self) {
        if let Some(mut locked) = self.0.acquire() {
            let buffer = guarded(&mut locked);
            buffer.add_receiver();
        }
        Receiver(self.0.clone())
    }
}

impl<T> Clone for Channel<T> {
    /// Another handle on the same channel.
    fn clone(&self) -> (r: Self)
        ensures
            r.capacity() == self.capacity(),
    {
        Channel(self.0.clone())
    }
}

/// Greatest common divisor, by Euclid's algorithm.
pub open spec fn gcd(a: nat, b: nat) -> nat
    decreases b,
{
    if b == 0 { a } else { gcd(b, a % b) }
}

/// Least common multiple.
pub open spec fn lcm(a: nat, b: nat) -> nat {
    a * b / gcd(a, b)
}

/// The greatest common divisor is positive and divides both numbers.
pub proof fn lemma_gcd_divides(a: nat, b: nat)
    requires
        a > 0 || b > 0,
    ensures
        gcd(a, b) > 0,
        a % gcd(a, b) == 0,
        b % gcd(a, b) == 0,
    decreases b,
{
    if b == 0 {
        vstd::arithmetic::div_mod::lemma_mod_self_0(a as int);
    } else {
        let r = a % b;
        lemma_gcd_divides(b, r);
        let g = gcd(b, r);
        let q = a / b;
        let k1 = b / g;
        let k2 = r / g;
        vstd::arithmetic::div_mod::lemma_fundamental_div_mod(a as int, b as int);
        vstd::arithmetic::div_mod::lemma_fundamental_div_mod(b as int, g as int);
        vstd::arithmetic::div_mod::lemma_fundamental_div_mod(r as int, g as int);
        assert(a == (q * k1 + k2) * g) by (nonlinear_arith)
            requires
                a == b * q + r,
                b == g * k1,
                r == g * k2;
        vstd::arithmetic::div_mod::lemma_mod_multiples_basic((q * k1 + k2) as int, g as int);
    }
}

/// The greatest common divisor is a whole-number combination of the two
/// numbers (Bezout).
proof fn lemma_gcd_combination(a: nat, b: nat) -> (xy: (int, int))
    ensures
        gcd(a, b) == a * xy.0 + b * xy.1,
    decreases b,
{
    if b == 0 {
        (1, 0)
    } else {
        let (x, y) = lemma_gcd_combination(b, a % b);
        let q = (a / b) as int;
        vstd::arithmetic::div_mod::lemma_fundamental_div_mod(a as int, b as int);
        assert(gcd(a, b) == a * y + b * (x - q * y)) by (nonlinear_arith)
            requires
                gcd(a, b) == b * x + (a % b) * y,
                a == b * q + a % b;
        (y, x - q * y)
    }
}

/// The least common multiple of two positive numbers is a multiple of both,
/// and no positive common multiple is smaller.
#[verifier::spinoff_prover]
pub proof fn lemma_lcm_is_least(a: nat, b: nat, m: nat)
    requires
        a > 0,
        b > 0,
    ensures
        lcm(a, b) > 0,
        lcm(a, b) % a == 0,
        lcm(a, b) % b == 0,
        m > 0 && m % a == 0 && m % b == 0 ==> lcm(a, b) <= m,
{
    lemma_lcm_parts(a, b);
    let d = gcd(a, b);
    let p = a / d;
    let q = b / d;
    let l = lcm(a, b);
    assert(l > 0) by (nonlinear_arith) requires l == p * b, p >= 1, b > 0;
    vstd::arithmetic::div_mod::lemma_mod_multiples_basic(p as int, b as int);
    assert(l == b * p) by (nonlinear_arith) requires l == p * b;
    vstd::arithmetic::div_mod::lemma_mod_multiples_basic(q as int, a as int);
    assert(l == q * a) by (nonlinear_arith) requires l == a * q;
    if m > 0 && m % a == 0 && m % b == 0 {
        lemma_gcd_divides(a, b);
        let (x, y) = lemma_gcd_combination(a, b);
        vstd::arithmetic::div_mod::lemma_fundamental_div_mod(m as int, a as int);
        vstd::arithmetic::div_mod::lemma_fundamental_div_mod(m as int, b as int);
        vstd::arithmetic::div_mod::lemma_fundamental_div_mod(a as int, d as int);
        let s = (m / b) as int;
        let t = (m / a) as int;
        // m * d == m * (a x + b y) == l * d * (s x + t y), so m == l * (s x + t y)
        let k = s * x + t * y;
        assert(l * d == a * b) by (nonlinear_arith) requires a == d * p, l == p * b;
        assert(m * d == m * a * x + m * b * y) by (nonlinear_arith) requires d == a * x + b * y;
        assert(m * a * x == (a * b) * (s * x)) by (nonlinear_arith) requires m == b * s;
        assert(m * b * y == (a * b) * (t * y)) by (nonlinear_arith) requires m == a * t;
        assert(m * d == (a * b) * k) by (nonlinear_arith)
            requires
                m * d == m * a * x + m * b * y,
                m * a * x == (a * b) * (s * x),
                m * b * y == (a * b) * (t * y),
                k == s * x + t * y;
        assert(m * d == (l * k) * d) by (nonlinear_arith) requires m * d == (a * b) * k, l * d == a * b;
        assert(m == l * k) by (nonlinear_arith) requires m * d == (l * k) * d, d > 0;
        assert(k >= 1) by (nonlinear_arith) requires m == l * k, m > 0, l > 0;
        assert(l <= m) by (nonlinear_arith) requires m == l * k, k >= 1, l > 0;
    }
}

fn greatest_common_denominator(a: usize, b: usize) -> (r: usize)
    ensures
        r == gcd(a as nat, b as nat),
    decreases b,
{
    if b == 0 {
        return a;
    }
    greatest_common_denominator(b, a % b)
}

/// The least common multiple of `a` and `b`, where it fits.
fn lowest_common_multiple(a: usize, b: usize) -> (r: Option<usize>)
    requires
        a > 0,
    ensures
        r == (if lcm(a as nat, b as nat) <= usize::MAX { Some(lcm(a as nat, b as nat) as usize) } else { None::<usize> }),
{
    let g = greatest_common_denominator(a, b);
    proof {
        lemma_gcd_divides(a as nat, b as nat);
        let k = a / g;
        let j = b / g;
        vstd::arithmetic::div_mod::lemma_fundamental_div_mod(a as int, g as int);
        vstd::arithmetic::div_mod::lemma_fundamental_div_mod(b as int, g as int);
        assert(a * b == (k * b) * g) by (nonlinear_arith) requires a == g * k;
        assert(a * b == (j * a) * g) by (nonlinear_arith) requires b == g * j;
        vstd::arithmetic::div_mod::lemma_div_by_multiple((k * b) as int, g as int);
        vstd::arithmetic::div_mod::lemma_div_by_multiple((j * a) as int, g as int);
    }
    // divide first, to keep the product small
    if a > b {
        (a / g).checked_mul(b)
    } else {
        (b / g).checked_mul(a)
    }
}

/// How many elements a channel asks its buffer for: the fewest whole blocks
/// that hold `minimum_size` elements, at least one, where a block is the
/// smallest run of elements that fills whole pages.
pub open spec fn channel_request(element_size: nat, granularity: nat, minimum_size: nat) -> nat {
    let per_block = lcm(granularity, element_size) / element_size;
    let blocks = if minimum_size <= per_block { 1 } else { (minimum_size - 1) as nat / per_block + 1 };
    blocks * per_block
}

/// The element count of a channel for `minimum_size` elements of
/// `element_size` bytes over pages of `granularity` bytes, or why there is none.
pub open spec fn channel_length_spec(element_size: nat, granularity: nat, minimum_size: nat) -> Result<nat, CreateError> {
    if lcm(granularity, element_size) > usize::MAX || channel_request(element_size, granularity, minimum_size) > usize::MAX {
        Err(CreateError::FailedAllocation)
    } else {
        aligned_length_spec(element_size, channel_request(element_size, granularity, minimum_size), granularity)
    }
}

/// The least common multiple of `g` and `e` is `g / gcd` copies of `e` and
/// `e / gcd` copies of `g`.
proof fn lemma_lcm_parts(g: nat, e: nat)
    requires
        g > 0,
        e > 0,
    ensures
        g / gcd(g, e) >= 1,
        e / gcd(g, e) >= 1,
        lcm(g, e) == (g / gcd(g, e)) * e,
        lcm(g, e) == g * (e / gcd(g, e)),
{
    lemma_gcd_divides(g, e);
    let d = gcd(g, e);
    let a = g / d;
    let b = e / d;
    vstd::arithmetic::div_mod::lemma_fundamental_div_mod(g as int, d as int);
    vstd::arithmetic::div_mod::lemma_fundamental_div_mod(e as int, d as int);
    assert(a >= 1) by (nonlinear_arith) requires g == d * a, g > 0, d > 0, a >= 0;
    assert(b >= 1) by (nonlinear_arith) requires e == d * b, e > 0, d > 0, b >= 0;
    assert(g * e == (a * e) * d) by (nonlinear_arith) requires g == d * a;
    assert(g * e == (g * b) * d) by (nonlinear_arith) requires e == d * b;
    vstd::arithmetic::div_mod::lemma_div_by_multiple((a * e) as int, d as int);
    vstd::arithmetic::div_mod::lemma_div_by_multiple((g * b) as int, d as int);
}

/// How a channel is sized: its capacity is the least multiple of a block
/// (the fewest elements that fill whole pages) that is at least the size asked
/// for and at least one; where that fits, the buffer is made at exactly that
/// capacity, with no alignment error.
#[verifier::spinoff_prover]
pub proof fn lemma_channel_length_law(element_size: nat, granularity: nat, minimum_size: nat)
    requires
        element_size > 0,
        0 < granularity <= usize::MAX,
        lcm(granularity, element_size) <= usize::MAX,
        channel_request(element_size, granularity, minimum_size) * element_size <= isize::MAX,
    ensures
        ({
            let block = lcm(granularity, element_size) / element_size;
            let n = channel_request(element_size, granularity, minimum_size);
            let least = if minimum_size >= 1 { minimum_size } else { 1 };
            &&& block >= 1
            &&& n % block == 0
            &&& n >= least
            &&& n - block < least
            &&& (n * element_size) % granularity == 0
            &&& channel_length_spec(element_size, granularity, minimum_size) == Ok::<nat, CreateError>(n)
        }),
{
    let e = element_size;
    let g = granularity;
    let m = minimum_size;
    lemma_lcm_parts(g, e);
    let d = gcd(g, e);
    let a = g / d;
    let b = e / d;
    let l = lcm(g, e);
    vstd::arithmetic::div_mod::lemma_div_by_multiple(a as int, e as int);
    assert(l / e == a);
    let k = a;
    let blocks: nat = if m <= k { 1 } else { (m - 1) as nat / k + 1 };
    let n = blocks * k;
    assert(n == channel_request(e, g, m));
    vstd::arithmetic::div_mod::lemma_mod_multiples_basic(blocks as int, k as int);
    assert(n % k == 0);
    if m > k {
        let mm = (m - 1) as nat;
        let q = mm / k;
        let r = mm % k;
        vstd::arithmetic::div_mod::lemma_fundamental_div_mod(mm as int, k as int);
        vstd::arithmetic::div_mod::lemma_mod_pos_bound(mm as int, k as int);
        assert(n >= m && n - k < m) by (nonlinear_arith)
            requires
                n == (q + 1) * k,
                mm == m - 1,
                mm == k * q + r,
                0 <= r < k;
    }
    // the byte size is whole blocks, each filling whole pages
    let bytes_req = n * e;
    assert(bytes_req == (blocks * b) * g) by (nonlinear_arith)
        requires bytes_req == n * e, n == blocks * k, l == k * e, l == g * b;
    assert(blocks * b >= 1) by (nonlinear_arith) requires blocks >= 1, b >= 1;
    vstd::arithmetic::div_mod::lemma_div_by_multiple((blocks * b) as int, g as int);
    vstd::arithmetic::div_mod::lemma_mod_multiples_basic((blocks * b) as int, g as int);
    assert(e * n == bytes_req) by (nonlinear_arith) requires bytes_req == n * e;
    assert((e * n) / g == blocks * b);
    assert((blocks * b) * g == bytes_req);
    assert(allocation_bytes(e, n, g) == bytes_req);
    vstd::arithmetic::div_mod::lemma_mod_multiples_basic(n as int, e as int);
    assert(bytes_req == e * n) by (nonlinear_arith) requires bytes_req == n * e;
    vstd::arithmetic::div_mod::lemma_div_by_multiple(n as int, e as int);
    assert(n <= bytes_req) by (nonlinear_arith) requires bytes_req == n * e, e >= 1;
    lemma_aligned_length_law(e, n, g);
}

impl<T> Channel<T> {
    /// How many elements the channel holds at most.
    pub closed spec fn capacity(&self) -> nat {
        self.0.capacity()
    }

    /// A new sender of this channel.
    pub fn create_sender(&self) -> (r: Sender<T>)
        ensures
            r.capacity() == self.capacity(),
    {
        if let Some(mut locked) = self.0.acquire() {
            let buffer = guarded(&mut locked);
            buffer.add_sender();
        }
        Sender(self.0.clone())
    }

    /// A new receiver of this channel.
    pub fn create_receiver(&self) -> (r: Receiver<T>)
        ensures
            r.capacity() == self.capacity(),
    {
        if let Some(mut locked) = self.0.acquire() {
            let buffer = guarded(&mut locked);
            buffer.add_receiver();
        }
        Receiver(self.0.clone())
    }

    /// How many elements the channel holds at most.
    pub fn size(&self) -> (r: usize)
        ensures
            r == self.capacity(),
    {
        self.0.length()
    }
}

impl<T> Sender<T> {
    /// How many elements the channel of this sender holds at most.
    pub closed spec fn capacity(&self) -> nat {
        self.0.capacity()
    }

    /// The channel this sender belongs to.
    pub fn get_channel(&self) -> (r: Channel<T>)
        ensures
            r.capacity() == self.capacity(),
    {
        Channel(self.0.clone())
    }
}

impl<T> Receiver<T> {
    /// How many elements the channel of this receiver holds at most.
    pub closed spec fn capacity(&self) -> nat {
        self.0.capacity()
    }

    /// The channel this receiver belongs to.
    pub fn get_channel(&self) -> (r: Channel<T>)
        ensures
            r.capacity() == self.capacity(),
    {
        Channel(self.0.clone())
    }
}

impl<T: Copy + Default> Channel<T> {
    /// A channel of at least `minimum_size` elements (at least one block)
    /// over pages of `granularity` bytes, with no sender or receiver yet.
    pub fn with_granularity(minimum_size: usize, granularity: usize) -> (r: Result<Self, CreateError>)
        requires
            granularity > 0,
            vstd::layout::size_of::<T>() > 0,
        ensures
            r matches Ok(c) ==> channel_length_spec(vstd::layout::size_of::<T>(), granularity as nat, minimum_size as nat)
                == Ok::<nat, CreateError>(c.capacity()),
            r matches Err(e) ==> channel_length_spec(vstd::layout::size_of::<T>(), granularity as nat, minimum_size as nat)
                == Err::<nat, CreateError>(e),
    {
        let element_size = core::mem::size_of::<T>();
        let channel_size_bytes = match lowest_common_multiple(granularity, element_size) {
            Some(v) => v,
            None => { return Err(CreateError::FailedAllocation); },
        };
        proof {
            let g = gcd(granularity as nat, element_size as nat);
            lemma_gcd_divides(granularity as nat, element_size as nat);
            let k = (granularity as nat) / g;
            vstd::arithmetic::div_mod::lemma_fundamental_div_mod(granularity as int, g as int);
            assert(k >= 1) by (nonlinear_arith) requires granularity == g * k, granularity > 0, g > 0, k >= 0;
            assert(granularity * element_size == (k * element_size) * g) by (nonlinear_arith)
                requires granularity == g * k;
            vstd::arithmetic::div_mod::lemma_div_by_multiple((k * element_size) as int, g as int);
            vstd::arithmetic::div_mod::lemma_div_by_multiple(k as int, element_size as int);
            assert(k * element_size == element_size * k) by (nonlinear_arith);
        }
        let per_block = channel_size_bytes / element_size;
        let blocks = if minimum_size <= per_block { 1 } else { (minimum_size - 1) / per_block + 1 };
        let size = match blocks.checked_mul(per_block) {
            Some(v) => v,
            None => { return Err(CreateError::FailedAllocation); },
        };
        let data = CircularBuffer::<T>::with_granularity(size, granularity)?;
        let length = data.len();
        let buffer = Buffer {
            data,
            state: RingState { write_index: 0, read_index: 0, total_used: 0 },
            total_senders: 0,
            total_receivers: 0,
        };
        let core = Core::new(buffer, length);
        Ok(Channel(Arc::new(core)))
    }

    /// A channel of at least `minimum_size` elements (at least one block)
    /// over the running system's pages, with no sender or receiver yet.
    pub fn new(minimum_size: usize) -> (r: Result<Self, CreateError>)
        requires
            vstd::layout::size_of::<T>() > 0,
        ensures
            r matches Ok(c) ==> exists|g: nat| g > 0 && channel_length_spec(vstd::layout::size_of::<T>(), g, minimum_size as nat)
                == Ok::<nat, CreateError>(c.capacity()),
            r matches Err(e) ==> e == CreateError::UnknownAllocationGranularity
                || exists|g: nat| g > 0 && channel_length_spec(vstd::layout::size_of::<T>(), g, minimum_size as nat)
                    == Err::<nat, CreateError>(e),
    {
        match get_allocation_granularity() {
            Some(g) => Self::with_granularity(minimum_size, g),
            None => Err(CreateError::UnknownAllocationGranularity),
        }
    }
}

/// A channel of at least `minimum_size` elements with one sender and one receiver.
pub fn channel<T: Copy + Default>(minimum_size: usize) -> (r: Result<(Sender<T>, Receiver<T>), CreateError>)
    requires
        vstd::layout::size_of::<T>() > 0,
    ensures
        r matches Ok((tx, rx)) ==> tx.capacity() == rx.capacity()
            && exists|g: nat| g > 0 && channel_length_spec(vstd::layout::size_of::<T>(), g, minimum_size as nat)
                == Ok::<nat, CreateError>(tx.capacity()),
        r matches Err(e) ==> e == CreateError::UnknownAllocationGranularity
            || exists|g: nat| g > 0 && channel_length_spec(vstd::layout::size_of::<T>(), g, minimum_size as nat)
                == Err::<nat, CreateError>(e),
{
    match Channel::<T>::new(minimum_size) {
        Ok(channel) => Ok((channel.create_sender(), channel.create_receiver())),
        Err(e) => Err(e),
    }
}

} // verus!
