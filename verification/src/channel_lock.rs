//! The lock around a channel's queue: the queue, its mutex and the two
//! condition variables live together, and a held lock always belongs to the
//! mutex of the core it came from, so each condition variable only ever waits
//! with that one mutex.
use vstd::prelude::*;
use std::sync::{Condvar, Mutex, MutexGuard, TryLockError};
use crate::channel::Buffer;

verus! {

#[verifier::external_type_specification]
#[verifier::external_body]
#[verifier::reject_recursive_types(T)]
pub struct ExMutex<T: ?Sized>(Mutex<T>);

#[verifier::external_type_specification]
#[verifier::external_body]
#[verifier::reject_recursive_types(T)]
pub struct ExMutexGuard<'a, T: ?Sized + 'a>(MutexGuard<'a, T>);

#[verifier::external_type_specification]
#[verifier::external_body]
pub struct ExCondvar(Condvar);

/// The state a channel's senders and receivers share: the queue behind its
/// lock, the queue's capacity, and one condition variable for each side.
#[verifier::reject_recursive_types(T)]
pub struct Core<T> {
    buffer: Mutex<Buffer<T>>,
    length: usize,
    signal_sender: Condvar,
    signal_receiver: Condvar,
}

/// The queue of a core while its lock is held.
#[verifier::reject_recursive_types(T)]
pub struct LockedBuffer<'a, T> {
    core: &'a Core<T>,
    guard: MutexGuard<'a, Buffer<T>>,
}

/// What one attempt at the lock gave.
#[verifier::reject_recursive_types(T)]
pub enum LockAttempt<'a, T> {
    /// The lock is held now.
    Acquired(LockedBuffer<'a, T>),
    /// Another holder has it.
    Busy,
    /// A holder panicked while holding it.
    Poisoned,
}

/// `std::sync::Mutex::new`: a lock around `buffer`. Nothing is claimed of
/// the result: its contents are seen only through a lock.
#[verifier::external_body]
fn new_mutex<T>(buffer: Buffer<T>) -> (r: Mutex<Buffer<T>>) {
    Mutex::new(buffer)
}

/// `std::sync::Condvar::new`: a condition variable nobody waits on.
#[verifier::external_body]
fn new_condvar() -> (r: Condvar) {
    Condvar::new()
}

/// `std::sync::Mutex::try_lock` on the core's mutex: never blocks; tells
/// apart a lock taken, a lock held elsewhere (this thread included) and a
/// poisoned lock.
#[verifier::external_body]
fn try_lock<'a, T>(core: &'a Core<T>) -> (r: LockAttempt<'a, T>)
    opens_invariants none
    no_unwind
{
    match core.buffer.try_lock() {
        Ok(guard) => LockAttempt::Acquired(LockedBuffer { core, guard }),
        Err(TryLockError::WouldBlock) => LockAttempt::Busy,
        Err(TryLockError::Poisoned(_)) => LockAttempt::Poisoned,
    }
}

/// `std::hint::spin_loop`: tells the processor that the thread is spinning.
#[verifier::external_body]
fn spin_pause()
    opens_invariants none
    no_unwind
{
    std::hint::spin_loop()
}

/// `DerefMut` of `std::sync::MutexGuard`: the queue the held lock guards.
/// Nothing is claimed of its state, which other threads have shaped.
#[verifier::external_body]
pub(crate) fn guarded<'a, 'b, T>(locked: &'b mut LockedBuffer<'a, T>) -> (r: &'b mut Buffer<T>)
    opens_invariants none
    no_unwind
{
    &mut *locked.guard
}

/// `std::sync::Condvar::wait_while` on the core's sender condition variable
/// with the lock the core's own mutex gave: releases the lock and blocks while
/// a sender has to wait, taking the lock back before each test; `None` where
/// the lock was poisoned.
#[verifier::external_body]
pub(crate) fn wait_until_sendable<'a, T>(locked: LockedBuffer<'a, T>) -> (r: Option<LockedBuffer<'a, T>>) {
    let LockedBuffer { core, guard } = locked;
    match core.signal_sender.wait_while(guard, |b| b.is_send_blocked()) {
        Ok(guard) => Some(LockedBuffer { core, guard }),
        Err(_) => None,
    }
}

/// `std::sync::Condvar::wait_while` on the core's receiver condition
/// variable while a receiver has to wait; as `wait_until_sendable` otherwise.
#[verifier::external_body]
pub(crate) fn wait_until_receivable<'a, T>(locked: LockedBuffer<'a, T>) -> (r: Option<LockedBuffer<'a, T>>) {
    let LockedBuffer { core, guard } = locked;
    match core.signal_receiver.wait_while(guard, |b| b.is_receive_blocked()) {
        Ok(guard) => Some(LockedBuffer { core, guard }),
        Err(_) => None,
    }
}

/// `std::sync::Condvar::notify_one`: wakes one waiting thread, if any.
#[verifier::external_body]
pub(crate) fn notify_one(cv: &Condvar)
    opens_invariants none
    no_unwind
{
    cv.notify_one()
}

/// `std::sync::Condvar::notify_all`: wakes every waiting thread.
#[verifier::external_body]
pub(crate) fn notify_all(cv: &Condvar)
    opens_invariants none
    no_unwind
{
    cv.notify_all()
}

impl<T> Core<T> {
    /// How many elements the queue holds at most.
    pub closed spec fn capacity(&self) -> nat {
        self.length as nat
    }

    /// A core around `buffer`, whose capacity is `length`.
    pub(crate) fn new(buffer: Buffer<T>, length: usize) -> (r: Self)
        ensures
            r.capacity() == length,
    {
        Core {
            buffer: new_mutex(buffer),
            length,
            signal_sender: new_condvar(),
            signal_receiver: new_condvar(),
        }
    }

    /// How many elements the queue holds at most.
    pub(crate) fn length(&self) -> (r: usize)
        ensures
            r == self.capacity(),
    {
        self.length
    }

    /// The condition variable on which senders wait.
    pub(crate) fn sender_signal(&self) -> (r: &Condvar)
        opens_invariants none
        no_unwind
    {
        &self.signal_sender
    }

    /// The condition variable on which receivers wait.
    pub(crate) fn receiver_signal(&self) -> (r: &Condvar)
        opens_invariants none
        no_unwind
    {
        &self.signal_receiver
    }

    /// Takes the lock of the queue, trying again while another holder has it,
    /// up to `u64::MAX` attempts; `None` where the lock is poisoned or stayed
    /// busy all that time. It never blocks on a lock this thread holds.
    pub(crate) fn acquire(&self) -> (r: Option<LockedBuffer<'_, T>>)
        opens_invariants none
        no_unwind
    {
        let mut attempts: u64 = 0;
        loop
            invariant
                attempts <= u64::MAX,
            decreases u64::MAX - attempts,
        {
            match try_lock(self) {
                LockAttempt::Acquired(locked) => { return Some(locked); },
                LockAttempt::Poisoned => { return None; },
                LockAttempt::Busy => {
                    if attempts == u64::MAX {
                        return None;
                    }
                    spin_pause();
                    attempts = attempts + 1;
                },
            }
        }
    }
}

} // verus!
