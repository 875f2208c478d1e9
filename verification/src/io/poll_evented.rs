//! An object with a descriptor, read and written when the descriptor is ready.

use super::driver::{Driver, Registration};
use super::net::{Evented, IoStep};
use super::{Interest, IoError};
use crate::coop::{exhausted, poll_proceed, spent, Budget};
use vstd::prelude::*;

verus! {

/// An object with a descriptor, the registration of the descriptor, and who waits to read
/// and to write.
pub struct PollEvented<E> {
    io: E,
    registration: Registration,
    read_waiter: Evented,
    write_waiter: Evented,
}

impl<E> PollEvented<E> {
    /// The object.
    pub closed spec fn object(&self) -> E {
        self.io
    }

    /// The registration.
    pub closed spec fn registered(&self) -> Registration {
        self.registration
    }

    /// The reading direction.
    pub closed spec fn reading(&self) -> Evented {
        self.read_waiter
    }

    /// The writing direction.
    pub closed spec fn writing(&self) -> Evented {
        self.write_waiter
    }

    /// Whether two states differ in the waiters alone.
    pub open spec fn same_object(before: Self, after: Self) -> bool {
        after.object() == before.object() && after.registered() == before.registered()
    }

    /// An object whose descriptor is registered. No one waits for it.
    pub fn new(io: E, registration: Registration) -> (evented: PollEvented<E>)
        ensures
            evented.object() == io,
            evented.registered() == registration,
            evented.reading() == (Evented { interest: Interest(1), waiter: None }),
            evented.writing() == (Evented { interest: Interest(2), waiter: None }),
    {
        PollEvented {
            io,
            registration,
            read_waiter: Evented::new(Interest::readable()),
            write_waiter: Evented::new(Interest::writable()),
        }
    }

    /// The object.
    pub fn get_ref(&self) -> (io: &E)
        ensures
            *io == self.object(),
    {
        &self.io
    }

    /// The object, to be changed.
    pub fn get_mut(&mut self) -> (io: &mut E)
        ensures
            *io == old(self).object(),
            final(self).object() == *final(io),
            final(self).registered() == old(self).registered(),
            final(self).reading() == old(self).reading(),
            final(self).writing() == old(self).writing(),
    {
        &mut self.io
    }

    /// The object, taken back.
    pub fn into_inner(self) -> (io: E)
        ensures
            io == self.object(),
    {
        self.io
    }

    /// The registration.
    pub fn registration(&self) -> (registration: &Registration)
        ensures
            *registration == self.registered(),
    {
        &self.registration
    }

    /// Tries to read once the descriptor is ready. A task without budget yields, and is
    /// woken at once by the caller.
    pub fn poll_read_inner<T, F: FnOnce() -> Result<T, IoError>>(
        &mut self,
        budget: &mut Budget,
        driver: &mut Driver,
        waker: u64,
        operation: F,
    ) -> (step: IoStep<T>)
        requires
            old(driver).wf(),
            old(driver).ios().contains_key(old(self).registered().id),
            old(driver).ios()[old(self).registered().id].next_waiter < u64::MAX,
            operation.requires(()),
        ensures
            final(driver).wf(),
            *final(budget) == spent(*old(budget)),
            Self::same_object(*old(self), *final(self)),
            final(self).writing() == old(self).writing(),
            if exhausted(*old(budget)) {
                &&& step is Pending
                &&& final(self).reading() == old(self).reading()
                &&& *final(driver) == *old(driver)
            } else {
                Evented::stepped(
                    old(self).reading(),
                    final(self).reading(),
                    *old(driver),
                    *final(driver),
                    old(self).registered().id,
                    waker,
                    operation,
                    step,
                )
            },
    {
        if poll_proceed(budget).is_pending() {
            return IoStep::Pending;
        }
        self.read_waiter.step(driver, self.registration.id, waker, operation)
    }

    /// Tries to read again, after the descriptor was not ready after all.
    pub fn read_again<T, F: FnOnce() -> Result<T, IoError>>(
        &mut self,
        driver: &mut Driver,
        waker: u64,
        operation: F,
    ) -> (step: IoStep<T>)
        requires
            old(driver).wf(),
            old(driver).ios().contains_key(old(self).registered().id),
            old(driver).ios()[old(self).registered().id].next_waiter < u64::MAX,
            operation.requires(()),
        ensures
            final(driver).wf(),
            Self::same_object(*old(self), *final(self)),
            final(self).writing() == old(self).writing(),
            Evented::stepped(
                old(self).reading(),
                final(self).reading(),
                *old(driver),
                *final(driver),
                old(self).registered().id,
                waker,
                operation,
                step,
            ),
    {
        self.read_waiter.step(driver, self.registration.id, waker, operation)
    }

    /// Tries to write once the descriptor is ready. To write nothing needs neither budget
    /// nor readiness. A task without budget yields, and is woken at once by the caller.
    pub fn poll_write_inner<F: FnOnce() -> Result<usize, IoError>>(
        &mut self,
        budget: &mut Budget,
        driver: &mut Driver,
        waker: u64,
        data: &[u8],
        operation: F,
    ) -> (step: IoStep<usize>)
        requires
            old(driver).wf(),
            old(driver).ios().contains_key(old(self).registered().id),
            old(driver).ios()[old(self).registered().id].next_waiter < u64::MAX,
            operation.requires(()),
        ensures
            final(driver).wf(),
            Self::same_object(*old(self), *final(self)),
            final(self).reading() == old(self).reading(),
            if data@.len() == 0 {
                &&& step == IoStep::<usize>::Done(Ok(0))
                &&& *final(budget) == *old(budget)
                &&& final(self).writing() == old(self).writing()
                &&& *final(driver) == *old(driver)
            } else if exhausted(*old(budget)) {
                &&& step is Pending
                &&& *final(budget) == *old(budget)
                &&& final(self).writing() == old(self).writing()
                &&& *final(driver) == *old(driver)
            } else {
                &&& *final(budget) == spent(*old(budget))
                &&& Evented::stepped(
                    old(self).writing(),
                    final(self).writing(),
                    *old(driver),
                    *final(driver),
                    old(self).registered().id,
                    waker,
                    operation,
                    step,
                )
            },
    {
        if data.len() == 0 {
            return IoStep::Done(Ok(0));
        }
        if poll_proceed(budget).is_pending() {
            return IoStep::Pending;
        }
        self.write_waiter.step(driver, self.registration.id, waker, operation)
    }

    /// Tries to write again, after the descriptor was not ready after all.
    pub fn write_again<F: FnOnce() -> Result<usize, IoError>>(
        &mut self,
        driver: &mut Driver,
        waker: u64,
        operation: F,
    ) -> (step: IoStep<usize>)
        requires
            old(driver).wf(),
            old(driver).ios().contains_key(old(self).registered().id),
            old(driver).ios()[old(self).registered().id].next_waiter < u64::MAX,
            operation.requires(()),
        ensures
            final(driver).wf(),
            Self::same_object(*old(self), *final(self)),
            final(self).reading() == old(self).reading(),
            Evented::stepped(
                old(self).writing(),
                final(self).writing(),
                *old(driver),
                *final(driver),
                old(self).registered().id,
                waker,
                operation,
                step,
            ),
    {
        self.write_waiter.step(driver, self.registration.id, waker, operation)
    }
}

} // verus!
