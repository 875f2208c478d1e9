//! Sockets: addresses, and the decisions around the system calls.

use crate::io::driver::Driver;
use crate::io::driver::IoModel;
use crate::io::driver::Readiness;
use crate::io::driver::ReadyEvent;
use crate::io::driver::Registration;
use crate::io::ErrorKind;
use crate::io::Interest;
use crate::io::IoError;
use crate::io::SystemError;
use crate::poll::Poll;
use vstd::prelude::*;

verus! {

// ---------------------------------------------------------------------------
// Addresses
// ---------------------------------------------------------------------------

/// The address of an internet socket.
#[derive(Debug, Clone, Copy, PartialEq, Eq)]
pub enum SocketAddress {
    V4 { octets: [u8; 4], port: u16 },
    V6 { octets: [u8; 16], port: u16, flowinfo: u32, scope_id: u32 },
}

/// The family of a socket address.
#[derive(Debug, Clone, Copy, PartialEq, Eq, Structural)]
pub enum Family {
    Inet,
    Inet6,
    Other,
}

/// The fields of a kernel socket address. The port is in network byte order. Where the
/// family does not have a field, it is zero.
#[derive(Debug, Clone, Copy, PartialEq, Eq)]
pub struct RawAddress {
    pub family: Family,
    pub port: [u8; 2],
    pub v4: [u8; 4],
    pub v6: [u8; 16],
    pub flowinfo: u32,
    pub scope_id: u32,
}

/// The number that two bytes in network order stand for.
pub open spec fn network_number(bytes: Seq<u8>) -> int {
    bytes[0] as int * 256 + bytes[1] as int
}

/// Whether the fields stand for the address.
pub open spec fn stands_for(raw: RawAddress, addr: SocketAddress) -> bool {
    match addr {
        SocketAddress::V4 { octets, port } => {
            &&& raw.family == Family::Inet
            &&& raw.v4@ == octets@
            &&& network_number(raw.port@) == port
        },
        SocketAddress::V6 { octets, port, flowinfo, scope_id } => {
            &&& raw.family == Family::Inet6
            &&& raw.v6@ == octets@
            &&& network_number(raw.port@) == port
            &&& raw.flowinfo == flowinfo
            &&& raw.scope_id == scope_id
        },
    }
}

/// The two bytes of a port in network order.
fn network_port(port: u16) -> (bytes: [u8; 2])
    ensures
        network_number(bytes@) == port,
{
    let high: u8 = (port / 256) as u8;
    let low: u8 = (port % 256) as u8;
    [high, low]
}

/// The kernel's form of an address. Fields of the other family are zero.
pub fn socket_addr_parts(addr: SocketAddress) -> (raw: RawAddress)
    ensures
        stands_for(raw, addr),
        addr is V4 ==> raw.v6@ == Seq::new(16, |i: int| 0u8) && raw.flowinfo == 0 && raw.scope_id
            == 0,
        addr is V6 ==> raw.v4@ == Seq::new(4, |i: int| 0u8),
{
    match addr {
        SocketAddress::V4 { octets, port } => {
            let raw = RawAddress {
                family: Family::Inet,
                port: network_port(port),
                v4: octets,
                v6: [0u8; 16],
                flowinfo: 0,
                scope_id: 0,
            };
            assert(raw.v6@ =~= Seq::new(16, |i: int| 0u8));
            raw
        },
        SocketAddress::V6 { octets, port, flowinfo, scope_id } => {
            let raw = RawAddress {
                family: Family::Inet6,
                port: network_port(port),
                v4: [0u8; 4],
                v6: octets,
                flowinfo,
                scope_id,
            };
            assert(raw.v4@ =~= Seq::new(4, |i: int| 0u8));
            raw
        },
    }
}

/// The address that the kernel's form stands for, if the family is known.
pub fn socket_addr_from_storage(raw: RawAddress) -> (addr: Result<SocketAddress, IoError>)
    ensures
        match addr {
            Ok(found) => stands_for(raw, found),
            Err(error) => raw.family == Family::Other && error.kind == ErrorKind::InvalidData
                && error.message@ == "eddy: unsupported socket address family"@,
        },
{
    let port: u16 = raw.port[0] as u16 * 256 + raw.port[1] as u16;
    match raw.family {
        Family::Inet => Ok(SocketAddress::V4 { octets: raw.v4, port }),
        Family::Inet6 => Ok(
            SocketAddress::V6 {
                octets: raw.v6,
                port,
                flowinfo: raw.flowinfo,
                scope_id: raw.scope_id,
            },
        ),
        Family::Other => Err(
            IoError {
                kind: ErrorKind::InvalidData,
                message: "eddy: unsupported socket address family",
            },
        ),
    }
}

/// Two addresses that the same fields stand for agree in all their parts: the kernel's
/// form loses nothing.
pub proof fn law_addresses_survive(raw: RawAddress, a: SocketAddress, b: SocketAddress)
    requires
        stands_for(raw, a),
        stands_for(raw, b),
    ensures
        match (a, b) {
            (
                SocketAddress::V4 { octets, port },
                SocketAddress::V4 { octets: octets2, port: port2 },
            ) => octets@ == octets2@ && port == port2,
            (
                SocketAddress::V6 { octets, port, flowinfo, scope_id },
                SocketAddress::V6 {
                    octets: octets2,
                    port: port2,
                    flowinfo: flowinfo2,
                    scope_id: scope2,
                },
            ) => octets@ == octets2@ && port == port2 && flowinfo == flowinfo2 && scope_id
                == scope2,
            _ => false,
        },
{
}

/// The error of a path that does not fit in a Unix socket address.
pub open spec fn path_error(path: Seq<u8>, capacity: usize) -> Option<Seq<char>> {
    if path.len() >= capacity {
        Some("eddy: Unix socket path is too long"@)
    } else if path.contains(0u8) {
        Some("eddy: Unix socket path contains NUL"@)
    } else {
        None
    }
}

/// The path field of a Unix socket address, `capacity` bytes long: the path, and zeros
/// behind it, of which there is at least one.
pub fn unix_sockaddr(path: &[u8], capacity: usize) -> (field: Result<Vec<u8>, IoError>)
    ensures
        match field {
            Ok(bytes) => {
                &&& path_error(path@, capacity) is None
                &&& bytes@.len() == capacity
                &&& bytes@.take(path@.len() as int) == path@
                &&& forall|i: int| path@.len() <= i < capacity ==> bytes@[i] == 0
            },
            Err(error) => {
                &&& path_error(path@, capacity) == Some(error.message@)
                &&& error.kind == ErrorKind::InvalidInput
            },
        },
{
    if path.len() >= capacity {
        return Err(
            IoError {
                kind: ErrorKind::InvalidInput,
                message: "eddy: Unix socket path is too long",
            },
        );
    }
    let mut bytes: Vec<u8> = Vec::new();
    let mut i: usize = 0;
    while i < path.len()
        invariant
            i <= path@.len() < capacity,
            bytes@ == path@.take(i as int),
            forall|k: int| 0 <= k < i ==> path@[k] != 0,
        decreases path@.len() - i,
    {
        if path[i] == 0 {
            assert(path@.contains(0u8)) by {
                assert(path@[i as int] == 0);
            }
            return Err(
                IoError {
                    kind: ErrorKind::InvalidInput,
                    message: "eddy: Unix socket path contains NUL",
                },
            );
        }
        bytes.push(path[i]);
        assert(path@.take(i + 1) =~= path@.take(i as int).push(path@[i as int]));
        i = i + 1;
    }
    assert(bytes@ =~= path@);
    while bytes.len() < capacity
        invariant
            path@.len() <= bytes@.len() <= capacity,
            bytes@.take(path@.len() as int) == path@,
            forall|k: int| path@.len() <= k < bytes@.len() ==> bytes@[k] == 0,
        decreases capacity - bytes@.len(),
    {
        let ghost before = bytes@;
        bytes.push(0);
        assert(bytes@.take(path@.len() as int) =~= before.take(path@.len() as int));
    }
    Ok(bytes)
}

// ---------------------------------------------------------------------------
// System calls
// ---------------------------------------------------------------------------

/// Whether an error says that the operation has to wait.
pub fn would_block(error: &IoError) -> (result: bool)
    ensures
        result == (error.kind == ErrorKind::WouldBlock),
{
    error.kind == ErrorKind::WouldBlock
}

/// Whether a call was interrupted and has to be made again.
pub fn interrupted<T>(result: &Result<T, IoError>) -> (again: bool)
    ensures
        again == (result matches Err(error) && error.kind == ErrorKind::Interrupted),
{
    match result {
        Ok(_) => false,
        Err(error) => error.kind == ErrorKind::Interrupted,
    }
}

/// What to do about a connection.
#[derive(Debug, Clone, Copy, PartialEq, Eq, Structural)]
pub enum ConnectStep {
    /// The connection is there.
    Connected,
    /// Wait until the socket is writable, then ask for its error.
    Wait,
    /// There is no connection, for this reason.
    Failed(SystemError),
}

/// What the outcome of `connect` means. A connection may be on its way.
pub fn connect_step(code: Option<SystemError>) -> (step: ConnectStep)
    ensures
        step == (match code {
            None => ConnectStep::Connected,
            Some(SystemError::InProgress) => ConnectStep::Wait,
            Some(SystemError::AlreadyInProgress) => ConnectStep::Wait,
            Some(SystemError::WouldBlock) => ConnectStep::Wait,
            Some(reason) => ConnectStep::Failed(reason),
        }),
{
    match code {
        None => ConnectStep::Connected,
        Some(SystemError::InProgress) => ConnectStep::Wait,
        Some(SystemError::AlreadyInProgress) => ConnectStep::Wait,
        Some(SystemError::WouldBlock) => ConnectStep::Wait,
        Some(reason) => ConnectStep::Failed(reason),
    }
}

/// What a socket's own error means once it is writable: zero is success.
pub fn socket_error(code: i32) -> (result: Result<(), i32>)
    ensures
        result == (if code == 0 {
            Ok(())
        } else {
            Err(code)
        }),
{
    if code == 0 {
        Ok(())
    } else {
        Err(code)
    }
}

/// The outcome of shutting down a datagram socket. One that is not connected has no
/// write half to shut down, which is a success.
pub fn datagram_shutdown(result: Result<(), i32>, not_connected: i32) -> (outcome: Result<(), i32>)
    ensures
        outcome == (if result == Err::<(), i32>(not_connected) {
            Ok(())
        } else {
            result
        }),
{
    if let Err(code) = result {
        if code == not_connected {
            return Ok(());
        }
    }
    result
}

/// The linger option: whether it is on, and the whole seconds, as far as they fit.
pub fn linger_option(seconds: Option<u64>) -> (option: (i32, i32))
    ensures
        option == (match seconds {
            None => (0i32, 0i32),
            Some(count) => (1i32, if count < i32::MAX {
                count as i32
            } else {
                i32::MAX
            }),
        }),
{
    match seconds {
        None => (0, 0),
        Some(count) => {
            let most: u64 = 2147483647;
            if count < most {
                (1, count as i32)
            } else {
                (1, i32::MAX)
            }
        },
    }
}

/// How many buffers one call takes: the system refuses more than its limit.
pub fn vector_count(buffers: usize, limit: usize) -> (count: usize)
    ensures
        count == (if buffers < limit {
            buffers
        } else {
            limit
        }),
{
    if buffers < limit {
        buffers
    } else {
        limit
    }
}

// ---------------------------------------------------------------------------
// Several addresses
// ---------------------------------------------------------------------------

/// The addresses of a host are tried in order until one works.
pub struct AddressAttempts {
    count: usize,
    next: usize,
    last_error: Option<IoError>,
}

impl AddressAttempts {
    /// How many addresses there are.
    pub closed spec fn total(&self) -> nat {
        self.count as nat
    }

    /// How many have been tried.
    pub closed spec fn tried(&self) -> nat {
        self.next as nat
    }

    /// The error of the last one that was tried.
    pub closed spec fn latest(&self) -> Option<IoError> {
        self.last_error
    }

    /// No more are tried than there are.
    pub closed spec fn wf(&self) -> bool {
        self.next <= self.count
    }

    /// No address has been tried.
    pub fn new(count: usize) -> (attempts: AddressAttempts)
        ensures
            attempts.wf(),
            attempts.total() == count,
            attempts.tried() == 0,
            attempts.latest() is None,
    {
        AddressAttempts { count, next: 0, last_error: None }
    }

    /// The address to try next. Where there is none, the attempt has failed: with the
    /// error of the last address, if there was one.
    pub fn next(&mut self) -> (next: Result<usize, IoError>)
        requires
            old(self).wf(),
        ensures
            final(self).wf(),
            final(self).total() == old(self).total(),
            final(self).latest() == old(self).latest(),
            match next {
                Ok(index) => {
                    &&& index == old(self).tried() < old(self).total()
                    &&& final(self).tried() == index + 1
                },
                Err(error) => {
                    &&& old(self).tried() == old(self).total() == final(self).tried()
                    &&& match old(self).latest() {
                        Some(last) => error == last,
                        None => error.kind == ErrorKind::InvalidInput && error.message@
                            == "eddy: no socket addresses resolved"@,
                    }
                },
            },
    {
        if self.next < self.count {
            let index: usize = self.next;
            self.next = self.next + 1;
            return Ok(index);
        }
        match self.last_error {
            Some(error) => Err(error),
            None => Err(
                IoError {
                    kind: ErrorKind::InvalidInput,
                    message: "eddy: no socket addresses resolved",
                },
            ),
        }
    }

    /// The address that was tried does not work.
    pub fn failed(&mut self, error: IoError)
        requires
            old(self).wf(),
        ensures
            final(self).wf(),
            final(self).total() == old(self).total(),
            final(self).tried() == old(self).tried(),
            final(self).latest() == Some(error),
    {
        self.last_error = Some(error);
    }
}

// ---------------------------------------------------------------------------
// Operations that wait for readiness
// ---------------------------------------------------------------------------

/// One direction of a socket: an operation that is tried when the socket is ready, and
/// again after the next report where it would block.
pub struct Evented {
    pub interest: Interest,
    pub waiter: Option<Readiness>,
}

/// A wait for which no one is entered.
pub open spec fn over(interests: Interest) -> Readiness {
    Readiness { interests, state: crate::io::driver::WaiterState::Unregistered }
}

/// The wait of a direction, begun or not.
pub open spec fn wait_of(evented: Evented) -> Readiness {
    match evented.waiter {
        Some(wait) => wait,
        None => over(evented.interest),
    }
}

impl Evented {
    /// No one waits.
    pub fn new(interest: Interest) -> (evented: Evented)
        ensures
            evented.interest == interest,
            evented.waiter is None,
    {
        Evented { interest, waiter: None }
    }

    /// Waits for the socket.
    pub fn poll_readiness(&mut self, driver: &mut Driver, id: u64, waker: u64) -> (poll: Poll<
        ReadyEvent,
    >)
        requires
            old(driver).wf(),
            old(driver).ios().contains_key(id),
            old(driver).ios()[id].next_waiter < u64::MAX,
        ensures
            final(driver).wf(),
            final(driver).generation() == old(driver).generation(),
            final(driver).next_number() == old(driver).next_number(),
            final(driver).slots() == old(driver).slots(),
            final(self).interest == old(self).interest,
            ({
                let wait = wait_of(*old(self));
                let detached = old(driver).ios()[id].detached(wait.state);
                match old(driver).ios()[id].seen(wait.interests) {
                    Some(event) => {
                        &&& poll == Poll::Ready(event)
                        &&& final(self).waiter == Some(over(wait.interests))
                        &&& final(driver).ios() == old(driver).ios().insert(id, detached)
                    },
                    None => {
                        &&& poll is Pending
                        &&& final(self).waiter == Some(
                            Readiness {
                                interests: wait.interests,
                                state: detached.place(wait.interests, waker),
                            },
                        )
                        &&& final(driver).ios() == old(driver).ios().insert(
                            id,
                            detached.joined(wait.interests, waker),
                        )
                    },
                }
            }),
    {
        let mut wait = match self.waiter.take() {
            Some(wait) => wait,
            None => Readiness::new(self.interest),
        };
        let poll = driver.poll_readiness(id, &mut wait, waker);
        self.waiter = Some(wait);
        poll
    }

    /// No one waits any more.
    pub fn give_up(&mut self, driver: &mut Driver, id: u64)
        requires
            old(driver).wf(),
        ensures
            final(driver).wf(),
            final(driver).generation() == old(driver).generation(),
            final(driver).next_number() == old(driver).next_number(),
            final(driver).slots() == old(driver).slots(),
            final(driver).ios() == (match old(self).waiter {
                Some(wait) => if old(driver).ios().contains_key(id) {
                    old(driver).ios().insert(id, old(driver).ios()[id].detached(wait.state))
                } else {
                    old(driver).ios()
                },
                None => old(driver).ios(),
            }),
            *final(self) == (Evented { waiter: None, ..*old(self) }),
    {
        if let Some(mut wait) = self.waiter.take() {
            driver.give_up(id, &mut wait);
        }
    }

    /// Notes the outcome of the operation that was tried. Returns it where it ends the
    /// operation. One that would block does not: the readiness that promised otherwise
    /// is cleared, and the operation waits again.
    pub fn finish<T>(
        &mut self,
        driver: &mut Driver,
        id: u64,
        event: ReadyEvent,
        result: Result<T, IoError>,
    ) -> (end: Option<Result<T, IoError>>)
        requires
            old(driver).wf(),
            old(driver).ios().contains_key(id),
        ensures
            final(driver).wf(),
            final(driver).generation() == old(driver).generation(),
            final(driver).next_number() == old(driver).next_number(),
            final(driver).slots() == old(driver).slots(),
            final(self).interest == old(self).interest,
            if (result matches Err(error) && error.kind == ErrorKind::WouldBlock) {
                &&& end is None
                &&& final(self).waiter == old(self).waiter
                &&& final(driver).ios() == old(driver).ios().insert(
                    id,
                    blocked(old(driver).ios()[id], old(self).interest, event),
                )
            } else {
                &&& end == Some(result)
                &&& final(self).waiter is None
                &&& final(driver).ios() == old(driver).ios()
            },
    {
        let ghost before = driver.ios();
        let registration = Registration { id, interests: self.interest };
        match registration.try_io(driver, result) {
            Ok(value) => {
                self.waiter = None;
                Some(Ok(value))
            },
            Err(error) => {
                if would_block(&error) {
                    driver.clear_event(id, event);
                    proof {
                        assert(driver.ios() =~= before.insert(
                            id,
                            blocked(before[id], self.interest, event),
                        ));
                    }
                    None
                } else {
                    self.waiter = None;
                    Some(Err(error))
                }
            },
        }
    }

    /// Whether the socket is waited for, and the operation tried once it is ready.
    pub open spec fn stepped<T, F: FnOnce() -> Result<T, IoError>>(
        before: Evented,
        after: Evented,
        driver: Driver,
        driver_after: Driver,
        id: u64,
        waker: u64,
        operation: F,
        step: IoStep<T>,
    ) -> bool {
        let wait = wait_of(before);
        let detached = driver.ios()[id].detached(wait.state);
        &&& driver_after.generation() == driver.generation()
        &&& driver_after.next_number() == driver.next_number()
        &&& driver_after.slots() == driver.slots()
        &&& driver_after.ios().contains_key(id)
        &&& after.interest == before.interest
        &&& match driver.ios()[id].seen(wait.interests) {
            None => {
                &&& step is Pending
                &&& after.waiter == Some(
                    Readiness {
                        interests: wait.interests,
                        state: detached.place(wait.interests, waker),
                    },
                )
                &&& driver_after.ios() == driver.ios().insert(
                    id,
                    detached.joined(wait.interests, waker),
                )
            },
            Some(event) => match step {
                IoStep::Pending => false,
                IoStep::Again => {
                    &&& exists|error: IoError| #[trigger]
                        operation.ensures((), Err(error)) && error.kind == ErrorKind::WouldBlock
                    &&& after.waiter == Some(over(wait.interests))
                    &&& driver_after.ios() == driver.ios().insert(
                        id,
                        blocked(detached, before.interest, event),
                    )
                },
                IoStep::Done(result) => {
                    &&& operation.ensures((), result)
                    &&& after.waiter is None
                    &&& !(result matches Err(error) && error.kind == ErrorKind::WouldBlock)
                    &&& driver_after.ios() == driver.ios().insert(id, detached)
                },
            },
        }
    }

    /// Waits for the socket, and tries the operation once it is ready.
    pub fn step<T, F: FnOnce() -> Result<T, IoError>>(
        &mut self,
        driver: &mut Driver,
        id: u64,
        waker: u64,
        operation: F,
    ) -> (step: IoStep<T>)
        requires
            old(driver).wf(),
            old(driver).ios().contains_key(id),
            old(driver).ios()[id].next_waiter < u64::MAX,
            operation.requires(()),
        ensures
            final(driver).wf(),
            Self::stepped(
                *old(self),
                *final(self),
                *old(driver),
                *final(driver),
                id,
                waker,
                operation,
                step,
            ),
    {
        let ghost before = driver.ios();
        match self.poll_readiness(driver, id, waker) {
            Poll::Pending => IoStep::Pending,
            Poll::Ready(event) => {
                let result = operation();
                let ghost outcome = result;
                match self.finish(driver, id, event, result) {
                    Some(result) => IoStep::Done(result),
                    None => {
                        proof {
                            assert(operation.ensures((), outcome));
                            assert(driver.ios() =~= before.insert(
                                id,
                                blocked(
                                    before[id].detached(wait_of(*old(self)).state),
                                    self.interest,
                                    event,
                                ),
                            ));
                        }
                        IoStep::Again
                    },
                }
            },
        }
    }
}

/// What one attempt at an operation brings.
#[derive(Debug)]
pub enum IoStep<T> {
    /// The socket was not ready after all: try again.
    Again,
    /// The socket is not ready.
    Pending,
    /// The operation has ended.
    Done(Result<T, IoError>),
}

/// What is known of a socket after an operation would have blocked: neither what is seen
/// now nor the event that led to the attempt counts any more.
pub open spec fn blocked(io: IoModel, interest: Interest, event: ReadyEvent) -> IoModel {
    (match io.seen(interest) {
        Some(seen) => io.cleared(seen),
        None => io,
    }).cleared(event)
}

} // verus!
