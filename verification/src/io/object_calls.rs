//! What calls on descriptors, endpoints and read buffers do.

use crate::coop::Budget;
use crate::io::buf::{BufReader, BufWriter, ReadWindow};
use crate::io::byte_laws;
use crate::io::driver;
use crate::io::driver::{
    Driver, Readiness, ReadyEvent, Registration, ScheduledIo, Slot, Waiter,
    WaiterState,
};
use crate::io::endpoint::{accepted, counted, read_fits, write_fits, Endpoint, Transport};
use crate::io::net;
use crate::io::net::{Evented, IoStep, RawAddress, SocketAddress};
use crate::io::poll_evented::PollEvented;
use crate::io::readiness_laws;
use crate::io::{AsyncRead, AsyncWrite, Interest, IoError, ReadBuf, Ready};
use crate::poll::Poll;
use vstd::prelude::*;

verus! {

// ---------------------------------------------------------------------------
// Read buffers
// ---------------------------------------------------------------------------

/// What is put into a read buffer lies behind what is filled, as much of it as fits; what is
/// filled grows by what is noted, and is empty once it is cleared.
pub proof fn law_read_buffers_fill_from_the_front()
    ensures
        forall|buf: &mut ReadBuf, source: &[u8], count: usize| #[trigger]
            call_ensures(ReadBuf::put, (buf, source), count) && (*buf).wf() ==> {
                let room = (*buf).capacity() - (*buf).data().len();
                &&& count <= source@.len() && count <= room
                &&& count == source@.len() || count == room
                &&& (*final(buf)).data() == (*buf).data() + source@.take(count as int)
                &&& (*final(buf)).capacity() == (*buf).capacity()
                &&& (*final(buf)).bytes().skip((*buf).data().len() + count) == (*buf).bytes().skip(
                    (*buf).data().len() + count,
                )
            },
        forall|buf: &mut ReadBuf, n: usize| #[trigger]
            call_ensures(ReadBuf::advance, (buf, n), ()) && (*buf).wf() && n <= (*buf).capacity()
                - (*buf).data().len() ==> {
                &&& (*final(buf)).data().len() == (*buf).data().len() + n
                &&& (*final(buf)).data() == (*buf).bytes().take((*buf).data().len() + n)
                &&& (*final(buf)).bytes() == (*buf).bytes()
                &&& (*final(buf)).ready_len() >= (*buf).ready_len()
                &&& (*final(buf)).ready_len() >= (*final(buf)).data().len()
                &&& (*final(buf)).ready_len() == (*buf).ready_len() || (*final(buf)).ready_len()
                    == (*final(buf)).data().len()
            },
        forall|buf: &mut ReadBuf| #[trigger]
            call_ensures(ReadBuf::clear, (buf,), ()) ==> (*final(buf)).data().len() == 0
                && (*final(buf)).bytes() == (*buf).bytes()
                && (*final(buf)).ready_len() == (*buf).ready_len(),
        forall|buf: ReadBuf, count: usize| #[trigger]
            call_ensures(ReadBuf::remaining, (&buf,), count) ==> count + buf.data().len()
                == buf.capacity(),
        forall|buf: ReadBuf, count: usize| #[trigger]
            call_ensures(ReadBuf::filled_len, (&buf,), count) ==> count == buf.data().len(),
        forall|buf: ReadBuf, count: usize| #[trigger]
            call_ensures(ReadBuf::initialized_len, (&buf,), count) ==> count == buf.ready_len(),
        forall|buf: ReadBuf, bytes: &[u8]| #[trigger]
            call_ensures(ReadBuf::filled, (&buf,), bytes) ==> bytes@ == buf.data(),
        forall|buf: ReadBuf, bytes: &[u8]| #[trigger]
            call_ensures(ReadBuf::initialized, (&buf,), bytes) ==> bytes@ == buf.bytes().take(
                buf.ready_len() as int,
            ),
{
    assert forall|buf: &mut ReadBuf, source: &[u8], count: usize| #[trigger]
        call_ensures(ReadBuf::put, (buf, source), count)
            && (*buf).wf() implies (*final(buf)).bytes().skip((*buf).data().len() + count)
            == (*buf).bytes().skip(
        (*buf).data().len() + count,
    ) by {
        let at = (*buf).data().len() + count;
        let after = *final(buf);
        assert(after.data().len() == at);
        assert(after.bytes().skip(at) =~= (*buf).bytes().skip(at));
    }
}

// ---------------------------------------------------------------------------
// Descriptors
// ---------------------------------------------------------------------------

/// A descriptor begins not ready, with no one waiting. Who asks to wait is entered, unless it
/// need not: then it is told what is ready.
pub proof fn law_entering_a_wait()
    ensures
        forall|generation: u32, io: ScheduledIo| #[trigger]
            call_ensures(ScheduledIo::new, (generation,), io) ==> io@.generation == generation
                && io@.ready.0 == 0 && !io@.shutdown && io@.waiting().len() == 0,
        forall|
            io: &mut ScheduledIo,
            interest: Interest,
            waker: u64,
            result: Result<WaiterState, ReadyEvent>,
        | #[trigger]
            call_ensures(ScheduledIo::add_waiter, (io, interest, waker), result) ==> {
                let served = (*io)@.shutdown || driver::satisfied_by(interest, (*io)@.ready);
                &&& result is Err <==> served
                &&& result is Err ==> result->Err_0.ready == (*io)@.ready
                    && result->Err_0.generation == (*io)@.generation && (*final(io))@ == (*io)@
                &&& result is Ok ==> !(result->Ok_0 is Unregistered) && (*final(io))@
                    == (*io)@.joined(interest, waker) && result->Ok_0 == (*io)@.place(
                    interest,
                    waker,
                )
            },
        forall|io: &mut ScheduledIo, slot: Slot, waiter: Waiter| #[trigger]
            call_ensures(ScheduledIo::remove_slot_waiter, (io, slot, waiter), ()) && (*io)@.wf()
                ==> {
                let kept = if slot is Reader {
                    (*final(io))@.reader
                } else {
                    (*final(io))@.writer
                };
                &&& kept is None || kept->0.id != waiter.id
                &&& (*final(io))@.list == (*io)@.list
                &&& slot is Reader ==> (*final(io))@.writer == (*io)@.writer
                &&& slot is Writer ==> (*final(io))@.reader == (*io)@.reader
            },
        forall|io: &mut ScheduledIo, waiter: Waiter| #[trigger]
            call_ensures(ScheduledIo::remove_list_waiter, (io, waiter), ()) && (*io)@.wf() ==> {
                &&& forall|k: int|
                    0 <= k < (*final(io))@.list.len() ==> (#[trigger] (*final(io))@.list[k]).id
                        != waiter.id
                &&& (*final(io))@.reader == (*io)@.reader && (*final(io))@.writer == (*io)@.writer
            },
        forall|io: &mut ScheduledIo, interest: Interest| #[trigger]
            call_ensures(ScheduledIo::would_block, (io, interest), ()) ==> {
                &&& (*io)@.seen(interest) is None ==> (*final(io))@ == (*io)@
                &&& (*io)@.seen(interest) is Some && !(*io)@.shutdown ==> (*final(io))@.ready.0 == 0
                &&& (*final(io))@.waiting() == (*io)@.waiting()
            },
{
    assert forall|io: &mut ScheduledIo, slot: Slot, waiter: Waiter| #[trigger]
        call_ensures(ScheduledIo::remove_slot_waiter, (io, slot, waiter), ())
            && (*io)@.wf() implies {
        let kept = if slot is Reader {
            (*final(io))@.reader
        } else {
            (*final(io))@.writer
        };
        &&& kept is None || kept->0.id != waiter.id
        &&& (*final(io))@.list == (*io)@.list
        &&& slot is Reader ==> (*final(io))@.writer == (*io)@.writer
        &&& slot is Writer ==> (*final(io))@.reader == (*io)@.reader
    } by {
        readiness_laws::law_giving_up_is_final((*io)@, WaiterState::InSlot { slot, waiter });
    }
    assert forall|io: &mut ScheduledIo, waiter: Waiter| #[trigger]
        call_ensures(ScheduledIo::remove_list_waiter, (io, waiter), ()) && (*io)@.wf() implies {
        &&& forall|k: int|
            0 <= k < (*final(io))@.list.len() ==> (#[trigger] (*final(io))@.list[k]).id
                != waiter.id
        &&& (*final(io))@.reader == (*io)@.reader && (*final(io))@.writer == (*io)@.writer
    } by {
        readiness_laws::law_giving_up_is_final((*io)@, WaiterState::InList { waiter });
    }
}

/// Clearing touches one registration alone, and only its readiness.
pub proof fn law_clearing_a_registration()
    ensures
        forall|driver: &mut Driver, id: u64, event: ReadyEvent| #[trigger]
            call_ensures(Driver::clear_event, (driver, id, event), ())
                && (*driver).ios().contains_key(id) ==> {
                let before = (*driver).ios()[id];
                let after = (*final(driver)).ios()[id];
                let same = before.generation == event.generation && before.ready.0
                    == event.ready.0;
                &&& same ==> after.ready.0 == 0
                &&& !same ==> after.ready == before.ready
                &&& after.waiting() == before.waiting()
                &&& (*final(driver)).slots() == (*driver).slots()
            },
        forall|driver: &mut Driver, id: u64, event: ReadyEvent, other: u64|
            #![trigger call_ensures(Driver::clear_event, (driver, id, event), ()), (*final(driver)).ios()[other]]
            call_ensures(Driver::clear_event, (driver, id, event), ()) && other != id
                ==> (*final(driver)).ios()[other] == (*driver).ios()[other],
        forall|driver: &mut Driver, id: u64, interest: Interest| #[trigger]
            call_ensures(Driver::clear_seen, (driver, id, interest), ())
                && (*driver).ios().contains_key(id) ==> {
                let before = (*driver).ios()[id];
                let after = (*final(driver)).ios()[id];
                &&& before.seen(interest) is None ==> after == before
                &&& before.seen(interest) is Some && !before.shutdown ==> after.ready.0 == 0
                &&& after.waiting() == before.waiting()
            },
        forall|driver: &mut Driver, id: u64, interest: Interest, other: u64|
            #![trigger call_ensures(Driver::clear_seen, (driver, id, interest), ()), (*final(driver)).ios()[other]]
            call_ensures(Driver::clear_seen, (driver, id, interest), ()) && other != id
                ==> (*final(driver)).ios()[other] == (*driver).ios()[other],
{
}

/// A wait begins unregistered, and ends so where it is given up.
pub proof fn law_waits_begin_and_end_unregistered()
    ensures
        forall|interests: Interest, wait: Readiness| #[trigger]
            call_ensures(Readiness::new, (interests,), wait) ==> wait.interests == interests
                && wait.state is Unregistered,
        forall|registration: Registration, interests: Interest, wait: Readiness| #[trigger]
            call_ensures(Registration::readiness, (&registration, interests), wait)
                ==> wait.interests == interests && wait.state is Unregistered,
        forall|wait: &mut Readiness, io: &mut ScheduledIo| #[trigger]
            call_ensures(Readiness::detach, (wait, io), ())
                ==> (*final(wait)).state is Unregistered
                && (*final(wait)).interests == (*wait).interests
                && (*final(io))@.ready == (*io)@.ready,
        forall|wait: &mut Readiness, io: &mut ScheduledIo, waker: u64, poll: Poll<ReadyEvent>|
            #[trigger]
            call_ensures(Readiness::poll, (wait, io, waker), poll) ==> {
                &&& poll is Ready <==> (*io)@.seen((*wait).interests) is Some
                &&& poll is Ready ==> poll->Ready_0 == (*io)@.seen((*wait).interests)->0
                    && (*final(wait)).state is Unregistered
                &&& poll is Pending ==> !((*final(wait)).state is Unregistered)
            },
        forall|event: ReadyEvent, ready: Ready| #[trigger]
            call_ensures(ReadyEvent::ready, (&event,), ready) ==> ready == event.ready,
        forall|interest: Interest, ready: Ready, yes: bool| #[trigger]
            call_ensures(driver::interest_satisfied, (interest, ready), yes) ==> (yes <==> (
            interest.0 & 1 != 0 && ready.0 & 21 != 0) || (interest.0 & 2 != 0 && ready.0 & 26
                != 0)),
{
}

// ---------------------------------------------------------------------------
// Objects
// ---------------------------------------------------------------------------

/// An operation is tried only where the task has budget and the descriptor is ready, and its
/// outcome is passed on unless it would have blocked. To write nothing needs neither.
pub proof fn law_trying_an_operation<E, T, F: FnOnce() -> Result<T, IoError>, G: FnOnce() -> Result<
    usize,
    IoError,
>>()
    ensures
        forall|
            evented: &mut PollEvented<E>,
            budget: &mut Budget,
            driver: &mut Driver,
            waker: u64,
            operation: F,
            step: IoStep<T>,
        | #[trigger]
            call_ensures(
                PollEvented::<E>::poll_read_inner::<T, F>,
                (evented, budget, driver, waker, operation),
                step,
            ) ==> {
                let id = (*evented).registered().id;
                let tired = (*budget).remaining is Some && (*budget).remaining->0 == 0;
                &&& tired ==> step is Pending && *final(driver) == *driver
                &&& step is Done ==> !tired && operation.ensures((), step->Done_0) && !(
                step->Done_0 is Err && step->Done_0->Err_0.kind is WouldBlock)
                &&& (*final(evented)).object() == (*evented).object()
                &&& (*final(evented)).registered() == (*evented).registered()
                &&& (*final(evented)).writing() == (*evented).writing()
                &&& (*final(driver)).slots() == (*driver).slots()
            },
        forall|
            evented: &mut PollEvented<E>,
            budget: &mut Budget,
            driver: &mut Driver,
            waker: u64,
            data: &[u8],
            operation: G,
            step: IoStep<usize>,
        | #[trigger]
            call_ensures(
                PollEvented::<E>::poll_write_inner::<G>,
                (evented, budget, driver, waker, data, operation),
                step,
            ) ==> {
                let tired = (*budget).remaining is Some && (*budget).remaining->0 == 0;
                &&& data@.len() == 0 ==> step is Done && step->Done_0 is Ok && step->Done_0->Ok_0
                    == 0 && *final(driver) == *driver && *final(budget) == *budget
                &&& data@.len() > 0 && tired ==> step is Pending && *final(driver) == *driver
                &&& data@.len() > 0 && step is Done ==> !tired && operation.ensures(
                    (),
                    step->Done_0,
                ) && !(step->Done_0 is Err && step->Done_0->Err_0.kind is WouldBlock)
                &&& (*final(evented)).object() == (*evented).object()
                &&& (*final(evented)).reading() == (*evented).reading()
            },
        forall|io: E, registration: Registration, evented: PollEvented<E>| #[trigger]
            call_ensures(PollEvented::<E>::new, (io, registration), evented) ==> evented.object()
                == io && evented.registered() == registration && evented.reading().interest.0 == 1
                && evented.writing().interest.0 == 2 && evented.reading().waiter is None
                && evented.writing().waiter is None,
        forall|evented: PollEvented<E>, io: E| #[trigger]
            call_ensures(PollEvented::<E>::into_inner, (evented,), io) ==> io == evented.object(),
{
}

/// An operation is tried only where the socket is ready for it: its outcome is passed on,
/// and where it would have blocked the socket is asked again.
pub proof fn law_a_step_tries_once<T, F: FnOnce() -> Result<T, IoError>>(
    before: Evented,
    after: Evented,
    driver: Driver,
    driver_after: Driver,
    id: u64,
    waker: u64,
    operation: F,
    step: IoStep<T>,
)
    requires
        Evented::stepped(before, after, driver, driver_after, id, waker, operation, step),
        before.waiter is None,
    ensures
        step is Pending <==> driver.ios()[id].seen(before.interest) is None,
        step is Done ==> operation.ensures((), step->Done_0) && after.waiter is None,
        step is Again ==> exists|error: IoError|
            #[trigger] operation.ensures((), Err(error)) && error.kind is WouldBlock,
        step is Pending ==> after.waiter is Some && !(after.waiter->0.state is Unregistered),
        after.interest == before.interest,
{
}

// ---------------------------------------------------------------------------
// Endpoints
// ---------------------------------------------------------------------------

/// What a transport gives is passed on as it is, unless it is more than was asked for.
pub proof fn law_transports_give_no_more_than_asked<T: Transport>()
    ensures
        forall|
            answer: Poll<Result<Vec<u8>, IoError>>,
            room: usize,
            result: Poll<Result<Vec<u8>, IoError>>,
        | #[trigger]
            call_ensures(accepted, (answer, room), result) ==> {
                let too_much = answer is Ready && answer->Ready_0 is Ok
                    && answer->Ready_0->Ok_0@.len() > room;
                &&& !too_much ==> result == answer
                &&& too_much ==> result is Ready && result->Ready_0 is Err
                    && result->Ready_0->Err_0.kind is InvalidData
            },
        forall|
            answer: Poll<Result<usize, IoError>>,
            len: usize,
            result: Poll<Result<usize, IoError>>,
        | #[trigger]
            call_ensures(counted, (answer, len), result) ==> {
                let too_much = answer is Ready && answer->Ready_0 is Ok && answer->Ready_0->Ok_0
                    > len;
                &&& !too_much ==> result == answer
                &&& too_much ==> result is Ready && result->Ready_0 is Err
                    && result->Ready_0->Err_0.kind is InvalidData
            },
        forall|transport: T, endpoint: Endpoint<T>| #[trigger]
            call_ensures(Endpoint::<T>::new, (transport,), endpoint) ==> endpoint.transport()
                == transport && endpoint.read_so_far().len() == 0
                && endpoint.written_so_far().len() == 0 && endpoint.asked().len() == 0,
        forall|endpoint: Endpoint<T>, transport: T| #[trigger]
            call_ensures(Endpoint::<T>::into_inner, (endpoint,), transport) ==> transport
                == endpoint.transport(),
{
}

/// What a transport answers to a read is what comes of it: its bytes, all of them, unless
/// they are more than there is room for.
pub proof fn law_reads_pass_the_answer_on(
    answer: Poll<Result<Vec<u8>, IoError>>,
    room: nat,
    got: Seq<u8>,
    poll: Poll<Result<(), IoError>>,
)
    requires
        read_fits(answer, room, got, poll),
    ensures
        poll is Pending <==> answer is Pending,
        answer is Ready && answer->Ready_0 is Ok && answer->Ready_0->Ok_0@.len() <= room
            ==> got == answer->Ready_0->Ok_0@ && poll->Ready_0 is Ok,
        answer is Ready && answer->Ready_0 is Ok && answer->Ready_0->Ok_0@.len() > room
            ==> got.len() == 0 && poll->Ready_0 is Err && poll->Ready_0->Err_0.kind is InvalidData,
        answer is Ready && answer->Ready_0 is Err ==> got.len() == 0 && poll->Ready_0 is Err
            && poll->Ready_0->Err_0 == answer->Ready_0->Err_0,
        answer is Pending ==> got.len() == 0,
{
}

/// What a transport answers to a write is what comes of it, unless it says that it has taken
/// more than it was handed.
pub proof fn law_writes_pass_the_answer_on(
    answer: Poll<Result<usize, IoError>>,
    len: nat,
    poll: Poll<Result<usize, IoError>>,
)
    requires
        write_fits(answer, len, poll),
    ensures
        answer is Ready && answer->Ready_0 is Ok && answer->Ready_0->Ok_0 > len ==> poll is Ready
            && poll->Ready_0 is Err && poll->Ready_0->Err_0.kind is InvalidData,
        !(answer is Ready && answer->Ready_0 is Ok && answer->Ready_0->Ok_0 > len) ==> poll
            == answer,
{
}

/// What lies underneath a buffered end can be used, and what the end holds stays.
pub proof fn law_what_lies_underneath<R: AsyncRead, W: AsyncWrite>()
    ensures
        forall|reader: &mut BufReader<R>, inner: &mut R| #[trigger]
            call_ensures(BufReader::<R>::get_mut, (reader,), inner) ==> *inner
                == (*reader).source() && (*final(reader)).source() == *final(inner)
                    && (*final(reader)).buffered() == (*reader).buffered()
                    && (*final(reader)).capacity()
                == (*reader).capacity(),
        forall|reader: BufReader<R>, inner: &R| #[trigger]
            call_ensures(BufReader::<R>::get_ref, (&reader,), inner) ==> *inner
                == reader.source(),
        forall|writer: &mut BufWriter<W>, inner: &mut W| #[trigger]
            call_ensures(BufWriter::<W>::get_mut, (writer,), inner) ==> *inner == (*writer).sink()
                && (*final(writer)).sink() == *final(inner) && (*final(writer)).pending()
                == (*writer).pending() && (*final(writer)).capacity() == (*writer).capacity(),
        forall|writer: BufWriter<W>, inner: &W| #[trigger]
            call_ensures(BufWriter::<W>::get_ref, (&writer,), inner) ==> *inner == writer.sink(),
{
}

// ---------------------------------------------------------------------------
// Addresses
// ---------------------------------------------------------------------------

/// An address that goes to the kernel's form and back is the same; a family that is not
/// known is refused. A path stands in its field from the front, with zeros behind it.
pub proof fn law_addresses_go_there_and_back()
    ensures
        forall|addr: SocketAddress, raw: RawAddress, back: Result<SocketAddress, IoError>|
            #![trigger call_ensures(net::socket_addr_parts, (addr,), raw), call_ensures(net::socket_addr_from_storage, (raw,), back)]
            call_ensures(net::socket_addr_parts, (addr,), raw) && call_ensures(
                net::socket_addr_from_storage,
                (raw,),
                back,
            ) ==> back is Ok && (match (addr, back->Ok_0) {
                (
                    SocketAddress::V4 { octets, port },
                    SocketAddress::V4 { octets: octets2, port: port2 },
                ) => octets@ == octets2@ && port == port2,
                (
                    SocketAddress::V6 { octets, port, flowinfo, scope_id },
                    SocketAddress::V6 {
                        octets: octets2,
                        port: port2,
                        flowinfo: flowinfo2,
                        scope_id: scope2,
                    },
                ) => octets@ == octets2@ && port == port2 && flowinfo == flowinfo2 && scope_id
                    == scope2,
                _ => false,
            }),
        forall|path: &[u8], capacity: usize, field: Result<Vec<u8>, IoError>| #[trigger]
            call_ensures(net::unix_sockaddr, (path, capacity), field) ==> {
                &&& field is Ok <==> path@.len() + 1 <= capacity && !path@.contains(0u8)
                &&& field is Ok ==> {
                    &&& field->Ok_0@.len() == capacity
                    &&& forall|i: int|
                        0 <= i < path@.len() ==> #[trigger] field->Ok_0@[i] == path@[i]
                    &&& forall|i: int|
                        path@.len() <= i < capacity ==> #[trigger] field->Ok_0@[i] == 0
                }
                &&& field is Err ==> field->Err_0.kind is InvalidInput
            },
{
    assert forall|addr: SocketAddress, raw: RawAddress, back: Result<SocketAddress, IoError>|
        #![trigger call_ensures(net::socket_addr_parts, (addr,), raw), call_ensures(net::socket_addr_from_storage, (raw,), back)]
        call_ensures(net::socket_addr_parts, (addr,), raw) && call_ensures(
            net::socket_addr_from_storage,
            (raw,),
            back,
        ) implies back is Ok && (match (addr, back->Ok_0) {
        (
            SocketAddress::V4 { octets, port },
            SocketAddress::V4 { octets: octets2, port: port2 },
        ) => octets@ == octets2@ && port == port2,
        (
            SocketAddress::V6 { octets, port, flowinfo, scope_id },
            SocketAddress::V6 {
                octets: octets2,
                port: port2,
                flowinfo: flowinfo2,
                scope_id: scope2,
            },
        ) => octets@ == octets2@ && port == port2 && flowinfo == flowinfo2 && scope_id == scope2,
        _ => false,
    }) by {
        assert(net::stands_for(raw, addr));
        assert(back is Ok);
        net::law_addresses_survive(raw, addr, back->Ok_0);
    }
    assert forall|path: &[u8], capacity: usize, field: Result<Vec<u8>, IoError>| #[trigger]
        call_ensures(net::unix_sockaddr, (path, capacity), field) implies {
        &&& field is Ok <==> path@.len() + 1 <= capacity && !path@.contains(0u8)
        &&& field is Ok ==> {
            &&& field->Ok_0@.len() == capacity
            &&& forall|i: int| 0 <= i < path@.len() ==> #[trigger] field->Ok_0@[i] == path@[i]
            &&& forall|i: int| path@.len() <= i < capacity ==> #[trigger] field->Ok_0@[i] == 0
        }
        &&& field is Err ==> field->Err_0.kind is InvalidInput
    } by {
        byte_laws::law_paths_that_fit(path@, capacity);
        if field is Ok {
            assert forall|i: int| 0 <= i < path@.len() implies #[trigger] field->Ok_0@[i]
                == path@[i] by {
                assert(field->Ok_0@.take(path@.len() as int)[i] == path@[i]);
            }
        }
    }
}

/// A window gives its bytes from the front, and no more than it has.
pub proof fn law_windows_give_from_the_front()
    ensures
        forall|window: &mut ReadWindow, amount: usize| #[trigger]
            call_ensures(ReadWindow::consume, (window, amount), ()) ==> {
                &&& amount <= (*window)@.len() ==> (*final(window))@ == (*window)@.skip(
                    amount as int,
                )
                &&& amount > (*window)@.len() ==> (*final(window))@.len() == 0
            },
{
    assert forall|window: &mut ReadWindow, amount: usize| #[trigger]
        call_ensures(ReadWindow::consume, (window, amount), ()) implies {
        &&& amount <= (*window)@.len() ==> (*final(window))@ == (*window)@.skip(amount as int)
        &&& amount > (*window)@.len() ==> (*final(window))@.len() == 0
    } by {}
}

} // verus!
