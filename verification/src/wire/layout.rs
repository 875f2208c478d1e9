//! Where each value of an event stands in its payload.

use super::{
    decode_bytes, drain, fd_bits, id_list_bytes, ids_bytes, location_bytes,
    optional_string_bytes, optional_u64_bytes, parse_fields, payload_bytes, string_bytes, text_fits,
    u32_bytes, u32_of_bytes, u64_bytes, DecodeError, EventModel, LocationModel, WakeSourceModel,
};
use vstd::prelude::*;

verus! {

/// The number that some bytes stand for, the least significant first.
pub open spec fn little_endian(bytes: Seq<u8>) -> nat
    decreases bytes.len(),
{
    if bytes.len() == 0 {
        0
    } else {
        bytes[0] as nat + 256 * little_endian(bytes.drop_first())
    }
}

/// The number that stands at a place in a payload, in so many bytes.
pub open spec fn number_at(payload: Seq<u8>, at: int, len: int) -> nat {
    little_endian(payload.subrange(at, at + len))
}

proof fn lemma_four(s: Seq<u8>)
    requires
        s.len() == 4,
    ensures
        little_endian(s) == s[0] + 256 * s[1] + 65536 * s[2] + 16777216 * s[3],
{
    reveal_with_fuel(little_endian, 5);
    let a = s.drop_first();
    let b = a.drop_first();
    let c = b.drop_first();
    assert(a[0] == s[1] && b[0] == s[2] && c[0] == s[3]);
    assert(c.drop_first() =~= Seq::empty());
}

proof fn lemma_join(a: Seq<u8>, b: Seq<u8>)
    requires
        a.len() == 4,
    ensures
        little_endian(a + b) == little_endian(a) + 4294967296 * little_endian(b),
{
    let t = a + b;
    let t1 = t.drop_first();
    let t2 = t1.drop_first();
    let t3 = t2.drop_first();
    assert(t3.drop_first() =~= b);
    assert(t[0] == a[0] && t1[0] == a[1] && t2[0] == a[2] && t3[0] == a[3]);
    reveal_with_fuel(little_endian, 5);
    lemma_four(a);
}

/// Numbers stand with their least significant byte first, in four or eight bytes.
pub proof fn law_numbers_are_little_endian(v: u32, w: u64)
    ensures
        u32_bytes(v).len() == 4,
        little_endian(u32_bytes(v)) == v,
        u64_bytes(w).len() == 8,
        little_endian(u64_bytes(w)) == w,
{
    lemma_le32(v);
    let low = (w % 4294967296) as u32;
    let high = (w / 4294967296) as u32;
    lemma_le32(low);
    lemma_le32(high);
    lemma_join(u32_bytes(low), u32_bytes(high));
}

proof fn lemma_le32(v: u32)
    ensures
        u32_bytes(v).len() == 4,
        little_endian(u32_bytes(v)) == v,
{
    lemma_four(u32_bytes(v));
    assert(v % 256 + 256 * (v / 256 % 256) + 65536 * (v / 65536 % 256) + 16777216 * (v / 16777216)
        == v) by (nonlinear_arith);
}

/// A descriptor stands as the number that is the same in thirty-two bits.
pub proof fn law_descriptors_keep_their_bits(fd: i32)
    ensures
        fd >= 0 ==> fd_bits(fd) == fd,
        fd < 0 ==> fd_bits(fd) == fd + 4294967296,
        little_endian(u32_bytes(fd_bits(fd))) % 4294967296 == fd as int % 4294967296,
{
    lemma_le32(fd_bits(fd));
    if fd < 0 {
        vstd::arithmetic::div_mod::lemma_mod_add_multiples_vanish(fd as int, 4294967296);
    }
}

/// A text stands behind the number of its bytes, in UTF-8. An optional text or number
/// stands behind a one, and a zero stands for none. A location is the text of its file and
/// then its line. A list stands behind the number of its entries.
pub proof fn law_parts_of_payloads(
    text: Seq<char>,
    number: u64,
    location: LocationModel,
    ids: Seq<u64>,
)
    requires
        text_fits(text),
        ids.len() <= u32::MAX,
    ensures
        number_at(string_bytes(text), 0, 4) == vstd::utf8::encode_utf8(text).len(),
        string_bytes(text).skip(4) == vstd::utf8::encode_utf8(text),
        optional_string_bytes(None) == seq![0u8],
        optional_string_bytes(Some(text))[0] == 1,
        optional_string_bytes(Some(text)).skip(1) == string_bytes(text),
        optional_u64_bytes(None) == seq![0u8],
        optional_u64_bytes(Some(number))[0] == 1,
        optional_u64_bytes(Some(number)).len() == 9,
        number_at(optional_u64_bytes(Some(number)), 1, 8) == number,
        location_bytes(location).len() == string_bytes(location.file).len() + 4,
        location_bytes(location).take(string_bytes(location.file).len() as int) == string_bytes(
            location.file,
        ),
        number_at(location_bytes(location), string_bytes(location.file).len() as int, 4)
            == location.line,
        number_at(id_list_bytes(ids), 0, 4) == ids.len(),
        id_list_bytes(ids).len() == 4 + 8 * ids.len(),
        forall|i: int|
            #![trigger ids[i]]
            0 <= i < ids.len() ==> number_at(id_list_bytes(ids), 4 + 8 * i, 8) == ids[i],
{
    let utf8 = vstd::utf8::encode_utf8(text);
    lemma_le32(utf8.len() as u32);
    assert(string_bytes(text).subrange(0, 4) =~= u32_bytes(utf8.len() as u32));
    assert(string_bytes(text).skip(4) =~= utf8);
    assert(optional_string_bytes(Some(text)).skip(1) =~= string_bytes(text));
    law_numbers_are_little_endian(location.line, number);
    assert(optional_u64_bytes(Some(number)).subrange(1, 9) =~= u64_bytes(number));
    let n = string_bytes(location.file).len() as int;
    assert(location_bytes(location).take(n) =~= string_bytes(location.file));
    assert(location_bytes(location).subrange(n, n + 4) =~= u32_bytes(location.line));
    lemma_le32(ids.len() as u32);
    assert(id_list_bytes(ids).subrange(0, 4) =~= u32_bytes(ids.len() as u32));
    lemma_ids(ids);
    assert forall|i: int| #![trigger ids[i]] 0 <= i < ids.len() implies number_at(
        id_list_bytes(ids),
        4 + 8 * i,
        8,
    ) == ids[i] by {
        lemma_id(ids, i);
        assert(id_list_bytes(ids).subrange(4 + 8 * i, 4 + 8 * i + 8) =~= ids_bytes(ids).subrange(
            8 * i,
            8 * i + 8,
        ));
    }
}

proof fn lemma_ids(ids: Seq<u64>)
    ensures
        ids_bytes(ids).len() == 8 * ids.len(),
    decreases ids.len(),
{
    if ids.len() > 0 {
        lemma_ids(ids.drop_first());
    }
}

proof fn lemma_id(ids: Seq<u64>, i: int)
    requires
        0 <= i < ids.len(),
    ensures
        ids_bytes(ids).len() == 8 * ids.len(),
        little_endian(ids_bytes(ids).subrange(8 * i, 8 * i + 8)) == ids[i],
    decreases ids.len(),
{
    lemma_ids(ids);
    lemma_ids(ids.drop_first());
    law_numbers_are_little_endian(0, ids[0]);
    if i == 0 {
        assert(ids_bytes(ids).subrange(0, 8) =~= u64_bytes(ids[0]));
    } else {
        lemma_id(ids.drop_first(), i - 1);
        assert(ids_bytes(ids).subrange(8 * i, 8 * i + 8) =~= ids_bytes(
            ids.drop_first(),
        ).subrange(8 * (i - 1), 8 * (i - 1) + 8));
    }
}

/// The first byte of a payload says what kind of event it is.
pub proof fn law_payloads_begin_with_their_kind(event: EventModel)
    ensures
        payload_bytes(event).len() > 0,
        payload_bytes(event)[0] == (match event {
            EventModel::TaskSpawned { .. } => 0u8,
            EventModel::TaskPollStart { .. } => 1,
            EventModel::TaskPollEnd { .. } => 2,
            EventModel::TaskWoken { .. } => 3,
            EventModel::TaskDropped { .. } => 4,
            EventModel::TaskAborted { .. } => 5,
            EventModel::WorkerPark { .. } => 6,
            EventModel::WorkerUnpark { .. } => 7,
            EventModel::WorkerSteal { .. } => 8,
            EventModel::QueueDepth { .. } => 9,
            EventModel::IoRegistered { .. } => 10,
            EventModel::IoReady { .. } => 11,
            EventModel::TimerSet { .. } => 12,
            EventModel::TimerFired { .. } => 13,
            EventModel::TimerCancelled { .. } => 14,
            EventModel::BlockingDetected { .. } => 15,
            EventModel::BudgetExhausted { .. } => 16,
            EventModel::ResourceContended { .. } => 17,
        }),
{
}

/// Where the values of each event stand behind its kind: numbers in eight bytes, but
/// workers, lines and descriptors in four, and texts, options and lists as they come.
pub proof fn law_payloads_hold_their_values(event: EventModel)
    ensures
        ({
            let p = payload_bytes(event);
            match event {
                EventModel::TaskSpawned { id, name, location, parent } => {
                    &&& number_at(p, 1, 8) == id
                    &&& p.skip(9) == optional_string_bytes(name) + location_bytes(location)
                        + optional_u64_bytes(parent)
                },
                EventModel::TaskPollStart { id, worker, at_ns } => {
                    &&& p.len() == 21
                    &&& number_at(p, 1, 8) == id
                    &&& number_at(p, 9, 4) == worker
                    &&& number_at(p, 13, 8) == at_ns
                },
                EventModel::TaskPollEnd { id, worker, duration_ns, result } => {
                    &&& p.len() == 22
                    &&& number_at(p, 1, 8) == id
                    &&& number_at(p, 9, 4) == worker
                    &&& number_at(p, 13, 8) == duration_ns
                    &&& p[21] == 0 <==> result is Ready
                    &&& p[21] == 1 <==> result is Pending
                    &&& p[21] == 2 <==> result is Panicked
                },
                EventModel::TaskWoken { id, by } => {
                    &&& number_at(p, 1, 8) == id
                    &&& match by {
                        WakeSourceModel::Io { fd } => p.len() == 14 && p[9] == 0 && number_at(
                            p,
                            10,
                            4,
                        ) == fd_bits(fd),
                        WakeSourceModel::Timer { id } => p.len() == 18 && p[9] == 1 && number_at(
                            p,
                            10,
                            8,
                        ) == id,
                        WakeSourceModel::Task { id } => p.len() == 18 && p[9] == 2 && number_at(
                            p,
                            10,
                            8,
                        ) == id,
                        WakeSourceModel::Channel { kind } => p[9] == 3 && p.skip(10)
                            == string_bytes(kind),
                        WakeSourceModel::External => p.len() == 10 && p[9] == 4,
                    }
                },
                EventModel::TaskDropped { id, total_polls, total_busy_ns, total_idle_ns } => {
                    &&& p.len() == 33
                    &&& number_at(p, 1, 8) == id
                    &&& number_at(p, 9, 8) == total_polls
                    &&& number_at(p, 17, 8) == total_busy_ns
                    &&& number_at(p, 25, 8) == total_idle_ns
                },
                EventModel::TaskAborted { id } => p.len() == 9 && number_at(p, 1, 8) == id,
                EventModel::WorkerPark { worker, timeout_ns } => {
                    &&& number_at(p, 1, 4) == worker
                    &&& p.skip(5) == optional_u64_bytes(timeout_ns)
                },
                EventModel::WorkerUnpark { worker, reason } => {
                    &&& p.len() == 6
                    &&& number_at(p, 1, 4) == worker
                    &&& p[5] == 0 <==> reason is Task
                    &&& p[5] == 1 <==> reason is Shutdown
                    &&& p[5] == 2 <==> reason is Steal
                    &&& p[5] == 3 <==> reason is Event
                },
                EventModel::WorkerSteal { thief, victim, count } => {
                    &&& p.len() == 17
                    &&& number_at(p, 1, 4) == thief
                    &&& number_at(p, 5, 4) == victim
                    &&& number_at(p, 9, 8) == count
                },
                EventModel::QueueDepth { worker, local, global, lifo } => {
                    &&& p.len() == 22
                    &&& number_at(p, 1, 4) == worker
                    &&& number_at(p, 5, 8) == local
                    &&& number_at(p, 13, 8) == global
                    &&& p[21] == 1 <==> lifo
                    &&& p[21] == 0 <==> !lifo
                },
                EventModel::IoRegistered { fd, interest, task } => {
                    let n = string_bytes(interest).len() as int;
                    &&& p.len() == 13 + n
                    &&& number_at(p, 1, 4) == fd_bits(fd)
                    &&& p.subrange(5, 5 + n) == string_bytes(interest)
                    &&& number_at(p, 5 + n, 8) == task
                },
                EventModel::IoReady { fd, readiness, woke } => {
                    let n = string_bytes(readiness).len() as int;
                    &&& number_at(p, 1, 4) == fd_bits(fd)
                    &&& p.subrange(5, 5 + n) == string_bytes(readiness)
                    &&& p.skip(5 + n) == id_list_bytes(woke)
                },
                EventModel::TimerSet { id, deadline_ns, task } => {
                    &&& p.len() == 25
                    &&& number_at(p, 1, 8) == id
                    &&& number_at(p, 9, 8) == deadline_ns
                    &&& number_at(p, 17, 8) == task
                },
                EventModel::TimerFired { id, lateness_ns } => {
                    &&& p.len() == 17
                    &&& number_at(p, 1, 8) == id
                    &&& number_at(p, 9, 8) == lateness_ns
                },
                EventModel::TimerCancelled { id } => p.len() == 9 && number_at(p, 1, 8) == id,
                EventModel::BlockingDetected { task, poll_duration_ns, location } => {
                    &&& number_at(p, 1, 8) == task
                    &&& number_at(p, 9, 8) == poll_duration_ns
                    &&& p.skip(17) == location_bytes(location)
                },
                EventModel::BudgetExhausted { task } => p.len() == 9 && number_at(p, 1, 8) == task,
                EventModel::ResourceContended { kind, holder, waiters } => {
                    let n = string_bytes(kind).len() as int;
                    &&& p.subrange(1, 1 + n) == string_bytes(kind)
                    &&& number_at(p, 1 + n, 8) == holder
                    &&& p.skip(9 + n) == id_list_bytes(waiters)
                },
            }
        }),
{
    let p = payload_bytes(event);
    match event {
        EventModel::TaskSpawned { id, name, location, parent } => {
            law_numbers_are_little_endian(0, id);
            assert(p.subrange(1, 9) =~= u64_bytes(id));
            assert(p.skip(9) =~= optional_string_bytes(name) + location_bytes(location)
                + optional_u64_bytes(parent));
        },
        EventModel::TaskPollStart { id, worker, at_ns } => {
            law_numbers_are_little_endian(worker, id);
            law_numbers_are_little_endian(0, at_ns);
            assert(p.subrange(1, 9) =~= u64_bytes(id));
            assert(p.subrange(9, 13) =~= u32_bytes(worker));
            assert(p.subrange(13, 21) =~= u64_bytes(at_ns));
        },
        EventModel::TaskPollEnd { id, worker, duration_ns, .. } => {
            law_numbers_are_little_endian(worker, id);
            law_numbers_are_little_endian(0, duration_ns);
            assert(p.subrange(1, 9) =~= u64_bytes(id));
            assert(p.subrange(9, 13) =~= u32_bytes(worker));
            assert(p.subrange(13, 21) =~= u64_bytes(duration_ns));
        },
        EventModel::TaskWoken { id, by } => {
            law_numbers_are_little_endian(0, id);
            assert(p.subrange(1, 9) =~= u64_bytes(id));
            match by {
                WakeSourceModel::Io { fd } => {
                    lemma_le32(fd_bits(fd));
                    assert(p.subrange(10, 14) =~= u32_bytes(fd_bits(fd)));
                },
                WakeSourceModel::Timer { id } => {
                    law_numbers_are_little_endian(0, id);
                    assert(p.subrange(10, 18) =~= u64_bytes(id));
                },
                WakeSourceModel::Task { id } => {
                    law_numbers_are_little_endian(0, id);
                    assert(p.subrange(10, 18) =~= u64_bytes(id));
                },
                WakeSourceModel::Channel { kind } => {
                    assert(p.skip(10) =~= string_bytes(kind));
                },
                WakeSourceModel::External => {},
            }
        },
        EventModel::TaskDropped { id, total_polls, total_busy_ns, total_idle_ns } => {
            law_numbers_are_little_endian(0, id);
            law_numbers_are_little_endian(0, total_polls);
            law_numbers_are_little_endian(0, total_busy_ns);
            law_numbers_are_little_endian(0, total_idle_ns);
            assert(p.subrange(1, 9) =~= u64_bytes(id));
            assert(p.subrange(9, 17) =~= u64_bytes(total_polls));
            assert(p.subrange(17, 25) =~= u64_bytes(total_busy_ns));
            assert(p.subrange(25, 33) =~= u64_bytes(total_idle_ns));
        },
        EventModel::TaskAborted { id } => {
            law_numbers_are_little_endian(0, id);
            assert(p.subrange(1, 9) =~= u64_bytes(id));
        },
        EventModel::WorkerPark { worker, timeout_ns } => {
            lemma_le32(worker);
            assert(p.subrange(1, 5) =~= u32_bytes(worker));
            assert(p.skip(5) =~= optional_u64_bytes(timeout_ns));
        },
        EventModel::WorkerUnpark { worker, .. } => {
            lemma_le32(worker);
            assert(p.subrange(1, 5) =~= u32_bytes(worker));
        },
        EventModel::WorkerSteal { thief, victim, count } => {
            lemma_le32(thief);
            lemma_le32(victim);
            law_numbers_are_little_endian(0, count);
            assert(p.subrange(1, 5) =~= u32_bytes(thief));
            assert(p.subrange(5, 9) =~= u32_bytes(victim));
            assert(p.subrange(9, 17) =~= u64_bytes(count));
        },
        EventModel::QueueDepth { worker, local, global, .. } => {
            law_numbers_are_little_endian(worker, local);
            law_numbers_are_little_endian(0, global);
            assert(p.subrange(1, 5) =~= u32_bytes(worker));
            assert(p.subrange(5, 13) =~= u64_bytes(local));
            assert(p.subrange(13, 21) =~= u64_bytes(global));
        },
        EventModel::IoRegistered { fd, interest, task } => {
            let n = string_bytes(interest).len() as int;
            law_numbers_are_little_endian(fd_bits(fd), task);
            assert(p.subrange(1, 5) =~= u32_bytes(fd_bits(fd)));
            assert(p.subrange(5, 5 + n) =~= string_bytes(interest));
            assert(p.subrange(5 + n, 13 + n) =~= u64_bytes(task));
        },
        EventModel::IoReady { fd, readiness, woke } => {
            let n = string_bytes(readiness).len() as int;
            lemma_le32(fd_bits(fd));
            assert(p.subrange(1, 5) =~= u32_bytes(fd_bits(fd)));
            assert(p.subrange(5, 5 + n) =~= string_bytes(readiness));
            assert(p.skip(5 + n) =~= id_list_bytes(woke));
        },
        EventModel::TimerSet { id, deadline_ns, task } => {
            law_numbers_are_little_endian(0, id);
            law_numbers_are_little_endian(0, deadline_ns);
            law_numbers_are_little_endian(0, task);
            assert(p.subrange(1, 9) =~= u64_bytes(id));
            assert(p.subrange(9, 17) =~= u64_bytes(deadline_ns));
            assert(p.subrange(17, 25) =~= u64_bytes(task));
        },
        EventModel::TimerFired { id, lateness_ns } => {
            law_numbers_are_little_endian(0, id);
            law_numbers_are_little_endian(0, lateness_ns);
            assert(p.subrange(1, 9) =~= u64_bytes(id));
            assert(p.subrange(9, 17) =~= u64_bytes(lateness_ns));
        },
        EventModel::TimerCancelled { id } => {
            law_numbers_are_little_endian(0, id);
            assert(p.subrange(1, 9) =~= u64_bytes(id));
        },
        EventModel::BlockingDetected { task, poll_duration_ns, location } => {
            law_numbers_are_little_endian(0, task);
            law_numbers_are_little_endian(0, poll_duration_ns);
            assert(p.subrange(1, 9) =~= u64_bytes(task));
            assert(p.subrange(9, 17) =~= u64_bytes(poll_duration_ns));
            assert(p.skip(17) =~= location_bytes(location));
        },
        EventModel::BudgetExhausted { task } => {
            law_numbers_are_little_endian(0, task);
            assert(p.subrange(1, 9) =~= u64_bytes(task));
        },
        EventModel::ResourceContended { kind, holder, waiters } => {
            let n = string_bytes(kind).len() as int;
            law_numbers_are_little_endian(0, holder);
            assert(p.subrange(1, 1 + n) =~= string_bytes(kind));
            assert(p.subrange(1 + n, 9 + n) =~= u64_bytes(holder));
            assert(p.skip(9 + n) =~= id_list_bytes(waiters));
        },
    }
}

/// A payload without bytes is cut off, and one of no known kind is refused by its kind.
pub proof fn law_unknown_payloads_are_refused(payload: Seq<u8>)
    ensures
        payload.len() == 0 ==> decode_bytes(payload) == Err::<EventModel, DecodeError>(
            DecodeError::Truncated,
        ),
        payload.len() > 0 && payload[0] > 17 ==> decode_bytes(payload) == Err::<
            EventModel,
            DecodeError,
        >(DecodeError::UnknownTag(payload[0])),
{
    reveal(parse_fields);
}

/// A stream is taken frame by frame. Four bytes say how long the payload behind them is, up
/// to sixteen mebibytes. Where a frame is not all there, its bytes wait for more; one that
/// is too long stops the stream where it stands; one whose payload is wrong stops it
/// behind that frame; any other gives its event, and what follows is taken in the same
/// way.
pub proof fn law_streams_are_taken_frame_by_frame(s: Seq<u8>)
    ensures
        s.len() < 4 ==> drain(s).events.len() == 0 && drain(s).rest == s && drain(s).error is None,
        s.len() >= 4 ==> {
            let size = number_at(s, 0, 4);
            let d = drain(s);
            &&& size > 16777216 ==> d.events.len() == 0 && d.rest == s && d.error is Some
                && d.error->0 is FrameTooLarge
            &&& size <= 16777216 && s.len() < 4 + size ==> d.events.len() == 0 && d.rest == s
                && d.error is None
            &&& size <= 16777216 && s.len() >= 4 + size ==> {
                let payload = s.subrange(4, 4 + size as int);
                let more = drain(s.skip(4 + size as int));
                match decode_bytes(payload) {
                    Ok(event) => {
                        &&& d.events.len() == more.events.len() + 1
                        &&& d.events[0] == event
                        &&& d.events.drop_first() == more.events
                        &&& d.rest == more.rest
                        &&& d.error == more.error
                    },
                    Err(error) => {
                        &&& d.events.len() == 0
                        &&& d.rest == s.skip(4 + size as int)
                        &&& d.error is Some && d.error->0 == error
                    },
                }
            }
        },
{
    if s.len() >= 4 {
        let front = s.subrange(0, 4);
        lemma_four(front);
        assert(front[0] == s[0] && front[1] == s[1] && front[2] == s[2] && front[3] == s[3]);
        assert(u32_of_bytes(s) == number_at(s, 0, 4));
        let size = u32_of_bytes(s);
        if size <= 16777216 && s.len() >= 4 + size {
            let more = drain(s.skip(4 + size));
            if let Ok(event) = decode_bytes(s.subrange(4, 4 + size)) {
                assert((seq![event] + more.events).drop_first() =~= more.events);
            }
        }
    }
}

} // verus!
