//! Payloads that are cut short, and payloads with bytes behind them.

use super::{
    decode_bytes, ids_of_bytes, parse_fd, parse_fields, parse_id_list, parse_lifo, parse_location,
    parse_optional_string, parse_optional_u64, parse_poll_result, parse_string, parse_take,
    parse_u32, parse_u64, parse_u8, parse_unpark_reason, parse_wake_source, u32_of_bytes,
    u64_of_bytes, DecodeError, Parsed,
};
use vstd::prelude::*;

verus! {

/// Whether a reader that gives `whole` for some bytes gives `part` for the first `k` of them
/// and `more` with `x` behind them, as it should: what it needs is enough, and less is too
/// short.
pub open spec fn steady<A>(
    whole: Parsed<A>,
    part: Parsed<A>,
    more: Parsed<A>,
    s: Seq<u8>,
    k: int,
    x: Seq<u8>,
) -> bool {
    whole matches Ok((value, rest)) ==> {
        let used = s.len() - rest.len();
        &&& used >= 0
        &&& more == Ok::<(A, Seq<u8>), DecodeError>((value, rest + x))
        &&& 0 <= k < used ==> part == Err::<(A, Seq<u8>), DecodeError>(DecodeError::Truncated)
        &&& used <= k <= s.len() ==> part == Ok::<(A, Seq<u8>), DecodeError>(
            (value, rest.take(k - used)),
        )
    }
}

/// One byte.
#[verifier::spinoff_prover]
proof fn read_u8(s: Seq<u8>, k: int, x: Seq<u8>) -> (next: (Seq<u8>, int))
    ensures
        steady(
            parse_u8(s),
            parse_u8(s.take(k)),
            parse_u8(s + x),
            s,
            k,
            x,
        ),
        parse_u8(s) matches Ok((_, r)) ==> next == (r, k - (s.len() - r.len())),
{
    let rest = s.skip(1);
    if s.len() >= 1 {
        assert((s + x).skip(1) =~= rest + x);
        if 1 <= k <= s.len() {
            assert(s.take(k).skip(1) =~= rest.take(k - 1));
        }
    }
    (rest, k - 1)
}

/// Four bytes.
#[verifier::spinoff_prover]
proof fn read_u32(s: Seq<u8>, k: int, x: Seq<u8>) -> (next: (Seq<u8>, int))
    ensures
        steady(
            parse_u32(s),
            parse_u32(s.take(k)),
            parse_u32(s + x),
            s,
            k,
            x,
        ),
        parse_u32(s) matches Ok((_, r)) ==> next == (r, k - (s.len() - r.len())),
{
    let rest = s.skip(4);
    if s.len() >= 4 {
        assert((s + x).skip(4) =~= rest + x);
        if 4 <= k <= s.len() {
            assert(s.take(k).skip(4) =~= rest.take(k - 4));
        }
    }
    (rest, k - 4)
}

/// Eight bytes.
#[verifier::spinoff_prover]
proof fn read_u64(s: Seq<u8>, k: int, x: Seq<u8>) -> (next: (Seq<u8>, int))
    ensures
        steady(
            parse_u64(s),
            parse_u64(s.take(k)),
            parse_u64(s + x),
            s,
            k,
            x,
        ),
        parse_u64(s) matches Ok((_, r)) ==> next == (r, k - (s.len() - r.len())),
{
    let rest = s.skip(8);
    if s.len() >= 8 {
        assert((s + x).skip(8) =~= rest + x);
        if 8 <= k <= s.len() {
            assert(s.take(k).skip(8) =~= rest.take(k - 8));
        }
        assert(u64_of_bytes(s + x) == u64_of_bytes(s));
        if 8 <= k <= s.len() {
            assert(u64_of_bytes(s.take(k)) == u64_of_bytes(s));
        }
    }
    (rest, k - 8)
}

/// Some bytes.
#[verifier::spinoff_prover]
proof fn read_take(s: Seq<u8>, k: int, x: Seq<u8>, count: nat) -> (next: (Seq<u8>, int))
    ensures
        steady(
            parse_take(s, count),
            parse_take(s.take(k), count),
            parse_take(s + x, count),
            s,
            k,
            x,
        ),
        parse_take(s, count) matches Ok((_, r)) ==> next == (r, k - (s.len() - r.len())),
{
    let n = count as int;
    let rest = s.skip(n);
    if s.len() >= n {
        assert((s + x).skip(n) =~= rest + x);
        assert((s + x).take(n) =~= s.take(n));
        if n <= k <= s.len() {
            assert(s.take(k).skip(n) =~= rest.take(k - n));
            assert(s.take(k).take(n) =~= s.take(n));
        }
    }
    (rest, k - n)
}

/// A file descriptor.
#[verifier::spinoff_prover]
proof fn read_fd(s: Seq<u8>, k: int, x: Seq<u8>) -> (next: (Seq<u8>, int))
    ensures
        steady(
            parse_fd(s),
            parse_fd(s.take(k)),
            parse_fd(s + x),
            s,
            k,
            x,
        ),
        parse_fd(s) matches Ok((_, r)) ==> next == (r, k - (s.len() - r.len())),
{
    read_u32(s, k, x)
}

/// Text.
#[verifier::spinoff_prover]
proof fn read_string(s: Seq<u8>, k: int, x: Seq<u8>) -> (next: (Seq<u8>, int))
    ensures
        steady(
            parse_string(s),
            parse_string(s.take(k)),
            parse_string(s + x),
            s,
            k,
            x,
        ),
        parse_string(s) matches Ok((_, r)) ==> next == (r, k - (s.len() - r.len())),
{
    let (behind, left) = read_u32(s, k, x);
    if s.len() >= 4 {
        read_take(behind, left, x, u32_of_bytes(s) as nat)
    } else {
        (s, k)
    }
}

/// Optional text.
#[verifier::spinoff_prover]
proof fn read_optional_string(s: Seq<u8>, k: int, x: Seq<u8>) -> (next: (Seq<u8>, int))
    ensures
        steady(
            parse_optional_string(s),
            parse_optional_string(s.take(k)),
            parse_optional_string(s + x),
            s,
            k,
            x,
        ),
        parse_optional_string(s) matches Ok((_, r)) ==> next == (r, k - (s.len() - r.len())),
{
    let (behind, left) = read_u8(s, k, x);
    if s.len() >= 1 && s[0] == 1 {
        read_string(behind, left, x)
    } else {
        (behind, left)
    }
}

/// An optional integer.
#[verifier::spinoff_prover]
proof fn read_optional_u64(s: Seq<u8>, k: int, x: Seq<u8>) -> (next: (Seq<u8>, int))
    ensures
        steady(
            parse_optional_u64(s),
            parse_optional_u64(s.take(k)),
            parse_optional_u64(s + x),
            s,
            k,
            x,
        ),
        parse_optional_u64(s) matches Ok((_, r)) ==> next == (r, k - (s.len() - r.len())),
{
    let (behind, left) = read_u8(s, k, x);
    if s.len() >= 1 && s[0] == 1 {
        read_u64(behind, left, x)
    } else {
        (behind, left)
    }
}

/// A source location.
#[verifier::spinoff_prover]
proof fn read_location(s: Seq<u8>, k: int, x: Seq<u8>) -> (next: (Seq<u8>, int))
    ensures
        steady(
            parse_location(s),
            parse_location(s.take(k)),
            parse_location(s + x),
            s,
            k,
            x,
        ),
        parse_location(s) matches Ok((_, r)) ==> next == (r, k - (s.len() - r.len())),
{
    let (behind, left) = read_string(s, k, x);
    read_u32(behind, left, x)
}

/// A number is read from eight bytes, whatever is behind them.
proof fn lemma_u64_of_front(a: Seq<u8>, b: Seq<u8>)
    requires
        a.len() >= 8,
        b.len() >= 8,
        forall|i: int| 0 <= i < 8 ==> #[trigger] a[i] == b[i],
    ensures
        u64_of_bytes(a) == u64_of_bytes(b),
{
    assert(a.skip(4)[0] == b.skip(4)[0]);
    assert(a.skip(4)[1] == b.skip(4)[1]);
    assert(a.skip(4)[2] == b.skip(4)[2]);
    assert(a.skip(4)[3] == b.skip(4)[3]);
}

/// A list of ids.
#[verifier::spinoff_prover]
proof fn read_id_list(s: Seq<u8>, k: int, x: Seq<u8>) -> (next: (Seq<u8>, int))
    ensures
        steady(
            parse_id_list(s),
            parse_id_list(s.take(k)),
            parse_id_list(s + x),
            s,
            k,
            x,
        ),
        parse_id_list(s) matches Ok((_, r)) ==> next == (r, k - (s.len() - r.len())),
{
    let (behind, left) = read_u32(s, k, x);
    if s.len() >= 4 {
        let count = u32_of_bytes(s) as nat;
        let n = 8 * count;
        let rest = behind.skip(n as int);
        if n <= behind.len() {
            assert((behind + x).skip(n as int) =~= rest + x);
            assert forall|i: int| 0 <= i < count implies #[trigger] ids_of_bytes(behind + x, count)[i]
                == ids_of_bytes(behind, count)[i] by {
                lemma_u64_of_front(behind.skip(8 * i), (behind + x).skip(8 * i));
            }
            assert(ids_of_bytes(behind + x, count) =~= ids_of_bytes(behind, count));
            if n <= left <= behind.len() {
                let part = behind.take(left);
                assert(part.skip(n as int) =~= rest.take(left - n));
                assert forall|i: int| 0 <= i < count implies #[trigger] ids_of_bytes(part, count)[i]
                    == ids_of_bytes(behind, count)[i] by {
                    lemma_u64_of_front(behind.skip(8 * i), part.skip(8 * i));
                }
                assert(ids_of_bytes(part, count) =~= ids_of_bytes(behind, count));
            }
        }
        (rest, left - n)
    } else {
        (s, k)
    }
}

/// A wake source.
#[verifier::spinoff_prover]
proof fn read_wake_source(s: Seq<u8>, k: int, x: Seq<u8>) -> (next: (Seq<u8>, int))
    ensures
        steady(
            parse_wake_source(s),
            parse_wake_source(s.take(k)),
            parse_wake_source(s + x),
            s,
            k,
            x,
        ),
        parse_wake_source(s) matches Ok((_, r)) ==> next == (r, k - (s.len() - r.len())),
{
    let (behind, left) = read_u8(s, k, x);
    if s.len() >= 1 && s[0] == 0 {
        read_fd(behind, left, x)
    } else if s.len() >= 1 && (s[0] == 1 || s[0] == 2) {
        read_u64(behind, left, x)
    } else if s.len() >= 1 && s[0] == 3 {
        read_string(behind, left, x)
    } else {
        (behind, left)
    }
}

/// An unpark reason.
#[verifier::spinoff_prover]
proof fn read_unpark_reason(s: Seq<u8>, k: int, x: Seq<u8>) -> (next: (Seq<u8>, int))
    ensures
        steady(
            parse_unpark_reason(s),
            parse_unpark_reason(s.take(k)),
            parse_unpark_reason(s + x),
            s,
            k,
            x,
        ),
        parse_unpark_reason(s) matches Ok((_, r)) ==> next == (r, k - (s.len() - r.len())),
{
    read_u8(s, k, x)
}

/// A poll result.
#[verifier::spinoff_prover]
proof fn read_poll_result(s: Seq<u8>, k: int, x: Seq<u8>) -> (next: (Seq<u8>, int))
    ensures
        steady(
            parse_poll_result(s),
            parse_poll_result(s.take(k)),
            parse_poll_result(s + x),
            s,
            k,
            x,
        ),
        parse_poll_result(s) matches Ok((_, r)) ==> next == (r, k - (s.len() - r.len())),
{
    read_u8(s, k, x)
}

/// The flag of a worker's next-task slot.
#[verifier::spinoff_prover]
proof fn read_lifo(s: Seq<u8>, k: int, x: Seq<u8>) -> (next: (Seq<u8>, int))
    ensures
        steady(
            parse_lifo(s),
            parse_lifo(s.take(k)),
            parse_lifo(s + x),
            s,
            k,
            x,
        ),
        parse_lifo(s) matches Ok((_, r)) ==> next == (r, k - (s.len() - r.len())),
{
    read_u8(s, k, x)
}

#[verifier::spinoff_prover]
proof fn read_task_spawned(s: Seq<u8>, k: int, x: Seq<u8>)
    ensures
        steady(parse_fields(0, s), parse_fields(0, s.take(k)), parse_fields(0, s + x), s, k, x),
{
    reveal(parse_fields);
    let (s1, k1) = read_u64(s, k, x);
    let (s2, k2) = read_optional_string(s1, k1, x);
    let (s3, k3) = read_location(s2, k2, x);
    let (s4, k4) = read_optional_u64(s3, k3, x);
}

#[verifier::spinoff_prover]
proof fn read_task_poll_start(s: Seq<u8>, k: int, x: Seq<u8>)
    ensures
        steady(parse_fields(1, s), parse_fields(1, s.take(k)), parse_fields(1, s + x), s, k, x),
{
    reveal(parse_fields);
    let (s1, k1) = read_u64(s, k, x);
    let (s2, k2) = read_u32(s1, k1, x);
    let (s3, k3) = read_u64(s2, k2, x);
}

#[verifier::spinoff_prover]
proof fn read_task_poll_end(s: Seq<u8>, k: int, x: Seq<u8>)
    ensures
        steady(parse_fields(2, s), parse_fields(2, s.take(k)), parse_fields(2, s + x), s, k, x),
{
    reveal(parse_fields);
    let (s1, k1) = read_u64(s, k, x);
    let (s2, k2) = read_u32(s1, k1, x);
    let (s3, k3) = read_u64(s2, k2, x);
    let (s4, k4) = read_poll_result(s3, k3, x);
}

#[verifier::spinoff_prover]
proof fn read_task_woken(s: Seq<u8>, k: int, x: Seq<u8>)
    ensures
        steady(parse_fields(3, s), parse_fields(3, s.take(k)), parse_fields(3, s + x), s, k, x),
{
    reveal(parse_fields);
    let (s1, k1) = read_u64(s, k, x);
    let (s2, k2) = read_wake_source(s1, k1, x);
}

#[verifier::spinoff_prover]
proof fn read_task_dropped(s: Seq<u8>, k: int, x: Seq<u8>)
    ensures
        steady(parse_fields(4, s), parse_fields(4, s.take(k)), parse_fields(4, s + x), s, k, x),
{
    reveal(parse_fields);
    let (s1, k1) = read_u64(s, k, x);
    let (s2, k2) = read_u64(s1, k1, x);
    let (s3, k3) = read_u64(s2, k2, x);
    let (s4, k4) = read_u64(s3, k3, x);
}

#[verifier::spinoff_prover]
proof fn read_task_aborted(s: Seq<u8>, k: int, x: Seq<u8>)
    ensures
        steady(parse_fields(5, s), parse_fields(5, s.take(k)), parse_fields(5, s + x), s, k, x),
{
    reveal(parse_fields);
    let (s1, k1) = read_u64(s, k, x);
}

#[verifier::spinoff_prover]
proof fn read_worker_park(s: Seq<u8>, k: int, x: Seq<u8>)
    ensures
        steady(parse_fields(6, s), parse_fields(6, s.take(k)), parse_fields(6, s + x), s, k, x),
{
    reveal(parse_fields);
    let (s1, k1) = read_u32(s, k, x);
    let (s2, k2) = read_optional_u64(s1, k1, x);
}

#[verifier::spinoff_prover]
proof fn read_worker_unpark(s: Seq<u8>, k: int, x: Seq<u8>)
    ensures
        steady(parse_fields(7, s), parse_fields(7, s.take(k)), parse_fields(7, s + x), s, k, x),
{
    reveal(parse_fields);
    let (s1, k1) = read_u32(s, k, x);
    let (s2, k2) = read_unpark_reason(s1, k1, x);
}

#[verifier::spinoff_prover]
proof fn read_worker_steal(s: Seq<u8>, k: int, x: Seq<u8>)
    ensures
        steady(parse_fields(8, s), parse_fields(8, s.take(k)), parse_fields(8, s + x), s, k, x),
{
    reveal(parse_fields);
    let (s1, k1) = read_u32(s, k, x);
    let (s2, k2) = read_u32(s1, k1, x);
    let (s3, k3) = read_u64(s2, k2, x);
}

#[verifier::spinoff_prover]
proof fn read_queue_depth(s: Seq<u8>, k: int, x: Seq<u8>)
    ensures
        steady(parse_fields(9, s), parse_fields(9, s.take(k)), parse_fields(9, s + x), s, k, x),
{
    reveal(parse_fields);
    let (s1, k1) = read_u32(s, k, x);
    let (s2, k2) = read_u64(s1, k1, x);
    let (s3, k3) = read_u64(s2, k2, x);
    let (s4, k4) = read_lifo(s3, k3, x);
}

#[verifier::spinoff_prover]
proof fn read_io_registered(s: Seq<u8>, k: int, x: Seq<u8>)
    ensures
        steady(parse_fields(10, s), parse_fields(10, s.take(k)), parse_fields(10, s + x), s, k, x),
{
    reveal(parse_fields);
    let (s1, k1) = read_fd(s, k, x);
    let (s2, k2) = read_string(s1, k1, x);
    let (s3, k3) = read_u64(s2, k2, x);
}

#[verifier::spinoff_prover]
proof fn read_io_ready(s: Seq<u8>, k: int, x: Seq<u8>)
    ensures
        steady(parse_fields(11, s), parse_fields(11, s.take(k)), parse_fields(11, s + x), s, k, x),
{
    reveal(parse_fields);
    let (s1, k1) = read_fd(s, k, x);
    let (s2, k2) = read_string(s1, k1, x);
    let (s3, k3) = read_id_list(s2, k2, x);
}

#[verifier::spinoff_prover]
proof fn read_timer_set(s: Seq<u8>, k: int, x: Seq<u8>)
    ensures
        steady(parse_fields(12, s), parse_fields(12, s.take(k)), parse_fields(12, s + x), s, k, x),
{
    reveal(parse_fields);
    let (s1, k1) = read_u64(s, k, x);
    let (s2, k2) = read_u64(s1, k1, x);
    let (s3, k3) = read_u64(s2, k2, x);
}

#[verifier::spinoff_prover]
proof fn read_timer_fired(s: Seq<u8>, k: int, x: Seq<u8>)
    ensures
        steady(parse_fields(13, s), parse_fields(13, s.take(k)), parse_fields(13, s + x), s, k, x),
{
    reveal(parse_fields);
    let (s1, k1) = read_u64(s, k, x);
    let (s2, k2) = read_u64(s1, k1, x);
}

#[verifier::spinoff_prover]
proof fn read_timer_cancelled(s: Seq<u8>, k: int, x: Seq<u8>)
    ensures
        steady(parse_fields(14, s), parse_fields(14, s.take(k)), parse_fields(14, s + x), s, k, x),
{
    reveal(parse_fields);
    let (s1, k1) = read_u64(s, k, x);
}

#[verifier::spinoff_prover]
proof fn read_blocking_detected(s: Seq<u8>, k: int, x: Seq<u8>)
    ensures
        steady(parse_fields(15, s), parse_fields(15, s.take(k)), parse_fields(15, s + x), s, k, x),
{
    reveal(parse_fields);
    let (s1, k1) = read_u64(s, k, x);
    let (s2, k2) = read_u64(s1, k1, x);
    let (s3, k3) = read_location(s2, k2, x);
}

#[verifier::spinoff_prover]
proof fn read_budget_exhausted(s: Seq<u8>, k: int, x: Seq<u8>)
    ensures
        steady(parse_fields(16, s), parse_fields(16, s.take(k)), parse_fields(16, s + x), s, k, x),
{
    reveal(parse_fields);
    let (s1, k1) = read_u64(s, k, x);
}

#[verifier::spinoff_prover]
proof fn read_resource_contended(s: Seq<u8>, k: int, x: Seq<u8>)
    ensures
        steady(parse_fields(17, s), parse_fields(17, s.take(k)), parse_fields(17, s + x), s, k, x),
{
    reveal(parse_fields);
    let (s1, k1) = read_string(s, k, x);
    let (s2, k2) = read_u64(s1, k1, x);
    let (s3, k3) = read_id_list(s2, k2, x);
}

/// The fields of any event.
proof fn read_fields(tag: u8, s: Seq<u8>, k: int, x: Seq<u8>)
    ensures
        steady(
            parse_fields(tag, s),
            parse_fields(tag, s.take(k)),
            parse_fields(tag, s + x),
            s,
            k,
            x,
        ),
{
    if tag > 17 {
        reveal(parse_fields);
    }
    if tag == 0 {
        read_task_spawned(s, k, x);
    } else if tag == 1 {
        read_task_poll_start(s, k, x);
    } else if tag == 2 {
        read_task_poll_end(s, k, x);
    } else if tag == 3 {
        read_task_woken(s, k, x);
    } else if tag == 4 {
        read_task_dropped(s, k, x);
    } else if tag == 5 {
        read_task_aborted(s, k, x);
    } else if tag == 6 {
        read_worker_park(s, k, x);
    } else if tag == 7 {
        read_worker_unpark(s, k, x);
    } else if tag == 8 {
        read_worker_steal(s, k, x);
    } else if tag == 9 {
        read_queue_depth(s, k, x);
    } else if tag == 10 {
        read_io_registered(s, k, x);
    } else if tag == 11 {
        read_io_ready(s, k, x);
    } else if tag == 12 {
        read_timer_set(s, k, x);
    } else if tag == 13 {
        read_timer_fired(s, k, x);
    } else if tag == 14 {
        read_timer_cancelled(s, k, x);
    } else if tag == 15 {
        read_blocking_detected(s, k, x);
    } else if tag == 16 {
        read_budget_exhausted(s, k, x);
    } else if tag == 17 {
        read_resource_contended(s, k, x);
    }
}

/// A payload that decodes holds no more and no less than it needs: every strict prefix of
/// it, the empty one too, is truncated, and bytes behind it are trailing bytes.
pub proof fn law_payloads_have_one_length(payload: Seq<u8>, k: int, behind: Seq<u8>)
    requires
        decode_bytes(payload) is Ok,
        0 <= k < payload.len(),
        0 < behind.len() <= usize::MAX,
    ensures
        decode_bytes(payload.take(k)) == Err::<super::EventModel, DecodeError>(
            DecodeError::Truncated,
        ),
        decode_bytes(payload + behind) == Err::<super::EventModel, DecodeError>(
            DecodeError::TrailingBytes { tag: payload[0], remaining: behind.len() as usize },
        ),
{
    let (fields, left) = read_u8(payload, k, behind);
    read_fields(payload[0], fields, left, behind);
    let rest = parse_fields(payload[0], fields)->Ok_0.1;
    assert(rest + behind =~= behind);
}

} // verus!
