//! What the helpers on texts give, character by character.

use crate::poll::Poll;
use crate::text;
use vstd::prelude::*;

verus! {

/// The number that a row of decimal digits stands for.
pub open spec fn number_of(digits: Seq<char>) -> int
    decreases digits.len(),
{
    if digits.len() == 0 {
        0
    } else {
        number_of(digits.drop_last()) * 10 + (digits.last() as int - '0' as int)
    }
}

/// The digits of a number are digits, stand for it, and do not begin with a zero that could
/// be left out.
pub proof fn law_digits_stand_for_their_number(n: nat)
    ensures
        number_of(text::decimal(n)) == n,
        text::decimal(n).len() > 0,
        forall|i: int|
            0 <= i < text::decimal(n).len() ==> '0' <= #[trigger] text::decimal(n)[i] <= '9',
        n > 0 ==> text::decimal(n)[0] != '0',
    decreases n,
{
    if n < 10 {
        assert(text::decimal(n).drop_last() =~= Seq::empty());
        assert(number_of(Seq::empty()) == 0);
    } else {
        law_digits_stand_for_their_number(n / 10);
        assert(text::decimal(n).drop_last() =~= text::decimal(n / 10));
    }
}

/// Texts are added at the end and taken off there; a number is added as its digits, with a
/// sign where it is negative.
pub proof fn law_adding_to_a_text()
    ensures
        forall|out: &mut String, more: &str| #[trigger]
            call_ensures(text::push_text, (out, more), ()) ==> (*final(out))@ == (*out)@ + more@,
        forall|out: &mut String, n: u64| #[trigger]
            call_ensures(text::push_u64, (out, n), ()) ==> (*final(out))@.len() > (*out)@.len() && (
            *final(out))@.take((*out)@.len() as int) == (*out)@ && number_of(
                (*final(out))@.skip((*out)@.len() as int),
            ) == n,
        forall|out: &mut String, n: i32| #[trigger]
            call_ensures(text::push_i32, (out, n), ()) ==> {
                let added = (*final(out))@.skip((*out)@.len() as int);
                &&& (*final(out))@.take((*out)@.len() as int) == (*out)@
                &&& n >= 0 ==> number_of(added) == n
                &&& n < 0 ==> added.len() > 1 && added[0] == '-' && number_of(added.skip(1)) == -n
            },
        forall|n: u64, digits: String| #[trigger]
            call_ensures(text::u64_text, (n,), digits) ==> number_of(digits@) == n,
{
    assert forall|out: &mut String, n: u64| #[trigger]
        call_ensures(text::push_u64, (out, n), ()) implies (*final(out))@.len() > (*out)@.len() && (
    *final(out))@.take((*out)@.len() as int) == (*out)@ && number_of(
        (*final(out))@.skip((*out)@.len() as int),
    ) == n by {
        law_digits_stand_for_their_number(n as nat);
        let digits = text::decimal(n as nat);
        assert(((*out)@ + digits).take((*out)@.len() as int) =~= (*out)@);
        assert(((*out)@ + digits).skip((*out)@.len() as int) =~= digits);
    }
    assert forall|out: &mut String, n: i32| #[trigger]
        call_ensures(text::push_i32, (out, n), ()) implies {
        let added = (*final(out))@.skip((*out)@.len() as int);
        &&& (*final(out))@.take((*out)@.len() as int) == (*out)@
        &&& n >= 0 ==> number_of(added) == n
        &&& n < 0 ==> added.len() > 1 && added[0] == '-' && number_of(added.skip(1)) == -n
    } by {
        let digits = text::signed_decimal(n as int);
        assert(((*out)@ + digits).take((*out)@.len() as int) =~= (*out)@);
        assert(((*out)@ + digits).skip((*out)@.len() as int) =~= digits);
        if n < 0 {
            law_digits_stand_for_their_number((-n) as nat);
            assert(digits.skip(1) =~= text::decimal((-n) as nat));
        } else {
            law_digits_stand_for_their_number(n as nat);
        }
    }
    assert forall|n: u64, digits: String| #[trigger]
        call_ensures(text::u64_text, (n,), digits) implies number_of(digits@) == n by {
        law_digits_stand_for_their_number(n as nat);
    }
}

/// A text that is too long is cut, with a mark at its end, to as many characters as it may
/// have; any other is left as it is. Letters A to Z become small ones, and nothing else
/// changes.
pub proof fn law_cutting_and_lowering()
    ensures
        forall|value: &str, width: usize, cut: String| #[trigger]
            call_ensures(text::shorten, (value, width), cut) ==> {
                &&& value@.len() <= width ==> cut@ == value@
                &&& value@.len() > width && width > 0 ==> cut@.len() == width && cut@[width - 1]
                    == '~' && cut@.take(width - 1) == value@.take(width - 1)
                &&& value@.len() > width && width == 0 ==> cut@ == seq!['~']
            },
        forall|value: &str, chars: Vec<char>| #[trigger]
            call_ensures(text::lower_chars, (value,), chars) ==> {
                &&& chars@.len() == value@.len()
                &&& forall|i: int|
                    0 <= i < chars@.len() ==> (if 'A' <= value@[i] <= 'Z' {
                        #[trigger] chars@[i] as int == value@[i] as int + 32
                    } else {
                        chars@[i] == value@[i]
                    })
            },
        forall|value: &str, chars: Vec<char>| #[trigger]
            call_ensures(text::chars_of, (value,), chars) ==> chars@ == value@,
        forall|whole: Vec<char>, part: Vec<char>, found: bool| #[trigger]
            call_ensures(text::contains_chars, (&whole, &part), found) ==> (found <==> exists|
                at: int,
            |
                #[trigger] stands_at(whole@, part@, at)),
{
    assert forall|value: &str, width: usize, cut: String| #[trigger]
        call_ensures(text::shorten, (value, width), cut) implies {
        &&& value@.len() <= width ==> cut@ == value@
        &&& value@.len() > width && width > 0 ==> cut@.len() == width && cut@[width - 1] == '~'
            && cut@.take(width - 1) == value@.take(width - 1)
        &&& value@.len() > width && width == 0 ==> cut@ == seq!['~']
    } by {
        if value@.len() > width && width > 0 {
            assert(value@.take(width - 1).push('~').take(width - 1) =~= value@.take(width - 1));
        }
        if value@.len() > width && width == 0 {
            assert(value@.take(0).push('~') =~= seq!['~']);
        }
    }
    assert forall|whole: Vec<char>, part: Vec<char>, found: bool| #[trigger]
        call_ensures(text::contains_chars, (&whole, &part), found) implies (found <==> exists|
        at: int,
    |
        #[trigger] stands_at(whole@, part@, at)) by {
        if found {
            let i = choose|i: int|
                0 <= i && i + part@.len() <= whole@.len() && #[trigger] whole@.subrange(
                    i,
                    i + part@.len(),
                ) == part@;
            assert forall|k: int| 0 <= k < part@.len() implies whole@[i + k]
                == #[trigger] part@[k] by {
                assert(whole@.subrange(i, i + part@.len())[k] == part@[k]);
            }
            assert(stands_at(whole@, part@, i));
        }
        if exists|at: int| #[trigger] stands_at(whole@, part@, at) {
            let at = choose|at: int| #[trigger] stands_at(whole@, part@, at);
            assert(whole@.subrange(at, at + part@.len()) =~= part@);
        }
    }
}

/// Whether a text holds another from a place on.
pub open spec fn stands_at(whole: Seq<char>, part: Seq<char>, at: int) -> bool {
    &&& 0 <= at && at + part.len() <= whole.len()
    &&& forall|k: int| 0 <= k < part.len() ==> whole[at + k] == #[trigger] part[k]
}

/// Of two texts the one with the smaller byte at the first place where they differ comes
/// first, and of two where one is the beginning of the other, the shorter one.
pub proof fn law_bytes_are_compared_from_the_front(a: Seq<u8>, b: Seq<u8>, common: Seq<u8>)
    ensures
        b.len() > 0 && a.len() > 0 && a[0] < b[0] ==> text::bytes_less(common + a, common + b),
        b.len() > 0 && a.len() > 0 && a[0] > b[0] ==> !text::bytes_less(common + a, common + b),
        b.len() > 0 && a.len() == 0 ==> text::bytes_less(common + a, common + b),
        b.len() == 0 ==> !text::bytes_less(common + a, common + b),
    decreases common.len(),
{
    if common.len() == 0 {
        assert(common + a =~= a);
        assert(common + b =~= b);
    } else {
        let rest = common.drop_first();
        law_bytes_are_compared_from_the_front(a, b, rest);
        assert((common + a).drop_first() =~= rest + a);
        assert((common + b).drop_first() =~= rest + b);
    }
}

/// A text comes before another by its bytes. A poll is ready or has to be waited for.
pub proof fn law_comparing_and_asking<T>()
    ensures
        forall|a: &str, b: &str, before: bool| #[trigger]
            call_ensures(text::text_before, (a, b), before) ==> before == text::bytes_less(
                vstd::utf8::encode_utf8(a@),
                vstd::utf8::encode_utf8(b@),
            ),
        forall|poll: Poll<T>, ready: bool| #[trigger]
            call_ensures(Poll::<T>::is_ready, (&poll,), ready) ==> (ready <==> poll is Ready),
        forall|poll: Poll<T>, pending: bool| #[trigger]
            call_ensures(Poll::<T>::is_pending, (&poll,), pending) ==> (pending
                <==> poll is Pending),
{
}

} // verus!
