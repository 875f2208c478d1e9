//! Reading the messages of the web bridge back: what a browser finds in them.

use super::{escaped, escaped_char, hex_digit, string_json, unescaped};
use crate::console::event::{PollResult, UnparkReason};
use crate::text::{decimal, digit, signed_decimal};
use crate::wire::{EventModel, LocationModel, WakeSourceModel};
use vstd::prelude::*;

verus! {

// ---------------------------------------------------------------------------
// A reader
// ---------------------------------------------------------------------------

/// A value without parts.
pub enum Scalar {
    Text(Seq<char>),
    Number(int),
    Truth(bool),
    Null,
}

/// A value of a message.
pub enum Value {
    Plain(Scalar),
    List(Seq<int>),
    Object(Seq<(Seq<char>, Scalar)>),
}

/// Whether a character is a decimal digit.
pub open spec fn is_digit(c: char) -> bool {
    '0' <= c <= '9'
}

/// How many digits a text begins with.
pub open spec fn digits_ahead(t: Seq<char>) -> nat
    decreases t.len(),
{
    if t.len() > 0 && is_digit(t[0]) {
        1 + digits_ahead(t.skip(1))
    } else {
        0
    }
}

/// The number that some digits stand for.
pub open spec fn digits_value(t: Seq<char>) -> nat
    decreases t.len(),
{
    if t.len() == 0 {
        0
    } else {
        10 * digits_value(t.drop_last()) + (t.last() as u32 - 48) as nat
    }
}

/// Reads a number, and gives what stands behind it.
pub open spec fn read_number(t: Seq<char>) -> Option<(int, Seq<char>)> {
    let negative = t.len() > 0 && t[0] == '-';
    let body = if negative {
        t.skip(1)
    } else {
        t
    };
    let n = digits_ahead(body) as int;
    if n == 0 {
        None
    } else {
        let value = digits_value(body.take(n)) as int;
        Some(
            (
                if negative {
                    -value
                } else {
                    value
                },
                body.skip(n),
            ),
        )
    }
}

/// Where a string ends, looking from a place within it: at the first quotation mark that no
/// backslash stands before.
pub open spec fn string_end(t: Seq<char>, i: int) -> int
    decreases
        if i < t.len() {
            t.len() - i
        } else {
            0
        },
{
    if i >= t.len() {
        t.len() as int
    } else if t[i] == '"' {
        i
    } else if t[i] == '\\' {
        string_end(t, i + 2)
    } else {
        string_end(t, i + 1)
    }
}

/// Reads a string, and gives what stands behind it.
pub open spec fn read_string(t: Seq<char>) -> Option<(Seq<char>, Seq<char>)> {
    if t.len() == 0 || t[0] != '"' {
        None
    } else {
        let end = string_end(t, 1);
        if end >= t.len() {
            None
        } else {
            Some((unescaped(t.subrange(1, end)), t.skip(end + 1)))
        }
    }
}

/// Whether a text begins with another.
pub open spec fn begins_with(t: Seq<char>, front: Seq<char>) -> bool {
    front.len() <= t.len() && t.take(front.len() as int) == front
}

/// Reads a value without parts, and gives what stands behind it.
pub open spec fn read_scalar(t: Seq<char>) -> Option<(Scalar, Seq<char>)> {
    if t.len() == 0 {
        None
    } else if t[0] == '"' {
        match read_string(t) {
            Some((text, rest)) => Some((Scalar::Text(text), rest)),
            None => None,
        }
    } else if begins_with(t, seq!['n', 'u', 'l', 'l']) {
        Some((Scalar::Null, t.skip(4)))
    } else if begins_with(t, seq!['t', 'r', 'u', 'e']) {
        Some((Scalar::Truth(true), t.skip(4)))
    } else if begins_with(t, seq!['f', 'a', 'l', 's', 'e']) {
        Some((Scalar::Truth(false), t.skip(5)))
    } else {
        match read_number(t) {
            Some((number, rest)) => Some((Scalar::Number(number), rest)),
            None => None,
        }
    }
}

/// Reads the numbers of a list and its end, and gives what stands behind it.
pub open spec fn read_numbers(t: Seq<char>) -> Option<(Seq<int>, Seq<char>)>
    decreases t.len(),
{
    match read_number(t) {
        Some((number, rest)) => if rest.len() == 0 || rest.len() >= t.len() {
            None
        } else if rest[0] == ']' {
            Some((seq![number], rest.skip(1)))
        } else if rest[0] == ',' {
            match read_numbers(rest.skip(1)) {
                Some((more, behind)) => Some((seq![number] + more, behind)),
                None => None,
            }
        } else {
            None
        },
        None => None,
    }
}

/// Reads the name of a field and its colon, and gives what stands behind them.
pub open spec fn read_name(t: Seq<char>) -> Option<(Seq<char>, Seq<char>)> {
    match read_string(t) {
        Some((name, rest)) => if rest.len() > 0 && rest[0] == ':' {
            Some((name, rest.skip(1)))
        } else {
            None
        },
        None => None,
    }
}

/// Reads the fields of an object within a message and its end, and gives what stands behind
/// it.
pub open spec fn read_fields(t: Seq<char>) -> Option<(Seq<(Seq<char>, Scalar)>, Seq<char>)>
    decreases t.len(),
{
    match read_name(t) {
        Some((name, value)) => match read_scalar(value) {
            Some((scalar, rest)) => if rest.len() == 0 || rest.len() >= t.len() {
                None
            } else if rest[0] == '}' {
                Some((seq![(name, scalar)], rest.skip(1)))
            } else if rest[0] == ',' {
                match read_fields(rest.skip(1)) {
                    Some((more, behind)) => Some((seq![(name, scalar)] + more, behind)),
                    None => None,
                }
            } else {
                None
            },
            None => None,
        },
        None => None,
    }
}

/// Reads a value of a message, and gives what stands behind it.
pub open spec fn read_value(t: Seq<char>) -> Option<(Value, Seq<char>)> {
    if begins_with(t, seq!['[', ']']) {
        Some((Value::List(Seq::empty()), t.skip(2)))
    } else if t.len() > 0 && t[0] == '[' {
        match read_numbers(t.skip(1)) {
            Some((all, rest)) => Some((Value::List(all), rest)),
            None => None,
        }
    } else if t.len() > 0 && t[0] == '{' {
        match read_fields(t.skip(1)) {
            Some((fields, rest)) => Some((Value::Object(fields), rest)),
            None => None,
        }
    } else {
        match read_scalar(t) {
            Some((scalar, rest)) => Some((Value::Plain(scalar), rest)),
            None => None,
        }
    }
}

/// Reads the fields of a message and its end, and gives what stands behind it.
pub open spec fn read_members(t: Seq<char>) -> Option<(Seq<(Seq<char>, Value)>, Seq<char>)>
    decreases t.len(),
{
    match read_name(t) {
        Some((name, behind)) => match read_value(behind) {
            Some((value, rest)) => if rest.len() == 0 || rest.len() >= t.len() {
                None
            } else if rest[0] == '}' {
                Some((seq![(name, value)], rest.skip(1)))
            } else if rest[0] == ',' {
                match read_members(rest.skip(1)) {
                    Some((more, last)) => Some((seq![(name, value)] + more, last)),
                    None => None,
                }
            } else {
                None
            },
            None => None,
        },
        None => None,
    }
}

/// The fields of a message by their names, where a text is one.
pub open spec fn read_message(t: Seq<char>) -> Option<Seq<(Seq<char>, Value)>> {
    if t.len() > 0 && t[0] == '{' {
        match read_members(t.skip(1)) {
            Some((fields, rest)) => if rest.len() == 0 {
                Some(fields)
            } else {
                None
            },
            None => None,
        }
    } else {
        None
    }
}

// ---------------------------------------------------------------------------
// Reading what was written
// ---------------------------------------------------------------------------

/// The digits of a number are digits and stand for it.
proof fn lemma_decimal(n: nat)
    ensures
        decimal(n).len() > 0,
        forall|i: int| 0 <= i < decimal(n).len() ==> is_digit(#[trigger] decimal(n)[i]),
        digits_value(decimal(n)) == n,
    decreases n,
{
    if n < 10 {
        assert(decimal(n) =~= seq![digit(n)]);
        assert(decimal(n).drop_last() =~= Seq::empty());
        assert(digits_value(Seq::<char>::empty()) == 0);
        assert(decimal(n).last() == digit(n));
    } else {
        lemma_decimal(n / 10);
        assert(decimal(n).drop_last() =~= decimal(n / 10));
        assert(decimal(n).last() == digit(n % 10));
    }
}

/// As many digits are ahead as there are.
proof fn lemma_digits_ahead(d: Seq<char>, rest: Seq<char>)
    requires
        forall|i: int| 0 <= i < d.len() ==> is_digit(#[trigger] d[i]),
        rest.len() == 0 || !is_digit(rest[0]),
    ensures
        digits_ahead(d + rest) == d.len(),
    decreases d.len(),
{
    if d.len() == 0 {
        assert(d + rest =~= rest);
    } else {
        assert((d + rest).skip(1) =~= d.skip(1) + rest);
        assert forall|i: int| 0 <= i < d.skip(1).len() implies is_digit(#[trigger] d.skip(1)[i]) by {
            assert(d.skip(1)[i] == d[i + 1]);
        }
        lemma_digits_ahead(d.skip(1), rest);
        assert(is_digit(d[0]));
    }
}

/// A number is read back.
proof fn lemma_number(n: int, rest: Seq<char>)
    requires
        rest.len() == 0 || !is_digit(rest[0]),
    ensures
        read_number(signed_decimal(n) + rest) == Some((n, rest)),
        signed_decimal(n).len() > 0,
        is_digit(signed_decimal(n)[0]) || signed_decimal(n)[0] == '-',
{
    let m = if n < 0 {
        (-n) as nat
    } else {
        n as nat
    };
    let d = decimal(m);
    lemma_decimal(m);
    lemma_digits_ahead(d, rest);
    let t = signed_decimal(n) + rest;
    assert(is_digit(d[0]));
    let body = if n < 0 {
        t.skip(1)
    } else {
        t
    };
    assert(body =~= d + rest);
    assert(body.take(d.len() as int) =~= d);
    assert(body.skip(d.len() as int) =~= rest);
}

/// Looking for the end of a string passes over a character that was escaped.
proof fn lemma_past_char(front: Seq<char>, c: char, tail: Seq<char>)
    ensures
        string_end(front + escaped_char(c) + tail, front.len() as int) == string_end(
            front + escaped_char(c) + tail,
            (front.len() + escaped_char(c).len()) as int,
        ),
{
    let t = front + escaped_char(c) + tail;
    let n = front.len() as int;
    reveal_with_fuel(string_end, 8);
    if escaped_char(c).len() == 1 {
        assert(t[n] == c);
    } else if escaped_char(c).len() == 2 {
        assert(t[n] == '\\');
    } else {
        assert(t[n] == '\\');
        assert(t[n + 2] == '0');
        assert(t[n + 3] == '0');
        assert(t[n + 4] == hex_digit(((c as u32) / 16) as nat));
        assert(t[n + 5] == hex_digit(((c as u32) % 16) as nat));
    }
}

/// Looking for the end of a string passes over a text that was escaped.
proof fn lemma_past_text(front: Seq<char>, text: Seq<char>, tail: Seq<char>)
    ensures
        string_end(front + escaped(text) + tail, front.len() as int) == string_end(
            front + escaped(text) + tail,
            (front.len() + escaped(text).len()) as int,
        ),
    decreases text.len(),
{
    if text.len() > 0 {
        let c = text.last();
        let before = escaped(text.drop_last());
        let all = front + escaped(text) + tail;
        lemma_past_text(front, text.drop_last(), escaped_char(c) + tail);
        assert(front + before + (escaped_char(c) + tail) =~= all);
        lemma_past_char(front + before, c, tail);
        assert((front + before) + escaped_char(c) + tail =~= all);
    }
}

/// A string is read back.
proof fn lemma_string(text: Seq<char>, rest: Seq<char>)
    ensures
        read_string(string_json(text) + rest) == Some((text, rest)),
        string_json(text).len() > 0,
        string_json(text)[0] == '"',
{
    let t = string_json(text) + rest;
    let tail = seq!['"'] + rest;
    let end: int = 1 + escaped(text).len() as int;
    lemma_past_text(seq!['"'], text, tail);
    assert(t =~= seq!['"'] + escaped(text) + tail);
    assert(t[end] == '"');
    assert(string_end(t, 1) == end);
    assert(t.subrange(1, end) =~= escaped(text));
    assert(t.skip(end + 1) =~= rest);
    super::law_escape_is_invertible(text);
}

/// How a value without parts is written.
spec fn scalar_text(scalar: Scalar) -> Seq<char> {
    match scalar {
        Scalar::Text(text) => string_json(text),
        Scalar::Number(number) => signed_decimal(number),
        Scalar::Truth(true) => seq!['t', 'r', 'u', 'e'],
        Scalar::Truth(false) => seq!['f', 'a', 'l', 's', 'e'],
        Scalar::Null => seq!['n', 'u', 'l', 'l'],
    }
}

/// A value without parts is read back.
proof fn lemma_scalar(scalar: Scalar, rest: Seq<char>)
    requires
        rest.len() == 0 || !is_digit(rest[0]),
    ensures
        read_scalar(scalar_text(scalar) + rest) == Some((scalar, rest)),
        scalar_text(scalar).len() > 0,
        scalar_text(scalar)[0] != '[' && scalar_text(scalar)[0] != '{',
{
    let t = scalar_text(scalar) + rest;
    match scalar {
        Scalar::Text(text) => {
            lemma_string(text, rest);
        },
        Scalar::Number(number) => {
            lemma_number(number, rest);
            let c = t[0];
            assert(is_digit(c) || c == '-');
            if begins_with(t, seq!['n', 'u', 'l', 'l']) {
                assert(t.take(4)[0] == 'n');
            }
            if begins_with(t, seq!['t', 'r', 'u', 'e']) {
                assert(t.take(4)[0] == 't');
            }
            if begins_with(t, seq!['f', 'a', 'l', 's', 'e']) {
                assert(t.take(5)[0] == 'f');
            }
        },
        Scalar::Truth(true) => {
            assert(t.take(4) =~= seq!['t', 'r', 'u', 'e']);
            if begins_with(t, seq!['n', 'u', 'l', 'l']) {
                assert(t.take(4)[0] == 'n');
            }
            assert(t.skip(4) =~= rest);
        },
        Scalar::Truth(false) => {
            assert(t.take(5) =~= seq!['f', 'a', 'l', 's', 'e']);
            if begins_with(t, seq!['n', 'u', 'l', 'l']) {
                assert(t.take(4)[0] == 'n');
            }
            if begins_with(t, seq!['t', 'r', 'u', 'e']) {
                assert(t.take(4)[0] == 't');
            }
            assert(t.skip(5) =~= rest);
        },
        Scalar::Null => {
            assert(t.take(4) =~= seq!['n', 'u', 'l', 'l']);
            assert(t.skip(4) =~= rest);
        },
    }
}

/// The numbers of a list are read back.
proof fn lemma_numbers(ids: Seq<u64>, rest: Seq<char>)
    requires
        ids.len() > 0,
    ensures
        read_numbers(super::numbers_json(ids) + seq![']'] + rest) == Some(
            (ids.map_values(|id: u64| id as int), rest),
        ),
    decreases ids.len(),
{
    let t = super::numbers_json(ids) + seq![']'] + rest;
    let first = ids[0] as int;
    let more = ids.drop_first();
    lemma_numbers_front(ids);
    if ids.len() == 1 {
        let tail = seq![']'] + rest;
        lemma_number(first, tail);
        assert(t =~= signed_decimal(first) + tail);
        assert(tail.skip(1) =~= rest);
        assert(ids.map_values(|id: u64| id as int) =~= seq![first]);
    } else {
        let behind = super::numbers_json(more) + seq![']'] + rest;
        let tail = seq![','] + behind;
        lemma_number(first, tail);
        assert(t =~= signed_decimal(first) + tail);
        assert(tail.skip(1) =~= behind);
        lemma_numbers(more, rest);
        assert(ids.map_values(|id: u64| id as int) =~= seq![first] + more.map_values(
            |id: u64| id as int,
        ));
    }
}

/// Parts of a list may be grouped in any way.
proof fn lemma_grouping(d: Seq<char>, c: Seq<char>, m: Seq<char>, z: Seq<char>)
    ensures
        (d + c + m) + c + z == d + c + (m + c + z),
{
    assert((d + c + m) + c + z =~= d + c + (m + c + z));
}

/// A list begins with its first number.
proof fn lemma_numbers_front(ids: Seq<u64>)
    requires
        ids.len() > 0,
    ensures
        super::numbers_json(ids) == if ids.len() == 1 {
            signed_decimal(ids[0] as int)
        } else {
            signed_decimal(ids[0] as int) + seq![','] + super::numbers_json(ids.drop_first())
        },
    decreases ids.len(),
{
    if ids.len() == 2 {
        assert(ids.drop_last() =~= seq![ids[0]]);
        assert(ids.drop_first() =~= seq![ids[1]]);
        assert(super::numbers_json(seq![ids[0]]) == decimal(ids[0] as nat));
        assert(super::numbers_json(seq![ids[1]]) == decimal(ids[1] as nat));
        assert(super::numbers_json(ids) =~= signed_decimal(ids[0] as int) + seq![',']
            + super::numbers_json(ids.drop_first()));
    } else if ids.len() > 2 {
        let front = ids.drop_last();
        lemma_numbers_front(front);
        let more = ids.drop_first();
        assert(front.drop_first() =~= more.drop_last());
        assert(more.last() == ids.last());
        assert(front[0] == ids[0]);
        let d = signed_decimal(ids[0] as int);
        let m = super::numbers_json(more.drop_last());
        let z = decimal(ids.last() as nat);
        assert(super::numbers_json(more) == m + seq![','] + z);
        assert(super::numbers_json(front) == d + seq![','] + m);
        assert(super::numbers_json(ids) == super::numbers_json(front) + seq![','] + z);
        lemma_grouping(d, seq![','], m, z);
    }
}

/// How the name of a field is written, with its colon.
spec fn name_text(name: Seq<char>) -> Seq<char> {
    string_json(name) + seq![':']
}

/// The name of a field is read back.
proof fn lemma_name(name: Seq<char>, rest: Seq<char>)
    ensures
        read_name(name_text(name) + rest) == Some((name, rest)),
        name_text(name).len() > 0,
{
    let behind = seq![':'] + rest;
    lemma_string(name, behind);
    assert(name_text(name) + rest =~= string_json(name) + behind);
    assert(behind.skip(1) =~= rest);
}

/// How the fields of an object are written, from one on.
spec fn fields_text(fields: Seq<(Seq<char>, Scalar)>) -> Seq<char>
    decreases fields.len(),
{
    if fields.len() == 0 {
        Seq::empty()
    } else {
        name_text(fields[0].0) + scalar_text(fields[0].1) + (if fields.len() == 1 {
            seq!['}']
        } else {
            seq![','] + fields_text(fields.drop_first())
        })
    }
}

/// The fields of an object are read back.
proof fn lemma_fields(fields: Seq<(Seq<char>, Scalar)>, rest: Seq<char>)
    requires
        fields.len() > 0,
    ensures
        read_fields(fields_text(fields) + rest) == Some((fields, rest)),
    decreases fields.len(),
{
    let (name, scalar) = fields[0];
    let t = fields_text(fields) + rest;
    if fields.len() == 1 {
        let tail = seq!['}'] + rest;
        let behind = scalar_text(scalar) + tail;
        assert(t =~= name_text(name) + behind);
        lemma_name(name, behind);
        lemma_scalar(scalar, tail);
        assert(tail.skip(1) =~= rest);
        assert(fields =~= seq![(name, scalar)]);
    } else {
        let more = fields_text(fields.drop_first()) + rest;
        let tail = seq![','] + more;
        let behind = scalar_text(scalar) + tail;
        assert(t =~= name_text(name) + behind);
        lemma_name(name, behind);
        lemma_scalar(scalar, tail);
        assert(tail.skip(1) =~= more);
        lemma_fields(fields.drop_first(), rest);
        assert(fields =~= seq![(name, scalar)] + fields.drop_first());
    }
}

/// How a value of a message is written, where it is a list of these numbers or another
/// value.
spec fn value_text(value: Value, ids: Seq<u64>) -> Seq<char> {
    match value {
        Value::Plain(scalar) => scalar_text(scalar),
        Value::List(_) => seq!['['] + super::numbers_json(ids) + seq![']'],
        Value::Object(fields) => seq!['{'] + fields_text(fields),
    }
}

/// A value of a message is read back.
proof fn lemma_value(value: Value, ids: Seq<u64>, rest: Seq<char>)
    requires
        rest.len() > 0 && !is_digit(rest[0]),
        value matches Value::List(all) ==> all == ids.map_values(|id: u64| id as int),
        value matches Value::Object(fields) ==> fields.len() > 0,
    ensures
        read_value(value_text(value, ids) + rest) == Some((value, rest)),
        value_text(value, ids).len() > 0,
{
    let t = value_text(value, ids) + rest;
    match value {
        Value::Plain(scalar) => {
            lemma_scalar(scalar, rest);
            if begins_with(t, seq!['[', ']']) {
                assert(t.take(2)[0] == '[');
            }
        },
        Value::List(all) => {
            if ids.len() == 0 {
                assert(all =~= Seq::empty());
                assert(t.take(2) =~= seq!['[', ']']);
                assert(t.skip(2) =~= rest);
            } else {
                lemma_numbers(ids, rest);
                lemma_numbers_front(ids);
                lemma_number(ids[0] as int, Seq::empty());
                assert(t.skip(1) =~= super::numbers_json(ids) + seq![']'] + rest);
                if begins_with(t, seq!['[', ']']) {
                    assert(t.take(2)[1] == ']');
                    assert(t[1] == super::numbers_json(ids)[0]);
                    assert(t[1] == signed_decimal(ids[0] as int)[0]);
                }
            }
        },
        Value::Object(fields) => {
            lemma_fields(fields, rest);
            assert(t.skip(1) =~= fields_text(fields) + rest);
            if begins_with(t, seq!['[', ']']) {
                assert(t.take(2)[0] == '[');
            }
        },
    }
}

/// How the fields of a message are written, from one on. At most one of them is a list, and
/// `ids` are its numbers.
spec fn members_text(fields: Seq<(Seq<char>, Value)>, ids: Seq<u64>) -> Seq<char>
    decreases fields.len(),
{
    if fields.len() == 0 {
        Seq::empty()
    } else {
        name_text(fields[0].0) + value_text(fields[0].1, ids) + (if fields.len() == 1 {
            seq!['}']
        } else {
            seq![','] + members_text(fields.drop_first(), ids)
        })
    }
}

/// Whether a field can be written with those numbers.
spec fn writable(field: (Seq<char>, Value), ids: Seq<u64>) -> bool {
    &&& field.1 matches Value::List(all) ==> all == ids.map_values(|id: u64| id as int)
    &&& field.1 matches Value::Object(fields) ==> fields.len() > 0
}

/// The fields of a message are read back.
proof fn lemma_members(fields: Seq<(Seq<char>, Value)>, ids: Seq<u64>)
    requires
        fields.len() > 0,
        forall|i: int| 0 <= i < fields.len() ==> writable(#[trigger] fields[i], ids),
    ensures
        read_members(members_text(fields, ids)) == Some((fields, Seq::<char>::empty())),
    decreases fields.len(),
{
    let (name, value) = fields[0];
    let t = members_text(fields, ids);
    assert(writable(fields[0], ids));
    if fields.len() == 1 {
        let tail = seq!['}'];
        let behind = value_text(value, ids) + tail;
        assert(t =~= name_text(name) + behind);
        lemma_name(name, behind);
        lemma_value(value, ids, tail);
        assert(tail.skip(1) =~= Seq::empty());
        assert(fields =~= seq![(name, value)]);
    } else {
        let more = members_text(fields.drop_first(), ids);
        let tail = seq![','] + more;
        let behind = value_text(value, ids) + tail;
        assert(t =~= name_text(name) + behind);
        lemma_name(name, behind);
        lemma_value(value, ids, tail);
        assert(tail.skip(1) =~= more);
        assert forall|i: int| 0 <= i < fields.drop_first().len() implies writable(
            #[trigger] fields.drop_first()[i],
            ids,
        ) by {
            assert(fields.drop_first()[i] == fields[i + 1]);
        }
        lemma_members(fields.drop_first(), ids);
        assert(fields =~= seq![(name, value)] + fields.drop_first());
    }
}

/// A message is read back.
proof fn lemma_message(t: Seq<char>, fields: Seq<(Seq<char>, Value)>, ids: Seq<u64>)
    requires
        fields.len() > 0,
        forall|i: int| 0 <= i < fields.len() ==> writable(#[trigger] fields[i], ids),
        t == seq!['{'] + members_text(fields, ids),
    ensures
        read_message(t) == Some(fields),
{
    lemma_members(fields, ids);
    assert(t.skip(1) =~= members_text(fields, ids));
}

/// A name without anything to escape stands in its string as it is.
proof fn lemma_plain(name: Seq<char>)
    requires
        forall|i: int|
            0 <= i < name.len() ==> ('a' <= #[trigger] name[i] <= 'z' || name[i] == '_'),
    ensures
        escaped(name) == name,
    decreases name.len(),
{
    if name.len() > 0 {
        let front = name.drop_last();
        assert forall|i: int| 0 <= i < front.len() implies ('a' <= #[trigger] front[i] <= 'z'
            || front[i] == '_') by {
            assert(front[i] == name[i]);
        }
        lemma_plain(front);
        assert('a' <= name[name.len() - 1] <= 'z' || name[name.len() - 1] == '_');
        assert(escaped_char(name.last()) =~= seq![name.last()]);
        assert(front + seq![name.last()] =~= name);
    } else {
        assert(escaped(name) =~= name);
    }
}

// ---------------------------------------------------------------------------
// What the messages say
// ---------------------------------------------------------------------------

pub open spec fn number(n: int) -> Value {
    Value::Plain(Scalar::Number(n))
}

pub open spec fn text(t: Seq<char>) -> Value {
    Value::Plain(Scalar::Text(t))
}

pub open spec fn optional_text(t: Option<Seq<char>>) -> Value {
    match t {
        Some(t) => text(t),
        None => Value::Plain(Scalar::Null),
    }
}

pub open spec fn optional_number(n: Option<u64>) -> Value {
    match n {
        Some(n) => number(n as int),
        None => Value::Plain(Scalar::Null),
    }
}

pub open spec fn numbers(ids: Seq<u64>) -> Value {
    Value::List(ids.map_values(|id: u64| id as int))
}

pub open spec fn place(location: LocationModel) -> Value {
    Value::Object(
        seq![
            ("file"@, Scalar::Text(location.file)),
            ("line"@, Scalar::Number(location.line as int)),
        ],
    )
}

pub open spec fn source(by: WakeSourceModel) -> Value {
    Value::Object(
        match by {
            WakeSourceModel::Io { fd } => seq![
                ("kind"@, Scalar::Text("io"@)),
                ("fd"@, Scalar::Number(fd as int)),
            ],
            WakeSourceModel::Timer { id } => seq![
                ("kind"@, Scalar::Text("timer"@)),
                ("id"@, Scalar::Number(id as int)),
            ],
            WakeSourceModel::Task { id } => seq![
                ("kind"@, Scalar::Text("task"@)),
                ("id"@, Scalar::Number(id as int)),
            ],
            WakeSourceModel::Channel { kind } => seq![
                ("kind"@, Scalar::Text("channel"@)),
                ("channel"@, Scalar::Text(kind)),
            ],
            WakeSourceModel::External => seq![("kind"@, Scalar::Text("external"@))],
        },
    )
}

pub open spec fn result_name(result: PollResult) -> Seq<char> {
    match result {
        PollResult::Ready => "ready"@,
        PollResult::Pending => "pending"@,
        PollResult::Panicked => "panicked"@,
    }
}

pub open spec fn reason_name(reason: UnparkReason) -> Seq<char> {
    match reason {
        UnparkReason::Task => "task"@,
        UnparkReason::Shutdown => "shutdown"@,
        UnparkReason::Steal => "steal"@,
        UnparkReason::Event => "event"@,
    }
}

/// What a browser finds in the message of an event: what happened, and every value of the
/// event under its name.
pub open spec fn fields_of(event: EventModel) -> Seq<(Seq<char>, Value)> {
    match event {
        EventModel::TaskSpawned { id, name, location, parent } => seq![
            ("type"@, text("task_spawned"@)),
            ("id"@, number(id as int)),
            ("name"@, optional_text(name)),
            ("location"@, place(location)),
            ("parent"@, optional_number(parent)),
        ],
        EventModel::TaskPollStart { id, worker, at_ns } => seq![
            ("type"@, text("task_poll_start"@)),
            ("id"@, number(id as int)),
            ("worker"@, number(worker as int)),
            ("at_ns"@, number(at_ns as int)),
        ],
        EventModel::TaskPollEnd { id, worker, duration_ns, result } => seq![
            ("type"@, text("task_poll_end"@)),
            ("id"@, number(id as int)),
            ("worker"@, number(worker as int)),
            ("duration_ns"@, number(duration_ns as int)),
            ("result"@, text(result_name(result))),
        ],
        EventModel::TaskWoken { id, by } => seq![
            ("type"@, text("task_woken"@)),
            ("id"@, number(id as int)),
            ("by"@, source(by)),
        ],
        EventModel::TaskDropped { id, total_polls, total_busy_ns, total_idle_ns } => seq![
            ("type"@, text("task_dropped"@)),
            ("id"@, number(id as int)),
            ("total_polls"@, number(total_polls as int)),
            ("total_busy_ns"@, number(total_busy_ns as int)),
            ("total_idle_ns"@, number(total_idle_ns as int)),
        ],
        EventModel::TaskAborted { id } => seq![
            ("type"@, text("task_aborted"@)),
            ("id"@, number(id as int)),
        ],
        EventModel::WorkerPark { worker, timeout_ns } => seq![
            ("type"@, text("worker_park"@)),
            ("worker"@, number(worker as int)),
            ("timeout_ns"@, optional_number(timeout_ns)),
        ],
        EventModel::WorkerUnpark { worker, reason } => seq![
            ("type"@, text("worker_unpark"@)),
            ("worker"@, number(worker as int)),
            ("reason"@, text(reason_name(reason))),
        ],
        EventModel::WorkerSteal { thief, victim, count } => seq![
            ("type"@, text("worker_steal"@)),
            ("thief"@, number(thief as int)),
            ("victim"@, number(victim as int)),
            ("count"@, number(count as int)),
        ],
        EventModel::QueueDepth { worker, local, global, lifo } => seq![
            ("type"@, text("queue_depth"@)),
            ("worker"@, number(worker as int)),
            ("local"@, number(local as int)),
            ("global"@, number(global as int)),
            ("lifo"@, Value::Plain(Scalar::Truth(lifo))),
        ],
        EventModel::IoRegistered { fd, interest, task } => seq![
            ("type"@, text("io_registered"@)),
            ("fd"@, number(fd as int)),
            ("interest"@, text(interest)),
            ("task"@, number(task as int)),
        ],
        EventModel::IoReady { fd, readiness, woke } => seq![
            ("type"@, text("io_ready"@)),
            ("fd"@, number(fd as int)),
            ("readiness"@, text(readiness)),
            ("woke"@, numbers(woke)),
        ],
        EventModel::TimerSet { id, deadline_ns, task } => seq![
            ("type"@, text("timer_set"@)),
            ("id"@, number(id as int)),
            ("deadline_ns"@, number(deadline_ns as int)),
            ("task"@, number(task as int)),
        ],
        EventModel::TimerFired { id, lateness_ns } => seq![
            ("type"@, text("timer_fired"@)),
            ("id"@, number(id as int)),
            ("lateness_ns"@, number(lateness_ns as int)),
        ],
        EventModel::TimerCancelled { id } => seq![
            ("type"@, text("timer_cancelled"@)),
            ("id"@, number(id as int)),
        ],
        EventModel::BlockingDetected { task, poll_duration_ns, location } => seq![
            ("type"@, text("blocking_detected"@)),
            ("task"@, number(task as int)),
            ("poll_duration_ns"@, number(poll_duration_ns as int)),
            ("location"@, place(location)),
        ],
        EventModel::BudgetExhausted { task } => seq![
            ("type"@, text("budget_exhausted"@)),
            ("task"@, number(task as int)),
        ],
        EventModel::ResourceContended { kind, holder, waiters } => seq![
            ("type"@, text("resource_contended"@)),
            ("kind"@, text(kind)),
            ("holder"@, number(holder as int)),
            ("waiters"@, numbers(waiters)),
        ],
    }
}

/// The names have nothing to escape.
proof fn lemma_name_is_plain(name: &str)
    requires
        forall|i: int|
            0 <= i < name@.len() ==> ('a' <= #[trigger] name@[i] <= 'z' || name@[i] == '_'),
    ensures
        string_json(name@) == seq!['"'] + name@ + seq!['"'],
{
    lemma_plain(name@);
}

proof fn lemma_head_task_spawned()
    ensures
        "{\"type\":\"task_spawned\",\"id\":"@ == seq!['{'] + name_text("type"@) + string_json("task_spawned"@) + seq![','] + name_text(
            "id"@,
        ),
{
    reveal_strlit("{\"type\":\"task_spawned\",\"id\":");
    reveal_strlit("type");
    reveal_strlit("task_spawned");
    reveal_strlit("id");
    lemma_name_is_plain("type");
    lemma_name_is_plain("task_spawned");
    lemma_name_is_plain("id");
    assert("{\"type\":\"task_spawned\",\"id\":"@ =~= seq!['{'] + name_text("type"@) + string_json("task_spawned"@) + seq![','] + name_text(
        "id"@,
    ));
}

proof fn lemma_head_task_poll_start()
    ensures
        "{\"type\":\"task_poll_start\",\"id\":"@ == seq!['{'] + name_text("type"@) + string_json("task_poll_start"@) + seq![','] + name_text(
            "id"@,
        ),
{
    reveal_strlit("{\"type\":\"task_poll_start\",\"id\":");
    reveal_strlit("type");
    reveal_strlit("task_poll_start");
    reveal_strlit("id");
    lemma_name_is_plain("type");
    lemma_name_is_plain("task_poll_start");
    lemma_name_is_plain("id");
    assert("{\"type\":\"task_poll_start\",\"id\":"@ =~= seq!['{'] + name_text("type"@) + string_json("task_poll_start"@) + seq![','] + name_text(
        "id"@,
    ));
}

proof fn lemma_head_task_poll_end()
    ensures
        "{\"type\":\"task_poll_end\",\"id\":"@ == seq!['{'] + name_text("type"@) + string_json("task_poll_end"@) + seq![','] + name_text(
            "id"@,
        ),
{
    reveal_strlit("{\"type\":\"task_poll_end\",\"id\":");
    reveal_strlit("type");
    reveal_strlit("task_poll_end");
    reveal_strlit("id");
    lemma_name_is_plain("type");
    lemma_name_is_plain("task_poll_end");
    lemma_name_is_plain("id");
    assert("{\"type\":\"task_poll_end\",\"id\":"@ =~= seq!['{'] + name_text("type"@) + string_json("task_poll_end"@) + seq![','] + name_text(
        "id"@,
    ));
}

proof fn lemma_head_task_woken()
    ensures
        "{\"type\":\"task_woken\",\"id\":"@ == seq!['{'] + name_text("type"@) + string_json("task_woken"@) + seq![','] + name_text(
            "id"@,
        ),
{
    reveal_strlit("{\"type\":\"task_woken\",\"id\":");
    reveal_strlit("type");
    reveal_strlit("task_woken");
    reveal_strlit("id");
    lemma_name_is_plain("type");
    lemma_name_is_plain("task_woken");
    lemma_name_is_plain("id");
    assert("{\"type\":\"task_woken\",\"id\":"@ =~= seq!['{'] + name_text("type"@) + string_json("task_woken"@) + seq![','] + name_text(
        "id"@,
    ));
}

proof fn lemma_head_task_dropped()
    ensures
        "{\"type\":\"task_dropped\",\"id\":"@ == seq!['{'] + name_text("type"@) + string_json("task_dropped"@) + seq![','] + name_text(
            "id"@,
        ),
{
    reveal_strlit("{\"type\":\"task_dropped\",\"id\":");
    reveal_strlit("type");
    reveal_strlit("task_dropped");
    reveal_strlit("id");
    lemma_name_is_plain("type");
    lemma_name_is_plain("task_dropped");
    lemma_name_is_plain("id");
    assert("{\"type\":\"task_dropped\",\"id\":"@ =~= seq!['{'] + name_text("type"@) + string_json("task_dropped"@) + seq![','] + name_text(
        "id"@,
    ));
}

proof fn lemma_head_task_aborted()
    ensures
        "{\"type\":\"task_aborted\",\"id\":"@ == seq!['{'] + name_text("type"@) + string_json("task_aborted"@) + seq![','] + name_text(
            "id"@,
        ),
{
    reveal_strlit("{\"type\":\"task_aborted\",\"id\":");
    reveal_strlit("type");
    reveal_strlit("task_aborted");
    reveal_strlit("id");
    lemma_name_is_plain("type");
    lemma_name_is_plain("task_aborted");
    lemma_name_is_plain("id");
    assert("{\"type\":\"task_aborted\",\"id\":"@ =~= seq!['{'] + name_text("type"@) + string_json("task_aborted"@) + seq![','] + name_text(
        "id"@,
    ));
}

proof fn lemma_head_worker_park()
    ensures
        "{\"type\":\"worker_park\",\"worker\":"@ == seq!['{'] + name_text("type"@) + string_json("worker_park"@) + seq![','] + name_text(
            "worker"@,
        ),
{
    reveal_strlit("{\"type\":\"worker_park\",\"worker\":");
    reveal_strlit("type");
    reveal_strlit("worker_park");
    reveal_strlit("worker");
    lemma_name_is_plain("type");
    lemma_name_is_plain("worker_park");
    lemma_name_is_plain("worker");
    assert("{\"type\":\"worker_park\",\"worker\":"@ =~= seq!['{'] + name_text("type"@) + string_json("worker_park"@) + seq![','] + name_text(
        "worker"@,
    ));
}

proof fn lemma_head_worker_unpark()
    ensures
        "{\"type\":\"worker_unpark\",\"worker\":"@ == seq!['{'] + name_text("type"@) + string_json("worker_unpark"@) + seq![','] + name_text(
            "worker"@,
        ),
{
    reveal_strlit("{\"type\":\"worker_unpark\",\"worker\":");
    reveal_strlit("type");
    reveal_strlit("worker_unpark");
    reveal_strlit("worker");
    lemma_name_is_plain("type");
    lemma_name_is_plain("worker_unpark");
    lemma_name_is_plain("worker");
    assert("{\"type\":\"worker_unpark\",\"worker\":"@ =~= seq!['{'] + name_text("type"@) + string_json("worker_unpark"@) + seq![','] + name_text(
        "worker"@,
    ));
}

proof fn lemma_head_worker_steal()
    ensures
        "{\"type\":\"worker_steal\",\"thief\":"@ == seq!['{'] + name_text("type"@) + string_json("worker_steal"@) + seq![','] + name_text(
            "thief"@,
        ),
{
    reveal_strlit("{\"type\":\"worker_steal\",\"thief\":");
    reveal_strlit("type");
    reveal_strlit("worker_steal");
    reveal_strlit("thief");
    lemma_name_is_plain("type");
    lemma_name_is_plain("worker_steal");
    lemma_name_is_plain("thief");
    assert("{\"type\":\"worker_steal\",\"thief\":"@ =~= seq!['{'] + name_text("type"@) + string_json("worker_steal"@) + seq![','] + name_text(
        "thief"@,
    ));
}

proof fn lemma_head_queue_depth()
    ensures
        "{\"type\":\"queue_depth\",\"worker\":"@ == seq!['{'] + name_text("type"@) + string_json("queue_depth"@) + seq![','] + name_text(
            "worker"@,
        ),
{
    reveal_strlit("{\"type\":\"queue_depth\",\"worker\":");
    reveal_strlit("type");
    reveal_strlit("queue_depth");
    reveal_strlit("worker");
    lemma_name_is_plain("type");
    lemma_name_is_plain("queue_depth");
    lemma_name_is_plain("worker");
    assert("{\"type\":\"queue_depth\",\"worker\":"@ =~= seq!['{'] + name_text("type"@) + string_json("queue_depth"@) + seq![','] + name_text(
        "worker"@,
    ));
}

proof fn lemma_head_io_registered()
    ensures
        "{\"type\":\"io_registered\",\"fd\":"@ == seq!['{'] + name_text("type"@) + string_json("io_registered"@) + seq![','] + name_text(
            "fd"@,
        ),
{
    reveal_strlit("{\"type\":\"io_registered\",\"fd\":");
    reveal_strlit("type");
    reveal_strlit("io_registered");
    reveal_strlit("fd");
    lemma_name_is_plain("type");
    lemma_name_is_plain("io_registered");
    lemma_name_is_plain("fd");
    assert("{\"type\":\"io_registered\",\"fd\":"@ =~= seq!['{'] + name_text("type"@) + string_json("io_registered"@) + seq![','] + name_text(
        "fd"@,
    ));
}

proof fn lemma_head_io_ready()
    ensures
        "{\"type\":\"io_ready\",\"fd\":"@ == seq!['{'] + name_text("type"@) + string_json("io_ready"@) + seq![','] + name_text(
            "fd"@,
        ),
{
    reveal_strlit("{\"type\":\"io_ready\",\"fd\":");
    reveal_strlit("type");
    reveal_strlit("io_ready");
    reveal_strlit("fd");
    lemma_name_is_plain("type");
    lemma_name_is_plain("io_ready");
    lemma_name_is_plain("fd");
    assert("{\"type\":\"io_ready\",\"fd\":"@ =~= seq!['{'] + name_text("type"@) + string_json("io_ready"@) + seq![','] + name_text(
        "fd"@,
    ));
}

proof fn lemma_head_timer_set()
    ensures
        "{\"type\":\"timer_set\",\"id\":"@ == seq!['{'] + name_text("type"@) + string_json("timer_set"@) + seq![','] + name_text(
            "id"@,
        ),
{
    reveal_strlit("{\"type\":\"timer_set\",\"id\":");
    reveal_strlit("type");
    reveal_strlit("timer_set");
    reveal_strlit("id");
    lemma_name_is_plain("type");
    lemma_name_is_plain("timer_set");
    lemma_name_is_plain("id");
    assert("{\"type\":\"timer_set\",\"id\":"@ =~= seq!['{'] + name_text("type"@) + string_json("timer_set"@) + seq![','] + name_text(
        "id"@,
    ));
}

proof fn lemma_head_timer_fired()
    ensures
        "{\"type\":\"timer_fired\",\"id\":"@ == seq!['{'] + name_text("type"@) + string_json("timer_fired"@) + seq![','] + name_text(
            "id"@,
        ),
{
    reveal_strlit("{\"type\":\"timer_fired\",\"id\":");
    reveal_strlit("type");
    reveal_strlit("timer_fired");
    reveal_strlit("id");
    lemma_name_is_plain("type");
    lemma_name_is_plain("timer_fired");
    lemma_name_is_plain("id");
    assert("{\"type\":\"timer_fired\",\"id\":"@ =~= seq!['{'] + name_text("type"@) + string_json("timer_fired"@) + seq![','] + name_text(
        "id"@,
    ));
}

proof fn lemma_head_timer_cancelled()
    ensures
        "{\"type\":\"timer_cancelled\",\"id\":"@ == seq!['{'] + name_text("type"@) + string_json("timer_cancelled"@) + seq![','] + name_text(
            "id"@,
        ),
{
    reveal_strlit("{\"type\":\"timer_cancelled\",\"id\":");
    reveal_strlit("type");
    reveal_strlit("timer_cancelled");
    reveal_strlit("id");
    lemma_name_is_plain("type");
    lemma_name_is_plain("timer_cancelled");
    lemma_name_is_plain("id");
    assert("{\"type\":\"timer_cancelled\",\"id\":"@ =~= seq!['{'] + name_text("type"@) + string_json("timer_cancelled"@) + seq![','] + name_text(
        "id"@,
    ));
}

proof fn lemma_head_blocking_detected()
    ensures
        "{\"type\":\"blocking_detected\",\"task\":"@ == seq!['{'] + name_text("type"@) + string_json("blocking_detected"@) + seq![','] + name_text(
            "task"@,
        ),
{
    reveal_strlit("{\"type\":\"blocking_detected\",\"task\":");
    reveal_strlit("type");
    reveal_strlit("blocking_detected");
    reveal_strlit("task");
    lemma_name_is_plain("type");
    lemma_name_is_plain("blocking_detected");
    lemma_name_is_plain("task");
    assert("{\"type\":\"blocking_detected\",\"task\":"@ =~= seq!['{'] + name_text("type"@) + string_json("blocking_detected"@) + seq![','] + name_text(
        "task"@,
    ));
}

proof fn lemma_head_budget_exhausted()
    ensures
        "{\"type\":\"budget_exhausted\",\"task\":"@ == seq!['{'] + name_text("type"@) + string_json("budget_exhausted"@) + seq![','] + name_text(
            "task"@,
        ),
{
    reveal_strlit("{\"type\":\"budget_exhausted\",\"task\":");
    reveal_strlit("type");
    reveal_strlit("budget_exhausted");
    reveal_strlit("task");
    lemma_name_is_plain("type");
    lemma_name_is_plain("budget_exhausted");
    lemma_name_is_plain("task");
    assert("{\"type\":\"budget_exhausted\",\"task\":"@ =~= seq!['{'] + name_text("type"@) + string_json("budget_exhausted"@) + seq![','] + name_text(
        "task"@,
    ));
}

proof fn lemma_head_resource_contended()
    ensures
        "{\"type\":\"resource_contended\",\"kind\":"@ == seq!['{'] + name_text("type"@) + string_json("resource_contended"@) + seq![','] + name_text(
            "kind"@,
        ),
{
    reveal_strlit("{\"type\":\"resource_contended\",\"kind\":");
    reveal_strlit("type");
    reveal_strlit("resource_contended");
    reveal_strlit("kind");
    lemma_name_is_plain("type");
    lemma_name_is_plain("resource_contended");
    lemma_name_is_plain("kind");
    assert("{\"type\":\"resource_contended\",\"kind\":"@ =~= seq!['{'] + name_text("type"@) + string_json("resource_contended"@) + seq![','] + name_text(
        "kind"@,
    ));
}

proof fn lemma_label_at_ns()
    ensures
        ",\"at_ns\":"@ == seq![','] + name_text("at_ns"@),
{
    reveal_strlit(",\"at_ns\":");
    reveal_strlit("at_ns");
    lemma_name_is_plain("at_ns");
    assert(",\"at_ns\":"@ =~= seq![','] + name_text("at_ns"@));
}

proof fn lemma_label_by()
    ensures
        ",\"by\":"@ == seq![','] + name_text("by"@),
{
    reveal_strlit(",\"by\":");
    reveal_strlit("by");
    lemma_name_is_plain("by");
    assert(",\"by\":"@ =~= seq![','] + name_text("by"@));
}

proof fn lemma_label_count()
    ensures
        ",\"count\":"@ == seq![','] + name_text("count"@),
{
    reveal_strlit(",\"count\":");
    reveal_strlit("count");
    lemma_name_is_plain("count");
    assert(",\"count\":"@ =~= seq![','] + name_text("count"@));
}

proof fn lemma_label_deadline_ns()
    ensures
        ",\"deadline_ns\":"@ == seq![','] + name_text("deadline_ns"@),
{
    reveal_strlit(",\"deadline_ns\":");
    reveal_strlit("deadline_ns");
    lemma_name_is_plain("deadline_ns");
    assert(",\"deadline_ns\":"@ =~= seq![','] + name_text("deadline_ns"@));
}

proof fn lemma_label_duration_ns()
    ensures
        ",\"duration_ns\":"@ == seq![','] + name_text("duration_ns"@),
{
    reveal_strlit(",\"duration_ns\":");
    reveal_strlit("duration_ns");
    lemma_name_is_plain("duration_ns");
    assert(",\"duration_ns\":"@ =~= seq![','] + name_text("duration_ns"@));
}

proof fn lemma_label_global()
    ensures
        ",\"global\":"@ == seq![','] + name_text("global"@),
{
    reveal_strlit(",\"global\":");
    reveal_strlit("global");
    lemma_name_is_plain("global");
    assert(",\"global\":"@ =~= seq![','] + name_text("global"@));
}

proof fn lemma_label_holder()
    ensures
        ",\"holder\":"@ == seq![','] + name_text("holder"@),
{
    reveal_strlit(",\"holder\":");
    reveal_strlit("holder");
    lemma_name_is_plain("holder");
    assert(",\"holder\":"@ =~= seq![','] + name_text("holder"@));
}

proof fn lemma_label_interest()
    ensures
        ",\"interest\":"@ == seq![','] + name_text("interest"@),
{
    reveal_strlit(",\"interest\":");
    reveal_strlit("interest");
    lemma_name_is_plain("interest");
    assert(",\"interest\":"@ =~= seq![','] + name_text("interest"@));
}

proof fn lemma_label_lateness_ns()
    ensures
        ",\"lateness_ns\":"@ == seq![','] + name_text("lateness_ns"@),
{
    reveal_strlit(",\"lateness_ns\":");
    reveal_strlit("lateness_ns");
    lemma_name_is_plain("lateness_ns");
    assert(",\"lateness_ns\":"@ =~= seq![','] + name_text("lateness_ns"@));
}

proof fn lemma_label_lifo()
    ensures
        ",\"lifo\":"@ == seq![','] + name_text("lifo"@),
{
    reveal_strlit(",\"lifo\":");
    reveal_strlit("lifo");
    lemma_name_is_plain("lifo");
    assert(",\"lifo\":"@ =~= seq![','] + name_text("lifo"@));
}

proof fn lemma_label_local()
    ensures
        ",\"local\":"@ == seq![','] + name_text("local"@),
{
    reveal_strlit(",\"local\":");
    reveal_strlit("local");
    lemma_name_is_plain("local");
    assert(",\"local\":"@ =~= seq![','] + name_text("local"@));
}

proof fn lemma_label_location()
    ensures
        ",\"location\":"@ == seq![','] + name_text("location"@),
{
    reveal_strlit(",\"location\":");
    reveal_strlit("location");
    lemma_name_is_plain("location");
    assert(",\"location\":"@ =~= seq![','] + name_text("location"@));
}

proof fn lemma_label_name()
    ensures
        ",\"name\":"@ == seq![','] + name_text("name"@),
{
    reveal_strlit(",\"name\":");
    reveal_strlit("name");
    lemma_name_is_plain("name");
    assert(",\"name\":"@ =~= seq![','] + name_text("name"@));
}

proof fn lemma_label_parent()
    ensures
        ",\"parent\":"@ == seq![','] + name_text("parent"@),
{
    reveal_strlit(",\"parent\":");
    reveal_strlit("parent");
    lemma_name_is_plain("parent");
    assert(",\"parent\":"@ =~= seq![','] + name_text("parent"@));
}

proof fn lemma_label_poll_duration_ns()
    ensures
        ",\"poll_duration_ns\":"@ == seq![','] + name_text("poll_duration_ns"@),
{
    reveal_strlit(",\"poll_duration_ns\":");
    reveal_strlit("poll_duration_ns");
    lemma_name_is_plain("poll_duration_ns");
    assert(",\"poll_duration_ns\":"@ =~= seq![','] + name_text("poll_duration_ns"@));
}

proof fn lemma_label_readiness()
    ensures
        ",\"readiness\":"@ == seq![','] + name_text("readiness"@),
{
    reveal_strlit(",\"readiness\":");
    reveal_strlit("readiness");
    lemma_name_is_plain("readiness");
    assert(",\"readiness\":"@ =~= seq![','] + name_text("readiness"@));
}

proof fn lemma_label_reason()
    ensures
        ",\"reason\":"@ == seq![','] + name_text("reason"@),
{
    reveal_strlit(",\"reason\":");
    reveal_strlit("reason");
    lemma_name_is_plain("reason");
    assert(",\"reason\":"@ =~= seq![','] + name_text("reason"@));
}

proof fn lemma_label_result()
    ensures
        ",\"result\":\""@ == seq![','] + name_text("result"@) + seq!['"'],
{
    reveal_strlit(",\"result\":\"");
    reveal_strlit("result");
    lemma_name_is_plain("result");
    assert(",\"result\":\""@ =~= seq![','] + name_text("result"@) + seq!['"']);
}

proof fn lemma_label_task()
    ensures
        ",\"task\":"@ == seq![','] + name_text("task"@),
{
    reveal_strlit(",\"task\":");
    reveal_strlit("task");
    lemma_name_is_plain("task");
    assert(",\"task\":"@ =~= seq![','] + name_text("task"@));
}

proof fn lemma_label_timeout_ns()
    ensures
        ",\"timeout_ns\":"@ == seq![','] + name_text("timeout_ns"@),
{
    reveal_strlit(",\"timeout_ns\":");
    reveal_strlit("timeout_ns");
    lemma_name_is_plain("timeout_ns");
    assert(",\"timeout_ns\":"@ =~= seq![','] + name_text("timeout_ns"@));
}

proof fn lemma_label_total_busy_ns()
    ensures
        ",\"total_busy_ns\":"@ == seq![','] + name_text("total_busy_ns"@),
{
    reveal_strlit(",\"total_busy_ns\":");
    reveal_strlit("total_busy_ns");
    lemma_name_is_plain("total_busy_ns");
    assert(",\"total_busy_ns\":"@ =~= seq![','] + name_text("total_busy_ns"@));
}

proof fn lemma_label_total_idle_ns()
    ensures
        ",\"total_idle_ns\":"@ == seq![','] + name_text("total_idle_ns"@),
{
    reveal_strlit(",\"total_idle_ns\":");
    reveal_strlit("total_idle_ns");
    lemma_name_is_plain("total_idle_ns");
    assert(",\"total_idle_ns\":"@ =~= seq![','] + name_text("total_idle_ns"@));
}

proof fn lemma_label_total_polls()
    ensures
        ",\"total_polls\":"@ == seq![','] + name_text("total_polls"@),
{
    reveal_strlit(",\"total_polls\":");
    reveal_strlit("total_polls");
    lemma_name_is_plain("total_polls");
    assert(",\"total_polls\":"@ =~= seq![','] + name_text("total_polls"@));
}

proof fn lemma_label_victim()
    ensures
        ",\"victim\":"@ == seq![','] + name_text("victim"@),
{
    reveal_strlit(",\"victim\":");
    reveal_strlit("victim");
    lemma_name_is_plain("victim");
    assert(",\"victim\":"@ =~= seq![','] + name_text("victim"@));
}

proof fn lemma_label_waiters()
    ensures
        ",\"waiters\":["@ == seq![','] + name_text("waiters"@) + seq!['['],
{
    reveal_strlit(",\"waiters\":[");
    reveal_strlit("waiters");
    lemma_name_is_plain("waiters");
    assert(",\"waiters\":["@ =~= seq![','] + name_text("waiters"@) + seq!['[']);
}

proof fn lemma_label_woke()
    ensures
        ",\"woke\":["@ == seq![','] + name_text("woke"@) + seq!['['],
{
    reveal_strlit(",\"woke\":[");
    reveal_strlit("woke");
    lemma_name_is_plain("woke");
    assert(",\"woke\":["@ =~= seq![','] + name_text("woke"@) + seq!['[']);
}

proof fn lemma_label_worker()
    ensures
        ",\"worker\":"@ == seq![','] + name_text("worker"@),
{
    reveal_strlit(",\"worker\":");
    reveal_strlit("worker");
    lemma_name_is_plain("worker");
    assert(",\"worker\":"@ =~= seq![','] + name_text("worker"@));
}

/// The ends of objects, and the words.
proof fn lemma_marks()
    ensures
        "}"@ == seq!['}'],
        "]}"@ == seq![']'] + seq!['}'],
        "\"}"@ == seq!['"'] + seq!['}'],
        "null"@ == seq!['n', 'u', 'l', 'l'],
        "true"@ == seq!['t', 'r', 'u', 'e'],
        "false"@ == seq!['f', 'a', 'l', 's', 'e'],
{
    reveal_strlit("}");
    reveal_strlit("]}");
    reveal_strlit("\"}");
    reveal_strlit("null");
    reveal_strlit("true");
    reveal_strlit("false");
    assert("}"@ =~= seq!['}']);
    assert("]}"@ =~= seq![']'] + seq!['}']);
    assert("\"}"@ =~= seq!['"'] + seq!['}']);
    assert("null"@ =~= seq!['n', 'u', 'l', 'l']);
    assert("true"@ =~= seq!['t', 'r', 'u', 'e']);
    assert("false"@ =~= seq!['f', 'a', 'l', 's', 'e']);
}

/// How one or two fields are written.
proof fn lemma_two_fields(a: (Seq<char>, Scalar), b: (Seq<char>, Scalar))
    ensures
        fields_text(seq![a]) == name_text(a.0) + scalar_text(a.1) + seq!['}'],
        fields_text(seq![a, b]) == name_text(a.0) + scalar_text(a.1) + seq![','] + name_text(b.0)
            + scalar_text(b.1) + seq!['}'],
{
    assert(seq![a, b].drop_first() =~= seq![b]);
    assert(fields_text(seq![b]) == name_text(b.0) + scalar_text(b.1) + seq!['}']);
    assert(fields_text(seq![a, b]) =~= name_text(a.0) + scalar_text(a.1) + seq![',']
        + name_text(b.0) + scalar_text(b.1) + seq!['}']);
}

/// A source location is written as an object.
proof fn lemma_place(location: LocationModel)
    ensures
        super::location_object(location) == value_text(place(location), Seq::empty()),
{
    lemma_marks();
    reveal_strlit("{\"file\":");
    reveal_strlit(",\"line\":");
    reveal_strlit("file");
    reveal_strlit("line");
    lemma_name_is_plain("file");
    lemma_name_is_plain("line");
    assert("{\"file\":"@ =~= seq!['{'] + name_text("file"@));
    assert(",\"line\":"@ =~= seq![','] + name_text("line"@));
    lemma_two_fields(
        ("file"@, Scalar::Text(location.file)),
        ("line"@, Scalar::Number(location.line as int)),
    );
    assert(super::location_object(location) =~= value_text(place(location), Seq::empty()));
}

proof fn lemma_source_io(fd: i32)
    ensures
        super::wake_source_object(WakeSourceModel::Io { fd }) == value_text(
            source(WakeSourceModel::Io { fd }),
            Seq::empty(),
        ),
{
    lemma_marks();
    reveal_strlit("{\"kind\":\"io\",\"fd\":");
    reveal_strlit("kind");
    reveal_strlit("io");
    reveal_strlit("fd");
    lemma_name_is_plain("kind");
    lemma_name_is_plain("io");
    lemma_name_is_plain("fd");
    assert("{\"kind\":\"io\",\"fd\":"@ =~= seq!['{'] + name_text("kind"@) + string_json("io"@) + seq![','] + name_text(
        "fd"@,
    ));
    lemma_two_fields(("kind"@, Scalar::Text("io"@)), ("fd"@, Scalar::Number(fd as int)));
    assert(super::wake_source_object(WakeSourceModel::Io { fd }) =~= value_text(
        source(WakeSourceModel::Io { fd }),
        Seq::empty(),
    ));
}

proof fn lemma_source_timer(id: u64)
    ensures
        super::wake_source_object(WakeSourceModel::Timer { id }) == value_text(
            source(WakeSourceModel::Timer { id }),
            Seq::empty(),
        ),
{
    lemma_marks();
    reveal_strlit("{\"kind\":\"timer\",\"id\":");
    reveal_strlit("kind");
    reveal_strlit("timer");
    reveal_strlit("id");
    lemma_name_is_plain("kind");
    lemma_name_is_plain("timer");
    lemma_name_is_plain("id");
    assert("{\"kind\":\"timer\",\"id\":"@ =~= seq!['{'] + name_text("kind"@) + string_json("timer"@) + seq![','] + name_text(
        "id"@,
    ));
    lemma_two_fields(("kind"@, Scalar::Text("timer"@)), ("id"@, Scalar::Number(id as int)));
    assert(super::wake_source_object(WakeSourceModel::Timer { id }) =~= value_text(
        source(WakeSourceModel::Timer { id }),
        Seq::empty(),
    ));
}

proof fn lemma_source_task(id: u64)
    ensures
        super::wake_source_object(WakeSourceModel::Task { id }) == value_text(
            source(WakeSourceModel::Task { id }),
            Seq::empty(),
        ),
{
    lemma_marks();
    reveal_strlit("{\"kind\":\"task\",\"id\":");
    reveal_strlit("kind");
    reveal_strlit("task");
    reveal_strlit("id");
    lemma_name_is_plain("kind");
    lemma_name_is_plain("task");
    lemma_name_is_plain("id");
    assert("{\"kind\":\"task\",\"id\":"@ =~= seq!['{'] + name_text("kind"@) + string_json("task"@) + seq![','] + name_text(
        "id"@,
    ));
    lemma_two_fields(("kind"@, Scalar::Text("task"@)), ("id"@, Scalar::Number(id as int)));
    assert(super::wake_source_object(WakeSourceModel::Task { id }) =~= value_text(
        source(WakeSourceModel::Task { id }),
        Seq::empty(),
    ));
}

proof fn lemma_source_channel(kind: Seq<char>)
    ensures
        super::wake_source_object(WakeSourceModel::Channel { kind }) == value_text(
            source(WakeSourceModel::Channel { kind }),
            Seq::empty(),
        ),
{
    lemma_marks();
    reveal_strlit("{\"kind\":\"channel\",\"channel\":");
    reveal_strlit("kind");
    reveal_strlit("channel");
    lemma_name_is_plain("kind");
    lemma_name_is_plain("channel");
    assert("{\"kind\":\"channel\",\"channel\":"@ =~= seq!['{'] + name_text("kind"@) + string_json("channel"@) + seq![','] + name_text(
        "channel"@,
    ));
    lemma_two_fields(("kind"@, Scalar::Text("channel"@)), ("channel"@, Scalar::Text(kind)));
    assert(super::wake_source_object(WakeSourceModel::Channel { kind }) =~= value_text(
        source(WakeSourceModel::Channel { kind }),
        Seq::empty(),
    ));
}

proof fn lemma_source_external()
    ensures
        super::wake_source_object(WakeSourceModel::External) == value_text(
            source(WakeSourceModel::External),
            Seq::empty(),
        ),
{
    reveal_strlit("{\"kind\":\"external\"}");
    reveal_strlit("kind");
    reveal_strlit("external");
    lemma_name_is_plain("kind");
    lemma_name_is_plain("external");
    lemma_two_fields(
        ("kind"@, Scalar::Text("external"@)),
        ("kind"@, Scalar::Text("external"@)),
    );
    assert(super::wake_source_object(WakeSourceModel::External) =~= value_text(
        source(WakeSourceModel::External),
        Seq::empty(),
    ));
}

/// A wake source is written as an object.
proof fn lemma_source(by: WakeSourceModel)
    ensures
        super::wake_source_object(by) == value_text(source(by), Seq::empty()),
{
    match by {
        WakeSourceModel::Io { fd } => lemma_source_io(fd),
        WakeSourceModel::Timer { id } => lemma_source_timer(id),
        WakeSourceModel::Task { id } => lemma_source_task(id),
        WakeSourceModel::Channel { kind } => lemma_source_channel(kind),
        WakeSourceModel::External => lemma_source_external(),
    }
}

/// The names of poll results and unpark reasons are plain.
proof fn lemma_words(result: PollResult, reason: UnparkReason)
    ensures
        string_json(result_name(result)) == seq!['"'] + result_name(result) + seq!['"'],
        super::poll_result_text(result) == result_name(result),
        super::unpark_reason_text(reason) == reason_name(reason),
{
    reveal_strlit("ready");
    reveal_strlit("pending");
    reveal_strlit("panicked");
    lemma_name_is_plain("ready");
    lemma_name_is_plain("pending");
    lemma_name_is_plain("panicked");
}

/// The fields of a message from one on, written one behind the other.
proof fn lemma_members_step(fields: Seq<(Seq<char>, Value)>, ids: Seq<u64>)
    requires
        fields.len() > 1,
    ensures
        members_text(fields, ids) == name_text(fields[0].0) + value_text(fields[0].1, ids) + seq![
            ',',
        ] + members_text(fields.drop_first(), ids),
{
    assert(members_text(fields, ids) =~= name_text(fields[0].0) + value_text(fields[0].1, ids)
        + seq![','] + members_text(fields.drop_first(), ids));
}

// Parts of a text may be grouped in any way.

proof fn lemma_join_2(o: Seq<char>, c: Seq<char>, e: Seq<char>, n0: Seq<char>, v0: Seq<char>, n1: Seq<char>, v1: Seq<char>)
    ensures
        (o + n0 + v0 + c + n1) + v1 + e == o + (n0 + v0 + c + (n1 + v1 + e)),
{
    assert((o + n0 + v0 + c + n1) + v1 + e =~= o + (n0 + v0 + c + (n1 + v1 + e)));
}

proof fn lemma_join_3(o: Seq<char>, c: Seq<char>, e: Seq<char>, n0: Seq<char>, v0: Seq<char>, n1: Seq<char>, v1: Seq<char>, n2: Seq<char>, v2: Seq<char>)
    ensures
        (o + n0 + v0 + c + n1) + v1 + (c + n2) + v2 + e == o + (n0 + v0 + c + (n1 + v1 + c + (n2 + v2 + e))),
{
    assert((o + n0 + v0 + c + n1) + v1 + (c + n2) + v2 + e =~= o + (n0 + v0 + c + (n1 + v1 + c + (n2 + v2 + e))));
}

proof fn lemma_join_split_3(o: Seq<char>, c: Seq<char>, e: Seq<char>, n0: Seq<char>, v0: Seq<char>, n1: Seq<char>, v1: Seq<char>, n2: Seq<char>, q: Seq<char>, x: Seq<char>, r: Seq<char>)
    ensures
        (o + n0 + v0 + c + n1) + v1 + (c + n2 + q) + x + (r + e) == o + (n0 + v0 + c + (n1 + v1 + c + (n2 + (q + x + r) + e))),
{
    assert((o + n0 + v0 + c + n1) + v1 + (c + n2 + q) + x + (r + e) =~= o + (n0 + v0 + c + (n1 + v1 + c + (n2 + (q + x + r) + e))));
}

proof fn lemma_join_4(o: Seq<char>, c: Seq<char>, e: Seq<char>, n0: Seq<char>, v0: Seq<char>, n1: Seq<char>, v1: Seq<char>, n2: Seq<char>, v2: Seq<char>, n3: Seq<char>, v3: Seq<char>)
    ensures
        (o + n0 + v0 + c + n1) + v1 + (c + n2) + v2 + (c + n3) + v3 + e == o + (n0 + v0 + c + (n1 + v1 + c + (n2 + v2 + c + (n3 + v3 + e)))),
{
    assert((o + n0 + v0 + c + n1) + v1 + (c + n2) + v2 + (c + n3) + v3 + e =~= o + (n0 + v0 + c + (n1 + v1 + c + (n2 + v2 + c + (n3 + v3 + e)))));
}

proof fn lemma_join_split_4(o: Seq<char>, c: Seq<char>, e: Seq<char>, n0: Seq<char>, v0: Seq<char>, n1: Seq<char>, v1: Seq<char>, n2: Seq<char>, v2: Seq<char>, n3: Seq<char>, q: Seq<char>, x: Seq<char>, r: Seq<char>)
    ensures
        (o + n0 + v0 + c + n1) + v1 + (c + n2) + v2 + (c + n3 + q) + x + (r + e) == o + (n0 + v0 + c + (n1 + v1 + c + (n2 + v2 + c + (n3 + (q + x + r) + e)))),
{
    assert((o + n0 + v0 + c + n1) + v1 + (c + n2) + v2 + (c + n3 + q) + x + (r + e) =~= o + (n0 + v0 + c + (n1 + v1 + c + (n2 + v2 + c + (n3 + (q + x + r) + e)))));
}

proof fn lemma_join_5(o: Seq<char>, c: Seq<char>, e: Seq<char>, n0: Seq<char>, v0: Seq<char>, n1: Seq<char>, v1: Seq<char>, n2: Seq<char>, v2: Seq<char>, n3: Seq<char>, v3: Seq<char>, n4: Seq<char>, v4: Seq<char>)
    ensures
        (o + n0 + v0 + c + n1) + v1 + (c + n2) + v2 + (c + n3) + v3 + (c + n4) + v4 + e == o + (n0 + v0 + c + (n1 + v1 + c + (n2 + v2 + c + (n3 + v3 + c + (n4 + v4 + e))))),
{
    assert((o + n0 + v0 + c + n1) + v1 + (c + n2) + v2 + (c + n3) + v3 + (c + n4) + v4 + e =~= o + (n0 + v0 + c + (n1 + v1 + c + (n2 + v2 + c + (n3 + v3 + c + (n4 + v4 + e))))));
}

proof fn lemma_join_split_5(o: Seq<char>, c: Seq<char>, e: Seq<char>, n0: Seq<char>, v0: Seq<char>, n1: Seq<char>, v1: Seq<char>, n2: Seq<char>, v2: Seq<char>, n3: Seq<char>, v3: Seq<char>, n4: Seq<char>, q: Seq<char>, x: Seq<char>, r: Seq<char>)
    ensures
        (o + n0 + v0 + c + n1) + v1 + (c + n2) + v2 + (c + n3) + v3 + (c + n4 + q) + x + (r + e) == o + (n0 + v0 + c + (n1 + v1 + c + (n2 + v2 + c + (n3 + v3 + c + (n4 + (q + x + r) + e))))),
{
    assert((o + n0 + v0 + c + n1) + v1 + (c + n2) + v2 + (c + n3) + v3 + (c + n4 + q) + x + (r + e) =~= o + (n0 + v0 + c + (n1 + v1 + c + (n2 + v2 + c + (n3 + v3 + c + (n4 + (q + x + r) + e))))));
}

/// A message of two fields is read back.
proof fn lemma_read_2(t: Seq<char>, ids: Seq<u64>, a: (Seq<char>, Value), b: (Seq<char>, Value))
    requires
        writable(a, ids),
        writable(b, ids),
        t == seq!['{'] + name_text(a.0) + value_text(a.1, ids) + seq![','] + name_text(b.0) + value_text(b.1, ids) + seq!['}'],
    ensures
        read_message(t) == Some(seq![a, b]),
{
    let f0 = seq![a, b];
    let f1 = seq![b];
    lemma_members_step(f0, ids);
    assert(f0.drop_first() =~= f1);
    lemma_join_2(seq!['{'], seq![','], seq!['}'], name_text(a.0), value_text(a.1, ids), name_text(b.0), value_text(b.1, ids));
    lemma_message(t, f0, ids);
}

/// A message of three fields is read back.
proof fn lemma_read_3(t: Seq<char>, ids: Seq<u64>, a: (Seq<char>, Value), b: (Seq<char>, Value), c: (Seq<char>, Value))
    requires
        writable(a, ids),
        writable(b, ids),
        writable(c, ids),
        t == seq!['{'] + name_text(a.0) + value_text(a.1, ids) + seq![','] + name_text(b.0) + value_text(b.1, ids) + (seq![','] + name_text(c.0)) + value_text(c.1, ids) + seq!['}'],
    ensures
        read_message(t) == Some(seq![a, b, c]),
{
    let f0 = seq![a, b, c];
    let f1 = seq![b, c];
    lemma_members_step(f0, ids);
    assert(f0.drop_first() =~= f1);
    let f2 = seq![c];
    lemma_members_step(f1, ids);
    assert(f1.drop_first() =~= f2);
    lemma_join_3(seq!['{'], seq![','], seq!['}'], name_text(a.0), value_text(a.1, ids), name_text(b.0), value_text(b.1, ids), name_text(c.0), value_text(c.1, ids));
    lemma_message(t, f0, ids);
}

/// A message of three fields is read back.
proof fn lemma_read_split_3(t: Seq<char>, ids: Seq<u64>, a: (Seq<char>, Value), b: (Seq<char>, Value), c: (Seq<char>, Value), q: Seq<char>, x: Seq<char>, r: Seq<char>)
    requires
        writable(a, ids),
        writable(b, ids),
        writable(c, ids),
        value_text(c.1, ids) == q + x + r,
        t == seq!['{'] + name_text(a.0) + value_text(a.1, ids) + seq![','] + name_text(b.0) + value_text(b.1, ids) + (seq![','] + name_text(c.0) + q) + x + (r + seq!['}']),
    ensures
        read_message(t) == Some(seq![a, b, c]),
{
    let f0 = seq![a, b, c];
    let f1 = seq![b, c];
    lemma_members_step(f0, ids);
    assert(f0.drop_first() =~= f1);
    let f2 = seq![c];
    lemma_members_step(f1, ids);
    assert(f1.drop_first() =~= f2);
    lemma_join_split_3(seq!['{'], seq![','], seq!['}'], name_text(a.0), value_text(a.1, ids), name_text(b.0), value_text(b.1, ids), name_text(c.0), q, x, r);
    lemma_message(t, f0, ids);
}

/// A message of four fields is read back.
proof fn lemma_read_4(t: Seq<char>, ids: Seq<u64>, a: (Seq<char>, Value), b: (Seq<char>, Value), c: (Seq<char>, Value), d: (Seq<char>, Value))
    requires
        writable(a, ids),
        writable(b, ids),
        writable(c, ids),
        writable(d, ids),
        t == seq!['{'] + name_text(a.0) + value_text(a.1, ids) + seq![','] + name_text(b.0) + value_text(b.1, ids) + (seq![','] + name_text(c.0)) + value_text(c.1, ids) + (seq![','] + name_text(d.0)) + value_text(d.1, ids) + seq!['}'],
    ensures
        read_message(t) == Some(seq![a, b, c, d]),
{
    let f0 = seq![a, b, c, d];
    let f1 = seq![b, c, d];
    lemma_members_step(f0, ids);
    assert(f0.drop_first() =~= f1);
    let f2 = seq![c, d];
    lemma_members_step(f1, ids);
    assert(f1.drop_first() =~= f2);
    let f3 = seq![d];
    lemma_members_step(f2, ids);
    assert(f2.drop_first() =~= f3);
    lemma_join_4(seq!['{'], seq![','], seq!['}'], name_text(a.0), value_text(a.1, ids), name_text(b.0), value_text(b.1, ids), name_text(c.0), value_text(c.1, ids), name_text(d.0), value_text(d.1, ids));
    lemma_message(t, f0, ids);
}

/// A message of four fields is read back.
proof fn lemma_read_split_4(t: Seq<char>, ids: Seq<u64>, a: (Seq<char>, Value), b: (Seq<char>, Value), c: (Seq<char>, Value), d: (Seq<char>, Value), q: Seq<char>, x: Seq<char>, r: Seq<char>)
    requires
        writable(a, ids),
        writable(b, ids),
        writable(c, ids),
        writable(d, ids),
        value_text(d.1, ids) == q + x + r,
        t == seq!['{'] + name_text(a.0) + value_text(a.1, ids) + seq![','] + name_text(b.0) + value_text(b.1, ids) + (seq![','] + name_text(c.0)) + value_text(c.1, ids) + (seq![','] + name_text(d.0) + q) + x + (r + seq!['}']),
    ensures
        read_message(t) == Some(seq![a, b, c, d]),
{
    let f0 = seq![a, b, c, d];
    let f1 = seq![b, c, d];
    lemma_members_step(f0, ids);
    assert(f0.drop_first() =~= f1);
    let f2 = seq![c, d];
    lemma_members_step(f1, ids);
    assert(f1.drop_first() =~= f2);
    let f3 = seq![d];
    lemma_members_step(f2, ids);
    assert(f2.drop_first() =~= f3);
    lemma_join_split_4(seq!['{'], seq![','], seq!['}'], name_text(a.0), value_text(a.1, ids), name_text(b.0), value_text(b.1, ids), name_text(c.0), value_text(c.1, ids), name_text(d.0), q, x, r);
    lemma_message(t, f0, ids);
}

/// A message of five fields is read back.
proof fn lemma_read_5(t: Seq<char>, ids: Seq<u64>, a: (Seq<char>, Value), b: (Seq<char>, Value), c: (Seq<char>, Value), d: (Seq<char>, Value), e: (Seq<char>, Value))
    requires
        writable(a, ids),
        writable(b, ids),
        writable(c, ids),
        writable(d, ids),
        writable(e, ids),
        t == seq!['{'] + name_text(a.0) + value_text(a.1, ids) + seq![','] + name_text(b.0) + value_text(b.1, ids) + (seq![','] + name_text(c.0)) + value_text(c.1, ids) + (seq![','] + name_text(d.0)) + value_text(d.1, ids) + (seq![','] + name_text(e.0)) + value_text(e.1, ids) + seq!['}'],
    ensures
        read_message(t) == Some(seq![a, b, c, d, e]),
{
    let f0 = seq![a, b, c, d, e];
    let f1 = seq![b, c, d, e];
    lemma_members_step(f0, ids);
    assert(f0.drop_first() =~= f1);
    let f2 = seq![c, d, e];
    lemma_members_step(f1, ids);
    assert(f1.drop_first() =~= f2);
    let f3 = seq![d, e];
    lemma_members_step(f2, ids);
    assert(f2.drop_first() =~= f3);
    let f4 = seq![e];
    lemma_members_step(f3, ids);
    assert(f3.drop_first() =~= f4);
    lemma_join_5(seq!['{'], seq![','], seq!['}'], name_text(a.0), value_text(a.1, ids), name_text(b.0), value_text(b.1, ids), name_text(c.0), value_text(c.1, ids), name_text(d.0), value_text(d.1, ids), name_text(e.0), value_text(e.1, ids));
    lemma_message(t, f0, ids);
}

/// A message of five fields is read back.
proof fn lemma_read_split_5(t: Seq<char>, ids: Seq<u64>, a: (Seq<char>, Value), b: (Seq<char>, Value), c: (Seq<char>, Value), d: (Seq<char>, Value), e: (Seq<char>, Value), q: Seq<char>, x: Seq<char>, r: Seq<char>)
    requires
        writable(a, ids),
        writable(b, ids),
        writable(c, ids),
        writable(d, ids),
        writable(e, ids),
        value_text(e.1, ids) == q + x + r,
        t == seq!['{'] + name_text(a.0) + value_text(a.1, ids) + seq![','] + name_text(b.0) + value_text(b.1, ids) + (seq![','] + name_text(c.0)) + value_text(c.1, ids) + (seq![','] + name_text(d.0)) + value_text(d.1, ids) + (seq![','] + name_text(e.0) + q) + x + (r + seq!['}']),
    ensures
        read_message(t) == Some(seq![a, b, c, d, e]),
{
    let f0 = seq![a, b, c, d, e];
    let f1 = seq![b, c, d, e];
    lemma_members_step(f0, ids);
    assert(f0.drop_first() =~= f1);
    let f2 = seq![c, d, e];
    lemma_members_step(f1, ids);
    assert(f1.drop_first() =~= f2);
    let f3 = seq![d, e];
    lemma_members_step(f2, ids);
    assert(f2.drop_first() =~= f3);
    let f4 = seq![e];
    lemma_members_step(f3, ids);
    assert(f3.drop_first() =~= f4);
    lemma_join_split_5(seq!['{'], seq![','], seq!['}'], name_text(a.0), value_text(a.1, ids), name_text(b.0), value_text(b.1, ids), name_text(c.0), value_text(c.1, ids), name_text(d.0), value_text(d.1, ids), name_text(e.0), q, x, r);
    lemma_message(t, f0, ids);
}

proof fn lemma_task_spawned(id: u64, name: Option<Seq<char>>, location: LocationModel, parent: Option<u64>)
    ensures
        ({
            let event = EventModel::TaskSpawned { id, name, location, parent };
            read_message(super::event_object(event)) == Some(fields_of(event))
        }),
{
    let ids = Seq::<u64>::empty();
    lemma_marks();
    lemma_head_task_spawned();
    lemma_label_name();
    lemma_label_location();
    lemma_label_parent();
    lemma_place(location);
    lemma_read_5(super::event_object(EventModel::TaskSpawned { id, name, location, parent }), ids, ("type"@, text("task_spawned"@)), ("id"@, number(id as int)), ("name"@, optional_text(name)), ("location"@, place(location)), ("parent"@, optional_number(parent)));
}

proof fn lemma_task_poll_start(id: u64, worker: u32, at_ns: u64)
    ensures
        ({
            let event = EventModel::TaskPollStart { id, worker, at_ns };
            read_message(super::event_object(event)) == Some(fields_of(event))
        }),
{
    let ids = Seq::<u64>::empty();
    lemma_marks();
    lemma_head_task_poll_start();
    lemma_label_worker();
    lemma_label_at_ns();
    lemma_read_4(super::event_object(EventModel::TaskPollStart { id, worker, at_ns }), ids, ("type"@, text("task_poll_start"@)), ("id"@, number(id as int)), ("worker"@, number(worker as int)), ("at_ns"@, number(at_ns as int)));
}

proof fn lemma_task_poll_end(id: u64, worker: u32, duration_ns: u64, result: PollResult)
    ensures
        ({
            let event = EventModel::TaskPollEnd { id, worker, duration_ns, result };
            read_message(super::event_object(event)) == Some(fields_of(event))
        }),
{
    let ids = Seq::<u64>::empty();
    lemma_marks();
    lemma_head_task_poll_end();
    lemma_label_worker();
    lemma_label_duration_ns();
    lemma_label_result();
    lemma_words(result, UnparkReason::Task);
    lemma_read_split_5(super::event_object(EventModel::TaskPollEnd { id, worker, duration_ns, result }), ids, ("type"@, text("task_poll_end"@)), ("id"@, number(id as int)), ("worker"@, number(worker as int)), ("duration_ns"@, number(duration_ns as int)), ("result"@, text(result_name(result))), seq!['"'], result_name(result), seq!['"']);
}

proof fn lemma_task_woken(id: u64, by: WakeSourceModel)
    ensures
        ({
            let event = EventModel::TaskWoken { id, by };
            read_message(super::event_object(event)) == Some(fields_of(event))
        }),
{
    let ids = Seq::<u64>::empty();
    lemma_marks();
    lemma_head_task_woken();
    lemma_label_by();
    lemma_source(by);
    lemma_read_3(super::event_object(EventModel::TaskWoken { id, by }), ids, ("type"@, text("task_woken"@)), ("id"@, number(id as int)), ("by"@, source(by)));
}

proof fn lemma_task_dropped(id: u64, total_polls: u64, total_busy_ns: u64, total_idle_ns: u64)
    ensures
        ({
            let event = EventModel::TaskDropped { id, total_polls, total_busy_ns, total_idle_ns };
            read_message(super::event_object(event)) == Some(fields_of(event))
        }),
{
    let ids = Seq::<u64>::empty();
    lemma_marks();
    lemma_head_task_dropped();
    lemma_label_total_polls();
    lemma_label_total_busy_ns();
    lemma_label_total_idle_ns();
    lemma_read_5(super::event_object(EventModel::TaskDropped { id, total_polls, total_busy_ns, total_idle_ns }), ids, ("type"@, text("task_dropped"@)), ("id"@, number(id as int)), ("total_polls"@, number(total_polls as int)), ("total_busy_ns"@, number(total_busy_ns as int)), ("total_idle_ns"@, number(total_idle_ns as int)));
}

proof fn lemma_task_aborted(id: u64)
    ensures
        ({
            let event = EventModel::TaskAborted { id };
            read_message(super::event_object(event)) == Some(fields_of(event))
        }),
{
    let ids = Seq::<u64>::empty();
    lemma_marks();
    lemma_head_task_aborted();
    lemma_read_2(super::event_object(EventModel::TaskAborted { id }), ids, ("type"@, text("task_aborted"@)), ("id"@, number(id as int)));
}

proof fn lemma_worker_park(worker: u32, timeout_ns: Option<u64>)
    ensures
        ({
            let event = EventModel::WorkerPark { worker, timeout_ns };
            read_message(super::event_object(event)) == Some(fields_of(event))
        }),
{
    let ids = Seq::<u64>::empty();
    lemma_marks();
    lemma_head_worker_park();
    lemma_label_timeout_ns();
    lemma_read_3(super::event_object(EventModel::WorkerPark { worker, timeout_ns }), ids, ("type"@, text("worker_park"@)), ("worker"@, number(worker as int)), ("timeout_ns"@, optional_number(timeout_ns)));
}

proof fn lemma_worker_unpark(worker: u32, reason: UnparkReason)
    ensures
        ({
            let event = EventModel::WorkerUnpark { worker, reason };
            read_message(super::event_object(event)) == Some(fields_of(event))
        }),
{
    let ids = Seq::<u64>::empty();
    lemma_marks();
    lemma_head_worker_unpark();
    lemma_label_reason();
    lemma_words(PollResult::Ready, reason);
    lemma_read_3(super::event_object(EventModel::WorkerUnpark { worker, reason }), ids, ("type"@, text("worker_unpark"@)), ("worker"@, number(worker as int)), ("reason"@, text(reason_name(reason))));
}

proof fn lemma_worker_steal(thief: u32, victim: u32, count: u64)
    ensures
        ({
            let event = EventModel::WorkerSteal { thief, victim, count };
            read_message(super::event_object(event)) == Some(fields_of(event))
        }),
{
    let ids = Seq::<u64>::empty();
    lemma_marks();
    lemma_head_worker_steal();
    lemma_label_victim();
    lemma_label_count();
    lemma_read_4(super::event_object(EventModel::WorkerSteal { thief, victim, count }), ids, ("type"@, text("worker_steal"@)), ("thief"@, number(thief as int)), ("victim"@, number(victim as int)), ("count"@, number(count as int)));
}

proof fn lemma_queue_depth(worker: u32, local: u64, global: u64, lifo: bool)
    ensures
        ({
            let event = EventModel::QueueDepth { worker, local, global, lifo };
            read_message(super::event_object(event)) == Some(fields_of(event))
        }),
{
    let ids = Seq::<u64>::empty();
    lemma_marks();
    lemma_head_queue_depth();
    lemma_label_local();
    lemma_label_global();
    lemma_label_lifo();
    lemma_read_5(super::event_object(EventModel::QueueDepth { worker, local, global, lifo }), ids, ("type"@, text("queue_depth"@)), ("worker"@, number(worker as int)), ("local"@, number(local as int)), ("global"@, number(global as int)), ("lifo"@, Value::Plain(Scalar::Truth(lifo))));
}

proof fn lemma_io_registered(fd: i32, interest: Seq<char>, task: u64)
    ensures
        ({
            let event = EventModel::IoRegistered { fd, interest, task };
            read_message(super::event_object(event)) == Some(fields_of(event))
        }),
{
    let ids = Seq::<u64>::empty();
    lemma_marks();
    lemma_head_io_registered();
    lemma_label_interest();
    lemma_label_task();
    lemma_read_4(super::event_object(EventModel::IoRegistered { fd, interest, task }), ids, ("type"@, text("io_registered"@)), ("fd"@, number(fd as int)), ("interest"@, text(interest)), ("task"@, number(task as int)));
}

proof fn lemma_io_ready(fd: i32, readiness: Seq<char>, woke: Seq<u64>)
    ensures
        ({
            let event = EventModel::IoReady { fd, readiness, woke };
            read_message(super::event_object(event)) == Some(fields_of(event))
        }),
{
    let ids = woke;
    lemma_marks();
    lemma_head_io_ready();
    lemma_label_readiness();
    lemma_label_woke();
    lemma_read_split_4(super::event_object(EventModel::IoReady { fd, readiness, woke }), ids, ("type"@, text("io_ready"@)), ("fd"@, number(fd as int)), ("readiness"@, text(readiness)), ("woke"@, numbers(woke)), seq!['['], super::numbers_json(woke), seq![']']);
}

proof fn lemma_timer_set(id: u64, deadline_ns: u64, task: u64)
    ensures
        ({
            let event = EventModel::TimerSet { id, deadline_ns, task };
            read_message(super::event_object(event)) == Some(fields_of(event))
        }),
{
    let ids = Seq::<u64>::empty();
    lemma_marks();
    lemma_head_timer_set();
    lemma_label_deadline_ns();
    lemma_label_task();
    lemma_read_4(super::event_object(EventModel::TimerSet { id, deadline_ns, task }), ids, ("type"@, text("timer_set"@)), ("id"@, number(id as int)), ("deadline_ns"@, number(deadline_ns as int)), ("task"@, number(task as int)));
}

proof fn lemma_timer_fired(id: u64, lateness_ns: u64)
    ensures
        ({
            let event = EventModel::TimerFired { id, lateness_ns };
            read_message(super::event_object(event)) == Some(fields_of(event))
        }),
{
    let ids = Seq::<u64>::empty();
    lemma_marks();
    lemma_head_timer_fired();
    lemma_label_lateness_ns();
    lemma_read_3(super::event_object(EventModel::TimerFired { id, lateness_ns }), ids, ("type"@, text("timer_fired"@)), ("id"@, number(id as int)), ("lateness_ns"@, number(lateness_ns as int)));
}

proof fn lemma_timer_cancelled(id: u64)
    ensures
        ({
            let event = EventModel::TimerCancelled { id };
            read_message(super::event_object(event)) == Some(fields_of(event))
        }),
{
    let ids = Seq::<u64>::empty();
    lemma_marks();
    lemma_head_timer_cancelled();
    lemma_read_2(super::event_object(EventModel::TimerCancelled { id }), ids, ("type"@, text("timer_cancelled"@)), ("id"@, number(id as int)));
}

proof fn lemma_blocking_detected(task: u64, poll_duration_ns: u64, location: LocationModel)
    ensures
        ({
            let event = EventModel::BlockingDetected { task, poll_duration_ns, location };
            read_message(super::event_object(event)) == Some(fields_of(event))
        }),
{
    let ids = Seq::<u64>::empty();
    lemma_marks();
    lemma_head_blocking_detected();
    lemma_label_poll_duration_ns();
    lemma_label_location();
    lemma_place(location);
    lemma_read_4(super::event_object(EventModel::BlockingDetected { task, poll_duration_ns, location }), ids, ("type"@, text("blocking_detected"@)), ("task"@, number(task as int)), ("poll_duration_ns"@, number(poll_duration_ns as int)), ("location"@, place(location)));
}

proof fn lemma_budget_exhausted(task: u64)
    ensures
        ({
            let event = EventModel::BudgetExhausted { task };
            read_message(super::event_object(event)) == Some(fields_of(event))
        }),
{
    let ids = Seq::<u64>::empty();
    lemma_marks();
    lemma_head_budget_exhausted();
    lemma_read_2(super::event_object(EventModel::BudgetExhausted { task }), ids, ("type"@, text("budget_exhausted"@)), ("task"@, number(task as int)));
}

proof fn lemma_resource_contended(kind: Seq<char>, holder: u64, waiters: Seq<u64>)
    ensures
        ({
            let event = EventModel::ResourceContended { kind, holder, waiters };
            read_message(super::event_object(event)) == Some(fields_of(event))
        }),
{
    let ids = waiters;
    lemma_marks();
    lemma_head_resource_contended();
    lemma_label_holder();
    lemma_label_waiters();
    lemma_read_split_4(super::event_object(EventModel::ResourceContended { kind, holder, waiters }), ids, ("type"@, text("resource_contended"@)), ("kind"@, text(kind)), ("holder"@, number(holder as int)), ("waiters"@, numbers(waiters)), seq!['['], super::numbers_json(waiters), seq![']']);
}

/// What a browser reads in the message of an event is the event: its kind under `type`, and
/// every value under its name, whatever the texts in it hold.
pub proof fn law_messages_say_what_happened(event: EventModel)
    ensures
        read_message(super::event_object(event)) == Some(fields_of(event)),
{
    match event {
        EventModel::TaskSpawned { id, name, location, parent } => lemma_task_spawned(id, name, location, parent),
        EventModel::TaskPollStart { id, worker, at_ns } => lemma_task_poll_start(id, worker, at_ns),
        EventModel::TaskPollEnd { id, worker, duration_ns, result } => lemma_task_poll_end(id, worker, duration_ns, result),
        EventModel::TaskWoken { id, by } => lemma_task_woken(id, by),
        EventModel::TaskDropped { id, total_polls, total_busy_ns, total_idle_ns } => lemma_task_dropped(id, total_polls, total_busy_ns, total_idle_ns),
        EventModel::TaskAborted { id } => lemma_task_aborted(id),
        EventModel::WorkerPark { worker, timeout_ns } => lemma_worker_park(worker, timeout_ns),
        EventModel::WorkerUnpark { worker, reason } => lemma_worker_unpark(worker, reason),
        EventModel::WorkerSteal { thief, victim, count } => lemma_worker_steal(thief, victim, count),
        EventModel::QueueDepth { worker, local, global, lifo } => lemma_queue_depth(worker, local, global, lifo),
        EventModel::IoRegistered { fd, interest, task } => lemma_io_registered(fd, interest, task),
        EventModel::IoReady { fd, readiness, woke } => lemma_io_ready(fd, readiness, woke),
        EventModel::TimerSet { id, deadline_ns, task } => lemma_timer_set(id, deadline_ns, task),
        EventModel::TimerFired { id, lateness_ns } => lemma_timer_fired(id, lateness_ns),
        EventModel::TimerCancelled { id } => lemma_timer_cancelled(id),
        EventModel::BlockingDetected { task, poll_duration_ns, location } => lemma_blocking_detected(task, poll_duration_ns, location),
        EventModel::BudgetExhausted { task } => lemma_budget_exhausted(task),
        EventModel::ResourceContended { kind, holder, waiters } => lemma_resource_contended(kind, holder, waiters),
    }
}

/// The value of a field, if a message has one of that name.
pub open spec fn field(fields: Seq<(Seq<char>, Value)>, name: Seq<char>) -> Option<Value>
    decreases fields.len(),
{
    if fields.len() == 0 {
        None
    } else if fields[0].0 == name {
        Some(fields[0].1)
    } else {
        field(fields.drop_first(), name)
    }
}

/// The result of a poll is told by its own word: `ready` exactly for a poll that was ready,
/// `pending` exactly for one that has to wait, `panicked` exactly for one that panicked.
pub proof fn law_poll_results_have_their_words(
    id: u64,
    worker: u32,
    duration_ns: u64,
    result: PollResult,
)
    ensures
        ({
            let event = EventModel::TaskPollEnd { id, worker, duration_ns, result };
            let told = read_message(super::event_object(event));
            &&& told is Some
            &&& field(told->0, "result"@) == Some(text("ready"@)) <==> result is Ready
            &&& field(told->0, "result"@) == Some(text("pending"@)) <==> result is Pending
            &&& field(told->0, "result"@) == Some(text("panicked"@)) <==> result is Panicked
        }),
{
    let event = EventModel::TaskPollEnd { id, worker, duration_ns, result };
    law_messages_say_what_happened(event);
    reveal_strlit("type");
    reveal_strlit("id");
    reveal_strlit("worker");
    reveal_strlit("duration_ns");
    reveal_strlit("result");
    reveal_strlit("ready");
    reveal_strlit("pending");
    reveal_strlit("panicked");
    let fields = fields_of(event);
    assert("worker"@[0] != "result"@[0]);
    assert(fields.drop_first()[0] == fields[1]);
    assert(fields.drop_first().drop_first()[0] == fields[2]);
    assert(fields.drop_first().drop_first().drop_first()[0] == fields[3]);
    assert(fields.drop_first().drop_first().drop_first().drop_first()[0] == fields[4]);
    reveal_with_fuel(field, 6);
    assert(field(fields, "result"@) == Some(text(result_name(result))));
    assert("ready"@.len() == 5 && "pending"@.len() == 7 && "panicked"@.len() == 8);
}

/// What a browser reads of the bridge itself is its state and the reason for it.
pub proof fn law_status_messages_say_state_and_reason(state: Seq<char>, reason: Seq<char>)
    ensures
        read_message(super::status_object(state, reason)) == Some(
            seq![
                ("type"@, text("bridge_status"@)),
                ("state"@, text(state)),
                ("reason"@, text(reason)),
            ],
        ),
{
    let ids = Seq::<u64>::empty();
    let f0 = seq![
        ("type"@, text("bridge_status"@)),
        ("state"@, text(state)),
        ("reason"@, text(reason)),
    ];
    let f1 = seq![("state"@, text(state)), ("reason"@, text(reason))];
    let f2 = seq![("reason"@, text(reason))];
    lemma_marks();
    lemma_label_reason();
    reveal_strlit("{\"type\":\"bridge_status\",\"state\":");
    reveal_strlit("type");
    reveal_strlit("bridge_status");
    reveal_strlit("state");
    lemma_name_is_plain("type");
    lemma_name_is_plain("bridge_status");
    lemma_name_is_plain("state");
    assert("{\"type\":\"bridge_status\",\"state\":"@ =~= seq!['{'] + name_text("type"@)
        + string_json("bridge_status"@) + seq![','] + name_text("state"@));
    lemma_members_step(f0, ids);
    assert(f0.drop_first() =~= f1);
    lemma_members_step(f1, ids);
    assert(f1.drop_first() =~= f2);
    let t = super::status_object(state, reason);
    assert(t =~= seq!['{'] + members_text(f0, ids));
    lemma_message(t, f0, ids);
}

/// The number that a small hexadecimal digit stands for.
pub open spec fn hex_number(c: char) -> int {
    if '0' <= c <= '9' {
        c as int - '0' as int
    } else if 'a' <= c <= 'f' {
        c as int - 'a' as int + 10
    } else {
        -1
    }
}

/// Characters stand in a string as JSON has them: quotes, backslashes, line ends and tabs
/// behind a backslash, other characters that control something by their number, and all
/// others as they are.
pub proof fn law_escapes_are_those_of_json(c: char)
    ensures
        c == '"' ==> escaped_char(c) == seq!['\\', '"'],
        c == '\\' ==> escaped_char(c) == seq!['\\', '\\'],
        c == '\n' ==> escaped_char(c) == seq!['\\', 'n'],
        c == '\r' ==> escaped_char(c) == seq!['\\', 'r'],
        c == '\t' ==> escaped_char(c) == seq!['\\', 't'],
        (c < ' ' || 127 <= c as u32 <= 159) && c != '\n' && c != '\r' && c != '\t' ==> {
            let shown = escaped_char(c);
            &&& shown.len() == 6
            &&& shown.take(4) == seq!['\\', 'u', '0', '0']
            &&& 0 <= hex_number(shown[4]) && 0 <= hex_number(shown[5])
            &&& 16 * hex_number(shown[4]) + hex_number(shown[5]) == c as int
        },
        !(c < ' ' || 127 <= c as u32 <= 159) && c != '"' && c != '\\' ==> escaped_char(c) == seq![
            c,
        ],
{
    if (c < ' ' || 127 <= c as u32 <= 159) && c != '\n' && c != '\r' && c != '\t' {
        assert(escaped_char(c).take(4) =~= seq!['\\', 'u', '0', '0']);
    }
}

} // verus!
