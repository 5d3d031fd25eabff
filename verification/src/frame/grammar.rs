//! The RESP wire grammar, stated on byte sequences.
//!
//! `decode` is the reference reading of the bytes at the front of a receive
//! buffer and `encode` the reference writing of a frame. The executable
//! decoder and encoder are specified against the two.

use vstd::prelude::*;

verus! {

pub const CR: u8 = 13;

pub const LF: u8 = 10;

/// `+`, the type byte of a simple string.
pub const TAG_SIMPLE: u8 = 43;

/// `-`, the type byte of an error; also the first byte of the null bulk's length.
pub const TAG_ERROR: u8 = 45;

/// `:`, the type byte of an integer.
pub const TAG_INTEGER: u8 = 58;

/// `$`, the type byte of a bulk string.
pub const TAG_BULK: u8 = 36;

/// `*`, the type byte of an array.
pub const TAG_ARRAY: u8 = 42;

/// `%`, the type byte of a RESP3 map.
pub const TAG_MAP: u8 = 37;

/// The digit `0`.
pub const DIGIT_ZERO: u8 = 48;

/// The longest decimal line that is read as a number: the digits of `u64::MAX`.
pub const MAX_DECIMAL_LEN: usize = 20;

/// The mathematical value of a frame.
pub enum FrameView {
    Simple(Seq<u8>),
    Error(Seq<u8>),
    Integer(u64),
    Bulk(Seq<u8>),
    Null,
    Array(Seq<FrameView>),
    Mapping(Seq<(FrameView, FrameView)>),
}

/// Why a byte sequence is not the beginning of any frame.
pub enum Fault {
    /// The first byte of a frame is none of the six type bytes.
    TypeByte(u8),
    /// A length or an integer is not a decimal number that fits, the null
    /// bulk is misspelt, or a bulk string is not closed by CR LF.
    Format,
}

/// What the front of a byte sequence holds.
pub enum Wire<T> {
    /// A complete item that takes up `len` bytes.
    Complete { value: T, len: nat },
    /// The bytes end before the item does.
    Incomplete,
    /// No continuation of the bytes makes them an item.
    Invalid(Fault),
}

/// The bytes CR LF.
pub open spec fn crlf() -> Seq<u8> {
    seq![CR, LF]
}

/// `s` without its first `n` bytes; empty where `s` is shorter than that.
pub open spec fn after(s: Seq<u8>, n: int) -> Seq<u8> {
    if 0 <= n <= s.len() {
        s.skip(n)
    } else {
        Seq::empty()
    }
}

/// A CR LF pair starts at index `i` of `s`.
pub open spec fn is_line_end(s: Seq<u8>, i: int) -> bool {
    0 <= i && i + 1 < s.len() && s[i] == CR && s[i + 1] == LF
}

/// The first CR LF pair of `s` starts at index `n`.
pub open spec fn is_first_line_end(s: Seq<u8>, n: int) -> bool {
    is_line_end(s, n) && forall|j: int| 0 <= j < n ==> !is_line_end(s, j)
}

/// Length of the line at the front of `s`, without its CR LF; `None` where
/// `s` holds no CR LF pair.
pub open spec fn line_len(s: Seq<u8>) -> Option<int> {
    if exists|n: int| is_first_line_end(s, n) {
        Some(choose|n: int| is_first_line_end(s, n))
    } else {
        None
    }
}

pub open spec fn is_digit(b: u8) -> bool {
    DIGIT_ZERO <= b <= DIGIT_ZERO + 9
}

pub open spec fn all_digits(s: Seq<u8>) -> bool {
    forall|i: int| 0 <= i < s.len() ==> is_digit(#[trigger] s[i])
}

/// The number that a sequence of ASCII digits spells, most significant first.
pub open spec fn decimal_value(s: Seq<u8>) -> nat
    decreases s.len(),
{
    if s.len() == 0 {
        0
    } else {
        decimal_value(s.drop_last()) * 10 + (s.last() - DIGIT_ZERO) as nat
    }
}

/// The number on a decimal line: one to twenty digits that spell a value
/// within `u64`. Signs, blanks and longer runs of digits are not numbers.
pub open spec fn decimal_of(s: Seq<u8>) -> Option<u64> {
    if 0 < s.len() <= MAX_DECIMAL_LEN && all_digits(s) && decimal_value(s) <= u64::MAX {
        Some(decimal_value(s) as u64)
    } else {
        None
    }
}

/// A decimal number followed by CR LF at the front of `s`.
pub open spec fn read_decimal(s: Seq<u8>) -> Wire<u64> {
    match line_len(s) {
        None => Wire::Incomplete,
        Some(n) => match decimal_of(s.take(n)) {
            Some(value) => Wire::Complete { value, len: (n + 2) as nat },
            None => Wire::Invalid(Fault::Format),
        },
    }
}

/// The bytes `-1`, the length of the null bulk.
pub open spec fn null_length() -> Seq<u8> {
    seq![TAG_ERROR, (DIGIT_ZERO + 1) as u8]
}

/// What follows the type byte `$`: the null bulk, or a length line, that
/// many bytes and CR LF.
pub open spec fn decode_bulk(s: Seq<u8>) -> Wire<FrameView> {
    if s.len() == 0 {
        Wire::Incomplete
    } else if s[0] == TAG_ERROR {
        match line_len(s) {
            None => Wire::Incomplete,
            Some(n) => if s.take(n) == null_length() {
                Wire::Complete { value: FrameView::Null, len: (n + 2) as nat }
            } else {
                Wire::Invalid(Fault::Format)
            },
        }
    } else {
        match read_decimal(s) {
            Wire::Complete { value, len } => {
                let body = after(s, len as int);
                if value > usize::MAX {
                    Wire::Invalid(Fault::Format)
                } else if body.len() < value + 2 {
                    Wire::Incomplete
                } else if body[value as int] == CR && body[value + 1] == LF {
                    Wire::Complete {
                        value: FrameView::Bulk(body.take(value as int)),
                        len: (len + value + 2) as nat,
                    }
                } else {
                    Wire::Invalid(Fault::Format)
                }
            },
            Wire::Incomplete => Wire::Incomplete,
            Wire::Invalid(fault) => Wire::Invalid(fault),
        }
    }
}

/// Consecutive items paired up as the entries of a map: key, value, key, value.
pub open spec fn pair_up(items: Seq<FrameView>) -> Seq<(FrameView, FrameView)> {
    Seq::new((items.len() / 2) as nat, |i: int| (items[2 * i], items[2 * i + 1]))
}

/// The frame at the front of `s`.
pub open spec fn decode(s: Seq<u8>) -> Wire<FrameView>
    decreases s.len(), 0nat,
{
    if s.len() == 0 {
        Wire::Incomplete
    } else {
        let tag = s[0];
        let rest = s.skip(1);
        if tag == TAG_SIMPLE {
            match line_len(rest) {
                Some(n) => Wire::Complete {
                    value: FrameView::Simple(rest.take(n)),
                    len: (n + 3) as nat,
                },
                None => Wire::Incomplete,
            }
        } else if tag == TAG_ERROR {
            match line_len(rest) {
                Some(n) => Wire::Complete {
                    value: FrameView::Error(rest.take(n)),
                    len: (n + 3) as nat,
                },
                None => Wire::Incomplete,
            }
        } else if tag == TAG_INTEGER {
            match read_decimal(rest) {
                Wire::Complete { value, len } => Wire::Complete {
                    value: FrameView::Integer(value),
                    len: len + 1,
                },
                Wire::Incomplete => Wire::Incomplete,
                Wire::Invalid(fault) => Wire::Invalid(fault),
            }
        } else if tag == TAG_BULK {
            match decode_bulk(rest) {
                Wire::Complete { value, len } => Wire::Complete { value, len: len + 1 },
                Wire::Incomplete => Wire::Incomplete,
                Wire::Invalid(fault) => Wire::Invalid(fault),
            }
        } else if tag == TAG_ARRAY {
            match read_decimal(rest) {
                Wire::Complete { value: count, len: n } => match decode_many(
                    after(rest, n as int),
                    count as nat,
                ) {
                    Wire::Complete { value: items, len } => Wire::Complete {
                        value: FrameView::Array(items),
                        len: 1 + n + len,
                    },
                    Wire::Incomplete => Wire::Incomplete,
                    Wire::Invalid(fault) => Wire::Invalid(fault),
                },
                Wire::Incomplete => Wire::Incomplete,
                Wire::Invalid(fault) => Wire::Invalid(fault),
            }
        } else if tag == TAG_MAP {
            match read_decimal(rest) {
                Wire::Complete { value: count, len: n } => match decode_many(
                    after(rest, n as int),
                    2 * (count as nat),
                ) {
                    Wire::Complete { value: items, len } => Wire::Complete {
                        value: FrameView::Mapping(pair_up(items)),
                        len: 1 + n + len,
                    },
                    Wire::Incomplete => Wire::Incomplete,
                    Wire::Invalid(fault) => Wire::Invalid(fault),
                },
                Wire::Incomplete => Wire::Incomplete,
                Wire::Invalid(fault) => Wire::Invalid(fault),
            }
        } else {
            Wire::Invalid(Fault::TypeByte(tag))
        }
    }
}

/// The `count` frames at the front of `s`, one after the other.
pub open spec fn decode_many(s: Seq<u8>, count: nat) -> Wire<Seq<FrameView>>
    decreases s.len(), count + 1,
{
    if count == 0 {
        Wire::Complete { value: Seq::empty(), len: 0 }
    } else {
        match decode(s) {
            Wire::Complete { value: first, len: n } => match decode_many(
                after(s, n as int),
                (count - 1) as nat,
            ) {
                Wire::Complete { value: others, len } => Wire::Complete {
                    value: seq![first] + others,
                    len: n + len,
                },
                Wire::Incomplete => Wire::Incomplete,
                Wire::Invalid(fault) => Wire::Invalid(fault),
            },
            Wire::Incomplete => Wire::Incomplete,
            Wire::Invalid(fault) => Wire::Invalid(fault),
        }
    }
}

/// The items `done`, read from `used` bytes, in front of what `more` holds.
pub open spec fn prepend(done: Seq<FrameView>, used: nat, more: Wire<Seq<FrameView>>) -> Wire<
    Seq<FrameView>,
> {
    match more {
        Wire::Complete { value, len } => Wire::Complete { value: done + value, len: used + len },
        Wire::Incomplete => Wire::Incomplete,
        Wire::Invalid(fault) => Wire::Invalid(fault),
    }
}

/// Prepending twice is prepending the concatenation.
pub proof fn lemma_prepend_twice(
    a: Seq<FrameView>,
    used_a: nat,
    b: Seq<FrameView>,
    used_b: nat,
    more: Wire<Seq<FrameView>>,
)
    ensures
        prepend(a, used_a, prepend(b, used_b, more)) == prepend(a + b, used_a + used_b, more),
{
    match more {
        Wire::Complete { value, len } => {
            assert(a + (b + value) =~= (a + b) + value);
        },
        _ => {},
    }
}

/// Reading `count` items is reading the first and then the others.
pub proof fn lemma_decode_many_step(s: Seq<u8>, count: nat)
    requires
        count > 0,
    ensures
        decode_many(s, count) == match decode(s) {
            Wire::Complete { value, len } => prepend(
                seq![value],
                len,
                decode_many(after(s, len as int), (count - 1) as nat),
            ),
            Wire::Incomplete => Wire::Incomplete,
            Wire::Invalid(fault) => Wire::Invalid(fault),
        },
{
}

/// Prepending nothing changes nothing.
pub proof fn lemma_prepend_nothing(more: Wire<Seq<FrameView>>)
    ensures
        prepend(Seq::empty(), 0, more) == more,
{
    match more {
        Wire::Complete { value, len } => {
            assert(Seq::<FrameView>::empty() + value =~= value);
        },
        _ => {},
    }
}

/// Skipping twice is skipping the sum.
pub proof fn lemma_after_after(s: Seq<u8>, a: nat, b: nat)
    requires
        a <= s.len(),
    ensures
        after(after(s, a as int), b as int) == after(s, (a + b) as int),
{
    assert(after(after(s, a as int), b as int) =~= after(s, (a + b) as int));
}

/// A complete reading never takes more bytes than there are.
pub proof fn lemma_decode_within(s: Seq<u8>)
    ensures
        decode(s) matches Wire::Complete { len, .. } ==> 0 < len <= s.len(),
    decreases s.len(), 0nat,
{
    if s.len() > 0 {
        let tag = s[0];
        let rest = s.skip(1);
        if tag == TAG_SIMPLE || tag == TAG_ERROR {
            lemma_line_within(rest);
        } else if tag == TAG_INTEGER {
            lemma_line_within(rest);
        } else if tag == TAG_BULK {
            lemma_line_within(rest);
        } else if tag == TAG_ARRAY {
            lemma_line_within(rest);
            if let Wire::Complete { value: count, len: n } = read_decimal(rest) {
                lemma_decode_many_within(after(rest, n as int), count as nat);
            }
        } else if tag == TAG_MAP {
            lemma_line_within(rest);
            if let Wire::Complete { value: count, len: n } = read_decimal(rest) {
                lemma_decode_many_within(after(rest, n as int), 2 * (count as nat));
            }
        }
    }
}

/// A complete reading of several items never takes more bytes than there
/// are, and yields as many items as were asked for.
pub proof fn lemma_decode_many_within(s: Seq<u8>, count: nat)
    ensures
        decode_many(s, count) matches Wire::Complete { value, len } ==> len <= s.len()
            && value.len() == count,
    decreases s.len(), count + 1,
{
    if count > 0 {
        lemma_decode_within(s);
        if let Wire::Complete { value: first, len: n } = decode(s) {
            lemma_decode_many_within(after(s, n as int), (count - 1) as nat);
        }
    }
}

/// The line at the front of a sequence ends within it.
pub proof fn lemma_line_within(s: Seq<u8>)
    ensures
        line_len(s) matches Some(n) ==> 0 <= n && n + 2 <= s.len() && is_first_line_end(s, n),
{
}

/// Reading `a + b` items is reading `a` items and then `b` more.
pub proof fn lemma_decode_many_split(s: Seq<u8>, a: nat, b: nat)
    ensures
        decode_many(s, a + b) == match decode_many(s, a) {
            Wire::Complete { value, len } => prepend(
                value,
                len,
                decode_many(after(s, len as int), b),
            ),
            Wire::Incomplete => Wire::Incomplete,
            Wire::Invalid(fault) => Wire::Invalid(fault),
        },
    decreases a,
{
    if a == 0 {
        assert(after(s, 0) =~= s);
        lemma_prepend_nothing(decode_many(s, b));
    } else {
        lemma_decode_many_step(s, a + b);
        lemma_decode_many_step(s, a);
        lemma_decode_within(s);
        if let Wire::Complete { value: first, len: n } = decode(s) {
            let rest = after(s, n as int);
            lemma_decode_many_split(rest, (a - 1) as nat, b);
            lemma_decode_many_within(rest, (a - 1) as nat);
            if let Wire::Complete { value: others, len: m } = decode_many(rest, (a - 1) as nat) {
                lemma_after_after(s, n, m);
                lemma_prepend_twice(
                    seq![first],
                    n,
                    others,
                    m,
                    decode_many(after(rest, m as int), b),
                );
            }
        }
    }
}

} // verus!
