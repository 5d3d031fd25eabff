//! Reading back what was written.

use crate::frame::grammar::{
    after, all_digits, crlf, decimal_of, decimal_value, decode, decode_bulk, decode_many,
    is_digit, is_line_end, lemma_decode_many_step, line_len, null_length, pair_up, read_decimal,
    FrameView, Wire, CR, DIGIT_ZERO, LF, TAG_ERROR,
};
use crate::frame::grammar::{lemma_decode_within, lemma_line_within, TAG_ARRAY, TAG_MAP, TAG_SIMPLE};
use crate::frame::laws::lemma_decode_extends;
use crate::frame::{lemma_line_len_found, lemma_view_of_collections, Frame};
use crate::frame::write::{decimal_digits, encode, encode_all, encode_entries};
use vstd::prelude::*;

verus! {

/// A frame that the wire can carry: its texts hold no CR LF pair and its
/// sizes can be written as a length. Every frame that a program can hold
/// meets the second condition.
pub open spec fn wire_safe(frame: FrameView) -> bool
    decreases frame,
{
    match frame {
        FrameView::Simple(text) => forall|j: int| !is_line_end(text, j),
        FrameView::Error(text) => forall|j: int| !is_line_end(text, j),
        FrameView::Integer(_) => true,
        FrameView::Bulk(bytes) => bytes.len() <= usize::MAX,
        FrameView::Null => true,
        FrameView::Array(items) => items.len() <= u64::MAX && forall|i: int|
            0 <= i < items.len() ==> wire_safe(#[trigger] items[i]),
        FrameView::Mapping(entries) => entries.len() <= u64::MAX && forall|i: int|
            0 <= i < entries.len() ==> wire_safe((#[trigger] entries[i]).0) && wire_safe(
                entries[i].1,
            ),
    }
}

/// The keys and values of the entries of a map, in the order of the wire.
pub open spec fn flatten(entries: Seq<(FrameView, FrameView)>) -> Seq<FrameView>
    decreases entries.len(),
{
    if entries.len() == 0 {
        Seq::empty()
    } else {
        seq![entries[0].0, entries[0].1] + flatten(entries.drop_first())
    }
}

pub open spec fn pow10(k: nat) -> nat
    decreases k,
{
    if k == 0 {
        1
    } else {
        10 * pow10((k - 1) as nat)
    }
}

/// A number below the `k`-th power of ten has at most `k` digits, all of
/// them digits, and they spell the number.
pub proof fn lemma_decimal_digits(v: nat, k: nat)
    requires
        k >= 1,
        v < pow10(k),
    ensures
        0 < decimal_digits(v).len() <= k,
        all_digits(decimal_digits(v)),
        decimal_value(decimal_digits(v)) == v,
    decreases v,
{
    let digits = decimal_digits(v);
    if v < 10 {
        assert(digits.drop_last() =~= Seq::<u8>::empty());
        assert(decimal_value(digits.drop_last()) == 0);
    } else {
        assert(k >= 2) by {
            if k == 1 {
                assert(pow10(1) == 10 * pow10(0));
            }
        }
        assert(pow10(k) == 10 * pow10((k - 1) as nat));
        lemma_decimal_digits(v / 10, (k - 1) as nat);
        assert(digits.drop_last() =~= decimal_digits(v / 10));
        assert(digits.last() == (DIGIT_ZERO + v % 10) as u8);
    }
}

/// Every `u64` is written with one to twenty digits that are read back as it.
pub proof fn lemma_decimal_round_trip(value: u64)
    ensures
        decimal_of(decimal_digits(value as nat)) == Some(value),
{
    assert(pow10(20) == 100000000000000000000nat) by {
        reveal_with_fuel(pow10, 21);
    }
    lemma_decimal_digits(value as nat, 20);
}

/// A text without a CR LF pair, followed by CR LF, is a line that ends
/// where the text ends, whatever comes after.
pub proof fn lemma_line_of_text(text: Seq<u8>, rest: Seq<u8>)
    requires
        forall|j: int| !is_line_end(text, j),
    ensures
        line_len(text + crlf() + rest) == Some(text.len() as int),
        (text + crlf() + rest).take(text.len() as int) == text,
        after(text + crlf() + rest, (text.len() + 2) as int) == rest,
{
    let s = text + crlf() + rest;
    let n = text.len() as int;
    assert(s[n] == CR && s[n + 1] == LF);
    assert forall|j: int| 0 <= j < n implies !is_line_end(s, j) by {
        assert(!is_line_end(text, j));
        if j + 1 < n {
            assert(s[j] == text[j] && s[j + 1] == text[j + 1]);
        } else {
            assert(s[j + 1] == CR);
        }
    }
    lemma_line_len_found(s, n);
    assert(s.take(n) =~= text);
    assert(after(s, n + 2) =~= rest);
}

/// Digits hold no CR LF pair.
pub proof fn lemma_digits_hold_no_line_end(digits: Seq<u8>)
    requires
        all_digits(digits),
    ensures
        forall|j: int| !is_line_end(digits, j),
{
    assert forall|j: int| !is_line_end(digits, j) by {
        if 0 <= j && j + 1 < digits.len() {
            assert(is_digit(digits[j]));
        }
    }
}

/// A written length is read back, and what follows it is left.
pub proof fn lemma_read_written_decimal(value: u64, rest: Seq<u8>)
    ensures
        read_decimal(decimal_digits(value as nat) + crlf() + rest) == (Wire::Complete {
            value,
            len: decimal_digits(value as nat).len() + 2,
        }),
        after(
            decimal_digits(value as nat) + crlf() + rest,
            (decimal_digits(value as nat).len() + 2) as int,
        ) == rest,
        is_digit((decimal_digits(value as nat) + crlf() + rest)[0]),
{
    let digits = decimal_digits(value as nat);
    lemma_decimal_round_trip(value);
    lemma_digits_hold_no_line_end(digits);
    lemma_line_of_text(digits, rest);
    assert((digits + crlf() + rest)[0] == digits[0]);
}

/// A written line of text is read back.
proof fn lemma_round_trip_text(frame: FrameView)
    requires
        frame is Simple || frame is Error,
        wire_safe(frame),
    ensures
        decode(encode(frame)) == (Wire::Complete { value: frame, len: encode(frame).len() }),
{
    let rest = encode(frame).skip(1);
    match frame {
        FrameView::Simple(text) => {
            assert(rest =~= text + crlf() + Seq::<u8>::empty());
            lemma_line_of_text(text, Seq::empty());
        },
        FrameView::Error(text) => {
            assert(rest =~= text + crlf() + Seq::<u8>::empty());
            lemma_line_of_text(text, Seq::empty());
        },
        _ => {},
    }
}

/// A written integer is read back.
proof fn lemma_round_trip_integer(value: u64)
    ensures
        decode(encode(FrameView::Integer(value))) == (Wire::Complete {
            value: FrameView::Integer(value),
            len: encode(FrameView::Integer(value)).len(),
        }),
{
    let rest = encode(FrameView::Integer(value)).skip(1);
    assert(rest =~= decimal_digits(value as nat) + crlf() + Seq::<u8>::empty());
    lemma_read_written_decimal(value, Seq::empty());
}

/// A written bulk string is read back.
proof fn lemma_round_trip_bulk(bytes: Seq<u8>)
    requires
        bytes.len() <= usize::MAX,
    ensures
        decode(encode(FrameView::Bulk(bytes))) == (Wire::Complete {
            value: FrameView::Bulk(bytes),
            len: encode(FrameView::Bulk(bytes)).len(),
        }),
{
    let s = encode(FrameView::Bulk(bytes));
    let rest = s.skip(1);
    let body = bytes + crlf();
    let size = bytes.len() as u64;
    assert(rest =~= decimal_digits(size as nat) + crlf() + body);
    lemma_read_written_decimal(size, body);
    assert(body[size as int] == CR && body[size + 1] == LF);
    assert(body.take(size as int) =~= bytes);
    assert(rest[0] != TAG_ERROR);
    assert(decode_bulk(rest) == (Wire::Complete {
        value: FrameView::Bulk(bytes),
        len: (s.len() - 1) as nat,
    }));
}

/// The written null bulk is read back.
proof fn lemma_round_trip_null()
    ensures
        decode(encode(FrameView::Null)) == (Wire::Complete {
            value: FrameView::Null,
            len: encode(FrameView::Null).len(),
        }),
{
    let s = encode(FrameView::Null);
    let rest = s.skip(1);
    assert(rest =~= null_length() + crlf() + Seq::<u8>::empty());
    assert forall|j: int| !is_line_end(null_length(), j) by {}
    lemma_line_of_text(null_length(), Seq::empty());
    assert(rest[0] == TAG_ERROR);
    assert(decode_bulk(rest) == (Wire::Complete { value: FrameView::Null, len: 4 }));
}

/// A written array is read back where its items are.
proof fn lemma_round_trip_array(items: Seq<FrameView>)
    requires
        items.len() <= u64::MAX,
        decode_many(encode_all(items), items.len()) == (Wire::Complete {
            value: items,
            len: encode_all(items).len(),
        }),
    ensures
        decode(encode(FrameView::Array(items))) == (Wire::Complete {
            value: FrameView::Array(items),
            len: encode(FrameView::Array(items)).len(),
        }),
{
    let s = encode(FrameView::Array(items));
    let rest = s.skip(1);
    let body = encode_all(items);
    let count = items.len() as u64;
    assert(rest =~= decimal_digits(count as nat) + crlf() + body);
    lemma_read_written_decimal(count, body);
}

/// A written map is read back where its keys and values are.
proof fn lemma_round_trip_mapping(entries: Seq<(FrameView, FrameView)>)
    requires
        entries.len() <= u64::MAX,
        decode_many(encode_entries(entries), 2 * entries.len()) == (Wire::Complete {
            value: flatten(entries),
            len: encode_entries(entries).len(),
        }),
    ensures
        decode(encode(FrameView::Mapping(entries))) == (Wire::Complete {
            value: FrameView::Mapping(entries),
            len: encode(FrameView::Mapping(entries)).len(),
        }),
{
    let s = encode(FrameView::Mapping(entries));
    let rest = s.skip(1);
    let body = encode_entries(entries);
    let count = entries.len() as u64;
    assert(rest =~= decimal_digits(count as nat) + crlf() + body);
    lemma_read_written_decimal(count, body);
    lemma_pair_up_flatten(entries);
}

/// Round trip: a frame that the wire can carry is read back from its bytes
/// as itself, and the reading takes all of the bytes.
pub proof fn lemma_round_trip(frame: FrameView)
    requires
        wire_safe(frame),
    ensures
        decode(encode(frame)) == (Wire::Complete { value: frame, len: encode(frame).len() }),
    decreases frame, 0nat,
{
    match frame {
        FrameView::Simple(_) => {
            lemma_round_trip_text(frame);
        },
        FrameView::Error(_) => {
            lemma_round_trip_text(frame);
        },
        FrameView::Integer(value) => {
            lemma_round_trip_integer(value);
        },
        FrameView::Bulk(bytes) => {
            lemma_round_trip_bulk(bytes);
        },
        FrameView::Null => {
            lemma_round_trip_null();
        },
        FrameView::Array(items) => {
            lemma_round_trip_all(items);
            lemma_round_trip_array(items);
        },
        FrameView::Mapping(entries) => {
            lemma_round_trip_entries(entries);
            lemma_round_trip_mapping(entries);
        },
    }
}

/// A frame that is read back from its bytes is read back from them
/// whatever follows, and what follows is left.
proof fn lemma_decode_front(frame: FrameView, rest: Seq<u8>)
    requires
        decode(encode(frame)) == (Wire::Complete { value: frame, len: encode(frame).len() }),
    ensures
        decode(encode(frame) + rest) == (Wire::Complete {
            value: frame,
            len: encode(frame).len(),
        }),
        after(encode(frame) + rest, encode(frame).len() as int) == rest,
{
    let first = encode(frame);
    let s = first + rest;
    assert(first.is_prefix_of(s)) by {
        assert(first =~= s.subrange(0, first.len() as int));
    }
    lemma_decode_extends(first, s);
    assert(after(s, first.len() as int) =~= rest);
}

/// Frames that were written one after the other are read back in that order.
pub proof fn lemma_round_trip_all(items: Seq<FrameView>)
    requires
        forall|i: int| 0 <= i < items.len() ==> wire_safe(#[trigger] items[i]),
    ensures
        decode_many(encode_all(items), items.len()) == (Wire::Complete {
            value: items,
            len: encode_all(items).len(),
        }),
    decreases items, 1nat,
{
    if items.len() > 0 {
        let others = items.drop_first();
        let tail = encode_all(others);
        lemma_round_trip(items[0]);
        lemma_decode_front(items[0], tail);
        assert forall|i: int| 0 <= i < others.len() implies wire_safe(#[trigger] others[i]) by {
            assert(others[i] == items[i + 1]);
        }
        lemma_round_trip_all(others);
        lemma_decode_many_step(encode_all(items), items.len());
        assert(seq![items[0]] + others =~= items);
    } else {
        assert(items =~= Seq::<FrameView>::empty());
        assert(encode_all(items) =~= Seq::<u8>::empty());
    }
}

/// The entries of a map that were written one after the other are read back
/// as their keys and values in that order.
pub proof fn lemma_round_trip_entries(entries: Seq<(FrameView, FrameView)>)
    requires
        forall|i: int|
            0 <= i < entries.len() ==> wire_safe((#[trigger] entries[i]).0) && wire_safe(
                entries[i].1,
            ),
    ensures
        decode_many(encode_entries(entries), 2 * entries.len()) == (Wire::Complete {
            value: flatten(entries),
            len: encode_entries(entries).len(),
        }),
    decreases entries, 1nat,
{
    if entries.len() > 0 {
        let key = entries[0].0;
        let value = entries[0].1;
        let others = entries.drop_first();
        let tail = encode_entries(others);
        assert(wire_safe(entries[0].0) && wire_safe(entries[0].1));
        lemma_round_trip(key);
        lemma_round_trip(value);
        assert forall|i: int| 0 <= i < others.len() implies wire_safe(
            (#[trigger] others[i]).0,
        ) && wire_safe(others[i].1) by {
            assert(others[i] == entries[i + 1]);
        }
        lemma_round_trip_entries(others);
        lemma_read_entry(key, value, tail, flatten(others), (2 * others.len()) as nat);
        assert(encode_entries(entries) =~= encode(key) + (encode(value) + tail));
        assert(seq![key] + (seq![value] + flatten(others)) =~= flatten(entries));
    } else {
        assert(flatten(entries) =~= Seq::<FrameView>::empty());
        assert(encode_entries(entries) =~= Seq::<u8>::empty());
    }
}

/// A key and a value that are read back from their bytes are read in front
/// of the items that follow them.
proof fn lemma_read_entry(
    key: FrameView,
    value: FrameView,
    tail: Seq<u8>,
    others: Seq<FrameView>,
    count: nat,
)
    requires
        decode(encode(key)) == (Wire::Complete { value: key, len: encode(key).len() }),
        decode(encode(value)) == (Wire::Complete { value, len: encode(value).len() }),
        decode_many(tail, count) == (Wire::Complete { value: others, len: tail.len() }),
    ensures
        decode_many(encode(key) + (encode(value) + tail), count + 2) == (Wire::Complete {
            value: seq![key] + (seq![value] + others),
            len: (encode(key) + (encode(value) + tail)).len(),
        }),
{
    let middle = encode(value) + tail;
    let s = encode(key) + middle;
    lemma_decode_front(value, tail);
    lemma_decode_many_step(middle, count + 1);
    assert(decode_many(middle, count + 1) == (Wire::Complete {
        value: seq![value] + others,
        len: middle.len(),
    }));
    lemma_decode_front(key, middle);
    lemma_decode_many_step(s, count + 2);
}

/// Pairing up the keys and values of entries gives the entries back.
pub proof fn lemma_pair_up_flatten(entries: Seq<(FrameView, FrameView)>)
    ensures
        flatten(entries).len() == 2 * entries.len(),
        pair_up(flatten(entries)) == entries,
    decreases entries.len(),
{
    if entries.len() == 0 {
        assert(pair_up(flatten(entries)) =~= entries);
    } else {
        let others = entries.drop_first();
        lemma_pair_up_flatten(others);
        let flat = flatten(entries);
        assert(flat.len() == 2 * entries.len());
        assert forall|i: int| 0 <= i < entries.len() implies pair_up(flat)[i] == entries[i] by {
            if i > 0 {
                assert(flat[2 * i] == flatten(others)[2 * (i - 1)]);
                assert(flat[2 * i + 1] == flatten(others)[2 * (i - 1) + 1]);
                assert(pair_up(flatten(others))[i - 1] == others[i - 1]);
            }
        }
        assert(pair_up(flat) =~= entries);
    }
}

/// The texts of the frame, at any depth, hold no CR LF pair.
pub open spec fn texts_are_lines(frame: FrameView) -> bool
    decreases frame,
{
    match frame {
        FrameView::Simple(text) => forall|j: int| !is_line_end(text, j),
        FrameView::Error(text) => forall|j: int| !is_line_end(text, j),
        FrameView::Array(items) => forall|i: int|
            0 <= i < items.len() ==> texts_are_lines(#[trigger] items[i]),
        FrameView::Mapping(entries) => forall|i: int|
            0 <= i < entries.len() ==> texts_are_lines((#[trigger] entries[i]).0)
                && texts_are_lines(entries[i].1),
        _ => true,
    }
}

/// A frame that a program holds can be carried by the wire as soon as its
/// texts hold no CR LF pair: its sizes always fit.
pub proof fn lemma_frame_is_wire_safe(frame: Frame)
    requires
        texts_are_lines(frame@),
    ensures
        wire_safe(frame@),
    decreases frame,
{
    lemma_view_of_collections(frame);
    match frame {
        Frame::Bulk(bytes) => {
            assert(bytes@.len() == bytes.len());
        },
        Frame::Array(items) => {
            assert(items@.len() == items.len());
            let views = frame@->Array_0;
            assert forall|i: int| 0 <= i < views.len() implies wire_safe(#[trigger] views[i]) by {
                assert(views[i] == items@[i]@);
                lemma_frame_is_wire_safe(items@[i]);
            }
        },
        Frame::Mapping(entries) => {
            assert(entries@.len() == entries.len());
            let views = frame@->Mapping_0;
            assert forall|i: int| 0 <= i < views.len() implies wire_safe(
                (#[trigger] views[i]).0,
            ) && wire_safe(views[i].1) by {
                assert(views[i] == (entries@[i].0@, entries@[i].1@));
                lemma_frame_is_wire_safe(entries@[i].0);
                lemma_frame_is_wire_safe(entries@[i].1);
            }
        },
        _ => {},
    }
}

/// Round trip of the frames of a program: a frame whose texts hold no
/// CR LF pair is read back from the bytes that it is written as.
pub proof fn lemma_frame_round_trip(frame: Frame)
    requires
        texts_are_lines(frame@),
    ensures
        decode(encode(frame@)) == (Wire::Complete { value: frame@, len: encode(frame@).len() }),
{
    lemma_frame_is_wire_safe(frame);
    lemma_round_trip(frame@);
}

/// A line that was found holds no CR LF pair.
proof fn lemma_line_holds_no_line_end(s: Seq<u8>)
    requires
        line_len(s) is Some,
    ensures
        forall|j: int| !is_line_end(s.take(line_len(s)->0), j),
{
    let n = line_len(s)->0;
    lemma_line_within(s);
    assert forall|j: int| !is_line_end(s.take(n), j) by {
        if 0 <= j && j + 1 < n {
            assert(!is_line_end(s, j));
        }
    }
}

/// Every frame that is read can be carried by the wire.
pub proof fn lemma_decoded_is_wire_safe(s: Seq<u8>)
    ensures
        decode(s) matches Wire::Complete { value, .. } ==> wire_safe(value),
    decreases s.len(), 0nat,
{
    if s.len() > 0 {
        let tag = s[0];
        let rest = s.skip(1);
        if tag == TAG_SIMPLE || tag == TAG_ERROR {
            if line_len(rest) is Some {
                lemma_line_holds_no_line_end(rest);
            }
        } else if tag == TAG_ARRAY {
            lemma_line_within(rest);
            if let Wire::Complete { value: count, len: n } = read_decimal(rest) {
                lemma_decoded_are_wire_safe(after(rest, n as int), count as nat);
            }
        } else if tag == TAG_MAP {
            lemma_line_within(rest);
            if let Wire::Complete { value: count, len: n } = read_decimal(rest) {
                let items = after(rest, n as int);
                lemma_decoded_are_wire_safe(items, 2 * (count as nat));
                if let Wire::Complete { value: flat, .. } = decode_many(items, 2 * (count as nat)) {
                    let entries = pair_up(flat);
                    assert forall|i: int| 0 <= i < entries.len() implies wire_safe(
                        (#[trigger] entries[i]).0,
                    ) && wire_safe(entries[i].1) by {
                        assert(wire_safe(flat[2 * i]));
                        assert(wire_safe(flat[2 * i + 1]));
                    }
                }
            }
        }
    }
}

/// Every frame of several that are read can be carried by the wire.
pub proof fn lemma_decoded_are_wire_safe(s: Seq<u8>, count: nat)
    ensures
        decode_many(s, count) matches Wire::Complete { value, .. } ==> value.len() == count
            && forall|i: int| 0 <= i < value.len() ==> wire_safe(#[trigger] value[i]),
    decreases s.len(), count + 1,
{
    if count > 0 {
        lemma_decoded_is_wire_safe(s);
        lemma_decode_within(s);
        if let Wire::Complete { value: first, len: n } = decode(s) {
            lemma_decoded_are_wire_safe(after(s, n as int), (count - 1) as nat);
        }
    }
}

/// What is read stays what it is when it is written and read again:
/// writing gives every frame one spelling, and the reader takes it back.
pub proof fn lemma_write_back_is_read_back(s: Seq<u8>)
    requires
        decode(s) is Complete,
    ensures
        decode(encode(decode(s)->Complete_value)) == (Wire::Complete {
            value: decode(s)->Complete_value,
            len: encode(decode(s)->Complete_value).len(),
        }),
{
    lemma_decoded_is_wire_safe(s);
    lemma_round_trip(decode(s)->Complete_value);
}

} // verus!
