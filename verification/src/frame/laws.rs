//! What holds of the decoder on every input.

use crate::frame::grammar::{
    after, decode, decode_bulk, decode_many, is_first_line_end, is_line_end,
    lemma_decode_many_within, lemma_decode_within, lemma_line_within, line_len, read_decimal, Wire,
    TAG_ARRAY, TAG_BULK, TAG_ERROR, TAG_INTEGER, TAG_MAP, TAG_SIMPLE,
};
use crate::frame::lemma_line_len_found;
use vstd::prelude::*;

verus! {

/// A line that is found in a prefix is the line of the whole.
pub proof fn lemma_line_extends(s: Seq<u8>, t: Seq<u8>)
    requires
        s.is_prefix_of(t),
        line_len(s) is Some,
    ensures
        line_len(t) == line_len(s),
        t.take(line_len(s)->0) == s.take(line_len(s)->0),
{
    let n = line_len(s)->0;
    lemma_line_within(s);
    assert(is_first_line_end(t, n)) by {
        assert(is_line_end(s, n));
        assert(t[n] == s[n] && t[n + 1] == s[n + 1]);
        assert forall|j: int| 0 <= j < n implies !is_line_end(t, j) by {
            assert(!is_line_end(s, j));
            assert(t[j] == s[j] && t[j + 1] == s[j + 1]);
        }
    }
    lemma_line_len_found(t, n);
    assert(t.take(n) =~= s.take(n));
}

/// A decimal line that is read or refused in a prefix is read or refused
/// alike in the whole.
pub proof fn lemma_read_decimal_extends(s: Seq<u8>, t: Seq<u8>)
    requires
        s.is_prefix_of(t),
        !(read_decimal(s) is Incomplete),
    ensures
        read_decimal(t) == read_decimal(s),
{
    lemma_line_extends(s, t);
}

/// The rest of a prefix is a prefix of the rest.
pub proof fn lemma_after_prefix(s: Seq<u8>, t: Seq<u8>, n: int)
    requires
        s.is_prefix_of(t),
        0 <= n <= s.len(),
    ensures
        after(s, n).is_prefix_of(after(t, n)),
{
    assert(after(s, n) =~= after(t, n).subrange(0, after(s, n).len() as int));
}

/// A bulk string that is read or refused in a prefix is read or refused
/// alike in the whole.
pub proof fn lemma_decode_bulk_extends(s: Seq<u8>, t: Seq<u8>)
    requires
        s.is_prefix_of(t),
        !(decode_bulk(s) is Incomplete),
    ensures
        decode_bulk(t) == decode_bulk(s),
{
    assert(t[0] == s[0]);
    if s[0] == TAG_ERROR {
        lemma_line_extends(s, t);
    } else {
        lemma_read_decimal_extends(s, t);
        lemma_line_within(s);
        if let Wire::Complete { value, len } = read_decimal(s) {
            if value <= usize::MAX {
                let body = after(s, len as int);
                let longer = after(t, len as int);
                lemma_after_prefix(s, t, len as int);
                assert(longer[value as int] == body[value as int]);
                assert(longer[value + 1] == body[value + 1]);
                assert(longer.take(value as int) =~= body.take(value as int));
            }
        }
    }
}

/// A frame that is read or refused in a prefix is read or refused alike in
/// the whole: more bytes never change what the first bytes mean.
pub proof fn lemma_decode_extends(s: Seq<u8>, t: Seq<u8>)
    requires
        s.is_prefix_of(t),
        !(decode(s) is Incomplete),
    ensures
        decode(t) == decode(s),
    decreases s.len(), 0nat,
{
    assert(t[0] == s[0]);
    let tag = s[0];
    let rest = s.skip(1);
    let longer = t.skip(1);
    assert(rest.is_prefix_of(longer)) by {
        assert(rest =~= longer.subrange(0, rest.len() as int));
    }
    if tag == TAG_SIMPLE || tag == TAG_ERROR {
        lemma_line_extends(rest, longer);
    } else if tag == TAG_INTEGER {
        lemma_read_decimal_extends(rest, longer);
    } else if tag == TAG_BULK {
        lemma_decode_bulk_extends(rest, longer);
    } else if tag == TAG_ARRAY {
        lemma_read_decimal_extends(rest, longer);
        lemma_line_within(rest);
        if let Wire::Complete { value: count, len: n } = read_decimal(rest) {
            lemma_after_prefix(rest, longer, n as int);
            lemma_decode_many_extends(after(rest, n as int), after(longer, n as int), count as nat);
        }
    } else if tag == TAG_MAP {
        lemma_read_decimal_extends(rest, longer);
        lemma_line_within(rest);
        if let Wire::Complete { value: count, len: n } = read_decimal(rest) {
            lemma_after_prefix(rest, longer, n as int);
            lemma_decode_many_extends(
                after(rest, n as int),
                after(longer, n as int),
                2 * (count as nat),
            );
        }
    }
}

/// Several frames that are read or refused in a prefix are read or refused
/// alike in the whole.
pub proof fn lemma_decode_many_extends(s: Seq<u8>, t: Seq<u8>, count: nat)
    requires
        s.is_prefix_of(t),
        !(decode_many(s, count) is Incomplete),
    ensures
        decode_many(t, count) == decode_many(s, count),
    decreases s.len(), count + 1,
{
    if count > 0 {
        lemma_decode_extends(s, t);
        lemma_decode_within(s);
        if let Wire::Complete { value: first, len: n } = decode(s) {
            lemma_after_prefix(s, t, n as int);
            lemma_decode_many_extends(after(s, n as int), after(t, n as int), (count - 1) as nat);
        }
    }
}

/// Incomplete monotonicity: where a buffer does not yet hold a whole frame,
/// none of its prefixes does, and none of them is refused.
pub proof fn lemma_incomplete_is_monotonic(whole: Seq<u8>, prefix: Seq<u8>)
    requires
        prefix.is_prefix_of(whole),
        decode(whole) is Incomplete,
    ensures
        decode(prefix) is Incomplete,
{
    if !(decode(prefix) is Incomplete) {
        lemma_decode_extends(prefix, whole);
    }
}

/// The line at the front of a sequence is the line of every prefix that
/// holds it with its CR LF.
pub proof fn lemma_line_local(s: Seq<u8>, m: int)
    requires
        line_len(s) is Some,
        line_len(s)->0 + 2 <= m <= s.len(),
    ensures
        line_len(s.take(m)) == line_len(s),
        s.take(m).take(line_len(s)->0) == s.take(line_len(s)->0),
{
    let n = line_len(s)->0;
    let p = s.take(m);
    lemma_line_within(s);
    assert(is_first_line_end(p, n)) by {
        assert(is_line_end(s, n));
        assert forall|j: int| 0 <= j < n implies !is_line_end(p, j) by {
            assert(!is_line_end(s, j));
        }
    }
    lemma_line_len_found(p, n);
    assert(p.take(n) =~= s.take(n));
}

/// Check-parse agreement: a frame that is read from a buffer is read, whole
/// and alone, from the bytes that it took up.
pub proof fn lemma_decode_is_local(s: Seq<u8>)
    requires
        decode(s) is Complete,
    ensures
        decode(s)->Complete_len <= s.len(),
        decode(s.take(decode(s)->Complete_len as int)) == decode(s),
    decreases s.len(), 0nat,
{
    lemma_decode_within(s);
    let total = decode(s)->Complete_len as int;
    let p = s.take(total);
    let tag = s[0];
    let rest = s.skip(1);
    let short = p.skip(1);
    assert(short =~= rest.take(total - 1));
    lemma_line_within(rest);
    if tag == TAG_SIMPLE || tag == TAG_ERROR {
        lemma_line_local(rest, total - 1);
    } else if tag == TAG_INTEGER {
        lemma_line_local(rest, total - 1);
    } else if tag == TAG_BULK {
        lemma_decode_bulk_is_local(rest);
    } else if tag == TAG_ARRAY {
        let count = read_decimal(rest)->Complete_value;
        let n = read_decimal(rest)->Complete_len;
        let items = after(rest, n as int);
        lemma_decode_many_within(items, count as nat);
        lemma_decode_many_is_local(items, count as nat);
        lemma_line_local(rest, total - 1);
        assert(after(short, n as int) =~= items.take(total - 1 - n));
    } else if tag == TAG_MAP {
        let count = read_decimal(rest)->Complete_value;
        let n = read_decimal(rest)->Complete_len;
        let items = after(rest, n as int);
        lemma_decode_many_within(items, 2 * (count as nat));
        lemma_decode_many_is_local(items, 2 * (count as nat));
        lemma_line_local(rest, total - 1);
        assert(after(short, n as int) =~= items.take(total - 1 - n));
    }
}

/// A bulk string that is read from a sequence is read from the bytes that
/// it took up.
pub proof fn lemma_decode_bulk_is_local(s: Seq<u8>)
    requires
        decode_bulk(s) is Complete,
    ensures
        decode_bulk(s)->Complete_len <= s.len(),
        decode_bulk(s.take(decode_bulk(s)->Complete_len as int)) == decode_bulk(s),
{
    let total = decode_bulk(s)->Complete_len as int;
    let p = s.take(total);
    lemma_line_within(s);
    if s[0] == TAG_ERROR {
        lemma_line_local(s, total);
    } else {
        let value = read_decimal(s)->Complete_value;
        let len = read_decimal(s)->Complete_len;
        lemma_line_local(s, total);
        let body = after(s, len as int);
        let short = after(p, len as int);
        assert(short =~= body.take(value + 2));
        assert(short.take(value as int) =~= body.take(value as int));
    }
}

/// Several frames that are read from a sequence are read from the bytes
/// that they took up.
pub proof fn lemma_decode_many_is_local(s: Seq<u8>, count: nat)
    requires
        decode_many(s, count) is Complete,
    ensures
        decode_many(s, count)->Complete_len <= s.len(),
        decode_many(s.take(decode_many(s, count)->Complete_len as int), count) == decode_many(
            s,
            count,
        ),
    decreases s.len(), count + 1,
{
    lemma_decode_many_within(s, count);
    if count > 0 {
        let total = decode_many(s, count)->Complete_len as int;
        let p = s.take(total);
        lemma_decode_within(s);
        let n = decode(s)->Complete_len;
        let rest = after(s, n as int);
        lemma_decode_many_within(rest, (count - 1) as nat);
        lemma_decode_is_local(s);
        lemma_decode_many_is_local(rest, (count - 1) as nat);
        assert(s.take(n as int).is_prefix_of(p)) by {
            assert(s.take(n as int) =~= p.subrange(0, n as int));
        }
        lemma_decode_extends(s.take(n as int), p);
        assert(after(p, n as int) =~= rest.take(total - n));
    }
}

} // verus!
