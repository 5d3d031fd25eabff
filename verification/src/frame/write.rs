//! The encoder: a frame written as bytes at the end of a buffer.

use crate::frame::grammar::{
    crlf, null_length, FrameView, CR, DIGIT_ZERO, LF, TAG_ARRAY, TAG_BULK, TAG_ERROR, TAG_INTEGER,
    TAG_MAP, TAG_SIMPLE,
};
use crate::frame::{entries_view, frames_view, lemma_view_of_collections, Frame};
use vstd::prelude::*;

verus! {

/// The decimal digits of a number, without leading zeros.
pub open spec fn decimal_digits(v: nat) -> Seq<u8>
    decreases v,
{
    if v < 10 {
        seq![(DIGIT_ZERO + v) as u8]
    } else {
        decimal_digits(v / 10).push((DIGIT_ZERO + v % 10) as u8)
    }
}

/// The bytes that a frame is written as.
pub open spec fn encode(frame: FrameView) -> Seq<u8>
    decreases frame, 0nat,
{
    match frame {
        FrameView::Simple(text) => seq![TAG_SIMPLE] + text + crlf(),
        FrameView::Error(text) => seq![TAG_ERROR] + text + crlf(),
        FrameView::Integer(value) => seq![TAG_INTEGER] + decimal_digits(value as nat) + crlf(),
        FrameView::Bulk(bytes) => seq![TAG_BULK] + decimal_digits(bytes.len()) + crlf() + bytes
            + crlf(),
        FrameView::Null => seq![TAG_BULK] + null_length() + crlf(),
        FrameView::Array(items) => seq![TAG_ARRAY] + decimal_digits(items.len()) + crlf()
            + encode_all(items),
        FrameView::Mapping(entries) => seq![TAG_MAP] + decimal_digits(entries.len()) + crlf()
            + encode_entries(entries),
    }
}

/// The bytes of several frames, one after the other.
pub open spec fn encode_all(items: Seq<FrameView>) -> Seq<u8>
    decreases items, 1nat,
{
    if items.len() == 0 {
        Seq::empty()
    } else {
        encode(items[0]) + encode_all(items.drop_first())
    }
}

/// The bytes of the entries of a map: each key followed by its value.
pub open spec fn encode_entries(entries: Seq<(FrameView, FrameView)>) -> Seq<u8>
    decreases entries, 1nat,
{
    if entries.len() == 0 {
        Seq::empty()
    } else {
        encode(entries[0].0) + encode(entries[0].1) + encode_entries(entries.drop_first())
    }
}

/// Writing one more frame appends its bytes.
pub proof fn lemma_encode_all_push(items: Seq<FrameView>, last: FrameView)
    ensures
        encode_all(items.push(last)) == encode_all(items) + encode(last),
    decreases items.len(),
{
    let longer = items.push(last);
    if items.len() == 0 {
        assert(longer.drop_first() =~= Seq::<FrameView>::empty());
        assert(items =~= Seq::<FrameView>::empty());
        assert(encode_all(Seq::<FrameView>::empty()) =~= Seq::<u8>::empty());
        assert(longer[0] == last);
        assert(encode_all(longer) =~= encode_all(items) + encode(last));
    } else {
        lemma_encode_all_push(items.drop_first(), last);
        assert(longer.drop_first() =~= items.drop_first().push(last));
        assert(encode_all(longer) =~= encode_all(items) + encode(last));
    }
}

/// Writing one more entry appends the bytes of its key and of its value.
pub proof fn lemma_encode_entries_push(
    entries: Seq<(FrameView, FrameView)>,
    last: (FrameView, FrameView),
)
    ensures
        encode_entries(entries.push(last)) == encode_entries(entries) + encode(last.0) + encode(
            last.1,
        ),
    decreases entries.len(),
{
    let longer = entries.push(last);
    if entries.len() == 0 {
        assert(longer.drop_first() =~= Seq::<(FrameView, FrameView)>::empty());
        assert(entries =~= Seq::<(FrameView, FrameView)>::empty());
        assert(encode_entries(Seq::<(FrameView, FrameView)>::empty()) =~= Seq::<u8>::empty());
        assert(longer[0] == last);
        assert(encode_entries(longer) =~= encode_entries(entries) + encode(last.0) + encode(
            last.1,
        ));
    } else {
        lemma_encode_entries_push(entries.drop_first(), last);
        assert(longer.drop_first() =~= entries.drop_first().push(last));
        assert(encode_entries(longer) =~= encode_entries(entries) + encode(last.0) + encode(
            last.1,
        ));
    }
}

/// Appends `bytes` to `buf`.
fn push_all(buf: &mut Vec<u8>, bytes: &Vec<u8>)
    ensures
        final(buf)@ == old(buf)@ + bytes@,
{
    let mut i: usize = 0;
    while i < bytes.len()
        invariant
            i <= bytes.len(),
            buf@ == old(buf)@ + bytes@.take(i as int),
        decreases bytes.len() - i,
    {
        buf.push(bytes[i]);
        assert(buf@ =~= old(buf)@ + bytes@.take(i + 1));
        i = i + 1;
    }
    assert(bytes@.take(i as int) =~= bytes@);
}

/// Appends CR LF to `buf`.
fn push_crlf(buf: &mut Vec<u8>)
    ensures
        final(buf)@ == old(buf)@ + crlf(),
{
    buf.push(CR);
    buf.push(LF);
    assert(buf@ =~= old(buf)@ + crlf());
}

/// Appends the decimal digits of `val` to `buf`.
fn push_digits(buf: &mut Vec<u8>, val: u64)
    ensures
        final(buf)@ == old(buf)@ + decimal_digits(val as nat),
    decreases val,
{
    if val >= 10 {
        push_digits(buf, val / 10);
    }
    buf.push(DIGIT_ZERO + (val % 10) as u8);
    assert(buf@ =~= old(buf)@ + decimal_digits(val as nat));
}

/// Writes a decimal value and the CR LF that closes its line.
pub fn write_decimal(buf: &mut Vec<u8>, val: u64)
    ensures
        final(buf)@ == old(buf)@ + decimal_digits(val as nat) + crlf(),
{
    push_digits(buf, val);
    push_crlf(buf);
}

/// Writes a frame of any kind and any depth.
#[verifier::loop_isolation(false)]
pub fn write_value(buf: &mut Vec<u8>, frame: &Frame)
    ensures
        final(buf)@ == old(buf)@ + encode(frame@),
    decreases frame,
{
    match frame {
        Frame::Simple(text) => {
            buf.push(TAG_SIMPLE);
            push_all(buf, text);
            push_crlf(buf);
            assert(buf@ =~= old(buf)@ + encode(frame@));
        },
        Frame::Error(text) => {
            buf.push(TAG_ERROR);
            push_all(buf, text);
            push_crlf(buf);
            assert(buf@ =~= old(buf)@ + encode(frame@));
        },
        Frame::Integer(value) => {
            buf.push(TAG_INTEGER);
            write_decimal(buf, *value);
            assert(buf@ =~= old(buf)@ + encode(frame@));
        },
        Frame::Null => {
            buf.push(TAG_BULK);
            buf.push(TAG_ERROR);
            buf.push(DIGIT_ZERO + 1);
            push_crlf(buf);
            assert(buf@ =~= old(buf)@ + encode(frame@));
        },
        Frame::Bulk(bytes) => {
            buf.push(TAG_BULK);
            write_decimal(buf, bytes.len() as u64);
            push_all(buf, bytes);
            push_crlf(buf);
            assert(buf@ =~= old(buf)@ + encode(frame@));
        },
        Frame::Array(items) => {
            proof {
                lemma_view_of_collections(*frame);
            }
            buf.push(TAG_ARRAY);
            write_decimal(buf, items.len() as u64);
            let ghost head = buf@;
            assert(head =~= old(buf)@ + (seq![TAG_ARRAY] + decimal_digits(items@.len()) + crlf()));
            let mut i: usize = 0;
            assert(frames_view(items@).take(0) =~= Seq::<FrameView>::empty());
            while i < items.len()
                invariant
                    i <= items.len(),
                    buf@ == head + encode_all(frames_view(items@).take(i as int)),
                decreases items.len() - i,
            {
                write_value(buf, &items[i]);
                proof {
                    let views = frames_view(items@);
                    lemma_encode_all_push(views.take(i as int), items@[i as int]@);
                    assert(views.take(i + 1) =~= views.take(i as int).push(items@[i as int]@));
                    assert(buf@ =~= head + encode_all(views.take(i + 1)));
                }
                i = i + 1;
            }
            assert(frames_view(items@).take(i as int) =~= frames_view(items@));
            assert(buf@ =~= old(buf)@ + encode(frame@));
        },
        Frame::Mapping(entries) => {
            proof {
                lemma_view_of_collections(*frame);
            }
            buf.push(TAG_MAP);
            write_decimal(buf, entries.len() as u64);
            let ghost head = buf@;
            assert(head =~= old(buf)@ + (seq![TAG_MAP] + decimal_digits(entries@.len()) + crlf()));
            let mut i: usize = 0;
            assert(entries_view(entries@).take(0) =~= Seq::<(FrameView, FrameView)>::empty());
            while i < entries.len()
                invariant
                    i <= entries.len(),
                    buf@ == head + encode_entries(entries_view(entries@).take(i as int)),
                decreases entries.len() - i,
            {
                write_value(buf, &entries[i].0);
                write_value(buf, &entries[i].1);
                proof {
                    let views = entries_view(entries@);
                    let entry = (entries@[i as int].0@, entries@[i as int].1@);
                    lemma_encode_entries_push(views.take(i as int), entry);
                    assert(views.take(i + 1) =~= views.take(i as int).push(entry));
                    assert(buf@ =~= head + encode_entries(views.take(i + 1)));
                }
                i = i + 1;
            }
            assert(entries_view(entries@).take(i as int) =~= entries_view(entries@));
            assert(buf@ =~= old(buf)@ + encode(frame@));
        },
    }
}

/// Writes a frame: an array entry by entry, any other frame as a value.
pub fn write_frame(buf: &mut Vec<u8>, frame: &Frame)
    ensures
        final(buf)@ == old(buf)@ + encode(frame@),
{
    match frame {
        Frame::Array(items) => {
            proof {
                lemma_view_of_collections(*frame);
            }
            buf.push(TAG_ARRAY);
            write_decimal(buf, items.len() as u64);
            let ghost head = buf@;
            assert(head =~= old(buf)@ + (seq![TAG_ARRAY] + decimal_digits(items@.len()) + crlf()));
            let mut i: usize = 0;
            assert(frames_view(items@).take(0) =~= Seq::<FrameView>::empty());
            while i < items.len()
                invariant
                    i <= items.len(),
                    buf@ == head + encode_all(frames_view(items@).take(i as int)),
                decreases items.len() - i,
            {
                write_value(buf, &items[i]);
                proof {
                    let views = frames_view(items@);
                    lemma_encode_all_push(views.take(i as int), items@[i as int]@);
                    assert(views.take(i + 1) =~= views.take(i as int).push(items@[i as int]@));
                    assert(buf@ =~= head + encode_all(views.take(i + 1)));
                }
                i = i + 1;
            }
            assert(frames_view(items@).take(i as int) =~= frames_view(items@));
            assert(buf@ =~= old(buf)@ + encode(frame@));
        },
        _ => write_value(buf, frame),
    }
}

} // verus!
