//! The RESP protocol value and its incremental decoder.
//!
//! A receive buffer is read through a [`Cursor`]. [`Frame::check`] tells
//! whether the bytes in front of the cursor hold a whole frame and how long
//! it is, without building anything; [`Frame::parse`] builds the frame.

use crate::frame::grammar::{
    after, all_digits, decimal_of, decimal_value, decode, decode_bulk, decode_many,
    is_first_line_end, is_line_end, lemma_decode_many_split, lemma_decode_many_step,
    lemma_prepend_nothing, lemma_prepend_twice, line_len, null_length, pair_up, prepend,
    read_decimal, Fault, FrameView, Wire, CR, DIGIT_ZERO, LF, MAX_DECIMAL_LEN, TAG_ARRAY, TAG_BULK,
    TAG_ERROR, TAG_INTEGER, TAG_MAP, TAG_SIMPLE,
};
use crate::text::{decimal_chars, push_decimal, string_bytes, text_bytes};
use vstd::prelude::*;
use vstd::slice::{slice_subrange, slice_to_vec};
use vstd::string::*;

pub mod grammar;
pub mod laws;
pub mod round_trip;
pub mod write;

verus! {

/// A frame in the Redis protocol.
#[derive(Debug, PartialEq, Eq)]
pub enum Frame {
    /// A short line of text that holds no CR LF.
    Simple(Vec<u8>),
    /// Like `Simple`, but it reports an error.
    Error(Vec<u8>),
    Integer(u64),
    /// A byte string of known length.
    Bulk(Vec<u8>),
    /// The null bulk.
    Null,
    Array(Vec<Frame>),
    /// The entries of a RESP3 map, in the order of the wire.
    Mapping(Vec<(Frame, Frame)>),
}

/// Why no frame came out of a buffer.
#[derive(Debug, PartialEq, Eq)]
pub enum Error {
    /// Not enough data is available to read a frame.
    Incomplete,
    /// The bytes are not a frame; the text says why.
    Other(String),
}

impl Error {
    /// The error as text.
    pub fn describe(&self) -> (text: String)
        ensures
            text@ == match self {
                Error::Incomplete => "ended early"@,
                Error::Other(reason) => "Invalid message encoding: "@ + reason@,
            },
    {
        match self {
            Error::Incomplete => String::from_str("ended early"),
            Error::Other(reason) => {
                let mut text = String::from_str("Invalid message encoding: ");
                text.append(reason.as_str());
                text
            },
        }
    }
}

/// The views of a sequence of frames.
pub open spec fn frames_view(frames: Seq<Frame>) -> Seq<FrameView> {
    Seq::new(frames.len(), |i: int| frames[i]@)
}

/// The views of the entries of a map.
pub open spec fn entries_view(entries: Seq<(Frame, Frame)>) -> Seq<(FrameView, FrameView)> {
    Seq::new(entries.len(), |i: int| (entries[i].0@, entries[i].1@))
}

/// The mathematical value of a frame.
pub open spec fn frame_view(frame: Frame) -> FrameView
    decreases frame,
{
    match frame {
        Frame::Simple(text) => FrameView::Simple(text@),
        Frame::Error(text) => FrameView::Error(text@),
        Frame::Integer(value) => FrameView::Integer(value),
        Frame::Bulk(bytes) => FrameView::Bulk(bytes@),
        Frame::Null => FrameView::Null,
        Frame::Array(items) => FrameView::Array(
            Seq::new(
                items@.len(),
                |i: int|
                    if 0 <= i < items@.len() {
                        frame_view(items@[i])
                    } else {
                        FrameView::Null
                    },
            ),
        ),
        Frame::Mapping(entries) => FrameView::Mapping(
            Seq::new(
                entries@.len(),
                |i: int|
                    if 0 <= i < entries@.len() {
                        (frame_view(entries@[i].0), frame_view(entries@[i].1))
                    } else {
                        (FrameView::Null, FrameView::Null)
                    },
            ),
        ),
    }
}

impl View for Frame {
    type V = FrameView;

    open spec fn view(&self) -> FrameView {
        frame_view(*self)
    }
}

/// The view of an array is the sequence of the views of its items, and the
/// view of a map that of its entries.
pub proof fn lemma_view_of_collections(frame: Frame)
    ensures
        frame matches Frame::Array(items) ==> frame@ == FrameView::Array(frames_view(items@)),
        frame matches Frame::Mapping(entries) ==> frame@ == FrameView::Mapping(
            entries_view(entries@),
        ),
{
    match frame {
        Frame::Array(items) => {
            let views = frame@->Array_0;
            assert(views.len() == items@.len());
            assert forall|i: int| 0 <= i < views.len() implies views[i] == frames_view(
                items@,
            )[i] by {}
            assert(views =~= frames_view(items@));
        },
        Frame::Mapping(entries) => {
            let views = frame@->Mapping_0;
            assert(views.len() == entries@.len());
            assert forall|i: int| 0 <= i < views.len() implies views[i] == entries_view(
                entries@,
            )[i] by {}
            assert(views =~= entries_view(entries@));
        },
        _ => {},
    }
}

/// The text of the error that reports a fault.
pub open spec fn fault_message(fault: Fault) -> Seq<char> {
    match fault {
        Fault::Format => "protocol error; invalid frame format"@,
        Fault::TypeByte(byte) => "protocol error; invalid frame type byte `"@ + decimal_chars(
            byte as nat,
        ) + "`"@,
    }
}

/// `error` reports `fault`.
pub open spec fn reports(error: Error, fault: Fault) -> bool {
    error matches Error::Other(text) && text@ == fault_message(fault)
}

/// A reading position in a byte buffer.
pub struct Cursor<'a> {
    buffer: &'a [u8],
    position: usize,
}

impl<'a> Cursor<'a> {
    #[verifier::type_invariant]
    spec fn within_buffer(self) -> bool {
        self.position <= self.buffer@.len()
    }

    /// The whole buffer, read or not.
    pub closed spec fn bytes(&self) -> Seq<u8> {
        self.buffer@
    }

    /// How many bytes have been read.
    pub closed spec fn offset(&self) -> nat {
        self.position as nat
    }

    /// The bytes that have not been read yet.
    pub open spec fn unread(&self) -> Seq<u8> {
        after(self.bytes(), self.offset() as int)
    }

    /// A cursor at the start of `buffer`.
    pub fn new(buffer: &'a [u8]) -> (cursor: Cursor<'a>)
        ensures
            cursor.bytes() == buffer@,
            cursor.offset() == 0,
    {
        Cursor { buffer, position: 0 }
    }

    /// Number of bytes read so far.
    pub fn position(&self) -> (position: usize)
        ensures
            position == self.offset(),
            position <= self.bytes().len(),
    {
        proof {
            use_type_invariant(self);
        }
        self.position
    }

    /// Number of bytes left to read.
    pub fn remaining(&self) -> (count: usize)
        ensures
            count == self.unread().len(),
            count == self.bytes().len() - self.offset(),
    {
        proof {
            use_type_invariant(self);
        }
        self.buffer.len() - self.position
    }

    /// The buffer that the cursor reads.
    pub fn get_ref(&self) -> (buffer: &'a [u8])
        ensures
            buffer@ == self.bytes(),
    {
        self.buffer
    }
}

/// The first CR LF pair of a sequence is the only one that none precedes.
pub proof fn lemma_line_len_found(s: Seq<u8>, n: int)
    requires
        is_first_line_end(s, n),
    ensures
        line_len(s) == Some(n),
{
    let m = choose|m: int| is_first_line_end(s, m);
    if m < n {
        assert(!is_line_end(s, m));
    } else if n < m {
        assert(!is_line_end(s, n));
    }
}

/// A sequence without a CR LF pair has no line.
pub proof fn lemma_line_len_none(s: Seq<u8>)
    requires
        forall|j: int| 0 <= j ==> !is_line_end(s, j),
    ensures
        line_len(s) is None,
{
}

/// Calls `atoi_simd::parse::<u64, false, false>`, which reads a run of
/// ASCII digits as a `u64`. It answers with a number only for a non-empty
/// run of digits, and then with the number that they spell; it does answer
/// for every run of one to twenty digits whose value fits. Of longer runs
/// that start with zeros its builds differ, so nothing is said of them.
#[verifier::external_body]
fn parse_u64(digits: &[u8]) -> (number: Option<u64>)
    ensures
        number matches Some(value) ==> digits@.len() > 0 && all_digits(digits@) && decimal_value(
            digits@,
        ) == value,
        0 < digits@.len() <= MAX_DECIMAL_LEN && all_digits(digits@) && decimal_value(digits@)
            <= u64::MAX ==> number is Some,
{
    atoi_simd::parse::<u64, false, false>(digits).ok()
}

/// Reads a run of one to twenty ASCII digits whose value fits as a number;
/// anything else is no number.
pub fn parse_decimal(digits: &[u8]) -> (number: Option<u64>)
    ensures
        number == decimal_of(digits@),
{
    if digits.len() > MAX_DECIMAL_LEN {
        None
    } else {
        parse_u64(digits)
    }
}

/// The error that reports `fault`.
fn fault_error(fault: Fault) -> (error: Error)
    ensures
        reports(error, fault),
{
    match fault {
        Fault::Format => Error::Other(String::from_str("protocol error; invalid frame format")),
        Fault::TypeByte(byte) => {
            let mut text = String::from_str("protocol error; invalid frame type byte `");
            push_decimal(&mut text, byte as u64);
            text.append("`");
            Error::Other(text)
        },
    }
}

fn peek_u8(src: &Cursor) -> (r: Result<u8, Error>)
    ensures
        src.unread().len() == 0 ==> r == Err::<u8, Error>(Error::Incomplete),
        src.unread().len() > 0 ==> r == Ok::<u8, Error>(src.unread()[0]),
{
    proof {
        use_type_invariant(src);
    }
    if src.position < src.buffer.len() {
        Ok(src.buffer[src.position])
    } else {
        Err(Error::Incomplete)
    }
}

fn get_u8(src: &mut Cursor) -> (r: Result<u8, Error>)
    ensures
        final(src).bytes() == old(src).bytes(),
        old(src).unread().len() == 0 ==> r == Err::<u8, Error>(Error::Incomplete) && final(src).offset() == old(src).offset(),
        old(src).unread().len() > 0 ==> r == Ok::<u8, Error>(old(src).unread()[0]) && final(src).offset() == old(src).offset() + 1 && final(src).unread() == old(src).unread().skip(1),
{
    proof {
        use_type_invariant(&*src);
    }
    if src.position < src.buffer.len() {
        let byte = src.buffer[src.position];
        src.position = src.position + 1;
        assert(src.unread() =~= old(src).unread().skip(1));
        Ok(byte)
    } else {
        Err(Error::Incomplete)
    }
}

fn skip(src: &mut Cursor, n: usize) -> (r: Result<(), Error>)
    ensures
        final(src).bytes() == old(src).bytes(),
        old(src).unread().len() < n ==> r == Err::<(), Error>(Error::Incomplete) && final(src).offset() == old(src).offset(),
        old(src).unread().len() >= n ==> r is Ok && final(src).offset() == old(src).offset() + n
            && final(src).unread() == after(old(src).unread(), n as int),
{
    proof {
        use_type_invariant(&*src);
    }
    if src.buffer.len() - src.position < n {
        Err(Error::Incomplete)
    } else {
        src.position = src.position + n;
        assert(src.unread() =~= after(old(src).unread(), n as int));
        Ok(())
    }
}

/// Finds the line in front of the cursor and moves past its CR LF. The
/// result is where the line starts and where it ends in the buffer.
fn get_line(src: &mut Cursor) -> (r: Result<(usize, usize), Error>)
    ensures
        final(src).bytes() == old(src).bytes(),
        match line_len(old(src).unread()) {
            Some(n) => r == Ok::<(usize, usize), Error>(
                (old(src).offset() as usize, (old(src).offset() + n) as usize),
            ) && 0 <= n && old(src).offset() + n + 2 <= old(src).bytes().len() && final(src).offset() == old(src).offset() + n + 2 && final(src).unread() == after(
                old(src).unread(),
                n + 2,
            ),
            None => r == Err::<(usize, usize), Error>(Error::Incomplete) && final(src).offset()
                == old(src).offset(),
        },
{
    proof {
        use_type_invariant(&*src);
    }
    let start = src.position;
    let len = src.buffer.len();
    let ghost unread = src.unread();
    let mut i = start;
    while len - i >= 2
        invariant
            start <= i <= len,
            len == src.buffer@.len(),
            start == src.position,
            unread == src.buffer@.skip(start as int),
            *src == *old(src),
            forall|j: int| 0 <= j < i - start ==> !is_line_end(unread, j),
        decreases len - i,
    {
        if src.buffer[i] == CR && src.buffer[i + 1] == LF {
            src.position = i + 2;
            proof {
                assert(is_line_end(unread, i - start));
                lemma_line_len_found(unread, i - start);
                assert(src.unread() =~= after(unread, i - start + 2));
            }
            return Ok((start, i));
        }
        assert(!is_line_end(unread, i - start));
        i = i + 1;
    }
    proof {
        assert forall|j: int| 0 <= j implies !is_line_end(unread, j) by {
            if j < i - start {
            } else {
            }
        }
        lemma_line_len_none(unread);
    }
    Err(Error::Incomplete)
}

/// Reads the decimal line in front of the cursor.
fn get_decimal(src: &mut Cursor) -> (r: Result<u64, Error>)
    ensures
        final(src).bytes() == old(src).bytes(),
        match read_decimal(old(src).unread()) {
            Wire::Complete { value, len } => r == Ok::<u64, Error>(value) && final(src).offset()
                == old(src).offset() + len && final(src).unread() == after(
                old(src).unread(),
                len as int,
            ) && len <= old(src).unread().len(),
            Wire::Incomplete => r == Err::<u64, Error>(Error::Incomplete),
            Wire::Invalid(fault) => r is Err && reports(r->Err_0, fault),
        },
{
    proof {
        use_type_invariant(&*src);
    }
    let (start, end) = match get_line(src) {
        Ok(range) => range,
        Err(e) => {
            return Err(e);
        },
    };
    proof {
        use_type_invariant(&*src);
    }
    let ghost digits = old(src).unread().take(end - start);
    let line = slice_subrange(src.buffer, start, end);
    assert(line@ =~= digits);
    match parse_decimal(line) {
        Some(value) => Ok(value),
        None => Err(fault_error(Fault::Format)),
    }
}

/// Reads what follows the type byte of a bulk string. The result is `None`
/// for the null bulk, else where the bytes of the string start and end in
/// the buffer.
fn read_bulk(src: &mut Cursor) -> (r: Result<Option<(usize, usize)>, Error>)
    ensures
        final(src).bytes() == old(src).bytes(),
        match decode_bulk(old(src).unread()) {
            Wire::Complete { value, len } => r is Ok && final(src).offset() == old(src).offset()
                + len && final(src).unread() == after(old(src).unread(), len as int) && match r->Ok_0 {
                None => value == FrameView::Null,
                Some((start, end)) => start <= end <= old(src).bytes().len() && value
                    == FrameView::Bulk(old(src).bytes().subrange(start as int, end as int)),
            },
            Wire::Incomplete => r == Err::<Option<(usize, usize)>, Error>(Error::Incomplete),
            Wire::Invalid(fault) => r is Err && reports(r->Err_0, fault),
        },
{
    let ghost unread = src.unread();
    let first = match peek_u8(src) {
        Ok(byte) => byte,
        Err(e) => {
            return Err(e);
        },
    };
    if first == TAG_ERROR {
        let (start, end) = match get_line(src) {
            Ok(range) => range,
            Err(e) => {
                return Err(e);
            },
        };
        proof {
            use_type_invariant(&*src);
        }
        let ghost line = unread.take(end - start);
        assert(line =~= src.buffer@.subrange(start as int, end as int));
        if end - start == 2 && src.buffer[start] == TAG_ERROR && src.buffer[start + 1] == DIGIT_ZERO
            + 1 {
            assert(line =~= null_length());
            Ok(None)
        } else {
            assert(line != null_length()) by {
                if line == null_length() {
                    assert(line.len() == 2);
                    assert(line[0] == TAG_ERROR);
                    assert(line[1] == DIGIT_ZERO + 1);
                }
            }
            Err(fault_error(Fault::Format))
        }
    } else {
        let value = match get_decimal(src) {
            Ok(value) => value,
            Err(e) => {
                return Err(e);
            },
        };
        proof {
            use_type_invariant(&*src);
        }
        if value > usize::MAX as u64 {
            return Err(fault_error(Fault::Format));
        }
        let len = value as usize;
        let start = src.position;
        let remaining = src.buffer.len() - start;
        if remaining < 2 || remaining - 2 < len {
            return Err(Error::Incomplete);
        }
        let ghost body = src.unread();
        assert(body[len as int] == src.buffer@[start + len]);
        assert(body[len + 1] == src.buffer@[start + len + 1]);
        if src.buffer[start + len] == CR && src.buffer[start + len + 1] == LF {
            src.position = start + len + 2;
            assert(body.take(len as int) =~= src.buffer@.subrange(
                start as int,
                start + len as int,
            ));
            assert(src.unread() =~= after(unread, src.position - old(src).position));
            Ok(Some((start, start + len)))
        } else {
            Err(fault_error(Fault::Format))
        }
    }
}

/// Checks that `count` whole frames follow one another in front of the cursor.
fn check_many(src: &mut Cursor, count: u64) -> (r: Result<(), Error>)
    ensures
        final(src).bytes() == old(src).bytes(),
        match decode_many(old(src).unread(), count as nat) {
            Wire::Complete { len, .. } => r is Ok && final(src).offset() == old(src).offset() + len
                && final(src).unread() == after(old(src).unread(), len as int),
            Wire::Incomplete => r == Err::<(), Error>(Error::Incomplete),
            Wire::Invalid(fault) => r is Err && reports(r->Err_0, fault),
        },
    decreases old(src).unread().len(), 1nat,
{
    let ghost start = src.unread();
    let ghost seen: Seq<FrameView> = Seq::empty();
    let mut i: u64 = 0;
    assert(decode_many(start, count as nat) == prepend(seen, 0, decode_many(start, count as nat)))
        by {
        lemma_prepend_nothing(decode_many(start, count as nat));
    }
    assert(src.unread() =~= after(start, 0));
    while i < count
        invariant
            i <= count,
            src.bytes() == old(src).bytes(),
            start == old(src).unread(),
            src.offset() >= old(src).offset(),
            src.unread() == after(start, src.offset() - old(src).offset()),
            src.unread().len() <= start.len(),
            decode_many(start, count as nat) == prepend(
                seen,
                (src.offset() - old(src).offset()) as nat,
                decode_many(src.unread(), (count - i) as nat),
            ),
        decreases count - i,
    {
        let ghost before = src.unread();
        let ghost used = (src.offset() - old(src).offset()) as nat;
        proof {
            lemma_decode_many_step(before, (count - i) as nat);
        }
        match Frame::check(src) {
            Ok(()) => {},
            Err(e) => {
                return Err(e);
            },
        }
        proof {
            let first = decode(before)->Complete_value;
            let n = decode(before)->Complete_len;
            lemma_prepend_twice(
                seen,
                used,
                seq![first],
                n,
                decode_many(src.unread(), (count - i - 1) as nat),
            );
            seen = seen + seq![first];
            assert(src.unread() =~= after(start, src.offset() - old(src).offset()));
        }
        i = i + 1;
    }
    Ok(())
}

impl Frame {
    /// Checks whether a whole frame stands in front of the cursor, and
    /// moves the cursor past it. Nothing is built.
    pub fn check(src: &mut Cursor) -> (r: Result<(), Error>)
        ensures
            final(src).bytes() == old(src).bytes(),
            match decode(old(src).unread()) {
                Wire::Complete { len, .. } => r is Ok && final(src).offset() == old(src).offset()
                    + len && final(src).unread() == after(old(src).unread(), len as int),
                Wire::Incomplete => r == Err::<(), Error>(Error::Incomplete),
                Wire::Invalid(fault) => r is Err && reports(r->Err_0, fault),
            },
        decreases old(src).unread().len(), 0nat,
    {
        let ghost unread = src.unread();
        let tag = match get_u8(src) {
            Ok(byte) => byte,
            Err(e) => {
                return Err(e);
            },
        };
        if tag == TAG_SIMPLE || tag == TAG_ERROR {
            match get_line(src) {
                Ok(_) => {
                    assert(src.unread() =~= after(unread, src.offset() - old(src).offset()));
                    Ok(())
                },
                Err(e) => Err(e),
            }
        } else if tag == TAG_INTEGER {
            match get_decimal(src) {
                Ok(_) => {
                    assert(src.unread() =~= after(unread, src.offset() - old(src).offset()));
                    Ok(())
                },
                Err(e) => Err(e),
            }
        } else if tag == TAG_BULK {
            match read_bulk(src) {
                Ok(_) => {
                    assert(src.unread() =~= after(unread, src.offset() - old(src).offset()));
                    Ok(())
                },
                Err(e) => Err(e),
            }
        } else if tag == TAG_ARRAY {
            let count = match get_decimal(src) {
                Ok(count) => count,
                Err(e) => {
                    return Err(e);
                },
            };
            match check_many(src, count) {
                Ok(()) => {
                    assert(src.unread() =~= after(unread, src.offset() - old(src).offset()));
                    Ok(())
                },
                Err(e) => Err(e),
            }
        } else if tag == TAG_MAP {
            let count = match get_decimal(src) {
                Ok(count) => count,
                Err(e) => {
                    return Err(e);
                },
            };
            let ghost entries = src.unread();
            proof {
                lemma_decode_many_split(entries, count as nat, count as nat);
            }
            match check_many(src, count) {
                Ok(()) => {},
                Err(e) => {
                    return Err(e);
                },
            }
            match check_many(src, count) {
                Ok(()) => {
                    assert(src.unread() =~= after(unread, src.offset() - old(src).offset()));
                    Ok(())
                },
                Err(e) => Err(e),
            }
        } else {
            Err(fault_error(Fault::TypeByte(tag)))
        }
    }
}

/// Copies the bytes of the buffer from `start` up to `end`.
fn copy_range(src: &Cursor, start: usize, end: usize) -> (bytes: Vec<u8>)
    requires
        start <= end <= src.bytes().len(),
    ensures
        bytes@ == src.bytes().subrange(start as int, end as int),
{
    slice_to_vec(slice_subrange(src.buffer, start, end))
}

/// Reads `count` frames that follow one another in front of the cursor.
fn parse_many(src: &mut Cursor, count: u64) -> (r: Result<Vec<Frame>, Error>)
    ensures
        final(src).bytes() == old(src).bytes(),
        match decode_many(old(src).unread(), count as nat) {
            Wire::Complete { value, len } => r is Ok && frames_view(r->Ok_0@) == value && final(src).offset() == old(src).offset() + len && final(src).unread() == after(
                old(src).unread(),
                len as int,
            ),
            Wire::Incomplete => r == Err::<Vec<Frame>, Error>(Error::Incomplete),
            Wire::Invalid(fault) => r is Err && reports(r->Err_0, fault),
        },
    decreases old(src).unread().len(), 1nat,
{
    let ghost start = src.unread();
    let mut out: Vec<Frame> = Vec::new();
    let mut i: u64 = 0;
    proof {
        lemma_prepend_nothing(decode_many(start, count as nat));
        assert(frames_view(out@) =~= Seq::<FrameView>::empty());
        assert(src.unread() =~= after(start, 0));
    }
    while i < count
        invariant
            i <= count,
            src.bytes() == old(src).bytes(),
            start == old(src).unread(),
            src.offset() >= old(src).offset(),
            src.unread() == after(start, src.offset() - old(src).offset()),
            src.unread().len() <= start.len(),
            decode_many(start, count as nat) == prepend(
                frames_view(out@),
                (src.offset() - old(src).offset()) as nat,
                decode_many(src.unread(), (count - i) as nat),
            ),
        decreases count - i,
    {
        let ghost before = src.unread();
        let ghost used = (src.offset() - old(src).offset()) as nat;
        let ghost done = frames_view(out@);
        proof {
            lemma_decode_many_step(before, (count - i) as nat);
        }
        let frame = match Frame::parse(src) {
            Ok(frame) => frame,
            Err(e) => {
                return Err(e);
            },
        };
        out.push(frame);
        proof {
            let n = decode(before)->Complete_len;
            lemma_prepend_twice(
                done,
                used,
                seq![frame@],
                n,
                decode_many(src.unread(), (count - i - 1) as nat),
            );
            assert(frames_view(out@) =~= done + seq![frame@]);
            assert(src.unread() =~= after(start, src.offset() - old(src).offset()));
        }
        i = i + 1;
    }
    Ok(out)
}

/// Reads the `count` entries of a map: a key and a value each.
fn parse_entries(src: &mut Cursor, count: u64) -> (r: Result<Vec<(Frame, Frame)>, Error>)
    ensures
        final(src).bytes() == old(src).bytes(),
        match decode_many(old(src).unread(), 2 * (count as nat)) {
            Wire::Complete { value, len } => r is Ok && entries_view(r->Ok_0@) == pair_up(value)
                && final(src).offset() == old(src).offset() + len && final(src).unread() == after(
                old(src).unread(),
                len as int,
            ),
            Wire::Incomplete => r == Err::<Vec<(Frame, Frame)>, Error>(Error::Incomplete),
            Wire::Invalid(fault) => r is Err && reports(r->Err_0, fault),
        },
    decreases old(src).unread().len(), 1nat,
{
    let ghost start = src.unread();
    let ghost seen: Seq<FrameView> = Seq::empty();
    let mut out: Vec<(Frame, Frame)> = Vec::new();
    let mut i: u64 = 0;
    proof {
        lemma_prepend_nothing(decode_many(start, 2 * (count as nat)));
        assert(entries_view(out@) =~= pair_up(seen));
        assert(src.unread() =~= after(start, 0));
    }
    while i < count
        invariant
            i <= count,
            src.bytes() == old(src).bytes(),
            start == old(src).unread(),
            src.offset() >= old(src).offset(),
            src.unread() == after(start, src.offset() - old(src).offset()),
            src.unread().len() <= start.len(),
            seen.len() == 2 * i,
            entries_view(out@) == pair_up(seen),
            decode_many(start, 2 * (count as nat)) == prepend(
                seen,
                (src.offset() - old(src).offset()) as nat,
                decode_many(src.unread(), 2 * ((count - i) as nat)),
            ),
        decreases count - i,
    {
        let ghost before = src.unread();
        let ghost used = (src.offset() - old(src).offset()) as nat;
        let ghost done = entries_view(out@);
        let ghost left = 2 * ((count - i) as nat);
        proof {
            lemma_decode_many_step(before, left);
        }
        let key = match Frame::parse(src) {
            Ok(frame) => frame,
            Err(e) => {
                return Err(e);
            },
        };
        let ghost between = src.unread();
        let ghost key_len = decode(before)->Complete_len;
        proof {
            lemma_decode_many_step(between, (left - 1) as nat);
            assert(src.unread() =~= after(start, src.offset() - old(src).offset()));
        }
        let value = match Frame::parse(src) {
            Ok(frame) => frame,
            Err(e) => {
                return Err(e);
            },
        };
        out.push((key, value));
        proof {
            let value_len = decode(between)->Complete_len;
            let more = decode_many(src.unread(), (left - 2) as nat);
            lemma_prepend_twice(seq![key@], key_len, seq![value@], value_len, more);
            lemma_prepend_twice(seen, used, seq![key@] + seq![value@], key_len + value_len, more);
            let longer = seen + (seq![key@] + seq![value@]);
            assert(pair_up(longer) =~= pair_up(seen).push((key@, value@))) by {
                assert(longer.len() == 2 * i + 2);
                assert(pair_up(longer).len() == i + 1);
                assert forall|j: int| 0 <= j < i + 1 implies pair_up(longer)[j] == pair_up(seen).push((key@, value@))[j] by {
                    if j < i {
                        assert(longer[2 * j] == seen[2 * j]);
                        assert(longer[2 * j + 1] == seen[2 * j + 1]);
                    } else {
                        assert(longer[2 * j] == key@);
                        assert(longer[2 * j + 1] == value@);
                    }
                }
            }
            assert(entries_view(out@) =~= done.push((key@, value@)));
            seen = longer;
            assert(src.unread() =~= after(start, src.offset() - old(src).offset()));
        }
        i = i + 1;
    }
    Ok(out)
}

impl Frame {
    /// Reads the frame in front of the cursor and moves the cursor past it.
    pub fn parse(src: &mut Cursor) -> (r: Result<Frame, Error>)
        ensures
            final(src).bytes() == old(src).bytes(),
            match decode(old(src).unread()) {
                Wire::Complete { value, len } => r is Ok && r->Ok_0@ == value && final(src).offset()
                    == old(src).offset() + len && final(src).unread() == after(
                    old(src).unread(),
                    len as int,
                ),
                Wire::Incomplete => r == Err::<Frame, Error>(Error::Incomplete),
                Wire::Invalid(fault) => r is Err && reports(r->Err_0, fault),
            },
        decreases old(src).unread().len(), 0nat,
    {
        let ghost unread = src.unread();
        let tag = match get_u8(src) {
            Ok(byte) => byte,
            Err(e) => {
                return Err(e);
            },
        };
        let ghost rest = src.unread();
        if tag == TAG_SIMPLE || tag == TAG_ERROR {
            let (start, end) = match get_line(src) {
                Ok(range) => range,
                Err(e) => {
                    return Err(e);
                },
            };
            let text = copy_range(src, start, end);
            proof {
                assert(text@ =~= rest.take(end - start));
                assert(src.unread() =~= after(unread, src.offset() - old(src).offset()));
            }
            if tag == TAG_SIMPLE {
                Ok(Frame::Simple(text))
            } else {
                Ok(Frame::Error(text))
            }
        } else if tag == TAG_INTEGER {
            match get_decimal(src) {
                Ok(value) => {
                    assert(src.unread() =~= after(unread, src.offset() - old(src).offset()));
                    Ok(Frame::Integer(value))
                },
                Err(e) => Err(e),
            }
        } else if tag == TAG_BULK {
            match read_bulk(src) {
                Ok(None) => {
                    assert(src.unread() =~= after(unread, src.offset() - old(src).offset()));
                    Ok(Frame::Null)
                },
                Ok(Some((start, end))) => {
                    let bytes = copy_range(src, start, end);
                    assert(src.unread() =~= after(unread, src.offset() - old(src).offset()));
                    Ok(Frame::Bulk(bytes))
                },
                Err(e) => Err(e),
            }
        } else if tag == TAG_ARRAY {
            let count = match get_decimal(src) {
                Ok(count) => count,
                Err(e) => {
                    return Err(e);
                },
            };
            match parse_many(src, count) {
                Ok(items) => {
                    let frame = Frame::Array(items);
                    proof {
                        lemma_view_of_collections(frame);
                        assert(src.unread() =~= after(unread, src.offset() - old(src).offset()));
                    }
                    Ok(frame)
                },
                Err(e) => Err(e),
            }
        } else if tag == TAG_MAP {
            let count = match get_decimal(src) {
                Ok(count) => count,
                Err(e) => {
                    return Err(e);
                },
            };
            match parse_entries(src, count) {
                Ok(entries) => {
                    let frame = Frame::Mapping(entries);
                    proof {
                        lemma_view_of_collections(frame);
                        assert(src.unread() =~= after(unread, src.offset() - old(src).offset()));
                    }
                    Ok(frame)
                },
                Err(e) => Err(e),
            }
        } else {
            Err(fault_error(Fault::TypeByte(tag)))
        }
    }
}

impl Frame {
    /// The simple string that holds `text`.
    pub fn simple(text: &str) -> (frame: Frame)
        ensures
            frame@ == FrameView::Simple(text_bytes(text@)),
    {
        Frame::Simple(string_bytes(&String::from_str(text)))
    }

    /// The error that holds `text`.
    pub fn error(text: &String) -> (frame: Frame)
        ensures
            frame@ == FrameView::Error(text_bytes(text@)),
    {
        Frame::Error(string_bytes(text))
    }

    /// A copy of the frame.
    #[verifier::loop_isolation(false)]
    pub fn clone_frame(&self) -> (copy: Frame)
        ensures
            copy@ == self@,
        decreases self,
    {
        match self {
            Frame::Simple(text) => Frame::Simple(slice_to_vec(text.as_slice())),
            Frame::Error(text) => Frame::Error(slice_to_vec(text.as_slice())),
            Frame::Integer(value) => Frame::Integer(*value),
            Frame::Bulk(bytes) => Frame::Bulk(slice_to_vec(bytes.as_slice())),
            Frame::Null => Frame::Null,
            Frame::Array(items) => {
                let mut out: Vec<Frame> = Vec::new();
                let mut i: usize = 0;
                while i < items.len()
                    invariant
                        i <= items.len(),
                        frames_view(out@) == frames_view(items@).take(i as int),
                    decreases items.len() - i,
                {
                    out.push(items[i].clone_frame());
                    assert(frames_view(out@) =~= frames_view(items@).take(i + 1));
                    i = i + 1;
                }
                let copy = Frame::Array(out);
                proof {
                    lemma_view_of_collections(copy);
                    lemma_view_of_collections(*self);
                    assert(frames_view(items@).take(i as int) =~= frames_view(items@));
                }
                copy
            },
            Frame::Mapping(entries) => {
                let mut out: Vec<(Frame, Frame)> = Vec::new();
                let mut i: usize = 0;
                while i < entries.len()
                    invariant
                        i <= entries.len(),
                        entries_view(out@) == entries_view(entries@).take(i as int),
                    decreases entries.len() - i,
                {
                    let key = entries[i].0.clone_frame();
                    let value = entries[i].1.clone_frame();
                    out.push((key, value));
                    assert(entries_view(out@) =~= entries_view(entries@).take(i + 1));
                    i = i + 1;
                }
                let copy = Frame::Mapping(out);
                proof {
                    lemma_view_of_collections(copy);
                    lemma_view_of_collections(*self);
                    assert(entries_view(entries@).take(i as int) =~= entries_view(entries@));
                }
                copy
            },
        }
    }
}

impl Clone for Frame {
    fn clone(&self) -> (copy: Frame)
        ensures
            copy@ == self@,
    {
        self.clone_frame()
    }
}

} // verus!
