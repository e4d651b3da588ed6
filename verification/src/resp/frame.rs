//! Response frames and their wire encoding.

use vstd::prelude::*;
use vstd::utf8::encode_utf8;
use crate::text::{decimal, push_decimal, push_signed_decimal, signed_decimal};

verus! {

/// A response value as it is sent to a client.
///
/// `EmptyArray` and an `Array` without items are two values with one
/// encoding; the first says that nothing was found, the second is a list
/// that happens to be empty.
#[derive(Debug, PartialEq, Eq)]
pub enum RespFrame {
    SimpleString(String),
    Error(String),
    Integer(i64),
    BulkString(Vec<u8>),
    Array(Vec<RespFrame>),
    EmptyArray,
    Null,
    NullBulkString,
    NullArray,
}

/// The mathematical value of a [`RespFrame`].
pub enum FrameView {
    SimpleString(Seq<char>),
    Error(Seq<char>),
    Integer(i64),
    BulkString(Seq<u8>),
    Array(Seq<FrameView>),
    EmptyArray,
    Null,
    NullBulkString,
    NullArray,
}

impl View for RespFrame {
    type V = FrameView;

    open spec fn view(&self) -> FrameView
        decreases self,
    {
        match self {
            RespFrame::SimpleString(s) => FrameView::SimpleString(s@),
            RespFrame::Error(s) => FrameView::Error(s@),
            RespFrame::Integer(n) => FrameView::Integer(*n),
            RespFrame::BulkString(b) => FrameView::BulkString(b@),
            RespFrame::Array(items) => FrameView::Array(
                Seq::new(
                    items@.len(),
                    |i: int|
                        if 0 <= i < items@.len() {
                            items@[i].view()
                        } else {
                            FrameView::Null
                        },
                ),
            ),
            RespFrame::EmptyArray => FrameView::EmptyArray,
            RespFrame::Null => FrameView::Null,
            RespFrame::NullBulkString => FrameView::NullBulkString,
            RespFrame::NullArray => FrameView::NullArray,
        }
    }
}

/// The view of an array frame holds the views of its items, in order.
pub proof fn lemma_array_view(items: Vec<RespFrame>)
    ensures
        RespFrame::Array(items)@ is Array,
        RespFrame::Array(items)@->Array_0.len() == items@.len(),
        forall|i: int|
            0 <= i < items@.len() ==> (#[trigger] RespFrame::Array(items)@->Array_0[i])
                == items@[i]@,
{
    reveal_with_fuel(<RespFrame as View>::view, 2);
}

/// `+`, the first byte of a simple string.
pub const SIMPLE_STRING_MARK: u8 = 0x2b;

/// `-`, the first byte of an error.
pub const ERROR_MARK: u8 = 0x2d;

/// `:`, the first byte of an integer.
pub const INTEGER_MARK: u8 = 0x3a;

/// `$`, the first byte of a bulk string.
pub const BULK_STRING_MARK: u8 = 0x24;

/// `*`, the first byte of an array.
pub const ARRAY_MARK: u8 = 0x2a;

/// `_`, the first byte of the null frame.
pub const NULL_MARK: u8 = 0x5f;

/// The carriage return.
pub const CR: u8 = 0x0d;

/// The line feed.
pub const LF: u8 = 0x0a;

/// The line terminator of the protocol.
pub open spec fn crlf() -> Seq<u8> {
    seq![CR, LF]
}


impl FrameView {
    /// The bytes that stand for this frame on the wire. Every line ends in
    /// [`crlf`]. A bulk string declares its length in bytes and an array
    /// the number of its items; a null bulk string and a null array declare
    /// `-1` and hold nothing.
    pub open spec fn wire(self) -> Seq<u8>
        decreases self, 0nat,
    {
        match self {
            FrameView::SimpleString(s) => seq![SIMPLE_STRING_MARK] + encode_utf8(s) + crlf(),
            FrameView::Error(e) => seq![ERROR_MARK] + encode_utf8(e) + crlf(),
            FrameView::Integer(n) => seq![INTEGER_MARK] + signed_decimal(n as int) + crlf(),
            FrameView::BulkString(b) => seq![BULK_STRING_MARK] + decimal(b.len()) + crlf() + b
                + crlf(),
            FrameView::Array(items) => seq![ARRAY_MARK] + decimal(items.len()) + crlf()
                + Self::wire_of_first(items, items.len()),
            FrameView::EmptyArray => seq![ARRAY_MARK] + decimal(0) + crlf(),
            FrameView::Null => seq![NULL_MARK] + crlf(),
            FrameView::NullBulkString => seq![BULK_STRING_MARK] + signed_decimal(-1) + crlf(),
            FrameView::NullArray => seq![ARRAY_MARK] + signed_decimal(-1) + crlf(),
        }
    }

    /// The encodings of the first `n` frames of `items`, one after another.
    pub open spec fn wire_of_first(items: Seq<FrameView>, n: nat) -> Seq<u8>
        decreases items, n,
    {
        if n == 0 || n > items.len() {
            Seq::empty()
        } else {
            Self::wire_of_first(items, (n - 1) as nat) + items[n - 1].wire()
        }
    }
}

/// The frames that hold nothing, byte by byte: `_`, `$-1`, `*-1` and `*0`,
/// each with the line terminator behind it.
pub proof fn lemma_frames_without_payload()
    ensures
        FrameView::Null.wire() == seq![0x5fu8, 0x0d, 0x0a],
        FrameView::NullBulkString.wire() == seq![0x24u8, 0x2d, 0x31, 0x0d, 0x0a],
        FrameView::NullArray.wire() == seq![0x2au8, 0x2d, 0x31, 0x0d, 0x0a],
        FrameView::EmptyArray.wire() == seq![0x2au8, 0x30, 0x0d, 0x0a],
{
    reveal_with_fuel(decimal, 2);
}

impl RespFrame {
    /// Serialises the frame. Every frame has exactly one encoding, and
    /// encoding cannot fail.
    pub fn encode(self) -> (bytes: Vec<u8>)
        ensures
            bytes@ == self@.wire(),
    {
        let mut out: Vec<u8> = Vec::new();
        self.encode_into(&mut out);
        out
    }

    /// Appends the frame's encoding to `out`.
    pub fn encode_into(&self, out: &mut Vec<u8>)
        ensures
            final(out)@ == old(out)@ + self@.wire(),
        decreases self,
    {
        match self {
            RespFrame::SimpleString(s) => {
                out.push(SIMPLE_STRING_MARK);
                out.extend_from_slice(s.as_str().as_bytes());
                push_crlf(out);
            },
            RespFrame::Error(e) => {
                out.push(ERROR_MARK);
                out.extend_from_slice(e.as_str().as_bytes());
                push_crlf(out);
            },
            RespFrame::Integer(n) => {
                out.push(INTEGER_MARK);
                push_signed_decimal(out, *n);
                push_crlf(out);
            },
            RespFrame::BulkString(b) => {
                out.push(BULK_STRING_MARK);
                push_decimal(out, b.len() as u64);
                push_crlf(out);
                out.extend_from_slice(b.as_slice());
                push_crlf(out);
            },
            RespFrame::Array(items) => {
                out.push(ARRAY_MARK);
                push_decimal(out, items.len() as u64);
                push_crlf(out);
                let ghost head = out@;
                proof {
                    lemma_array_view(*items);
                }
                let mut i: usize = 0;
                while i < items.len()
                    invariant
                        i <= items.len(),
                        *self == RespFrame::Array(*items),
                        self@ is Array,
                        self@->Array_0.len() == items@.len(),
                        forall|k: int|
                            0 <= k < items@.len() ==> (#[trigger] self@->Array_0[k])
                                == items@[k]@,
                        out@ == head + FrameView::wire_of_first(self@->Array_0, i as nat),
                    decreases items.len() - i,
                {
                    items[i].encode_into(out);
                    proof {
                        let frames = self@->Array_0;
                        assert(out@ == head + (FrameView::wire_of_first(frames, i as nat)
                            + frames[i as int].wire()));
                    }
                    i += 1;
                }
            },
            RespFrame::EmptyArray => {
                out.push(ARRAY_MARK);
                push_decimal(out, 0);
                push_crlf(out);
            },
            RespFrame::Null => {
                out.push(NULL_MARK);
                push_crlf(out);
            },
            RespFrame::NullBulkString => {
                out.push(BULK_STRING_MARK);
                push_signed_decimal(out, -1);
                push_crlf(out);
            },
            RespFrame::NullArray => {
                out.push(ARRAY_MARK);
                push_signed_decimal(out, -1);
                push_crlf(out);
            },
        }
    }
}

/// Appends the line terminator to `out`.
fn push_crlf(out: &mut Vec<u8>)
    ensures
        final(out)@ == old(out)@ + crlf(),
{
    out.push(CR);
    out.push(LF);
}

} // verus!
