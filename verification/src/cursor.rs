//! Reading a byte stream record by record: up to a delimiter, or a fixed
//! count of bytes.

use vstd::prelude::*;
use vstd::slice::{slice_subrange, slice_to_vec};

verus! {

/// What the interpreter asks of the reader next.
#[derive(Clone, Copy, Debug, PartialEq, Eq, Structural)]
pub enum ReadRequest {
    /// Exactly this many bytes.
    Exact(usize),
    /// Everything up to the next byte of this value, that byte included.
    Until(u8),
    /// Nothing: the run is over.
    Stop,
}

/// What a read came to.
#[derive(Clone, Debug, PartialEq, Eq)]
pub enum ReadResult {
    /// The bytes that were asked for: the count that was asked for, or a
    /// record that ends with the delimiter.
    Bytes(Vec<u8>),
    /// The source ran dry before the request was met; these are the bytes
    /// that it still gave.
    EndOfStream(Vec<u8>),
    /// The source failed, with what it said of the failure.
    Failure(String),
}

/// A [`ReadResult`] by its contents.
pub enum ReadView {
    Bytes(Seq<u8>),
    EndOfStream(Seq<u8>),
    Failure(Seq<char>),
}

impl View for ReadResult {
    type V = ReadView;

    open spec fn view(&self) -> ReadView {
        match self {
            ReadResult::Bytes(bytes) => ReadView::Bytes(bytes@),
            ReadResult::EndOfStream(bytes) => ReadView::EndOfStream(bytes@),
            ReadResult::Failure(said) => ReadView::Failure(said@),
        }
    }
}

impl ReadResult {
    /// What a read up to `delimiter` came to, told from the bytes that it
    /// brought: a source hands out a record without its delimiter only when
    /// it has run dry.
    pub open spec fn of_record(bytes: Seq<u8>, delimiter: u8) -> ReadView {
        if bytes.len() > 0 && bytes.last() == delimiter {
            ReadView::Bytes(bytes)
        } else {
            ReadView::EndOfStream(bytes)
        }
    }

    /// Tells what a read up to `delimiter` came to from the bytes that it
    /// brought.
    pub fn from_record(bytes: Vec<u8>, delimiter: u8) -> (result: ReadResult)
        ensures
            result@ == ReadResult::of_record(bytes@, delimiter),
    {
        let len = bytes.len();
        if len > 0 && bytes[len - 1] == delimiter {
            ReadResult::Bytes(bytes)
        } else {
            ReadResult::EndOfStream(bytes)
        }
    }
}

/// How many bytes of `bytes` stand before the first `delimiter`; all of them
/// where there is none.
pub open spec fn span_before(bytes: Seq<u8>, delimiter: u8) -> nat
    decreases bytes.len(),
{
    if bytes.len() == 0 || bytes[0] == delimiter {
        0
    } else {
        1 + span_before(bytes.skip(1), delimiter)
    }
}

/// What a source that still holds `bytes` answers to `request`, and what it
/// holds afterwards. A source in memory never fails.
pub open spec fn serve(bytes: Seq<u8>, request: ReadRequest) -> (ReadView, Seq<u8>) {
    match request {
        ReadRequest::Exact(count) => if count <= bytes.len() {
            (ReadView::Bytes(bytes.take(count as int)), bytes.skip(count as int))
        } else {
            (ReadView::EndOfStream(bytes), Seq::empty())
        },
        ReadRequest::Until(delimiter) => {
            let span = span_before(bytes, delimiter);
            if span < bytes.len() {
                (ReadView::Bytes(bytes.take(span as int + 1)), bytes.skip(span as int + 1))
            } else {
                (ReadView::EndOfStream(bytes), Seq::empty())
            }
        },
        ReadRequest::Stop => (ReadView::EndOfStream(Seq::empty()), bytes),
    }
}

/// The span before the first delimiter ends at the first delimiter, or at
/// the end where there is none.
pub proof fn lemma_span_before(bytes: Seq<u8>, delimiter: u8)
    ensures
        span_before(bytes, delimiter) <= bytes.len(),
        forall|i: int| 0 <= i < span_before(bytes, delimiter) ==> bytes[i] != delimiter,
        span_before(bytes, delimiter) < bytes.len() ==> bytes[span_before(bytes, delimiter) as int]
            == delimiter,
    decreases bytes.len(),
{
    if bytes.len() == 0 || bytes[0] == delimiter {
    } else {
        let rest = bytes.skip(1);
        lemma_span_before(rest, delimiter);
        assert forall|i: int| 0 <= i < span_before(bytes, delimiter) implies bytes[i]
            != delimiter by {
            if i > 0 {
                assert(bytes[i] == rest[i - 1]);
            }
        }
        if span_before(bytes, delimiter) < bytes.len() {
            assert(bytes[span_before(bytes, delimiter) as int] == rest[span_before(
                rest,
                delimiter,
            ) as int]);
        }
    }
}

/// Where no byte before `end` is the delimiter, and `end` is the end or
/// holds the delimiter, the span before the first delimiter is `end`.
pub proof fn lemma_span_found(bytes: Seq<u8>, delimiter: u8, end: int)
    requires
        0 <= end <= bytes.len(),
        forall|i: int| 0 <= i < end ==> bytes[i] != delimiter,
        end < bytes.len() ==> bytes[end] == delimiter,
    ensures
        span_before(bytes, delimiter) == end,
    decreases bytes.len(),
{
    if bytes.len() == 0 || bytes[0] == delimiter {
    } else {
        let rest = bytes.skip(1);
        assert forall|i: int| 0 <= i < end - 1 implies rest[i] != delimiter by {
            assert(rest[i] == bytes[i + 1]);
        }
        lemma_span_found(rest, delimiter, end - 1);
    }
}

/// A source that hands out its bytes up to the first delimiter, or all of
/// them where there is none, has its read told from the bytes alone: what
/// [`ReadResult::of_record`] makes of them is what [`serve`] answers.
pub proof fn lemma_record_as_served(bytes: Seq<u8>, delimiter: u8)
    ensures
        ({
            let span = span_before(bytes, delimiter);
            let brought = if span < bytes.len() {
                bytes.take(span as int + 1)
            } else {
                bytes
            };
            ReadResult::of_record(brought, delimiter) == serve(
                bytes,
                ReadRequest::Until(delimiter),
            ).0
        }),
{
    lemma_span_before(bytes, delimiter);
    let span = span_before(bytes, delimiter);
    if span < bytes.len() {
        assert(bytes.take(span as int + 1).last() == bytes[span as int]);
    } else if bytes.len() > 0 {
        assert(bytes.last() == bytes[bytes.len() - 1]);
    }
}

/// A byte stream held in memory, with the place up to which it was read.
pub struct ByteCursor {
    data: Vec<u8>,
    position: usize,
}

impl ByteCursor {
    #[verifier::type_invariant]
    spec fn holds(self) -> bool {
        self.position <= self.data@.len()
    }

    /// The bytes that were not read yet.
    pub closed spec fn remaining(&self) -> Seq<u8> {
        self.data@.skip(self.position as int)
    }

    /// A cursor at the start of `data`.
    pub fn new(data: Vec<u8>) -> (cursor: ByteCursor)
        ensures
            cursor.remaining() == data@,
    {
        ByteCursor { data, position: 0 }
    }

    /// How many bytes were not read yet.
    pub fn remaining_len(&self) -> (n: usize)
        ensures
            n == self.remaining().len(),
    {
        proof {
            use_type_invariant(self);
        }
        self.data.len() - self.position
    }

    /// Hands out the bytes from the current place up to `end`, and moves there.
    fn take_to(&mut self, end: usize) -> (bytes: Vec<u8>)
        requires
            old(self).position <= end <= old(self).data@.len(),
        ensures
            bytes@ == old(self).remaining().take(end - old(self).position),
            final(self).remaining() == old(self).remaining().skip(end - old(self).position),
            final(self).position == end,
            final(self).data == old(self).data,
    {
        let bytes = slice_to_vec(slice_subrange(self.data.as_slice(), self.position, end));
        self.position = end;
        bytes
    }

    /// Reads exactly `count` bytes. Where fewer are left, the source has run
    /// dry: what is left is handed out with that finding.
    pub fn read_exact(&mut self, count: usize) -> (result: ReadResult)
        ensures
            (result@, final(self).remaining()) == serve(
                old(self).remaining(),
                ReadRequest::Exact(count),
            ),
    {
        proof {
            use_type_invariant(&*self);
        }
        let len = self.data.len();
        if count <= len - self.position {
            let end = self.position + count;
            ReadResult::Bytes(self.take_to(end))
        } else {
            let rest = self.take_to(len);
            assert(rest@ == old(self).remaining());
            ReadResult::EndOfStream(rest)
        }
    }

    /// Reads up to the next `delimiter` and hands out the bytes read, the
    /// delimiter included. Where none is left, the source has run dry: what
    /// is left is handed out with that finding.
    pub fn read_until(&mut self, delimiter: u8) -> (result: ReadResult)
        ensures
            (result@, final(self).remaining()) == serve(
                old(self).remaining(),
                ReadRequest::Until(delimiter),
            ),
    {
        proof {
            use_type_invariant(&*self);
        }
        let len = self.data.len();
        let mut end = self.position;
        while end < len && self.data[end] != delimiter
            invariant
                self.position <= end <= len,
                len == self.data@.len(),
                forall|i: int| self.position <= i < end ==> self.data@[i] != delimiter,
            decreases len - end,
        {
            end += 1;
        }
        proof {
            let rest = self.remaining();
            assert forall|i: int| 0 <= i < end - self.position implies rest[i] != delimiter by {
                assert(rest[i] == self.data@[self.position + i]);
            }
            lemma_span_found(rest, delimiter, end - self.position);
        }
        if end < len {
            ReadResult::Bytes(self.take_to(end + 1))
        } else {
            let rest = self.take_to(len);
            assert(rest@ == old(self).remaining());
            ReadResult::EndOfStream(rest)
        }
    }

    /// Answers `request` from memory.
    pub fn read(&mut self, request: ReadRequest) -> (result: ReadResult)
        ensures
            (result@, final(self).remaining()) == serve(old(self).remaining(), request),
    {
        match request {
            ReadRequest::Exact(count) => self.read_exact(count),
            ReadRequest::Until(delimiter) => self.read_until(delimiter),
            ReadRequest::Stop => ReadResult::EndOfStream(Vec::new()),
        }
    }
}

} // verus!
