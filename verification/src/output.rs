//! Where the code of a call puts the data that it returns.

use crate::bytes::copy_bytes;
use vstd::prelude::*;

verus! {

/// A buffer for returned data.
#[derive(Debug)]
pub enum OutputBuffer {
    /// Takes whatever is returned.
    Flexible(Vec<u8>),
    /// Keeps its size: data that is too long is cut off, and data that is too short
    /// leaves the rest of the buffer as it is.
    Fixed(Vec<u8>),
}

/// What a buffer holds.
#[verifier::ext_equal]
pub ghost enum OutputView {
    Flexible(Seq<u8>),
    Fixed(Seq<u8>),
}

impl View for OutputBuffer {
    type V = OutputView;

    open spec fn view(&self) -> OutputView {
        match self {
            OutputBuffer::Flexible(bytes) => OutputView::Flexible(bytes@),
            OutputBuffer::Fixed(bytes) => OutputView::Fixed(bytes@),
        }
    }
}

impl OutputView {
    /// The bytes in the buffer.
    pub open spec fn bytes(self) -> Seq<u8> {
        match self {
            OutputView::Flexible(bytes) => bytes,
            OutputView::Fixed(bytes) => bytes,
        }
    }

    /// Whether this can have become of a buffer: a fixed one stays fixed and keeps its size, a
    /// flexible one stays flexible.
    pub open spec fn shaped_as(self, before: OutputView) -> bool {
        match before {
            OutputView::Flexible(_) => self is Flexible,
            OutputView::Fixed(bytes) => {
                &&& self is Fixed
                &&& self.bytes().len() == bytes.len()
            },
        }
    }

    /// The buffer after data has been returned into it.
    pub open spec fn written(self, data: Seq<u8>) -> OutputView {
        match self {
            OutputView::Flexible(_) => OutputView::Flexible(data),
            OutputView::Fixed(bytes) => OutputView::Fixed(
                if data.len() <= bytes.len() {
                    data + bytes.skip(data.len() as int)
                } else {
                    data.take(bytes.len() as int)
                },
            ),
        }
    }
}

impl OutputBuffer {
    /// The bytes in the buffer.
    pub fn into_bytes(self) -> (bytes: Vec<u8>)
        ensures
            bytes@ == self@.bytes(),
    {
        match self {
            OutputBuffer::Flexible(bytes) => bytes,
            OutputBuffer::Fixed(bytes) => bytes,
        }
    }

    /// Returns data into the buffer.
    pub fn write(&mut self, data: &[u8])
        ensures
            final(self)@ == old(self)@.written(data@),
    {
        match self {
            OutputBuffer::Flexible(bytes) => {
                *bytes = copy_bytes(data);
            },
            OutputBuffer::Fixed(bytes) => {
                let ghost before = bytes@;
                let len: usize = if bytes.len() < data.len() {
                    bytes.len()
                } else {
                    data.len()
                };
                let mut i: usize = 0;
                while i < len
                    invariant
                        i <= len,
                        len <= data@.len(),
                        len <= before.len(),
                        bytes@ =~= data@.take(i as int) + before.skip(i as int),
                    decreases len - i,
                {
                    bytes[i] = data[i];
                    i = i + 1;
                }
                assert(OutputView::Fixed(bytes@) =~= OutputView::Fixed(before).written(data@));
            },
        }
    }
}

/// Policy for handling output data on `RETURN` opcode.
#[derive(Debug)]
pub enum OutputPolicy {
    /// Return data into a buffer.
    /// Used for message calls.
    Return(OutputBuffer),
    /// Init new contract as soon as `RETURN` is called.
    InitContract,
}

} // verus!
