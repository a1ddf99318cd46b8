//! The decoding side of the data-model bridge: a reader that can look at the
//! next code without consuming it, and the decisions a generic deserializer
//! takes from that code. The framework's own traits are implemented outside
//! the library, on top of these.
use crate::code::{classify, lemma_classify_inverse, Code, NIL, RESERVED};
use crate::error::{eof, DataError, UnpackError};
use crate::read::BufferedRead;
use crate::unpack::reserved;
use vstd::prelude::*;

verus! {

/// Why a value could not be deserialized.
#[derive(Debug)]
pub enum DeError {
    /// A tuple's length on the wire is not the one asked for.
    InvalidSize,
    UnpackError(UnpackError),
    Custom(String),
}

/// A reader that remembers a code it has looked at: `None`, or the code of
/// the next unread byte. Reading through it forwards to the inner reader;
/// consuming clears what it remembers.
pub struct PeekReader<R> {
    code: Option<Code>,
    reader: R,
}

impl<R> PeekReader<R> {
    pub fn new(reader: R) -> (r: Self)
        ensures
            r.peeked() is None,
            r.inner() == reader,
    {
        PeekReader { code: None, reader }
    }

    pub closed spec fn peeked(&self) -> Option<Code> {
        self.code
    }

    pub closed spec fn inner(&self) -> R {
        self.reader
    }
}

impl<'a, R: BufferedRead<'a>> PeekReader<R> {
    /// What it remembers is the code of the next unread byte.
    pub open spec fn wf(&self) -> bool {
        self.peeked() matches Some(c) ==> self.remaining().len() > 0 && self.remaining()[0]
            != RESERVED && c == classify(self.remaining()[0])
    }

    /// The code of the next byte, without consuming it. Looking twice gives
    /// the same code.
    pub fn peek_code(&mut self) -> (r: Result<Code, UnpackError>)
        requires
            old(self).wf(),
        ensures
            final(self).wf(),
            final(self).remaining() == old(self).remaining(),
            old(self).remaining().len() == 0 ==> r == Err::<Code, UnpackError>(eof()),
            old(self).remaining().len() > 0 && old(self).remaining()[0] == RESERVED ==> r == Err::<
                Code,
                UnpackError,
            >(reserved()),
            old(self).remaining().len() > 0 && old(self).remaining()[0] != RESERVED ==> r
                == Ok::<Code, UnpackError>(classify(old(self).remaining()[0])) && final(self).peeked()
                == Some(classify(old(self).remaining()[0])),
    {
        if let Some(c) = self.code {
            proof {
                lemma_classify_inverse(self.remaining()[0]);
            }
            return Ok(c);
        }
        let buf = self.reader.fill_buf();
        if buf.len() == 0 {
            return Err(UnpackError::InvalidData(DataError::UnexpectedEof));
        }
        if buf[0] == RESERVED {
            return Err(UnpackError::InvalidData(DataError::ReservedCode));
        }
        let c = Code::from_u8(buf[0]);
        self.code = Some(c);
        Ok(c)
    }

    /// Takes the remembered code, and consumes its byte.
    pub fn consume_code(&mut self) -> (r: Option<Code>)
        requires
            old(self).wf(),
        ensures
            r == old(self).peeked(),
            final(self).peeked() is None,
            r is Some ==> final(self).remaining() == old(self).remaining().subrange(
                1,
                old(self).remaining().len() as int,
            ),
            r is None ==> final(self).remaining() == old(self).remaining(),
    {
        let c = self.code;
        if c.is_some() {
            self.reader.consume(1);
        }
        self.code = None;
        c
    }
}

impl<'a, R: BufferedRead<'a>> BufferedRead<'a> for PeekReader<R> {
    open spec fn remaining(&self) -> Seq<u8> {
        self.inner().remaining()
    }

    fn fill_buf(&self) -> (r: &'a [u8]) {
        self.reader.fill_buf()
    }

    fn consume(&mut self, len: usize) {
        self.code = None;
        self.reader.consume(len);
    }
}

/// The typed route that a generic ("any") deserialization takes for a code.
#[derive(Debug, Clone, Copy, PartialEq, Eq, Structural)]
pub enum Route {
    Unit,
    Bool,
    U8,
    U16,
    U32,
    U64,
    I8,
    I16,
    I32,
    I64,
    F32,
    F64,
    Str,
    Bytes,
    Array,
    Pairs,
    Ext,
}

pub open spec fn spec_route(c: Code) -> Option<Route> {
    match c {
        Code::Nil => Some(Route::Unit),
        Code::True | Code::False => Some(Route::Bool),
        Code::Uint8 | Code::PosInt(_) => Some(Route::U8),
        Code::Uint16 => Some(Route::U16),
        Code::Uint32 => Some(Route::U32),
        Code::Uint64 => Some(Route::U64),
        Code::Int8 | Code::NegInt(_) => Some(Route::I8),
        Code::Int16 => Some(Route::I16),
        Code::Int32 => Some(Route::I32),
        Code::Int64 => Some(Route::I64),
        Code::Float32 => Some(Route::F32),
        Code::Float64 => Some(Route::F64),
        Code::FixStr(_) | Code::Str8 | Code::Str16 | Code::Str32 => Some(Route::Str),
        Code::Bin8 | Code::Bin16 | Code::Bin32 => Some(Route::Bytes),
        Code::FixArray(_) | Code::Array16 | Code::Array32 => Some(Route::Array),
        Code::FixMap(_) | Code::Map16 | Code::Map32 => Some(Route::Pairs),
        Code::Reserved => None,
        _ => Some(Route::Ext),
    }
}

/// The route for a code: the typed read that accepts it. The reserved code
/// has none.
pub fn route_of(c: Code) -> (r: Option<Route>)
    ensures
        r == spec_route(c),
{
    match c {
        Code::Nil => Some(Route::Unit),
        Code::True | Code::False => Some(Route::Bool),
        Code::Uint8 | Code::PosInt(_) => Some(Route::U8),
        Code::Uint16 => Some(Route::U16),
        Code::Uint32 => Some(Route::U32),
        Code::Uint64 => Some(Route::U64),
        Code::Int8 | Code::NegInt(_) => Some(Route::I8),
        Code::Int16 => Some(Route::I16),
        Code::Int32 => Some(Route::I32),
        Code::Int64 => Some(Route::I64),
        Code::Float32 => Some(Route::F32),
        Code::Float64 => Some(Route::F64),
        Code::FixStr(_) | Code::Str8 | Code::Str16 | Code::Str32 => Some(Route::Str),
        Code::Bin8 | Code::Bin16 | Code::Bin32 => Some(Route::Bytes),
        Code::FixArray(_) | Code::Array16 | Code::Array32 => Some(Route::Array),
        Code::FixMap(_) | Code::Map16 | Code::Map32 => Some(Route::Pairs),
        Code::Reserved => None,
        _ => Some(Route::Ext),
    }
}

/// Decodes from a peeking reader; reads through it are reads of the
/// source.
pub struct Deserializer<R> {
    reader: PeekReader<R>,
}

impl<R> Deserializer<R> {
    pub fn new(r: R) -> (d: Self)
        ensures
            d.reader().peeked() is None,
            d.reader().inner() == r,
    {
        Deserializer { reader: PeekReader::new(r) }
    }

    pub closed spec fn reader(&self) -> PeekReader<R> {
        self.reader
    }
}

impl<'a, R: BufferedRead<'a>> Deserializer<R> {
    pub open spec fn wf(&self) -> bool {
        self.reader().wf()
    }

    /// The route for the next value, found by peeking at its code.
    pub fn route(&mut self) -> (r: Result<Route, UnpackError>)
        requires
            old(self).wf(),
        ensures
            final(self).wf(),
            final(self).remaining() == old(self).remaining(),
            old(self).remaining().len() == 0 ==> r == Err::<Route, UnpackError>(eof()),
            old(self).remaining().len() > 0 && old(self).remaining()[0] == RESERVED ==> r == Err::<
                Route,
                UnpackError,
            >(reserved()),
            old(self).remaining().len() > 0 && old(self).remaining()[0] != RESERVED ==> r
                == Ok::<Route, UnpackError>(spec_route(classify(old(self).remaining()[0]))->Some_0),
    {
        let c = self.reader.peek_code()?;
        match route_of(c) {
            Some(route) => Ok(route),
            None => Err(UnpackError::InvalidData(DataError::ReservedCode)),
        }
    }

    /// An optional value is absent when its code is nil; the nil is then
    /// consumed. Any other code is left for the present value to read.
    pub fn is_none(&mut self) -> (r: Result<bool, UnpackError>)
        requires
            old(self).wf(),
        ensures
            final(self).wf(),
            old(self).remaining().len() == 0 ==> r == Err::<bool, UnpackError>(eof()),
            old(self).remaining().len() > 0 && old(self).remaining()[0] == NIL ==> r == Ok::<
                bool,
                UnpackError,
            >(true) && final(self).remaining() == old(self).remaining().subrange(
                1,
                old(self).remaining().len() as int,
            ),
            old(self).remaining().len() > 0 && old(self).remaining()[0] != NIL
                && old(self).remaining()[0] != RESERVED ==> r == Ok::<bool, UnpackError>(false)
                && final(self).remaining() == old(self).remaining(),
    {
        let c = self.reader.peek_code()?;
        proof {
            lemma_classify_inverse(self.remaining()[0]);
        }
        match c {
            Code::Nil => {
                let _ = self.reader.consume_code();
                Ok(true)
            },
            _ => Ok(false),
        }
    }
}

impl<'a, R: BufferedRead<'a>> BufferedRead<'a> for Deserializer<R> {
    open spec fn remaining(&self) -> Seq<u8> {
        self.reader().remaining()
    }

    fn fill_buf(&self) -> (r: &'a [u8]) {
        self.reader.fill_buf()
    }

    fn consume(&mut self, len: usize) {
        self.reader.consume(len);
    }
}

/// A tuple must have the length asked for.
pub fn check_tuple_len(expected: usize, actual: usize) -> (r: Result<(), DeError>)
    ensures
        r is Ok <==> expected == actual,
        r matches Err(e) ==> e is InvalidSize,
{
    if expected == actual {
        Ok(())
    } else {
        Err(DeError::InvalidSize)
    }
}

} // verus!
