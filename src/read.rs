//! The borrowed-read capability: a source of bytes backed by a slice that
//! outlives the reader, so that decoded strings and binaries can borrow from it.
use vstd::prelude::*;
use vstd::slice::slice_subrange;

verus! {

pub trait BufferedRead<'a> {
    /// The bytes that are still to be read.
    spec fn remaining(&self) -> Seq<u8>;

    /// The unread bytes, borrowed from the backing slice.
    fn fill_buf(&self) -> (r: &'a [u8])
        ensures
            r@ == self.remaining(),
    ;

    /// Marks the first `len` unread bytes as read.
    fn consume(&mut self, len: usize)
        requires
            len <= old(self).remaining().len(),
        ensures
            final(self).remaining() == old(self).remaining().subrange(
                len as int,
                old(self).remaining().len() as int,
            ),
    ;
}

/// A slice reads by reslicing itself past what was consumed.
impl<'a> BufferedRead<'a> for &'a [u8] {
    open spec fn remaining(&self) -> Seq<u8> {
        (**self)@
    }

    fn fill_buf(&self) -> (r: &'a [u8]) {
        *self
    }

    fn consume(&mut self, len: usize) {
        let rest = slice_subrange(*self, len, self.len());
        *self = rest;
    }
}

/// A cursor over a slice: reads advance a position rather than the slice.
#[derive(Debug, Clone, Copy)]
pub struct SliceCursor<'a> {
    data: &'a [u8],
    pos: usize,
}

impl<'a> SliceCursor<'a> {
    /// The whole slice.
    pub closed spec fn data(&self) -> Seq<u8> {
        self.data@
    }

    /// How many bytes were read.
    pub closed spec fn pos(&self) -> nat {
        self.pos as nat
    }

    /// A cursor at the start of `data`.
    pub fn new(data: &'a [u8]) -> (r: Self)
        ensures
            r.data() == data@,
            r.pos() == 0,
            r.remaining() == data@,
    {
        SliceCursor { data, pos: 0 }
    }

    pub fn position(&self) -> (r: usize)
        ensures
            r == self.pos(),
    {
        self.pos
    }

    pub fn get_ref(&self) -> (r: &'a [u8])
        ensures
            r@ == self.data(),
    {
        self.data
    }
}

impl<'a> BufferedRead<'a> for SliceCursor<'a> {
    /// What follows the position; nothing when it is past the end.
    open spec fn remaining(&self) -> Seq<u8> {
        if self.pos() <= self.data().len() {
            self.data().subrange(self.pos() as int, self.data().len() as int)
        } else {
            Seq::empty()
        }
    }

    fn fill_buf(&self) -> (r: &'a [u8]) {
        if self.pos <= self.data.len() {
            slice_subrange(self.data, self.pos, self.data.len())
        } else {
            slice_subrange(self.data, self.data.len(), self.data.len())
        }
    }

    fn consume(&mut self, len: usize) {
        let n = self.data.len();
        if len > 0 {
            assert(self.pos <= n);
            self.pos = self.pos + len;
        }
        assert(self.remaining() =~= old(self).remaining().subrange(
            len as int,
            old(self).remaining().len() as int,
        ));
    }
}

/// `new` is what a read left of `old`: `old` without its first `n` bytes.
pub open spec fn advanced(old: Seq<u8>, new: Seq<u8>, n: int) -> bool {
    0 <= n <= old.len() && new == old.subrange(n, old.len() as int)
}

/// A read that consumed nothing left the reader where it was.
pub broadcast proof fn lemma_advanced_none(a: Seq<u8>)
    ensures
        #[trigger] a.subrange(0, a.len() as int) == a,
{
    assert(a.subrange(0, a.len() as int) =~= a);
}

/// Two reads in a row advance by the sum of what each consumed.
pub broadcast proof fn lemma_advanced_trans(a: Seq<u8>, b: Seq<u8>, c: Seq<u8>, n: int, m: int)
    requires
        #[trigger] advanced(a, b, n),
        #[trigger] advanced(b, c, m),
    ensures
        advanced(a, c, n + m),
{
    assert(c =~= a.subrange(n + m, a.len() as int));
}

/// What a later read takes from the front of the advanced reader is a window
/// of the original bytes.
pub broadcast proof fn lemma_advanced_take(a: Seq<u8>, b: Seq<u8>, n: int, m: int)
    requires
        #[trigger] advanced(a, b, n),
        0 <= m <= b.len(),
    ensures
        #[trigger] b.take(m) == a.subrange(n, n + m),
{
    assert(b.take(m) =~= a.subrange(n, n + m));
}

/// No byte of `s` is the reserved code byte `0xc1`.
pub open spec fn no_reserved(s: Seq<u8>) -> bool {
    forall|i: int| 0 <= i < s.len() ==> s[i] != 0xc1
}

/// What follows a byte sequence without the reserved byte is without it too.
pub broadcast proof fn lemma_advanced_no_reserved(a: Seq<u8>, b: Seq<u8>, n: int)
    requires
        #[trigger] advanced(a, b, n),
    ensures
        no_reserved(a) ==> no_reserved(b),
{
    if no_reserved(a) {
        assert forall|i: int| 0 <= i < b.len() implies b[i] != 0xc1 by {
            assert(b[i] == a[n + i]);
        }
    }
}

} // verus!
