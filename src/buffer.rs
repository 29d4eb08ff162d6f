//! An append-then-drain byte accumulator that holds the bytes of a stream
//! that have not yet been handed out, kept in a `bytes::BytesMut`.

use vstd::prelude::*;

verus! {

/// The bytes that `u8::is_ascii_whitespace` accepts: space, tab, line feed,
/// form feed and carriage return.
pub open spec fn is_ascii_ws(b: u8) -> bool {
    b == 0x20u8 || b == 0x09u8 || b == 0x0Au8 || b == 0x0Cu8 || b == 0x0Du8
}

/// Every byte of `s` is ASCII whitespace (true of the empty sequence).
pub open spec fn is_blank(s: Seq<u8>) -> bool {
    forall|i: int| 0 <= i < s.len() ==> is_ascii_ws(#[trigger] s[i])
}

/// Executable test for ASCII whitespace.
pub fn is_ws_byte(b: u8) -> (r: bool)
    ensures
        r == is_ascii_ws(b),
{
    b == 0x20u8 || b == 0x09u8 || b == 0x0Au8 || b == 0x0Cu8 || b == 0x0Du8
}

#[verifier::external_type_specification]
#[verifier::external_body]
pub struct ExBytesMut(bytes::BytesMut);

/// The bytes that a `bytes::BytesMut` holds, in order.
pub uninterp spec fn bytes_of(b: bytes::BytesMut) -> Seq<u8>;

/// Relies on `BytesMut::new`: an empty buffer.
#[verifier::external_body]
fn bytes_new() -> (r: bytes::BytesMut)
    ensures
        bytes_of(r) == Seq::<u8>::empty(),
{
    bytes::BytesMut::new()
}

/// Relies on `BytesMut::len`: the number of bytes held.
#[verifier::external_body]
fn bytes_len(b: &bytes::BytesMut) -> (r: usize)
    ensures
        r == bytes_of(*b).len(),
{
    b.len()
}

/// Relies on `BytesMut::extend_from_slice`: the bytes are appended. It
/// panics when the new length overflows the capacity limit, `isize::MAX`.
#[verifier::external_body]
fn bytes_extend(b: &mut bytes::BytesMut, s: &[u8])
    requires
        bytes_of(*old(b)).len() + s@.len() <= isize::MAX,
    ensures
        bytes_of(*final(b)) == bytes_of(*old(b)) + s@,
{
    b.extend_from_slice(s)
}

/// Relies on `<BytesMut as Buf>::advance`: the first `n` bytes are dropped;
/// it panics when `n` exceeds the length.
#[verifier::external_body]
fn bytes_advance(b: &mut bytes::BytesMut, n: usize)
    requires
        n <= bytes_of(*old(b)).len(),
    ensures
        bytes_of(*final(b)) == bytes_of(*old(b)).skip(n as int),
{
    bytes::Buf::advance(b, n)
}

/// Relies on `BytesMut::clear`: no byte is left.
#[verifier::external_body]
fn bytes_clear(b: &mut bytes::BytesMut)
    ensures
        bytes_of(*final(b)) == Seq::<u8>::empty(),
{
    b.clear()
}

/// Relies on `<BytesMut as Deref>::deref`: a slice of the bytes held.
#[verifier::external_body]
fn bytes_slice(b: &bytes::BytesMut) -> (r: &[u8])
    ensures
        r@ == bytes_of(*b),
{
    &b[..]
}

/// Bytes received and not yet consumed.
pub struct ByteBuffer {
    data: bytes::BytesMut,
}

impl View for ByteBuffer {
    type V = Seq<u8>;

    closed spec fn view(&self) -> Seq<u8> {
        bytes_of(self.data)
    }
}

impl ByteBuffer {
    /// An empty buffer.
    pub fn new() -> (r: ByteBuffer)
        ensures
            r@ == Seq::<u8>::empty(),
    {
        ByteBuffer { data: bytes_new() }
    }

    /// Number of unconsumed bytes.
    pub fn len(&self) -> (r: usize)
        ensures
            r == self@.len(),
    {
        bytes_len(&self.data)
    }

    /// Adds `bytes` at the tail; the total must stay within `isize::MAX`.
    pub fn append(&mut self, bytes: &[u8])
        requires
            old(self)@.len() + bytes@.len() <= isize::MAX,
        ensures
            final(self)@ == old(self)@ + bytes@,
    {
        bytes_extend(&mut self.data, bytes);
    }

    /// Discards the first `n` unconsumed bytes.
    pub fn advance(&mut self, n: usize)
        requires
            n <= old(self)@.len(),
        ensures
            final(self)@ == old(self)@.skip(n as int),
    {
        bytes_advance(&mut self.data, n);
    }

    /// Discards every unconsumed byte.
    pub fn clear(&mut self)
        ensures
            final(self)@ == Seq::<u8>::empty(),
    {
        bytes_clear(&mut self.data);
    }

    /// The unconsumed bytes, read-only.
    pub fn peek_all(&self) -> (r: &[u8])
        ensures
            r@ == self@,
    {
        bytes_slice(&self.data)
    }

    /// A copy of the unconsumed bytes.
    pub fn to_vec(&self) -> (r: Vec<u8>)
        ensures
            r@ == self@,
    {
        vstd::slice::slice_to_vec(self.peek_all())
    }

    /// No unconsumed bytes remain.
    pub fn is_empty(&self) -> (r: bool)
        ensures
            r == (self@.len() == 0),
    {
        self.len() == 0
    }

    /// Every unconsumed byte is ASCII whitespace.
    pub fn is_blank(&self) -> (r: bool)
        ensures
            r == is_blank(self@),
    {
        let n = self.leading_ws_len();
        proof {
            if n == self@.len() {
                assert(self@.take(n as int) =~= self@);
            } else {
                assert(!is_ascii_ws(self@[n as int]));
            }
        }
        n == self.len()
    }

    /// Number of ASCII whitespace bytes at the front of the unconsumed bytes.
    pub fn leading_ws_len(&self) -> (r: usize)
        ensures
            r <= self@.len(),
            is_blank(self@.take(r as int)),
            r < self@.len() ==> !is_ascii_ws(self@[r as int]),
    {
        let b = self.peek_all();
        let mut i: usize = 0;
        while i < b.len() && is_ws_byte(b[i])
            invariant
                b@ == self@,
                i <= b@.len(),
                forall|j: int| 0 <= j < i ==> is_ascii_ws(#[trigger] b@[j]),
            decreases b@.len() - i,
        {
            i = i + 1;
        }
        assert forall|j: int| 0 <= j < i implies is_ascii_ws(#[trigger] self@.take(i as int)[j]) by {
            assert(self@.take(i as int)[j] == b@[j]);
        }
        i
    }

    /// Discards the ASCII whitespace at the front of the unconsumed bytes.
    pub fn trim_start(&mut self)
        ensures
            final(self)@ == old(self)@.skip(trim_len(old(self)@) as int),
            final(self)@.len() > 0 ==> !is_ascii_ws(final(self)@[0]),
    {
        let n = self.leading_ws_len();
        proof {
            lemma_trim_len(self@, n as nat);
        }
        self.advance(n);
    }
}

/// Length of the run of ASCII whitespace that starts `s`.
pub open spec fn trim_len(s: Seq<u8>) -> nat
    decreases s.len(),
{
    if s.len() > 0 && is_ascii_ws(s[0]) {
        1 + trim_len(s.drop_first())
    } else {
        0
    }
}

/// `trim_len` is the length of the longest whitespace prefix.
pub proof fn lemma_trim_len(s: Seq<u8>, n: nat)
    requires
        n <= s.len(),
        is_blank(s.take(n as int)),
        n < s.len() ==> !is_ascii_ws(s[n as int]),
    ensures
        trim_len(s) == n,
    decreases n,
{
    if n > 0 {
        assert(s.take(n as int)[0] == s[0]);
        let t = s.drop_first();
        assert forall|i: int| 0 <= i < (n - 1) implies is_ascii_ws(#[trigger] t.take(n - 1)[i]) by {
            assert(s.take(n as int)[i + 1] == t.take(n - 1)[i]);
        }
        if n < s.len() {
            assert(t[n - 1] == s[n as int]);
        }
        lemma_trim_len(t, (n - 1) as nat);
    }
}

} // verus!
