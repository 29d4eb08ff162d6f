//! Incremental decoding of a byte stream that carries JSON values written
//! back to back, optionally separated by ASCII whitespace.

use vstd::prelude::*;
use vstd::slice::{slice_subrange, slice_to_vec};

use crate::buffer::{is_ascii_ws, is_blank, trim_len, ByteBuffer};

verus! {

/// What an attempt to read one JSON value from the front of some bytes found.
#[derive(Clone, Copy, Debug, PartialEq, Eq, Structural)]
pub enum Framing {
    /// A whole value occupies the first `n` bytes.
    Complete(usize),
    /// The bytes are a truncated value: more input may complete it.
    Incomplete,
    /// The bytes can never start a valid value.
    Malformed,
}

/// What serde_json's stream deserializer reports for the first value of `b`.
pub uninterp spec fn json_frame(b: Seq<u8>) -> Framing;

/// Relies on `serde_json::StreamDeserializer::next` and `byte_offset`: after a
/// successful read the offset is the position just past the value (at least
/// one byte was read, and no more than the input holds); an error of category
/// EOF means the input ended inside the value.
#[verifier::external_body]
fn frame_first_value(b: &[u8]) -> (r: Framing)
    ensures
        r == json_frame(b@),
        r matches Framing::Complete(n) ==> 0 < n <= b@.len(),
{
    let mut it = serde_json::Deserializer::from_slice(b).into_iter::<serde::de::IgnoredAny>();
    match it.next() {
        Some(Ok(_)) => Framing::Complete(it.byte_offset()),
        Some(Err(e)) => if e.is_eof() {
            Framing::Incomplete
        } else {
            Framing::Malformed
        },
        None => Framing::Incomplete,
    }
}

/// A terminal error of a stream, carrying the bytes that were left over.
#[derive(Debug)]
pub enum StreamError {
    /// Bytes at the front of the buffer can never form a value.
    Malformed(Vec<u8>),
    /// The transport ended while non-whitespace bytes were still buffered.
    DanglingData(Vec<u8>),
}

/// The result of decoding all that a buffer holds.
pub struct Decoded {
    /// The bytes of each whole value, in order.
    pub values: Seq<Seq<u8>>,
    /// What is left once the values and the whitespace after them are gone.
    pub rest: Seq<u8>,
    /// Decoding stopped on bytes that can never form a value.
    pub malformed: bool,
}

/// Decodes every whole value at the front of `b`: leading whitespace is
/// skipped, then values are read one after another until the bytes run out,
/// a value is truncated, or the bytes are malformed.
pub open spec fn decode_all(b: Seq<u8>) -> Decoded
    decreases b.len(),
{
    if b.len() == 0 {
        Decoded { values: Seq::empty(), rest: Seq::empty(), malformed: false }
    } else if is_ascii_ws(b[0]) {
        decode_all(b.drop_first())
    } else {
        match json_frame(b) {
            Framing::Complete(n) => if 0 < n <= b.len() {
                let d = decode_all(b.skip(n as int));
                Decoded { values: seq![b.take(n as int)] + d.values, rest: d.rest, malformed: d.malformed }
            } else {
                Decoded { values: Seq::empty(), rest: b, malformed: true }
            },
            Framing::Incomplete => Decoded { values: Seq::empty(), rest: b, malformed: false },
            Framing::Malformed => Decoded { values: Seq::empty(), rest: b, malformed: true },
        }
    }
}

/// Skipping the leading whitespace does not change what is decoded.
pub proof fn lemma_decode_skips_ws(b: Seq<u8>)
    ensures
        trim_len(b) <= b.len(),
        decode_all(b) == decode_all(b.skip(trim_len(b) as int)),
    decreases b.len(),
{
    if b.len() > 0 && is_ascii_ws(b[0]) {
        lemma_decode_skips_ws(b.drop_first());
        assert(b.drop_first().skip(trim_len(b.drop_first()) as int) =~= b.skip(trim_len(b) as int));
    } else {
        assert(b.skip(0) =~= b);
    }
}

/// The values of a vector of byte vectors, as sequences.
pub open spec fn values_view(v: Seq<Vec<u8>>) -> Seq<Seq<u8>> {
    v.map_values(|x: Vec<u8>| x@)
}

/// What one delivery of bytes produced: the values decoded, in order, then at
/// most one terminal error.
pub struct Batch {
    pub values: Vec<Vec<u8>>,
    pub error: Option<StreamError>,
}

/// The abstract state of a decoder: the buffered bytes, and whether the
/// stream has ended.
pub struct DecoderState {
    pub pending: Seq<u8>,
    pub done: bool,
}

/// Turns chunks of bytes, delivered in order, into the JSON values they
/// carry.
pub struct StreamDecoder {
    buf: ByteBuffer,
    done: bool,
}

impl View for StreamDecoder {
    type V = DecoderState;

    closed spec fn view(&self) -> DecoderState {
        DecoderState { pending: self.buf@, done: self.done }
    }
}

impl StreamDecoder {
    /// A finished decoder holds nothing.
    pub closed spec fn wf(&self) -> bool {
        self.done ==> self.buf@.len() == 0
    }

    /// A decoder that has seen no bytes.
    pub fn new() -> (r: StreamDecoder)
        ensures
            r.wf(),
            r@.pending == Seq::<u8>::empty(),
            !r@.done,
    {
        StreamDecoder { buf: ByteBuffer::new(), done: false }
    }

    /// Delivers the next chunk of the transport. Every value that the
    /// buffered bytes now complete is returned in order. Bytes that can never
    /// form a value end the stream with a `Malformed` error that carries them.
    /// A finished decoder ignores the chunk.
    pub fn feed(&mut self, chunk: &[u8]) -> (r: Batch)
        requires
            old(self).wf(),
            old(self)@.pending.len() + chunk@.len() <= isize::MAX,
        ensures
            final(self).wf(),
            old(self)@.done ==> final(self)@ == old(self)@ && r.values@.len() == 0 && r.error is None,
            !old(self)@.done ==> ({
                let d = decode_all(old(self)@.pending + chunk@);
                &&& values_view(r.values@) == d.values
                &&& final(self)@.done == d.malformed
                &&& d.malformed ==> final(self)@.pending.len() == 0
                &&& d.malformed ==> (r.error matches Some(StreamError::Malformed(rest)) && rest@ == d.rest)
                &&& !d.malformed ==> final(self)@.pending == d.rest && r.error is None
            }),
    {
        let mut values: Vec<Vec<u8>> = Vec::new();
        if self.done {
            return Batch { values, error: None };
        }
        self.buf.append(chunk);
        let ghost total = decode_all(self.buf@);
        assert(values_view(values@) + total.values =~= total.values);
        loop
            invariant
                !self.done,
                !old(self).done,
                total == decode_all(old(self).buf@ + chunk@),
                values_view(values@) + decode_all(self.buf@).values == total.values,
                decode_all(self.buf@).rest == total.rest,
                decode_all(self.buf@).malformed == total.malformed,
            decreases self.buf@.len(),
        {
            proof {
                lemma_decode_skips_ws(self.buf@);
            }
            self.buf.trim_start();
            if self.buf.is_empty() {
                assert(self.buf@ =~= Seq::<u8>::empty());
                assert(values_view(values@) + Seq::<Seq<u8>>::empty() =~= values_view(values@));
                return Batch { values, error: None };
            }
            let ghost b = self.buf@;
            let f = frame_first_value(self.buf.peek_all());
            match f {
                Framing::Complete(n) => {
                    let v = slice_to_vec(slice_subrange(self.buf.peek_all(), 0, n));
                    assert(v@ =~= b.take(n as int));
                    let ghost before = values@;
                    values.push(v);
                    assert(values_view(values@) =~= values_view(before).push(v@));
                    assert(values_view(values@) + decode_all(b.skip(n as int)).values
                        =~= values_view(before) + (seq![b.take(n as int)] + decode_all(b.skip(n as int)).values));
                    self.buf.advance(n);
                },
                Framing::Incomplete => {
                    assert(values_view(values@) + Seq::<Seq<u8>>::empty() =~= values_view(values@));
                    return Batch { values, error: None };
                },
                Framing::Malformed => {
                    assert(values_view(values@) + Seq::<Seq<u8>>::empty() =~= values_view(values@));
                    let rest = self.buf.to_vec();
                    self.buf.clear();
                    self.done = true;
                    return Batch { values, error: Some(StreamError::Malformed(rest)) };
                },
            }
        }
    }

    /// Reports the end of the transport. Buffered bytes that are not all
    /// whitespace come back in a `DanglingData` error; otherwise the stream
    /// ends cleanly. Either way the decoder is finished and empty afterwards.
    pub fn finish(&mut self) -> (r: Option<StreamError>)
        requires
            old(self).wf(),
        ensures
            final(self).wf(),
            final(self)@.done,
            final(self)@.pending.len() == 0,
            r is None <==> (old(self)@.done || is_blank(old(self)@.pending)),
            r is Some ==> (r matches Some(StreamError::DanglingData(rest)) && rest@ == old(self)@.pending),
    {
        if self.done || self.buf.is_blank() {
            self.buf.clear();
            self.done = true;
            return None;
        }
        let rest = self.buf.to_vec();
        self.buf.clear();
        self.done = true;
        Some(StreamError::DanglingData(rest))
    }

    /// Number of buffered bytes.
    pub fn pending_len(&self) -> (r: usize)
        ensures
            r == self@.pending.len(),
    {
        self.buf.len()
    }

    /// The stream has ended: by `finish`, or on malformed bytes.
    pub fn is_done(&self) -> (r: bool)
        ensures
            r == self@.done,
    {
        self.done
    }
}

/// `v` is read as one whole value whatever bytes follow it, starts with a
/// non-whitespace byte, and each of its non-empty proper prefixes reads as a
/// truncated value. A serialized JSON object has this shape.
pub open spec fn is_whole_value(v: Seq<u8>) -> bool {
    &&& 0 < v.len() <= usize::MAX
    &&& !is_ascii_ws(v[0])
    &&& forall|k: int| 0 < k < v.len() ==> json_frame(#[trigger] v.take(k)) == Framing::Incomplete
    &&& forall|t: Seq<u8>| json_frame(#[trigger] (v + t)) == Framing::Complete(v.len() as usize)
}

/// The bytes `seps[0] + vs[0] + seps[1] + vs[1] + ... + tail`.
pub open spec fn interleave(seps: Seq<Seq<u8>>, vs: Seq<Seq<u8>>, tail: Seq<u8>) -> Seq<u8>
    decreases vs.len(),
{
    if vs.len() == 0 || seps.len() == 0 {
        tail
    } else {
        seps[0] + vs[0] + interleave(seps.drop_first(), vs.drop_first(), tail)
    }
}

/// Whole values, each after a run of whitespace, then a trailing run of
/// whitespace.
pub open spec fn well_framed(seps: Seq<Seq<u8>>, vs: Seq<Seq<u8>>, tail: Seq<u8>) -> bool {
    &&& seps.len() == vs.len()
    &&& forall|i: int| 0 <= i < seps.len() ==> is_blank(#[trigger] seps[i])
    &&& forall|i: int| 0 <= i < vs.len() ==> is_whole_value(#[trigger] vs[i])
    &&& is_blank(tail)
}

/// Whitespace in front of some bytes does not change what they decode to.
pub proof fn lemma_blank_prefix(w: Seq<u8>, x: Seq<u8>)
    requires
        is_blank(w),
    ensures
        decode_all(w + x) == decode_all(x),
    decreases w.len(),
{
    if w.len() > 0 {
        assert((w + x)[0] == w[0]);
        assert((w + x).drop_first() =~= w.drop_first() + x);
        assert forall|i: int| 0 <= i < w.drop_first().len() implies is_ascii_ws(#[trigger] w.drop_first()[i]) by {
            assert(w.drop_first()[i] == w[i + 1]);
        }
        lemma_blank_prefix(w.drop_first(), x);
    } else {
        assert(w + x =~= x);
    }
}

/// A whole value at the front is read, and decoding goes on after it.
pub proof fn lemma_whole_value_first(v: Seq<u8>, x: Seq<u8>)
    requires
        is_whole_value(v),
    ensures
        decode_all(v + x) == (Decoded {
            values: seq![v] + decode_all(x).values,
            rest: decode_all(x).rest,
            malformed: decode_all(x).malformed,
        }),
{
    let b = v + x;
    assert(b[0] == v[0]);
    assert(json_frame(v + x) == Framing::Complete(v.len() as usize));
    assert(b.take(v.len() as int) =~= v);
    assert(b.skip(v.len() as int) =~= x);
}

/// A non-empty proper prefix of a whole value, after whitespace, decodes to
/// nothing yet and is kept whole.
pub proof fn lemma_truncated_value(w: Seq<u8>, v: Seq<u8>, k: int)
    requires
        is_blank(w),
        is_whole_value(v),
        0 < k < v.len(),
    ensures
        decode_all(w + v.take(k)) == (Decoded { values: Seq::empty(), rest: v.take(k), malformed: false }),
{
    lemma_blank_prefix(w, v.take(k));
    assert(v.take(k)[0] == v[0]);
    assert(json_frame(v.take(k)) == Framing::Incomplete);
}

/// Framing: the concatenation of whole values, with runs of whitespace
/// before, between and after them, decodes to exactly those values in order,
/// with nothing left over and no error.
pub proof fn lemma_framing(seps: Seq<Seq<u8>>, vs: Seq<Seq<u8>>, tail: Seq<u8>)
    requires
        well_framed(seps, vs, tail),
    ensures
        decode_all(interleave(seps, vs, tail)) == (Decoded { values: vs, rest: Seq::empty(), malformed: false }),
    decreases vs.len(),
{
    if vs.len() == 0 {
        lemma_blank_prefix(tail, Seq::empty());
        assert(tail + Seq::<u8>::empty() =~= tail);
        assert(vs =~= Seq::<Seq<u8>>::empty());
    } else {
        let rest = interleave(seps.drop_first(), vs.drop_first(), tail);
        assert(well_framed(seps.drop_first(), vs.drop_first(), tail)) by {
            assert forall|i: int| 0 <= i < seps.drop_first().len() implies is_blank(#[trigger] seps.drop_first()[i]) by {
                assert(seps.drop_first()[i] == seps[i + 1]);
            }
            assert forall|i: int| 0 <= i < vs.drop_first().len() implies is_whole_value(#[trigger] vs.drop_first()[i]) by {
                assert(vs.drop_first()[i] == vs[i + 1]);
            }
        }
        lemma_framing(seps.drop_first(), vs.drop_first(), tail);
        assert(is_blank(seps[0]));
        assert(is_whole_value(vs[0]));
        assert(seps[0] + vs[0] + rest =~= seps[0] + (vs[0] + rest));
        lemma_blank_prefix(seps[0], vs[0] + rest);
        lemma_whole_value_first(vs[0], rest);
        assert(seq![vs[0]] + vs.drop_first() =~= vs);
    }
}

/// Incomplete, then complete: a decoder fed a non-empty proper prefix of a
/// whole value yields nothing and keeps the bytes; fed the remaining bytes
/// next, it yields exactly that value and keeps nothing.
pub proof fn lemma_incomplete_then_complete(v: Seq<u8>, k: int)
    requires
        is_whole_value(v),
        0 < k < v.len(),
    ensures
        decode_all(Seq::<u8>::empty() + v.take(k)) == (Decoded { values: Seq::empty(), rest: v.take(k), malformed: false }),
        decode_all(v.take(k) + v.skip(k)) == (Decoded { values: seq![v], rest: Seq::empty(), malformed: false }),
{
    lemma_truncated_value(Seq::empty(), v, k);
    assert(v.take(k) + v.skip(k) =~= v + Seq::<u8>::empty());
    lemma_whole_value_first(v, Seq::empty());
    assert(seq![v] + Seq::<Seq<u8>>::empty() =~= seq![v]);
}

/// The bytes of `chunks`, one after another.
pub open spec fn concat(chunks: Seq<Seq<u8>>) -> Seq<u8>
    decreases chunks.len(),
{
    if chunks.len() == 0 {
        Seq::empty()
    } else {
        chunks[0] + concat(chunks.drop_first())
    }
}

/// What a decoder yields over several deliveries.
pub struct Run {
    /// The values, in order.
    pub values: Seq<Seq<u8>>,
    /// The bytes buffered at the end.
    pub rest: Seq<u8>,
    /// The stream ended on malformed bytes.
    pub failed: bool,
}

/// What a decoder that buffers `buf` yields when `chunks` are fed to it one
/// after another, as `feed` states it.
pub open spec fn run_chunks(buf: Seq<u8>, chunks: Seq<Seq<u8>>) -> Run
    decreases chunks.len(),
{
    if chunks.len() == 0 {
        Run { values: Seq::empty(), rest: buf, failed: false }
    } else {
        let d = decode_all(buf + chunks[0]);
        if d.malformed {
            Run { values: d.values, rest: Seq::empty(), failed: true }
        } else {
            let r = run_chunks(d.rest, chunks.drop_first());
            Run { values: d.values + r.values, rest: r.rest, failed: r.failed }
        }
    }
}

/// Dropping the first value and separator keeps a framing well formed.
proof fn lemma_well_framed_tail(seps: Seq<Seq<u8>>, vs: Seq<Seq<u8>>, tail: Seq<u8>)
    requires
        well_framed(seps, vs, tail),
        vs.len() > 0,
    ensures
        well_framed(seps.drop_first(), vs.drop_first(), tail),
        is_blank(seps[0]),
        is_whole_value(vs[0]),
        interleave(seps, vs, tail) == seps[0] + vs[0] + interleave(seps.drop_first(), vs.drop_first(), tail),
{
    assert forall|i: int| 0 <= i < seps.drop_first().len() implies is_blank(#[trigger] seps.drop_first()[i]) by {
        assert(seps.drop_first()[i] == seps[i + 1]);
    }
    assert forall|i: int| 0 <= i < vs.drop_first().len() implies is_whole_value(#[trigger] vs.drop_first()[i]) by {
        assert(vs.drop_first()[i] == vs[i + 1]);
    }
}

/// The bytes that decoding leaves over decode to nothing but themselves.
pub proof fn lemma_rest_settled(b: Seq<u8>)
    requires
        !decode_all(b).malformed,
    ensures
        decode_all(decode_all(b).rest) == (Decoded { values: Seq::empty(), rest: decode_all(b).rest, malformed: false }),
    decreases b.len(),
{
    if b.len() == 0 {
    } else if is_ascii_ws(b[0]) {
        lemma_rest_settled(b.drop_first());
    } else {
        match json_frame(b) {
            Framing::Complete(n) => {
                lemma_rest_settled(b.skip(n as int));
            },
            _ => {},
        }
    }
}

/// Decoding any prefix `p` of well-framed bytes yields the first `j` values,
/// and what it leaves over, followed by the remaining bytes, is again well
/// framed around the other values.
proof fn lemma_prefix(seps: Seq<Seq<u8>>, vs: Seq<Seq<u8>>, tail: Seq<u8>, p: Seq<u8>, s: Seq<u8>)
    -> (w: (int, Seq<Seq<u8>>, Seq<u8>))
    requires
        well_framed(seps, vs, tail),
        p + s == interleave(seps, vs, tail),
    ensures
        0 <= w.0 <= vs.len(),
        !decode_all(p).malformed,
        decode_all(p).values == vs.take(w.0),
        well_framed(w.1, vs.skip(w.0), w.2),
        decode_all(p).rest + s == interleave(w.1, vs.skip(w.0), w.2),
    decreases vs.len(),
{
    let x = interleave(seps, vs, tail);
    if vs.len() == 0 {
        assert(p =~= tail.take(p.len() as int));
        assert(s =~= tail.skip(p.len() as int));
        assert(is_blank(p)) by {
            assert forall|i: int| 0 <= i < p.len() implies is_ascii_ws(#[trigger] p[i]) by {
                assert(p[i] == tail[i]);
            }
        }
        assert(is_blank(s)) by {
            assert forall|i: int| 0 <= i < s.len() implies is_ascii_ws(#[trigger] s[i]) by {
                assert(s[i] == tail[i + p.len()]);
            }
        }
        lemma_blank_prefix(p, Seq::empty());
        assert(p + Seq::<u8>::empty() =~= p);
        assert(vs.take(0) =~= vs);
        assert(vs.skip(0) =~= vs);
        assert(Seq::<u8>::empty() + s =~= s);
        (0, seps, s)
    } else {
        lemma_well_framed_tail(seps, vs, tail);
        let w0 = seps[0];
        let v = vs[0];
        let x1 = interleave(seps.drop_first(), vs.drop_first(), tail);
        assert(x =~= w0 + (v + x1));
        assert(vs.skip(0) =~= vs);
        assert(vs.take(0) =~= Seq::<Seq<u8>>::empty());
        if p.len() <= w0.len() {
            let w2 = w0.skip(p.len() as int);
            assert((p + s).take(p.len() as int) =~= p);
            assert((p + s).skip(p.len() as int) =~= s);
            assert((w0 + (v + x1)).take(p.len() as int) =~= w0.take(p.len() as int));
            assert((w0 + (v + x1)).skip(p.len() as int) =~= w2 + v + x1);
            assert(is_blank(p)) by {
                assert forall|i: int| 0 <= i < p.len() implies is_ascii_ws(#[trigger] p[i]) by {
                    assert(p[i] == w0[i]);
                }
            }
            lemma_blank_prefix(p, Seq::empty());
            assert(p + Seq::<u8>::empty() =~= p);
            let seps2 = seps.update(0, w2);
            assert(seps2.drop_first() =~= seps.drop_first());
            assert(well_framed(seps2, vs, tail)) by {
                assert forall|i: int| 0 <= i < seps2.len() implies is_blank(#[trigger] seps2[i]) by {
                    if i == 0 {
                        assert forall|k: int| 0 <= k < w2.len() implies is_ascii_ws(#[trigger] w2[k]) by {
                            assert(w2[k] == w0[k + p.len()]);
                        }
                    } else {
                        assert(seps2[i] == seps[i]);
                    }
                }
            }
            assert(Seq::<u8>::empty() + s =~= s);
            (0, seps2, tail)
        } else if p.len() < w0.len() + v.len() {
            let k = p.len() - w0.len();
            assert((p + s).take(p.len() as int) =~= p);
            assert((p + s).skip(p.len() as int) =~= s);
            assert((w0 + (v + x1)).take(p.len() as int) =~= w0 + v.take(k));
            assert((w0 + (v + x1)).skip(p.len() as int) =~= v.skip(k) + x1);
            lemma_truncated_value(w0, v, k);
            let seps2 = seps.update(0, Seq::<u8>::empty());
            assert(seps2.drop_first() =~= seps.drop_first());
            assert(well_framed(seps2, vs, tail)) by {
                assert forall|i: int| 0 <= i < seps2.len() implies is_blank(#[trigger] seps2[i]) by {
                    if i != 0 {
                        assert(seps2[i] == seps[i]);
                    }
                }
            }
            assert(v.take(k) + s =~= Seq::<u8>::empty() + v + x1);
            (0, seps2, tail)
        } else {
            let p1 = p.skip((w0.len() + v.len()) as int);
            assert((p + s).take(p.len() as int) =~= p);
            assert((p + s).skip((w0.len() + v.len()) as int) =~= p1 + s);
            assert((w0 + (v + x1)).take((w0.len() + v.len()) as int) =~= w0 + v);
            assert((w0 + (v + x1)).skip((w0.len() + v.len()) as int) =~= x1);
            assert(p.take((w0.len() + v.len()) as int) =~= (p + s).take((w0.len() + v.len()) as int));
            assert(p =~= w0 + (v + p1));
            assert(p1 + s =~= x1);
            let w1 = lemma_prefix(seps.drop_first(), vs.drop_first(), tail, p1, s);
            lemma_blank_prefix(w0, v + p1);
            lemma_whole_value_first(v, p1);
            assert(vs.take(w1.0 + 1) =~= seq![v] + vs.drop_first().take(w1.0));
            assert(vs.skip(w1.0 + 1) =~= vs.drop_first().skip(w1.0));
            (w1.0 + 1, w1.1, w1.2)
        }
    }
}

/// Feeding chunks whose bytes, buffered bytes first, are well framed yields
/// exactly the values of the framing and leaves nothing over.
proof fn lemma_run_well_framed(buf: Seq<u8>, chunks: Seq<Seq<u8>>, seps: Seq<Seq<u8>>, vs: Seq<Seq<u8>>, tail: Seq<u8>)
    requires
        well_framed(seps, vs, tail),
        buf + concat(chunks) == interleave(seps, vs, tail),
        decode_all(buf) == (Decoded { values: Seq::empty(), rest: buf, malformed: false }),
    ensures
        run_chunks(buf, chunks) == (Run { values: vs, rest: Seq::empty(), failed: false }),
    decreases chunks.len(),
{
    if chunks.len() == 0 {
        assert(buf + Seq::<u8>::empty() =~= buf);
        lemma_framing(seps, vs, tail);
        assert(vs.len() == 0);
        assert(buf.len() == 0);
        assert(vs =~= Seq::<Seq<u8>>::empty());
        assert(buf =~= Seq::<u8>::empty());
    } else {
        let p = buf + chunks[0];
        let s = concat(chunks.drop_first());
        assert(p + s =~= buf + concat(chunks));
        let w = lemma_prefix(seps, vs, tail, p, s);
        let d = decode_all(p);
        lemma_rest_settled(p);
        lemma_run_well_framed(d.rest, chunks.drop_first(), w.1, vs.skip(w.0), w.2);
        assert(vs.take(w.0) + vs.skip(w.0) =~= vs);
    }
}

/// Chunk-boundary invariance: however well-framed bytes are cut into chunks,
/// a fresh decoder fed them in order yields the same values as when it is
/// fed all of them at once: exactly the framed values, with nothing left
/// over and no error.
pub proof fn lemma_chunking_invariant(seps: Seq<Seq<u8>>, vs: Seq<Seq<u8>>, tail: Seq<u8>, chunks: Seq<Seq<u8>>)
    requires
        well_framed(seps, vs, tail),
        concat(chunks) == interleave(seps, vs, tail),
    ensures
        run_chunks(Seq::empty(), chunks) == run_chunks(Seq::empty(), seq![interleave(seps, vs, tail)]),
        run_chunks(Seq::empty(), chunks) == (Run { values: vs, rest: Seq::empty(), failed: false }),
{
    let x = interleave(seps, vs, tail);
    assert(Seq::<u8>::empty() + concat(chunks) =~= x);
    lemma_run_well_framed(Seq::empty(), chunks, seps, vs, tail);
    let one = seq![x];
    assert(one.drop_first() =~= Seq::<Seq<u8>>::empty());
    assert(concat(one.drop_first()) =~= Seq::<u8>::empty());
    assert(Seq::<u8>::empty() + concat(one) =~= x);
    lemma_run_well_framed(Seq::empty(), one, seps, vs, tail);
}

} // verus!
