//! A newline-delimited translation capability.
//!
//! Frames are byte strings without newlines; on the wire each frame is its
//! bytes followed by one newline.  The codec buffers partial input in its own
//! state, so a decode attempt always consumes the whole input buffer, as the
//! [`Translate`] contract asks; a configurable limit bounds how many bytes it
//! will hold while waiting for a newline.

use vstd::prelude::*;

use crate::buffer::ByteBuf;
use crate::codec::Translate;

verus! {

/// The byte that ends a frame on the wire.
pub const NL: u8 = 10;

/// What the line codec can fail with.
#[derive(Clone, Copy, Debug, PartialEq, Eq, Structural)]
pub enum LineError {
    /// More buffered bytes than the limit allows without a newline among
    /// them.
    LineTooLong,
    /// A frame submitted for encoding contains a newline, which the wire
    /// format cannot carry.
    NewlineInFrame,
}

/// The mathematical model of a [`LineCodec`]: the bytes it has absorbed but
/// not yet emitted, and its length limit.
pub struct LineModel {
    pub pending: Seq<u8>,
    pub max: int,
}

/// Newline-delimited codec.  Decoded and encoded frames are byte vectors.
pub struct LineCodec {
    pending: Vec<u8>,
    max: usize,
}

/// Is a newline among the bytes?
pub open spec fn has_nl(s: Seq<u8>) -> bool {
    exists|i: int| 0 <= i < s.len() && s[i] == NL
}

/// Index of the first newline, or -1 when there is none.
pub open spec fn first_nl(s: Seq<u8>) -> int
    decreases s.len(),
{
    if s.len() == 0 {
        -1
    } else if s[0] == NL {
        0
    } else {
        let r = first_nl(s.skip(1));
        if r < 0 {
            -1
        } else {
            r + 1
        }
    }
}

/// `first_nl` finds a newline exactly when there is one, and nothing before
/// it is a newline.
pub proof fn lemma_first_nl(s: Seq<u8>)
    ensures
        first_nl(s) >= 0 ==> first_nl(s) < s.len() && s[first_nl(s)] == NL,
        first_nl(s) >= 0 ==> forall|j: int| 0 <= j < first_nl(s) ==> s[j] != NL,
        first_nl(s) < 0 ==> forall|j: int| 0 <= j < s.len() ==> s[j] != NL,
        first_nl(s) >= 0 <==> has_nl(s),
    decreases s.len(),
{
    if s.len() == 0 {
    } else if s[0] == NL {
    } else {
        lemma_first_nl(s.skip(1));
        assert(forall|j: int| 0 <= j < s.skip(1).len() ==> s.skip(1)[j] == s[j + 1]);
        if first_nl(s) < 0 {
            assert(forall|j: int| 0 <= j < s.len() ==> s[j] != NL) by {
                assert(forall|j: int| 1 <= j < s.len() ==> s[j] == s.skip(1)[j - 1]);
            }
        } else {
            assert(forall|j: int| 0 <= j < first_nl(s) ==> s[j] != NL) by {
                assert(forall|j: int| 1 <= j < s.len() ==> s[j] == s.skip(1)[j - 1]);
            }
        }
        if has_nl(s) {
            let i = choose|i: int| 0 <= i < s.len() && s[i] == NL;
            if i > 0 {
                assert(s.skip(1)[i - 1] == NL);
                assert(has_nl(s.skip(1)));
            }
        }
    }
}

/// The first newline of a concatenation is the first newline of the head,
/// when the head has one.
pub proof fn lemma_first_nl_prefix(a: Seq<u8>, b: Seq<u8>)
    requires
        first_nl(a) >= 0,
    ensures
        first_nl(a + b) == first_nl(a),
{
    lemma_first_nl(a);
    lemma_first_nl(a + b);
    let fa = first_nl(a);
    let fab = first_nl(a + b);
    assert((a + b)[fa] == NL);
    assert(has_nl(a + b));
    if fab < fa {
        assert((a + b)[fab] == a[fab]);
        assert(a[fab] != NL);
    }
    if fab > fa {
        assert((a + b)[fa] != NL);
    }
}

/// The frames a greedy decode emits, in order, from absorbed bytes `p`:
/// front line after front line, as long as a newline remains.  This is what
/// the decode loop produces between two reads, since a decode call with an
/// already-drained buffer works on the codec's absorbed bytes alone.
pub open spec fn emit_all(p: Seq<u8>) -> Seq<Seq<u8>>
    decreases p.len(),
{
    if 0 <= first_nl(p) < p.len() {
        seq![p.take(first_nl(p))] + emit_all(p.skip(first_nl(p) + 1))
    } else {
        Seq::empty()
    }
}

/// What stays absorbed after a greedy decode emptied `p` of whole lines.
pub open spec fn residue(p: Seq<u8>) -> Seq<u8>
    decreases p.len(),
{
    if 0 <= first_nl(p) < p.len() {
        residue(p.skip(first_nl(p) + 1))
    } else {
        p
    }
}

/// The frames the decode loop yields when the codec holds absorbed bytes
/// `p` and the transport delivers `chunks` in order: each chunk is absorbed
/// whole (one decode call drains the buffer into the codec state), the
/// absorbed bytes are emptied of whole lines, and only then is the next
/// chunk read.
pub open spec fn run(p: Seq<u8>, chunks: Seq<Seq<u8>>) -> Seq<Seq<u8>>
    decreases chunks.len(),
{
    if chunks.len() == 0 {
        Seq::empty()
    } else {
        emit_all(p + chunks[0]) + run(residue(p + chunks[0]), chunks.skip(1))
    }
}

/// All chunks, joined back into the byte sequence they were split from.
pub open spec fn concat_all(chunks: Seq<Seq<u8>>) -> Seq<u8>
    decreases chunks.len(),
{
    if chunks.len() == 0 {
        Seq::empty()
    } else {
        chunks[0] + concat_all(chunks.skip(1))
    }
}

/// The model and the codec contract agree, step by step.  A decode call in
/// state `s` absorbs the buffered bytes `c` and works on `s.pending + c`:
/// when it yields, the frame is precisely the head of `emit_all` of the
/// absorbed bytes and their tail stays absorbed; when it reports no frame,
/// nothing of `emit_all` was left and the absorbed bytes stay put.  The
/// adapter then clears the (already drained) buffer, so later calls pass
/// `c == empty` until the next read — which is exactly how `run` feeds one
/// chunk in and empties it of whole lines before the next.
pub proof fn lemma_decode_step_model(s: LineModel, c: Seq<u8>)
    ensures
        LineCodec::dec_yields(s, c) <==> first_nl(s.pending + c) >= 0,
        LineCodec::dec_yields(s, c) ==> emit_all(s.pending + c) == seq![
            LineCodec::dec_frame(s, c),
        ] + emit_all(LineCodec::dec_next(s, c).pending),
        !LineCodec::dec_yields(s, c) ==> emit_all(s.pending + c) == Seq::<Seq<u8>>::empty()
            && LineCodec::dec_next(s, c).pending == s.pending + c,
        LineCodec::dec_next(s, c).max == s.max,
{
    lemma_first_nl(s.pending + c);
}

/// A greedy decode leaves no newline behind.
pub proof fn lemma_residue_no_nl(p: Seq<u8>)
    ensures
        first_nl(residue(p)) < 0,
    decreases p.len(),
{
    lemma_first_nl(p);
    if 0 <= first_nl(p) < p.len() {
        lemma_residue_no_nl(p.skip(first_nl(p) + 1));
    }
}

/// Splitting the absorbed bytes in two changes nothing: emitting greedily
/// from `a + b` is emitting greedily from `a`, then from what `a` left
/// behind followed by `b`.
pub proof fn lemma_emit_concat(a: Seq<u8>, b: Seq<u8>)
    ensures
        emit_all(a + b) == emit_all(a) + emit_all(residue(a) + b),
        residue(a + b) == residue(residue(a) + b),
    decreases a.len(),
{
    lemma_first_nl(a);
    if 0 <= first_nl(a) < a.len() {
        let i = first_nl(a);
        lemma_first_nl_prefix(a, b);
        lemma_first_nl(a + b);
        assert((a + b).skip(i + 1) =~= a.skip(i + 1) + b);
        assert((a + b).take(i) =~= a.take(i));
        lemma_emit_concat(a.skip(i + 1), b);
        assert(emit_all(a + b) =~= emit_all(a) + emit_all(residue(a) + b));
    } else {
        assert(residue(a) + b =~= a + b);
        assert(emit_all(a + b) =~= emit_all(a) + emit_all(residue(a) + b));
    }
}

/// Chunk-boundary independence: however a byte sequence was split into
/// transport read chunks, the decode loop yields exactly the frames of the
/// joined sequence, in order.  `p` is whatever newline-free leftover the
/// codec already holds; a fresh adapter starts with none.
pub proof fn lemma_chunk_independence(p: Seq<u8>, chunks: Seq<Seq<u8>>)
    requires
        first_nl(p) < 0,
    ensures
        run(p, chunks) == emit_all(p + concat_all(chunks)),
    decreases chunks.len(),
{
    if chunks.len() == 0 {
        assert(p + concat_all(chunks) =~= p);
        lemma_first_nl(p);
    } else {
        let c = chunks[0];
        let rest = chunks.skip(1);
        lemma_residue_no_nl(p + c);
        lemma_chunk_independence(residue(p + c), rest);
        lemma_emit_concat(p + c, concat_all(rest));
        assert((p + c) + concat_all(rest) =~= p + concat_all(chunks));
        assert(run(p, chunks) =~= emit_all(p + concat_all(chunks)));
    }
}

/// The wire form of a whole frame sequence: each frame's bytes followed by
/// one newline, joined in order.
pub open spec fn encode_all(frames: Seq<Seq<u8>>) -> Seq<u8>
    decreases frames.len(),
{
    if frames.len() == 0 {
        Seq::empty()
    } else {
        (frames[0] + seq![NL]) + encode_all(frames.skip(1))
    }
}

/// A valid concatenation of encoded frames decodes back to exactly those
/// frames, in order.
pub proof fn lemma_frames_recovered(frames: Seq<Seq<u8>>)
    requires
        forall|i: int| 0 <= i < frames.len() ==> !has_nl(#[trigger] frames[i]),
    ensures
        emit_all(encode_all(frames)) == frames,
    decreases frames.len(),
{
    if frames.len() == 0 {
    } else {
        let f0 = frames[0];
        let e0 = f0 + seq![NL];
        let restb = encode_all(frames.skip(1));
        let all = e0 + restb;
        lemma_first_nl(e0);
        assert(e0[f0.len() as int] == NL);
        assert(has_nl(e0));
        if first_nl(e0) < f0.len() {
            assert(e0[first_nl(e0)] == f0[first_nl(e0)]);
            assert(has_nl(f0));
        }
        assert(first_nl(e0) == f0.len());
        lemma_first_nl_prefix(e0, restb);
        assert(first_nl(all) == f0.len());
        assert(all.take(f0.len() as int) =~= f0);
        assert(all.skip(f0.len() as int + 1) =~= restb);
        lemma_frames_recovered(frames.skip(1));
        assert(emit_all(all) =~= frames);
    }
}

/// The whole of the first testable property: for any split of a valid
/// concatenation of encoded frames into transport read chunks, the decode
/// loop yields exactly those frames, in order, regardless of the chunking.
pub proof fn lemma_chunked_frames(frames: Seq<Seq<u8>>, chunks: Seq<Seq<u8>>)
    requires
        forall|i: int| 0 <= i < frames.len() ==> !has_nl(#[trigger] frames[i]),
        concat_all(chunks) == encode_all(frames),
    ensures
        run(Seq::empty(), chunks) == frames,
{
    lemma_chunk_independence(Seq::empty(), chunks);
    lemma_frames_recovered(frames);
    assert(Seq::<u8>::empty() + concat_all(chunks) =~= concat_all(chunks));
}

/// Round trip: a frame the codec can produce (its bytes hold no newline),
/// encoded and then decoded with no other bytes present, comes back intact
/// and leaves nothing absorbed.
pub proof fn lemma_round_trip(max: int, item: Seq<u8>)
    requires
        !has_nl(item),
    ensures
        ({
            let s = LineModel { pending: Seq::empty(), max };
            let bytes = LineCodec::enc(s, item);
            &&& LineCodec::dec_ok(s, bytes)
            &&& LineCodec::dec_yields(s, bytes)
            &&& LineCodec::dec_frame(s, bytes) == item
            &&& LineCodec::dec_next(s, bytes).pending == Seq::<u8>::empty()
        }),
{
    let s = LineModel { pending: Seq::empty(), max };
    let bytes = LineCodec::enc(s, item);
    let p = s.pending + bytes;
    assert(p =~= item + seq![NL]);
    lemma_first_nl(p);
    assert(p[item.len() as int] == NL);
    assert(has_nl(p));
    let f = first_nl(p);
    if f < item.len() {
        assert(p[f] == item[f]);
        assert(has_nl(item));
    }
    assert(f == item.len());
    assert(LineCodec::dec_frame(s, bytes) =~= item);
    assert(LineCodec::dec_next(s, bytes).pending =~= Seq::<u8>::empty());
}

impl View for LineCodec {
    type V = LineModel;

    closed spec fn view(&self) -> LineModel {
        LineModel { pending: self.pending@, max: self.max as int }
    }
}

impl LineCodec {
    /// A codec that holds at most `max` bytes while waiting for a newline.
    pub fn new(max: usize) -> (r: LineCodec)
        ensures
            r@.pending == Seq::<u8>::empty(),
            r@.max == max,
    {
        LineCodec { pending: Vec::new(), max }
    }

    /// The bytes absorbed but not yet emitted.
    pub fn pending_bytes(&self) -> (r: &Vec<u8>)
        ensures
            r@ == self@.pending,
    {
        &self.pending
    }
}

impl Translate for LineCodec {
    type In = Vec<u8>;

    type Out = Vec<u8>;

    type Err = LineError;

    open spec fn dec_ok(s: LineModel, input: Seq<u8>) -> bool {
        first_nl(s.pending + input) >= 0 || (s.pending + input).len() <= s.max
    }

    open spec fn dec_yields(s: LineModel, input: Seq<u8>) -> bool {
        first_nl(s.pending + input) >= 0
    }

    open spec fn dec_frame(s: LineModel, input: Seq<u8>) -> Seq<u8> {
        (s.pending + input).take(first_nl(s.pending + input))
    }

    open spec fn dec_next(s: LineModel, input: Seq<u8>) -> LineModel {
        let p = s.pending + input;
        LineModel {
            pending: if first_nl(p) >= 0 {
                p.skip(first_nl(p) + 1)
            } else {
                p
            },
            max: s.max,
        }
    }

    open spec fn enc_ok(s: LineModel, item: Seq<u8>) -> bool {
        !has_nl(item)
    }

    open spec fn enc(s: LineModel, item: Seq<u8>) -> Seq<u8> {
        item + seq![NL]
    }

    open spec fn enc_next(s: LineModel, item: Seq<u8>) -> LineModel {
        s
    }

    fn decode_eof(&mut self, buf: &mut ByteBuf) -> (r: Result<Option<Vec<u8>>, LineError>) {
        let ghost p = old(self).pending@ + old(buf)@;
        let n = buf.len();
        let mut i: usize = 0;
        while i < n
            invariant
                i <= n,
                n == buf@.len(),
                buf@ == old(buf)@,
                buf.spec_cap() == old(buf).spec_cap(),
                self.pending@ == old(self).pending@ + buf@.take(i as int),
                self.max == old(self).max,
            decreases n - i,
        {
            proof {
                assert(buf@.take(i + 1) == buf@.take(i as int).push(buf@[i as int]));
            }
            self.pending.push(buf.get(i));
            i = i + 1;
        }
        buf.clear();
        proof {
            assert(self.pending@ == p);
        }
        let m = self.pending.len();
        let mut j: usize = 0;
        while j < m && self.pending[j] != NL
            invariant
                j <= m,
                m == self.pending@.len(),
                forall|k: int| 0 <= k < j ==> self.pending@[k] != NL,
            decreases m - j,
        {
            j = j + 1;
        }
        proof {
            lemma_first_nl(p);
        }
        if j < m {
            // the first newline sits at j
            proof {
                assert(p[j as int] == NL);
                assert(has_nl(p));
                if first_nl(p) < j {
                    assert(p[first_nl(p)] == NL);
                }
                assert(first_nl(p) == j);
            }
            let mut frame: Vec<u8> = Vec::new();
            let mut k: usize = 0;
            while k < j
                invariant
                    k <= j,
                    j < self.pending@.len(),
                    frame@ == self.pending@.take(k as int),
                decreases j - k,
            {
                proof {
                    assert(self.pending@.take(k + 1) == self.pending@.take(k as int).push(
                        self.pending@[k as int],
                    ));
                }
                frame.push(self.pending[k]);
                k = k + 1;
            }
            let mut rest: Vec<u8> = Vec::new();
            let mut t: usize = j + 1;
            while t < m
                invariant
                    j + 1 <= t <= m,
                    m == self.pending@.len(),
                    rest@ == self.pending@.subrange(j + 1, t as int),
                decreases m - t,
            {
                proof {
                    assert(self.pending@.subrange(j + 1, t + 1) == self.pending@.subrange(
                        j + 1,
                        t as int,
                    ).push(self.pending@[t as int]));
                }
                rest.push(self.pending[t]);
                t = t + 1;
            }
            self.pending = rest;
            proof {
                assert(self@.pending =~= p.skip(j + 1));
                assert(frame@ =~= p.take(j as int));
            }
            Ok(Some(frame))
        } else {
            // no newline among the absorbed bytes
            proof {
                if first_nl(p) >= 0 {
                    assert(p[first_nl(p)] == NL);
                }
            }
            if self.pending.len() <= self.max {
                Ok(None)
            } else {
                Err(LineError::LineTooLong)
            }
        }
    }

    fn encode(&mut self, item: Vec<u8>, buf: &mut ByteBuf) -> (r: Result<(), LineError>) {
        let n = item.len();
        let mut i: usize = 0;
        while i < n && item[i] != NL
            invariant
                i <= n,
                n == item@.len(),
                forall|k: int| 0 <= k < i ==> item@[k] != NL,
            decreases n - i,
        {
            i = i + 1;
        }
        if i < n {
            proof {
                assert(has_nl(item@));
            }
            return Err(LineError::NewlineInFrame);
        }
        let mut w: usize = 0;
        while w < n
            invariant
                w <= n,
                n == item@.len(),
                buf@ == old(buf)@ + item@.take(w as int),
                buf.wf(),
            decreases n - w,
        {
            proof {
                assert(item@.take(w + 1) == item@.take(w as int).push(item@[w as int]));
            }
            buf.push(item[w]);
            w = w + 1;
        }
        buf.push(NL);
        proof {
            assert(buf@ =~= old(buf)@ + (item@ + seq![NL]));
        }
        Ok(())
    }
}

} // verus!
