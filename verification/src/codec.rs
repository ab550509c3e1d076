//! The framing codec: length-prefixed frames whose payloads are obfuscated
//! with a repeating-key XOR.
//!
//! A frame on the wire is a four-byte big-endian payload length in clear,
//! followed by that many payload bytes XORed with the key (the keystream
//! restarts at key offset zero for every frame). `EncWriter` builds the wire
//! bytes of one frame; `EncReader` consumes an arbitrarily chunked byte
//! stream and yields one decoded payload at a time.

use vstd::prelude::*;
use vstd::slice::slice_subrange;

use crate::bytes::{
    be32_bytes, be32_val, get_u32_be, lemma_be32_round_trip, lemma_be32_val_prefix, put_u32_be,
};

verus! {

/// `data` XORed with `key` applied as a repeating keystream starting at key
/// offset zero.
pub open spec fn xor_seq(data: Seq<u8>, key: Seq<u8>) -> Seq<u8>
    recommends
        key.len() >= 1,
{
    Seq::new(data.len(), |i: int| data[i] ^ key[i % (key.len() as int)])
}

/// XOR of two equal bytes cancels, so obfuscating twice under one key is the
/// identity.
pub proof fn lemma_xor_involution(data: Seq<u8>, key: Seq<u8>)
    requires
        key.len() >= 1,
    ensures
        xor_seq(xor_seq(data, key), key) == data,
{
    let once = xor_seq(data, key);
    let twice = xor_seq(once, key);
    assert forall|i: int| 0 <= i < data.len() implies twice[i] == data[i] by {
        let a = data[i];
        let b = key[i % (key.len() as int)];
        assert((a ^ b) ^ b == a) by (bit_vector);
    }
    assert(twice =~= data);
}

/// Appends to `output` the bytes of `data` XORed with `key` as a repeating
/// keystream starting at key offset zero.
pub fn xor(data: &[u8], key: &[u8], output: &mut Vec<u8>)
    requires
        key@.len() >= 1,
    ensures
        final(output)@ == old(output)@ + xor_seq(data@, key@),
{
    output.reserve(data.len());
    let mut i: usize = 0;
    while i < data.len()
        invariant
            key@.len() >= 1,
            i <= data@.len(),
            output@ == old(output)@ + xor_seq(data@, key@).take(i as int),
        decreases data@.len() - i,
    {
        let v: u8 = data[i] ^ key[i % key.len()];
        output.push(v);
        proof {
            assert(xor_seq(data@, key@).take(i + 1) =~= xor_seq(data@, key@).take(i as int).push(
                v,
            ));
        }
        i += 1;
    }
    proof {
        assert(xor_seq(data@, key@).take(data@.len() as int) =~= xor_seq(data@, key@));
    }
}

/// A payload the framing can carry: non-empty, and short enough for its
/// length to fit in the four-byte prefix.
pub open spec fn frame_ok(p: Seq<u8>) -> bool {
    1 <= p.len() <= u32::MAX
}

/// The wire bytes of one frame carrying payload `p` under key `k`.
pub open spec fn frame_bytes(p: Seq<u8>, k: Seq<u8>) -> Seq<u8>
    recommends
        frame_ok(p),
        k.len() >= 1,
{
    be32_bytes(p.len() as u32) + xor_seq(p, k)
}

/// The concatenated wire bytes of a sequence of frames.
pub open spec fn stream_bytes(ps: Seq<Seq<u8>>, k: Seq<u8>) -> Seq<u8>
    decreases ps.len(),
{
    if ps.len() == 0 {
        Seq::empty()
    } else {
        frame_bytes(ps[0], k) + stream_bytes(ps.drop_first(), k)
    }
}

/// Whether `s` begins with a complete frame: a full length prefix naming a
/// non-zero payload length that is entirely present.
pub open spec fn head_frame_ready(s: Seq<u8>) -> bool {
    s.len() >= 4 && be32_val(s) >= 1 && s.len() >= 4 + be32_val(s)
}

/// Whether `s` begins with a malformed header: a length prefix of zero.
pub open spec fn head_malformed(s: Seq<u8>) -> bool {
    s.len() >= 4 && be32_val(s) == 0
}

/// The payload of the first complete frame of `s`, decoded under `k`.
pub open spec fn head_payload(s: Seq<u8>, k: Seq<u8>) -> Seq<u8>
    recommends
        head_frame_ready(s),
{
    xor_seq(s.subrange(4, 4 + be32_val(s)), k)
}

/// All payloads decodable from the front of `s` under `k`, in order.
pub open spec fn parse_all(s: Seq<u8>, k: Seq<u8>) -> Seq<Seq<u8>>
    decreases s.len(),
{
    if head_frame_ready(s) {
        seq![head_payload(s, k)] + parse_all(s.skip(4 + be32_val(s)), k)
    } else {
        Seq::empty()
    }
}

/// One decoding step is one element of `parse_all`: when the buffered
/// bytes begin with a complete frame, its payload is the head of
/// everything they will ever yield, and the bytes after it yield the rest.
/// This is the shape of each successful [`EncReader::try_next`] call.
pub proof fn lemma_parse_all_step(s: Seq<u8>, k: Seq<u8>)
    requires
        head_frame_ready(s),
    ensures
        parse_all(s, k) == seq![head_payload(s, k)] + parse_all(s.skip(4 + be32_val(s)), k),
{
}

/// Builds the wire bytes of frames to send; each call obfuscates its payload
/// independently under the writer's key.
pub struct EncWriter {
    key: Vec<u8>,
}

impl EncWriter {
    /// The key this writer obfuscates under.
    pub closed spec fn key_bytes(&self) -> Seq<u8> {
        self.key@
    }

    /// A usable writer holds a non-empty key.
    pub open spec fn wf(&self) -> bool {
        self.key_bytes().len() >= 1
    }

    pub fn new(key: Vec<u8>) -> (w: Self)
        requires
            key@.len() >= 1,
        ensures
            w.wf(),
            w.key_bytes() == key@,
    {
        EncWriter { key }
    }

    /// The wire bytes of one frame carrying `data`: the clear length prefix
    /// followed by the obfuscated payload.
    pub fn encode_frame(&self, data: &[u8]) -> (out: Vec<u8>)
        requires
            self.wf(),
            1 <= data@.len() <= u32::MAX,
        ensures
            out@ == frame_bytes(data@, self.key_bytes()),
    {
        let mut out: Vec<u8> = Vec::new();
        put_u32_be(&mut out, data.len() as u32);
        xor(data, self.key.as_slice(), &mut out);
        proof {
            assert(out@ =~= frame_bytes(data@, self.key_bytes()));
        }
        out
    }
}

/// What one attempt to decode the next frame yielded.
#[derive(PartialEq, Eq, Structural, Debug, Clone, Copy)]
pub enum DecodeStep {
    /// A complete payload was decoded.
    Frame,
    /// The buffered bytes do not yet hold a complete frame.
    NeedMore,
    /// The buffered bytes begin with a length prefix of zero, which the
    /// protocol forbids.
    Malformed,
}

/// Decodes frames from an arbitrarily chunked byte stream. Bytes read from
/// the transport are appended with [`EncReader::push_bytes`]; each call of
/// [`EncReader::try_next`] then yields at most one decoded payload.
pub struct EncReader {
    key: Vec<u8>,
    pkt_cache: Vec<u8>,
}

impl EncReader {
    /// The key this reader deobfuscates under.
    pub closed spec fn key_bytes(&self) -> Seq<u8> {
        self.key@
    }

    /// The bytes received from the transport and not yet delivered as
    /// decoded payloads.
    pub closed spec fn pending(&self) -> Seq<u8> {
        self.pkt_cache@
    }

    /// A usable reader holds a non-empty key.
    pub open spec fn wf(&self) -> bool {
        self.key_bytes().len() >= 1
    }

    pub fn new(key: Vec<u8>) -> (r: Self)
        requires
            key@.len() >= 1,
        ensures
            r.wf(),
            r.key_bytes() == key@,
            r.pending() == Seq::<u8>::empty(),
    {
        EncReader { key, pkt_cache: Vec::new() }
    }

    /// Appends one chunk read from the transport to the undecoded bytes.
    pub fn push_bytes(&mut self, chunk: &[u8])
        ensures
            final(self).key_bytes() == old(self).key_bytes(),
            final(self).pending() == old(self).pending() + chunk@,
    {
        self.pkt_cache.extend_from_slice(chunk);
    }

    /// Attempts to decode the next frame from the buffered bytes.
    ///
    /// When a complete frame is buffered its payload replaces the contents
    /// of `out` and the frame's bytes leave the buffer; a zero length prefix
    /// is reported as malformed; otherwise more bytes are needed and nothing
    /// changes.
    pub fn try_next(&mut self, out: &mut Vec<u8>) -> (step: DecodeStep)
        requires
            old(self).wf(),
        ensures
            final(self).key_bytes() == old(self).key_bytes(),
            final(self).wf(),
            step == DecodeStep::Malformed <==> head_malformed(old(self).pending()),
            step == DecodeStep::Frame <==> head_frame_ready(old(self).pending()),
            step == DecodeStep::Frame ==> {
                &&& final(out)@ == head_payload(old(self).pending(), old(self).key_bytes())
                &&& final(self).pending() == old(self).pending().skip(
                    4 + be32_val(old(self).pending()),
                )
            },
            step != DecodeStep::Frame ==> {
                &&& final(self).pending() == old(self).pending()
                &&& final(out)@ == old(out)@
            },
    {
        if self.pkt_cache.len() < 4 {
            return DecodeStep::NeedMore;
        }
        let len: u32 = get_u32_be(self.pkt_cache.as_slice(), 0);
        proof {
            lemma_be32_val_prefix(self.pkt_cache@.subrange(0, 4), self.pkt_cache@);
        }
        if len == 0 {
            return DecodeStep::Malformed;
        }
        if (len as usize) > self.pkt_cache.len() - 4 {
            return DecodeStep::NeedMore;
        }
        let pkt_len: usize = 4 + len as usize;
        out.clear();
        let payload = slice_subrange(self.pkt_cache.as_slice(), 4, pkt_len);
        xor(payload, self.key.as_slice(), out);
        let rest = self.pkt_cache.split_off(pkt_len);
        self.pkt_cache = rest;
        proof {
            assert(out@ =~= head_payload(old(self).pending(), old(self).key_bytes()));
            assert(self.pkt_cache@ =~= old(self).pending().skip(
                4 + be32_val(old(self).pending()),
            ));
        }
        DecodeStep::Frame
    }
}

/// Round-trip: a payload encoded under a key and decoded under the same key
/// comes back unchanged, for every payload the framing can carry and every
/// non-empty key.
pub proof fn lemma_round_trip(p: Seq<u8>, k: Seq<u8>)
    requires
        1 <= p.len() <= 65536,
        k.len() >= 1,
    ensures
        parse_all(frame_bytes(p, k), k) == seq![p],
{
    let ps = seq![p];
    lemma_stream_parses(ps, k);
    assert(ps.drop_first() =~= Seq::<Seq<u8>>::empty());
    assert(stream_bytes(ps.drop_first(), k) == Seq::<u8>::empty());
    assert(stream_bytes(ps, k) == frame_bytes(ps[0], k) + stream_bytes(ps.drop_first(), k));
    assert(stream_bytes(ps, k) =~= frame_bytes(p, k));
}

/// The frame sequence produced when two writers share one stream and a
/// schedule says whose next frame goes out at each step: `true` takes the
/// next frame of `a`, `false` the next frame of `b`, and a side with no
/// frames left is skipped.
pub open spec fn interleave(a: Seq<Seq<u8>>, b: Seq<Seq<u8>>, sched: Seq<bool>) -> Seq<Seq<u8>>
    decreases sched.len(),
{
    if sched.len() == 0 {
        a + b
    } else if sched[0] && a.len() > 0 {
        seq![a[0]] + interleave(a.drop_first(), b, sched.drop_first())
    } else if !sched[0] && b.len() > 0 {
        seq![b[0]] + interleave(a, b.drop_first(), sched.drop_first())
    } else {
        interleave(a, b, sched.drop_first())
    }
}

/// Every frame of an interleaving comes from one of the two writers.
pub proof fn lemma_interleave_frames_ok(a: Seq<Seq<u8>>, b: Seq<Seq<u8>>, sched: Seq<bool>)
    requires
        forall|i: int| 0 <= i < a.len() ==> frame_ok(#[trigger] a[i]),
        forall|i: int| 0 <= i < b.len() ==> frame_ok(#[trigger] b[i]),
    ensures
        forall|i: int|
            0 <= i < interleave(a, b, sched).len() ==> frame_ok(
                #[trigger] interleave(a, b, sched)[i],
            ),
    decreases sched.len(),
{
    let r = interleave(a, b, sched);
    if sched.len() == 0 {
        assert forall|i: int| 0 <= i < r.len() implies frame_ok(#[trigger] r[i]) by {
            if i < a.len() {
                assert(r[i] == a[i]);
            } else {
                assert(r[i] == b[i - a.len()]);
            }
        }
    } else if sched[0] && a.len() > 0 {
        lemma_interleave_frames_ok(a.drop_first(), b, sched.drop_first());
        assert forall|i: int| 0 <= i < r.len() implies frame_ok(#[trigger] r[i]) by {
            if i == 0 {
                assert(r[0] == a[0]);
            } else {
                assert(r[i] == interleave(a.drop_first(), b, sched.drop_first())[i - 1]);
            }
        }
    } else if !sched[0] && b.len() > 0 {
        lemma_interleave_frames_ok(a, b.drop_first(), sched.drop_first());
        assert forall|i: int| 0 <= i < r.len() implies frame_ok(#[trigger] r[i]) by {
            if i == 0 {
                assert(r[0] == b[0]);
            } else {
                assert(r[i] == interleave(a, b.drop_first(), sched.drop_first())[i - 1]);
            }
        }
    } else {
        lemma_interleave_frames_ok(a, b, sched.drop_first());
        assert forall|i: int| 0 <= i < r.len() implies frame_ok(#[trigger] r[i]) by {
            assert(r[i] == interleave(a, b, sched.drop_first())[i]);
        }
    }
}

/// Writer atomicity: when two writers share the control stream and each
/// frame's bytes go out whole, the wire holds an interleaving of the two
/// frame sequences, and the peer decodes exactly that interleaving — every
/// payload intact, none corrupted by the mixing, none lost, none
/// duplicated. Which interleaving it is depends only on the schedule in
/// which the writers took the stream.
pub proof fn lemma_writer_atomicity(a: Seq<Seq<u8>>, b: Seq<Seq<u8>>, sched: Seq<bool>, k: Seq<u8>)
    requires
        k.len() >= 1,
        forall|i: int| 0 <= i < a.len() ==> frame_ok(#[trigger] a[i]),
        forall|i: int| 0 <= i < b.len() ==> frame_ok(#[trigger] b[i]),
    ensures
        parse_all(stream_bytes(interleave(a, b, sched), k), k) == interleave(a, b, sched),
{
    lemma_interleave_frames_ok(a, b, sched);
    lemma_stream_parses(interleave(a, b, sched), k);
}

/// Framing: the concatenated wire bytes of any sequence of frames decode to
/// exactly the original payload sequence, in order, with no loss and no
/// duplication — however the bytes were chunked on the way in, since
/// decoding looks only at the concatenation.
pub proof fn lemma_stream_parses(ps: Seq<Seq<u8>>, k: Seq<u8>)
    requires
        k.len() >= 1,
        forall|i: int| 0 <= i < ps.len() ==> frame_ok(#[trigger] ps[i]),
    ensures
        parse_all(stream_bytes(ps, k), k) == ps,
    decreases ps.len(),
{
    if ps.len() == 0 {
        assert(parse_all(stream_bytes(ps, k), k) =~= ps);
    } else {
        let p0 = ps[0];
        let rest = ps.drop_first();
        let s = stream_bytes(ps, k);
        let len0 = p0.len() as u32;
        lemma_be32_round_trip(len0);
        assert(frame_bytes(p0, k).len() == 4 + p0.len());
        assert forall|i: int| 0 <= i < 4 implies s[i] == be32_bytes(len0)[i] by {
            assert(frame_bytes(p0, k)[i] == be32_bytes(len0)[i]);
        }
        assert(be32_val(s) == be32_val(be32_bytes(len0))) by {
            crate::bytes::lemma_be32_val_prefix(s, be32_bytes(len0));
        }
        assert(be32_val(s) == p0.len());
        assert(s.len() == 4 + p0.len() + stream_bytes(rest, k).len());
        assert(head_frame_ready(s));
        assert(s.subrange(4, 4 + be32_val(s)) =~= xor_seq(p0, k));
        lemma_xor_involution(p0, k);
        assert(head_payload(s, k) == p0);
        assert(s.skip(4 + be32_val(s)) =~= stream_bytes(rest, k));
        lemma_stream_parses(rest, k);
        assert(parse_all(s, k) =~= ps);
    }
}

} // verus!
