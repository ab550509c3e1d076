//! The structure inside a decoded frame payload: a four-byte big-endian
//! connection id, then bytes whose meaning the id selects. Id `0` marks a
//! keep-alive, id `1` a close notification carrying the target id, and any
//! other id tags raw forwarded bytes for that child connection.

use vstd::prelude::*;
use vstd::slice::{slice_subrange, slice_to_vec};

use crate::bytes::{be32_bytes, be32_val, get_u32_be, lemma_be32_round_trip, lemma_be32_val_prefix, put_u32_be};
use crate::{CLOSE_ID, CONNECTION_ID_START, PING_ID};

verus! {

/// The mathematical reading of a frame payload.
pub enum FrameView {
    /// A keep-alive; the bytes after the id are a liveness token and carry
    /// no meaning.
    Ping,
    /// An instruction to shut down the child connection `target`.
    Close { target: int },
    /// Raw bytes forwarded for the child connection `id`.
    Data { id: int, body: Seq<u8> },
    /// Too few bytes to read the fields the id demands.
    Short,
}

/// How every peer reads a frame payload.
pub open spec fn parse_frame_spec(p: Seq<u8>) -> FrameView {
    if p.len() < 4 {
        FrameView::Short
    } else if be32_val(p) == PING_ID {
        FrameView::Ping
    } else if be32_val(p) == CLOSE_ID {
        if p.len() < 8 {
            FrameView::Short
        } else {
            FrameView::Close { target: be32_val(p.skip(4)) }
        }
    } else {
        FrameView::Data { id: be32_val(p), body: p.skip(4) }
    }
}

/// A decoded frame payload, taken apart.
pub enum Frame {
    /// A keep-alive frame.
    Ping,
    /// A close notification for child connection `target`.
    Close { target: u32 },
    /// Forwarded bytes for child connection `id`.
    Data { id: u32, body: Vec<u8> },
}

impl View for Frame {
    type V = FrameView;

    open spec fn view(&self) -> FrameView {
        match self {
            Frame::Ping => FrameView::Ping,
            Frame::Close { target } => FrameView::Close { target: *target as int },
            Frame::Data { id, body } => FrameView::Data { id: *id as int, body: body@ },
        }
    }
}

/// The payload did not hold the fields its id demands.
#[derive(PartialEq, Eq, Structural, Debug, Clone, Copy)]
pub enum FrameError {
    /// Fewer bytes than the id field, or than a close target, needs.
    TooShort,
}

/// Takes a frame payload apart; fails exactly when the payload is shorter
/// than the fields its id demands.
pub fn parse_frame(payload: &[u8]) -> (r: Result<Frame, FrameError>)
    ensures
        r is Err <==> parse_frame_spec(payload@) == FrameView::Short,
        r matches Ok(f) ==> f@ == parse_frame_spec(payload@),
{
    if payload.len() < 4 {
        return Err(FrameError::TooShort);
    }
    let id: u32 = get_u32_be(payload, 0);
    proof {
        lemma_be32_val_prefix(payload@.subrange(0, 4), payload@);
    }
    if id == PING_ID {
        Ok(Frame::Ping)
    } else if id == CLOSE_ID {
        if payload.len() < 8 {
            return Err(FrameError::TooShort);
        }
        let target: u32 = get_u32_be(payload, 4);
        proof {
            lemma_be32_val_prefix(payload@.subrange(4, 8), payload@.skip(4));
        }
        Ok(Frame::Close { target })
    } else {
        let body: Vec<u8> = slice_to_vec(slice_subrange(payload, 4, payload.len()));
        proof {
            assert(body@ =~= payload@.skip(4));
        }
        Ok(Frame::Data { id, body })
    }
}

/// The payload of a frame forwarding `body` for child `id`.
pub fn data_payload(id: u32, body: &[u8]) -> (r: Vec<u8>)
    requires
        id >= CONNECTION_ID_START,
        1 <= body@.len(),
        4 + body@.len() <= u32::MAX,
    ensures
        r@ == be32_bytes(id) + body@,
{
    let mut r: Vec<u8> = Vec::new();
    put_u32_be(&mut r, id);
    r.extend_from_slice(body);
    r
}

/// The payload of a close notification for child `target`.
pub fn close_payload(target: u32) -> (r: Vec<u8>)
    ensures
        r@ == be32_bytes(CLOSE_ID) + be32_bytes(target),
{
    let mut r: Vec<u8> = Vec::new();
    put_u32_be(&mut r, CLOSE_ID);
    put_u32_be(&mut r, target);
    r
}

/// The four ASCII bytes of the liveness token sent inside a keep-alive.
pub open spec fn ping_token() -> Seq<u8> {
    seq![0x50u8, 0x49u8, 0x4eu8, 0x47u8]
}

/// The payload of a keep-alive frame: the reserved id and a liveness token.
pub fn ping_payload() -> (r: Vec<u8>)
    ensures
        r@ == be32_bytes(PING_ID) + ping_token(),
{
    let mut r: Vec<u8> = Vec::new();
    put_u32_be(&mut r, PING_ID);
    r.push(0x50);
    r.push(0x49);
    r.push(0x4e);
    r.push(0x47);
    proof {
        assert(r@ =~= be32_bytes(PING_ID) + ping_token());
    }
    r
}

/// A data payload built for child `id` reads back as exactly that data
/// frame.
pub proof fn lemma_data_payload_parses(id: u32, body: Seq<u8>)
    requires
        id >= CONNECTION_ID_START,
    ensures
        parse_frame_spec(be32_bytes(id) + body) == (FrameView::Data { id: id as int, body }),
{
    let p = be32_bytes(id) + body;
    lemma_be32_round_trip(id);
    lemma_be32_val_prefix(p, be32_bytes(id));
    assert(p.skip(4) =~= body);
}

/// A close payload built for child `target` reads back as exactly that
/// close notification.
pub proof fn lemma_close_payload_parses(target: u32)
    ensures
        parse_frame_spec(be32_bytes(CLOSE_ID) + be32_bytes(target)) == (FrameView::Close {
            target: target as int,
        }),
{
    let p = be32_bytes(CLOSE_ID) + be32_bytes(target);
    lemma_be32_round_trip(CLOSE_ID);
    lemma_be32_round_trip(target);
    lemma_be32_val_prefix(p, be32_bytes(CLOSE_ID));
    assert(p.skip(4) =~= be32_bytes(target));
    lemma_be32_val_prefix(p.skip(4), be32_bytes(target));
}

/// A keep-alive payload reads back as a keep-alive.
pub proof fn lemma_ping_payload_parses()
    ensures
        parse_frame_spec(be32_bytes(PING_ID) + ping_token()) == FrameView::Ping,
{
    let p = be32_bytes(PING_ID) + ping_token();
    lemma_be32_round_trip(PING_ID);
    lemma_be32_val_prefix(p, be32_bytes(PING_ID));
}

} // verus!
