//! The child read pump's decision, shared by both peers. A pump reads from
//! its child socket and turns each read into exactly one frame payload for
//! the control stream: forwarded bytes while the child is alive, and a
//! single close notification — after which the pump stops — when the child
//! reaches end of file.

use vstd::prelude::*;

use crate::bytes::{be32_bytes, put_u32_be};
use crate::{CLOSE_ID, CONNECTION_ID_START};

verus! {

/// What one read from a child socket turns into: the frame payload to send
/// upstream, and whether the pump stops afterwards.
pub struct PumpStep {
    /// The frame payload to write to the control stream.
    pub payload: Vec<u8>,
    /// Whether this child's pump terminates after the write.
    pub stop: bool,
}

/// Turns one read of `buf` from child `id` into the frame payload to send
/// upstream. A read of zero bytes is end of file: it yields exactly one
/// close notification for `id` and stops the pump; any other read yields a
/// data frame tagged with `id` and the pump goes on.
pub fn child_read_step(id: u32, buf: &[u8]) -> (r: PumpStep)
    requires
        id >= CONNECTION_ID_START,
        4 + buf@.len() <= u32::MAX,
    ensures
        buf@.len() == 0 ==> r.payload@ == be32_bytes(CLOSE_ID) + be32_bytes(id) && r.stop,
        buf@.len() >= 1 ==> r.payload@ == be32_bytes(id) + buf@ && !r.stop,
{
    if buf.len() == 0 {
        PumpStep { payload: crate::frame::close_payload(id), stop: true }
    } else {
        let mut payload: Vec<u8> = Vec::new();
        put_u32_be(&mut payload, id);
        payload.extend_from_slice(buf);
        PumpStep { payload, stop: false }
    }
}

} // verus!
