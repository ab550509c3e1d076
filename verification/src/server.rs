//! The server's control demultiplexer: what one decoded frame from the
//! client does to the tunnel's connection table, and what the unverified
//! shell must then do with the matching socket.
//!
//! The server never creates children in response to inbound frames — only
//! its listener does, drawing ids from [`crate::conn::IdGen`]. A close
//! notification removes its target whether or not it is known; data for an
//! unknown id is dropped.

use vstd::prelude::*;

use crate::conn::ConnTable;
use crate::frame::{parse_frame, parse_frame_spec, Frame, FrameView};

verus! {

/// What the shell must do after the server demultiplexes one frame.
#[derive(PartialEq, Eq, Structural, Debug, Clone, Copy)]
pub enum ServerAction {
    /// Shut down and forget child `target`; `was_present` says whether the
    /// table knew it (a miss is logged and dropped, not an error).
    Close { target: u32, was_present: bool },
    /// Write the frame's body to child `id`'s socket.
    Forward { id: u32 },
    /// Nothing: a keep-alive, or data for an id the table does not know.
    Drop,
    /// The payload was too short to carry its fields.
    Malformed,
}

/// Applies one decoded frame payload to the server's connection table and
/// says what the shell must do with it.
pub fn server_demux_step(table: &mut ConnTable, payload: &[u8]) -> (a: ServerAction)
    ensures
        parse_frame_spec(payload@) == FrameView::Short ==> {
            &&& a == ServerAction::Malformed
            &&& final(table)@ == old(table)@
        },
        parse_frame_spec(payload@) == FrameView::Ping ==> {
            &&& a == ServerAction::Drop
            &&& final(table)@ == old(table)@
        },
        (parse_frame_spec(payload@) matches FrameView::Close { target } ==> {
            &&& a == (ServerAction::Close {
                target: target as u32,
                was_present: old(table)@.contains(target as u32),
            })
            &&& final(table)@ == old(table)@.remove(target as u32)
        }),
        (parse_frame_spec(payload@) matches FrameView::Data { id, body } ==> {
            &&& final(table)@ == old(table)@
            &&& old(table)@.contains(id as u32) ==> a == (ServerAction::Forward { id: id as u32 })
            &&& !old(table)@.contains(id as u32) ==> a == ServerAction::Drop
        }),
{
    match parse_frame(payload) {
        Err(_) => ServerAction::Malformed,
        Ok(Frame::Ping) => ServerAction::Drop,
        Ok(Frame::Close { target }) => {
            let was_present: bool = table.remove(target);
            ServerAction::Close { target, was_present }
        },
        Ok(Frame::Data { id, body: _ }) => {
            if table.contains(id) {
                ServerAction::Forward { id }
            } else {
                ServerAction::Drop
            }
        },
    }
}

} // verus!
