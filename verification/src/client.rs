//! The client's control demultiplexer: what one decoded frame from the
//! server does to the tunnel's connection table, and what the unverified
//! shell must then do with the matching socket.
//!
//! The client learns of a new child when the first data frame for an
//! unknown id arrives: that frame, and only that frame, asks the shell to
//! dial the configured local target, and the id enters the table at once,
//! so a second frame for the same id forwards instead of dialling again.

use vstd::prelude::*;

use crate::conn::ConnTable;
use crate::frame::{parse_frame, parse_frame_spec, Frame, FrameView};

verus! {

/// What the shell must do after the client demultiplexes one frame.
#[derive(PartialEq, Eq, Structural, Debug, Clone, Copy)]
pub enum ClientAction {
    /// A keep-alive; logged and dropped, never answered.
    Ping,
    /// Shut down and forget child `target`; `was_present` says whether the
    /// table knew it (a miss is logged and dropped, not an error).
    Close { target: u32, was_present: bool },
    /// Write the frame's body to child `id`'s local socket.
    Forward { id: u32 },
    /// First sight of `id`: dial the local target and hand it the frame's
    /// body as the first bytes; on dial failure send a close notification
    /// for `id` upstream and remove it again.
    Dial { id: u32 },
    /// The payload was too short to carry its fields.
    Malformed,
}

/// Applies one decoded frame payload to the client's connection table and
/// says what the shell must do with it.
pub fn client_demux_step(table: &mut ConnTable, payload: &[u8]) -> (a: ClientAction)
    ensures
        parse_frame_spec(payload@) == FrameView::Short ==> {
            &&& a == ClientAction::Malformed
            &&& final(table)@ == old(table)@
        },
        parse_frame_spec(payload@) == FrameView::Ping ==> {
            &&& a == ClientAction::Ping
            &&& final(table)@ == old(table)@
        },
        (parse_frame_spec(payload@) matches FrameView::Close { target } ==> {
            &&& a == (ClientAction::Close {
                target: target as u32,
                was_present: old(table)@.contains(target as u32),
            })
            &&& final(table)@ == old(table)@.remove(target as u32)
        }),
        (parse_frame_spec(payload@) matches FrameView::Data { id, body } ==> {
            &&& old(table)@.contains(id as u32) ==> a == (ClientAction::Forward { id: id as u32 })
                && final(table)@ == old(table)@
            &&& !old(table)@.contains(id as u32) ==> a == (ClientAction::Dial { id: id as u32 })
                && final(table)@ == old(table)@.insert(id as u32)
        }),
{
    match parse_frame(payload) {
        Err(_) => ClientAction::Malformed,
        Ok(Frame::Ping) => ClientAction::Ping,
        Ok(Frame::Close { target }) => {
            let was_present: bool = table.remove(target);
            ClientAction::Close { target, was_present }
        },
        Ok(Frame::Data { id, body: _ }) => {
            if table.contains(id) {
                ClientAction::Forward { id }
            } else {
                table.insert(id);
                ClientAction::Dial { id }
            }
        },
    }
}

/// One dial per id: the step that answers the first data frame for an id
/// leaves the id in the table, and a table that holds the id answers every
/// further data frame for it with a forward, never another dial.
pub proof fn lemma_single_dial(t: Set<u32>, id: u32)
    ensures
        t.insert(id).contains(id),
{
}

} // verus!
