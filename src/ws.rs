use vstd::prelude::*;
use crate::options::Options;
use crate::read_debt::{debt_after, fill_len, filled, ReadDebt};

verus! {

/// A WebSocket message as the reading half sees it.
#[derive(Debug, Clone, PartialEq, Eq)]
pub enum WsMessage {
    Text(Vec<u8>),
    Binary(Vec<u8>),
    Ping(Vec<u8>),
    Pong(Vec<u8>),
    Close,
}

/// What one incoming message means for a read.
#[derive(Debug, Clone, PartialEq, Eq)]
pub enum WsReadOutcome {
    /// This many payload bytes were placed at the front of the buffer.
    Data(usize),
    /// The reading half has ended.
    Eof,
    /// Answer with a pong carrying this payload, then read on.
    ReplyPong(Vec<u8>),
    /// Nothing for the reader; read on.
    Skip,
}

/// Frame type of outgoing messages.
#[derive(Debug, Clone, Copy, PartialEq, Eq, Structural)]
pub enum Mode1 {
    Text,
    Binary,
}

/// Whether a zero-length data message ends the reading half.
pub open spec fn zero_message_closes(opts: Options) -> bool {
    !opts.no_exit_on_zeromsg && !opts.websocket_ignore_zeromsg
}

pub open spec fn spec_outgoing_mode(opts: Options) -> Mode1 {
    if opts.websocket_text_mode {
        Mode1::Text
    } else {
        Mode1::Binary
    }
}

/// The frame type that writes are sent as.
pub fn outgoing_mode(opts: &Options) -> (r: Mode1)
    ensures
        r == spec_outgoing_mode(*opts),
{
    if opts.websocket_text_mode {
        Mode1::Text
    } else {
        Mode1::Binary
    }
}

/// Wraps the bytes of one write into a message of the given type.
pub fn frame_for_write(mode: Mode1, data: Vec<u8>) -> (r: WsMessage)
    ensures
        r == (match mode {
            Mode1::Text => WsMessage::Text(data),
            Mode1::Binary => WsMessage::Binary(data),
        }),
{
    match mode {
        Mode1::Text => WsMessage::Text(data),
        Mode1::Binary => WsMessage::Binary(data),
    }
}

/// Handles one incoming message for a read into `buf`, after the debt was paid.
/// Data goes through the read debt, pings are answered, pongs are ignored, a
/// close ends the reading half, and so does a zero-length data message unless
/// the options keep the half open.
pub fn handle_ws_message(debt: &mut ReadDebt, buf: &mut [u8], msg: WsMessage, opts: &Options) -> (r:
    WsReadOutcome)
    requires
        old(debt)@ is None,
    ensures
        match msg {
            WsMessage::Text(p) | WsMessage::Binary(p) => if p@.len() == 0 {
                &&& r == (if zero_message_closes(*opts) {
                    WsReadOutcome::Eof
                } else {
                    WsReadOutcome::Skip
                })
                &&& final(buf)@ == old(buf)@
                &&& final(debt)@ is None
            } else {
                &&& r == WsReadOutcome::Data(fill_len(old(buf)@.len(), p@) as usize)
                &&& final(buf)@ == filled(old(buf)@, p@)
                &&& final(debt)@ == debt_after(old(buf)@.len(), p@)
            },
            WsMessage::Ping(p) => {
                &&& r == WsReadOutcome::ReplyPong(p)
                &&& final(buf)@ == old(buf)@
                &&& final(debt)@ is None
            },
            WsMessage::Pong(_) => {
                &&& r == WsReadOutcome::Skip
                &&& final(buf)@ == old(buf)@
                &&& final(debt)@ is None
            },
            WsMessage::Close => {
                &&& r == WsReadOutcome::Eof
                &&& final(buf)@ == old(buf)@
                &&& final(debt)@ is None
            },
        },
{
    match msg {
        WsMessage::Text(p) | WsMessage::Binary(p) => {
            if p.len() == 0 {
                if !opts.no_exit_on_zeromsg && !opts.websocket_ignore_zeromsg {
                    WsReadOutcome::Eof
                } else {
                    WsReadOutcome::Skip
                }
            } else {
                match debt.process_message(buf, p.as_slice()) {
                    Ok(n) => WsReadOutcome::Data(n),
                    Err(_) => WsReadOutcome::Eof,
                }
            }
        },
        WsMessage::Ping(p) => WsReadOutcome::ReplyPong(p),
        WsMessage::Pong(_) => WsReadOutcome::Skip,
        WsMessage::Close => WsReadOutcome::Eof,
    }
}

} // verus!
