//! The framed sub-protocol: what each inbound WebSocket message asks for, and
//! the terminal size that the first message sets.
use vstd::prelude::*;
use vstd::utf8::{decode_utf8, valid_utf8};
use crate::text::decode_text;

verus! {

/// Terminal bytes, in both directions (`'0'`).
pub const INPUT_OPCODE: u8 = 0x30;

/// A resize; the payload is JSON (`'1'`).
pub const RESIZE_OPCODE: u8 = 0x31;

/// Flow off (`'2'`).
pub const PAUSE_OPCODE: u8 = 0x32;

/// Flow on (`'3'`).
pub const RESUME_OPCODE: u8 = 0x33;

pub const DEFAULT_COLUMNS: u16 = 80;

pub const DEFAULT_ROWS: u16 = 24;

/// An inbound WebSocket message, as far as the router tells them apart.
pub enum InboundMessage {
    Binary(Vec<u8>),
    Text(String),
    Close,
    Other,
}

pub enum InboundView {
    Binary(Seq<u8>),
    Text(Seq<char>),
    Close,
    Other,
}

impl View for InboundMessage {
    type V = InboundView;

    open spec fn view(&self) -> InboundView {
        match self {
            InboundMessage::Binary(d) => InboundView::Binary(d@),
            InboundMessage::Text(t) => InboundView::Text(t@),
            InboundMessage::Close => InboundView::Close,
            InboundMessage::Other => InboundView::Other,
        }
    }
}

/// What the router does with a message.
pub enum RouterAction {
    /// Write these bytes to the child's stdin.
    Write(Vec<u8>),
    /// Resize to what this JSON text asks for, if it decodes.
    Resize(String),
    Pause,
    Resume,
    Ignore,
    /// The client closed: the router ends.
    Stop,
}

pub enum ActionView {
    Write(Seq<u8>),
    Resize(Seq<char>),
    Pause,
    Resume,
    Ignore,
    Stop,
}

impl View for RouterAction {
    type V = ActionView;

    open spec fn view(&self) -> ActionView {
        match self {
            RouterAction::Write(b) => ActionView::Write(b@),
            RouterAction::Resize(t) => ActionView::Resize(t@),
            RouterAction::Pause => ActionView::Pause,
            RouterAction::Resume => ActionView::Resume,
            RouterAction::Ignore => ActionView::Ignore,
            RouterAction::Stop => ActionView::Stop,
        }
    }
}

/// The action for a message. A binary frame's first byte selects it; a
/// text frame is a resize request; a resize payload that is not UTF-8 and
/// an unknown opcode are dropped.
pub open spec fn route(m: InboundView) -> ActionView {
    match m {
        InboundView::Binary(d) => if d.len() == 0 {
            ActionView::Ignore
        } else if d[0] == INPUT_OPCODE {
            ActionView::Write(d.drop_first())
        } else if d[0] == RESIZE_OPCODE {
            if valid_utf8(d.drop_first()) {
                ActionView::Resize(decode_utf8(d.drop_first()))
            } else {
                ActionView::Ignore
            }
        } else if d[0] == PAUSE_OPCODE {
            ActionView::Pause
        } else if d[0] == RESUME_OPCODE {
            ActionView::Resume
        } else {
            ActionView::Ignore
        },
        InboundView::Text(t) => ActionView::Resize(t),
        InboundView::Close => ActionView::Stop,
        InboundView::Other => ActionView::Ignore,
    }
}

/// Decides what an inbound message asks for.
pub fn route_message(m: InboundMessage) -> (r: RouterAction)
    ensures
        r@ == route(m@),
{
    match m {
        InboundMessage::Binary(data) => {
            if data.len() == 0 {
                return RouterAction::Ignore;
            }
            let op = data[0];
            if op == INPUT_OPCODE {
                let mut data = data;
                let payload = data.split_off(1);
                assert(payload@ =~= m@->Binary_0.drop_first());
                RouterAction::Write(payload)
            } else if op == RESIZE_OPCODE {
                let ghost d = data@;
                let payload = &data.as_slice()[1..data.len()];
                assert(payload@ =~= d.drop_first());
                match decode_text(payload) {
                    Some(t) => RouterAction::Resize(t.to_owned()),
                    None => RouterAction::Ignore,
                }
            } else if op == PAUSE_OPCODE {
                RouterAction::Pause
            } else if op == RESUME_OPCODE {
                RouterAction::Resume
            } else {
                RouterAction::Ignore
            }
        },
        InboundMessage::Text(t) => RouterAction::Resize(t),
        InboundMessage::Close => RouterAction::Stop,
        InboundMessage::Other => RouterAction::Ignore,
    }
}

/// The frame that carries terminal input `p`.
pub open spec fn input_frame(p: Seq<u8>) -> InboundView {
    InboundView::Binary(seq![INPUT_OPCODE] + p)
}

/// The bytes that a run of actions writes to the child's stdin, in order.
pub open spec fn written(actions: Seq<ActionView>) -> Seq<u8>
    decreases actions.len(),
{
    if actions.len() == 0 {
        Seq::empty()
    } else {
        match actions[0] {
            ActionView::Write(b) => b + written(actions.drop_first()),
            _ => written(actions.drop_first()),
        }
    }
}

/// The actions for a run of messages, in order.
pub open spec fn route_all(ms: Seq<InboundView>) -> Seq<ActionView> {
    ms.map_values(|m: InboundView| route(m))
}

/// Byte strings joined in order.
pub open spec fn joined(ps: Seq<Seq<u8>>) -> Seq<u8>
    decreases ps.len(),
{
    if ps.len() == 0 {
        Seq::empty()
    } else {
        ps[0] + joined(ps.drop_first())
    }
}

/// The child's stdin receives the input payloads joined, in the order the
/// frames came.
pub proof fn lemma_input_in_order(ps: Seq<Seq<u8>>)
    ensures
        written(route_all(ps.map_values(|p: Seq<u8>| input_frame(p)))) == joined(ps),
    decreases ps.len(),
{
    let ms = ps.map_values(|p: Seq<u8>| input_frame(p));
    if ps.len() > 0 {
        let rest = ps.drop_first();
        lemma_input_in_order(rest);
        assert(route_all(ms).drop_first() =~= route_all(
            rest.map_values(|p: Seq<u8>| input_frame(p)),
        ));
        assert((seq![INPUT_OPCODE] + ps[0]).drop_first() =~= ps[0]);
        assert(route_all(ms)[0] == ActionView::Write(ps[0]));
    } else {
        assert(route_all(ms) =~= Seq::<ActionView>::empty());
    }
}

/// The text of the session's opening message: a text frame's, or a binary
/// frame's when it is UTF-8.
pub fn init_text(m: InboundMessage) -> (r: Option<String>)
    ensures
        match r {
            Some(t) => match m@ {
                InboundView::Text(s) => t@ == s,
                InboundView::Binary(d) => valid_utf8(d) && t@ == decode_utf8(d),
                _ => false,
            },
            None => match m@ {
                InboundView::Binary(d) => !valid_utf8(d),
                _ => !(m@ is Text),
            },
        },
{
    match m {
        InboundMessage::Text(t) => Some(t),
        InboundMessage::Binary(d) => match decode_text(d.as_slice()) {
            Some(t) => Some(t.to_owned()),
            None => None,
        },
        _ => None,
    }
}

/// The session's opening message, once decoded.
pub struct InitMessage {
    pub columns: u32,
    pub rows: u32,
}

/// A resize request, once decoded.
pub struct ResizeMessage {
    pub columns: u16,
    pub rows: u16,
}

/// A terminal size.
#[derive(Clone, Copy, PartialEq, Eq, Structural, Debug)]
pub struct TermSize {
    pub cols: u16,
    pub rows: u16,
}

/// A requested dimension: at least one, then cut to 16 bits.
pub open spec fn dimension_of(x: u32) -> u16 {
    if x < 1 {
        1u16
    } else {
        (x % 0x10000) as u16
    }
}

fn dimension(x: u32) -> (r: u16)
    ensures
        r == dimension_of(x),
{
    let clamped: u32 = if x < 1 {
        1
    } else {
        x
    };
    (clamped % 0x10000) as u16
}

/// The size the PTY opens at: what the opening message asks for, or 80x24
/// when it did not decode.
pub fn initial_size(init: Option<InitMessage>) -> (r: TermSize)
    ensures
        r == match init {
            Some(m) => TermSize { cols: dimension_of(m.columns), rows: dimension_of(m.rows) },
            None => TermSize { cols: DEFAULT_COLUMNS, rows: DEFAULT_ROWS },
        },
{
    match init {
        Some(m) => TermSize { cols: dimension(m.columns), rows: dimension(m.rows) },
        None => TermSize { cols: DEFAULT_COLUMNS, rows: DEFAULT_ROWS },
    }
}

} // verus!
