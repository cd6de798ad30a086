//! The replica's handshake with its master, as a state machine. The caller
//! performs each action (connect, send) and reports what happened as the next
//! event; the machine decides what comes next.
//!
//! `Disconnected -> Connected -> AwaitingPong -> NegotiatingPort ->
//! NegotiatingCapa -> Synced`, and `Failed` from any step.
use vstd::prelude::*;
use crate::base::address_of;
use crate::command::{CommandModel, RedisCommand, encode, views_of};
use crate::parser::{RedisCommandParser, parse_spec};
use crate::text::{chars_of, dec, dec_chars, parse_u64, parse_u64_spec, string_of};

verus! {

/// Where the handshake stands.
#[derive(Debug, Clone, Copy, PartialEq, Eq, Structural)]
pub enum HandshakeState {
    Disconnected,
    Connected,
    AwaitingPong,
    NegotiatingPort,
    NegotiatingCapa,
    Synced,
    Failed,
}

/// What happened since the last action.
#[derive(Debug, Clone)]
pub enum HandshakeEvent {
    /// The connection to the master is open.
    Connected,
    /// The last frame was written.
    Sent,
    /// The master answered with this text.
    Reply(String),
    /// The connection failed or closed.
    Lost,
}

/// What the caller is to do next.
#[derive(Debug, Clone)]
pub enum HandshakeAction {
    /// Open a connection to this address.
    Connect(String),
    /// Write this frame on the connection.
    Send(String),
    /// Read the master's answer.
    AwaitReply,
    /// The handshake is over and succeeded.
    Done,
    /// The handshake is over and failed.
    Abort,
}

pub enum EventModel {
    Connected,
    Sent,
    Reply(Seq<char>),
    Lost,
}

pub enum ActionModel {
    Connect(Seq<char>),
    Send(Seq<char>),
    AwaitReply,
    Done,
    Abort,
}

impl View for HandshakeEvent {
    type V = EventModel;

    open spec fn view(&self) -> EventModel {
        match self {
            HandshakeEvent::Connected => EventModel::Connected,
            HandshakeEvent::Sent => EventModel::Sent,
            HandshakeEvent::Reply(s) => EventModel::Reply(s@),
            HandshakeEvent::Lost => EventModel::Lost,
        }
    }
}

impl View for HandshakeAction {
    type V = ActionModel;

    open spec fn view(&self) -> ActionModel {
        match self {
            HandshakeAction::Connect(s) => ActionModel::Connect(s@),
            HandshakeAction::Send(s) => ActionModel::Send(s@),
            HandshakeAction::AwaitReply => ActionModel::AwaitReply,
            HandshakeAction::Done => ActionModel::Done,
            HandshakeAction::Abort => ActionModel::Abort,
        }
    }
}

/// `PING`, as a frame.
pub open spec fn ping_frame() -> Seq<char> {
    encode(CommandModel::Ping)
}

/// `REPLCONF listening-port <port>`, as a frame.
pub open spec fn port_frame(port: u16) -> Seq<char> {
    encode(CommandModel::Replconf(seq!["listening-port"@, dec(port as nat)]))
}

/// `REPLCONF capa psync2`, as a frame.
pub open spec fn capa_frame() -> Seq<char> {
    encode(CommandModel::Replconf(seq!["capa"@, "psync2"@]))
}

/// Whether a reply decodes to `PONG`; it carries no expiry, so the time of
/// decoding plays no part and is taken as zero.
pub open spec fn is_pong(reply: Seq<char>) -> bool {
    parse_spec(reply, 0) == Ok::<CommandModel, crate::parser::ParseError>(CommandModel::Pong)
}

/// Whether a reply acknowledges a step: it starts with `+OK`.
pub open spec fn is_ack(reply: Seq<char>) -> bool {
    reply.len() >= 3 && reply[0] == '+' && reply[1] == 'O' && reply[2] == 'K'
}

/// The next state and action after `event` in `state`.
pub open spec fn step_spec(state: HandshakeState, event: EventModel, port: u16) -> (
    HandshakeState,
    ActionModel,
) {
    match (state, event) {
        (HandshakeState::Synced, _) => (HandshakeState::Synced, ActionModel::Done),
        (_, EventModel::Lost) => (HandshakeState::Failed, ActionModel::Abort),
        (HandshakeState::Disconnected, EventModel::Connected) => (
            HandshakeState::Connected,
            ActionModel::Send(ping_frame()),
        ),
        (HandshakeState::Connected, EventModel::Sent) => (
            HandshakeState::AwaitingPong,
            ActionModel::AwaitReply,
        ),
        (HandshakeState::AwaitingPong, EventModel::Reply(r)) => if is_pong(r) {
            (HandshakeState::NegotiatingPort, ActionModel::Send(port_frame(port)))
        } else {
            (HandshakeState::Failed, ActionModel::Abort)
        },
        (HandshakeState::NegotiatingPort, EventModel::Sent) => (
            HandshakeState::NegotiatingPort,
            ActionModel::AwaitReply,
        ),
        (HandshakeState::NegotiatingPort, EventModel::Reply(r)) => if is_ack(r) {
            (HandshakeState::NegotiatingCapa, ActionModel::Send(capa_frame()))
        } else {
            (HandshakeState::Failed, ActionModel::Abort)
        },
        (HandshakeState::NegotiatingCapa, EventModel::Sent) => (
            HandshakeState::NegotiatingCapa,
            ActionModel::AwaitReply,
        ),
        (HandshakeState::NegotiatingCapa, EventModel::Reply(r)) => if is_ack(r) {
            (HandshakeState::Synced, ActionModel::Done)
        } else {
            (HandshakeState::Failed, ActionModel::Abort)
        },
        _ => (HandshakeState::Failed, ActionModel::Abort),
    }
}

/// The port number that `s` denotes, if it is one.
pub open spec fn port_spec(s: Seq<char>) -> Option<u16> {
    match parse_u64_spec(s) {
        Some(n) => if n <= u16::MAX {
            Some(n as u16)
        } else {
            None
        },
        None => None,
    }
}

/// Reads a port number.
pub fn parse_port(s: &str) -> (r: Option<u16>)
    ensures
        r == port_spec(s@),
{
    let c = chars_of(s);
    assert(c@.subrange(0, c@.len() as int) =~= s@);
    match parse_u64(&c, 0, c.len()) {
        Some(n) => if n <= 65535 {
            Some(n as u16)
        } else {
            None
        },
        None => None,
    }
}

/// The replica's side of the handshake with its master.
pub struct Handshake {
    pub state: HandshakeState,
    /// `host:port` of the master.
    pub master_address: String,
    /// The port this replica listens on, announced to the master.
    pub listening_port: u16,
}

impl Handshake {
    /// A handshake that has not started.
    pub fn new(master_host: &str, master_port: &str, listening_port: u16) -> (r: Self)
        ensures
            r.state == HandshakeState::Disconnected,
            r.master_address@ == address_of(master_host@, master_port@),
            r.listening_port == listening_port,
    {
        Handshake {
            state: HandshakeState::Disconnected,
            master_address: crate::base::join_address(master_host, master_port),
            listening_port,
        }
    }

    /// The first action: connect to the master.
    pub fn start(&self) -> (r: HandshakeAction)
        ensures
            r@ == ActionModel::Connect(self.master_address@),
    {
        HandshakeAction::Connect(self.master_address.clone())
    }

    /// Moves on after `event` and says what to do next.
    pub fn step(&mut self, event: HandshakeEvent) -> (r: HandshakeAction)
        ensures
            (final(self).state, r@) == step_spec(old(self).state, event@, old(self).listening_port),
            final(self).master_address == old(self).master_address,
            final(self).listening_port == old(self).listening_port,
    {
        let (next, action) = match (self.state, event) {
            (HandshakeState::Synced, _) => (HandshakeState::Synced, HandshakeAction::Done),
            (_, HandshakeEvent::Lost) => (HandshakeState::Failed, HandshakeAction::Abort),
            (HandshakeState::Disconnected, HandshakeEvent::Connected) => (
                HandshakeState::Connected,
                HandshakeAction::Send(RedisCommand::Ping.to_resp2()),
            ),
            (HandshakeState::Connected, HandshakeEvent::Sent) => (
                HandshakeState::AwaitingPong,
                HandshakeAction::AwaitReply,
            ),
            (HandshakeState::AwaitingPong, HandshakeEvent::Reply(r)) => {
                let parsed = RedisCommandParser::parse_at(r.as_str(), 0);
                let pong = match parsed {
                    Ok(RedisCommand::Pong) => true,
                    _ => false,
                };
                assert(pong == is_pong(r@));
                if pong {
                    let mut args: Vec<String> = Vec::new();
                    args.push("listening-port".to_owned());
                    args.push(string_of(&dec_chars(self.listening_port as u64)));
                    assert(views_of(args@) =~= seq!["listening-port"@, dec(self.listening_port as nat)]);
                    let frame = RedisCommand::Replconf(args).to_resp2();
                    (HandshakeState::NegotiatingPort, HandshakeAction::Send(frame))
                } else {
                    (HandshakeState::Failed, HandshakeAction::Abort)
                }
            },
            (HandshakeState::NegotiatingPort, HandshakeEvent::Sent) => (
                HandshakeState::NegotiatingPort,
                HandshakeAction::AwaitReply,
            ),
            (HandshakeState::NegotiatingPort, HandshakeEvent::Reply(r)) => {
                if acknowledged(r.as_str()) {
                    let mut args: Vec<String> = Vec::new();
                    args.push("capa".to_owned());
                    args.push("psync2".to_owned());
                    assert(views_of(args@) =~= seq!["capa"@, "psync2"@]);
                    let frame = RedisCommand::Replconf(args).to_resp2();
                    (HandshakeState::NegotiatingCapa, HandshakeAction::Send(frame))
                } else {
                    (HandshakeState::Failed, HandshakeAction::Abort)
                }
            },
            (HandshakeState::NegotiatingCapa, HandshakeEvent::Sent) => (
                HandshakeState::NegotiatingCapa,
                HandshakeAction::AwaitReply,
            ),
            (HandshakeState::NegotiatingCapa, HandshakeEvent::Reply(r)) => {
                if acknowledged(r.as_str()) {
                    (HandshakeState::Synced, HandshakeAction::Done)
                } else {
                    (HandshakeState::Failed, HandshakeAction::Abort)
                }
            },
            _ => (HandshakeState::Failed, HandshakeAction::Abort),
        };
        self.state = next;
        action
    }
}

/// Whether `r` starts with `+OK`.
fn acknowledged(r: &str) -> (b: bool)
    ensures
        b == is_ack(r@),
{
    let c = chars_of(r);
    c.len() >= 3 && c[0] == '+' && c[1] == 'O' && c[2] == 'K'
}

} // verus!
