//! The life cycle of one connection and the decisions of its read loop.
//!
//! A `ChatStream` holds no socket. Whoever owns the socket performs each
//! step that the stream asks for and tells it how the step went; the stream
//! says what comes next.

use crate::error::ChatError;
use crate::message::{parse_line, ChatMessage, MessageType, MessageView};
use crate::{join_line, nick_line, pass_line, perm_line, Config, ConfigView, texts};
use vstd::prelude::*;
use vstd::string::StringExecFns;

verus! {

/// The idle timeout of reads on an open connection, in seconds.
pub const READ_TIMEOUT_SECS: u64 = 600;

/// How far a connection has come.
#[derive(Debug, Clone, Copy, PartialEq, Eq, Structural)]
pub enum Phase {
    /// The socket is being opened.
    Connecting,
    /// The opening lines are being written and flushed.
    Handshaking,
    /// The idle timeout of reads is being set.
    Configuring,
    /// The session is established: lines are read and may be written.
    Open,
    /// The connection is given up for the reason held; it is not reopened.
    Closed(ChatError),
}

/// The protocol state of one connection.
pub struct ChatStream {
    pub phase: Phase,
}

/// What the owner of the socket is to do next while a connection is set up.
pub enum Step {
    /// Write these lines in this order and flush once behind the last.
    Handshake(Vec<String>),
    /// Set the idle timeout of reads to this many seconds.
    SetReadTimeout(u64),
    /// Nothing: the session is established.
    Ready,
    /// Give up and report this error.
    Fail(ChatError),
}

/// The mathematical value of a `Step`.
pub enum StepView {
    Handshake(Seq<Seq<char>>),
    SetReadTimeout(u64),
    Ready,
    Fail(ChatError),
}

impl View for Step {
    type V = StepView;

    open spec fn view(&self) -> StepView {
        match *self {
            Step::Handshake(lines) => StepView::Handshake(texts(lines@)),
            Step::SetReadTimeout(secs) => StepView::SetReadTimeout(secs),
            Step::Ready => StepView::Ready,
            Step::Fail(error) => StepView::Fail(error),
        }
    }
}

/// What the read loop is to do with one line.
pub enum Handling {
    /// Write this line and flush; the message is not handed on.
    Pong(String),
    /// Hand the message to the handler of the application.
    Deliver,
}

/// The mathematical value of a `Handling`.
pub enum HandlingView {
    Pong(Seq<char>),
    Deliver,
}

impl View for Handling {
    type V = HandlingView;

    open spec fn view(&self) -> HandlingView {
        match *self {
            Handling::Pong(line) => HandlingView::Pong(line@),
            Handling::Deliver => HandlingView::Deliver,
        }
    }
}

/// What the read loop is to do after one attempt to read a line.
pub enum Delivery {
    /// Write this line and flush, then read on; the handler is not called.
    Pong(String),
    /// Call the handler with this message, then read on.
    Deliver(ChatMessage),
    /// Leave the loop.
    Stop,
}

/// The mathematical value of a `Delivery`.
pub enum DeliveryView {
    Pong(Seq<char>),
    Deliver(MessageView),
    Stop,
}

impl View for Delivery {
    type V = DeliveryView;

    open spec fn view(&self) -> DeliveryView {
        match *self {
            Delivery::Pong(line) => DeliveryView::Pong(line@),
            Delivery::Deliver(message) => DeliveryView::Deliver(message@),
            Delivery::Stop => DeliveryView::Stop,
        }
    }
}

/// The four lines that open a session, in the order in which they are
/// written: capabilities, password, nickname, channels.
pub open spec fn handshake_lines(cfg: ConfigView) -> Seq<Seq<char>> {
    seq![perm_line(cfg.perms), pass_line(cfg.pass), nick_line(cfg.nick), join_line(cfg.channels)]
}

/// The line that answers a liveness probe with the payload `payload`.
pub open spec fn pong_line(payload: Seq<char>) -> Seq<char> {
    "PONG "@ + payload + "\r\n"@
}

/// The line that says `text` in the channel `channel`, named without its
/// `#`.
pub open spec fn send_line(channel: Seq<char>, text: Seq<char>) -> Seq<char> {
    "PRIVMSG #"@ + channel + " :"@ + text + "\r\n"@
}

/// The phase that follows `phase` when the step it stands for went well
/// (`ok`) or failed. An open or closed connection stays as it is.
pub open spec fn next_phase(phase: Phase, ok: bool) -> Phase {
    match phase {
        Phase::Connecting => if ok {
            Phase::Handshaking
        } else {
            Phase::Closed(ChatError::ConnectFailure)
        },
        Phase::Handshaking => if ok {
            Phase::Configuring
        } else {
            Phase::Closed(ChatError::HandshakeFailure)
        },
        Phase::Configuring => if ok {
            Phase::Open
        } else {
            Phase::Closed(ChatError::TimeoutConfigurationFailure)
        },
        Phase::Open => Phase::Open,
        Phase::Closed(error) => Phase::Closed(error),
    }
}

/// What is to be done when the step of `phase` went well (`ok`) or failed:
/// the step of the phase that follows, or the report of the failure. Of an
/// open connection nothing more is asked, and a closed one reports again
/// why it was closed.
pub open spec fn step_after(phase: Phase, cfg: ConfigView, ok: bool) -> StepView {
    match next_phase(phase, ok) {
        Phase::Handshaking => StepView::Handshake(handshake_lines(cfg)),
        Phase::Configuring => StepView::SetReadTimeout(READ_TIMEOUT_SECS),
        Phase::Closed(error) => StepView::Fail(error),
        _ => StepView::Ready,
    }
}

/// What is to be done with a parsed message: a liveness probe is answered
/// with its payload, anything else is handed on.
pub open spec fn handling_of(message: MessageView) -> HandlingView {
    if message.kind == MessageType::PING {
        HandlingView::Pong(pong_line(message.message))
    } else {
        HandlingView::Deliver
    }
}

/// What the read loop does in `phase` after a read that gave `line`, or
/// failed (`None`). Only an open connection is read from, and a failed read
/// ends the loop.
pub open spec fn delivery_of(phase: Phase, line: Option<Seq<char>>) -> DeliveryView {
    match line {
        Some(raw) if phase == Phase::Open => match handling_of(parse_line(raw)) {
            HandlingView::Pong(answer) => DeliveryView::Pong(answer),
            HandlingView::Deliver => DeliveryView::Deliver(parse_line(raw)),
        },
        _ => DeliveryView::Stop,
    }
}

/// The phase in which the read loop leaves a connection that was in
/// `phase`: a failed read closes an open connection.
pub open spec fn phase_after_read(phase: Phase, line: Option<Seq<char>>) -> Phase {
    if phase == Phase::Open && line is None {
        Phase::Closed(ChatError::ReceiveFailure)
    } else {
        phase
    }
}

/// A liveness probe is answered and never handed on; any other message is
/// handed on and never answered. Either way a line that was read from an
/// open connection leads to exactly one of the two.
pub proof fn lemma_probe_answered_not_delivered(line: Seq<char>)
    ensures
        parse_line(line).kind == MessageType::PING ==> delivery_of(Phase::Open, Some(line))
            == DeliveryView::Pong(pong_line(parse_line(line).message)),
        parse_line(line).kind != MessageType::PING ==> delivery_of(Phase::Open, Some(line))
            == DeliveryView::Deliver(parse_line(line)),
{
}

/// The address of the chat service, host and port.
pub fn server_address() -> (address: &'static str)
    ensures
        address@ == "irc.chat.twitch.tv:6667"@,
{
    "irc.chat.twitch.tv:6667"
}

impl ChatStream {
    /// The state of a connection whose socket is about to be opened at
    /// `server_address()`.
    pub fn connect() -> (stream: Self)
        ensures
            stream.phase == Phase::Connecting,
    {
        ChatStream { phase: Phase::Connecting }
    }

    /// Takes note of how the step of the current phase went and says what is
    /// to be done next. A failure closes the connection with the error of
    /// the phase in which it happened.
    pub fn advance(&mut self, cfg: &Config, ok: bool) -> (step: Step)
        ensures
            final(self).phase == next_phase(old(self).phase, ok),
            step@ == step_after(old(self).phase, cfg@, ok),
    {
        let next = match self.phase {
            Phase::Connecting => if ok {
                Phase::Handshaking
            } else {
                Phase::Closed(ChatError::ConnectFailure)
            },
            Phase::Handshaking => if ok {
                Phase::Configuring
            } else {
                Phase::Closed(ChatError::HandshakeFailure)
            },
            Phase::Configuring => if ok {
                Phase::Open
            } else {
                Phase::Closed(ChatError::TimeoutConfigurationFailure)
            },
            Phase::Open => Phase::Open,
            Phase::Closed(error) => Phase::Closed(error),
        };
        self.phase = next;
        match next {
            Phase::Handshaking => Step::Handshake(ChatStream::handshake(cfg)),
            Phase::Configuring => Step::SetReadTimeout(READ_TIMEOUT_SECS),
            Phase::Closed(error) => Step::Fail(error),
            _ => Step::Ready,
        }
    }

    /// The lines that open a session, in the order in which they are to be
    /// written.
    pub fn handshake(cfg: &Config) -> (lines: Vec<String>)
        ensures
            texts(lines@) == handshake_lines(cfg@),
    {
        let mut lines: Vec<String> = Vec::new();
        lines.push(cfg.create_perm_string());
        lines.push(cfg.create_pass_string());
        lines.push(cfg.create_nick_string());
        lines.push(cfg.create_join_string());
        assert(texts(lines@) =~= handshake_lines(cfg@));
        lines
    }

    /// The line that answers the liveness probe `msg`.
    pub fn ping(msg: &ChatMessage) -> (line: String)
        ensures
            line@ == pong_line(msg@.message),
    {
        let mut line: String = "PONG ".to_owned();
        line.append(msg.message.as_str());
        line.append("\r\n");
        line
    }

    /// Decides what the read loop does with a parsed message.
    pub fn handle_message(message: &ChatMessage) -> (handling: Handling)
        ensures
            handling@ == handling_of(message@),
    {
        match message.kind {
            MessageType::PING => Handling::Pong(ChatStream::ping(message)),
            _ => Handling::Deliver,
        }
    }

    /// One turn of the read loop: `line` is the line that was read, without
    /// its terminator, or `None` where the read failed.
    pub fn on_message(&mut self, line: Option<&str>) -> (delivery: Delivery)
        ensures
            delivery@ == delivery_of(
                old(self).phase,
                match line {
                    Some(raw) => Some(raw@),
                    None => None,
                },
            ),
            final(self).phase == phase_after_read(
                old(self).phase,
                match line {
                    Some(raw) => Some(raw@),
                    None => None,
                },
            ),
    {
        match self.phase {
            Phase::Open => {},
            _ => {
                return Delivery::Stop;
            },
        }
        match line {
            Some(raw) => {
                let message = ChatMessage::new(raw);
                match ChatStream::handle_message(&message) {
                    Handling::Pong(answer) => Delivery::Pong(answer),
                    Handling::Deliver => Delivery::Deliver(message),
                }
            },
            None => {
                self.phase = Phase::Closed(ChatError::ReceiveFailure);
                Delivery::Stop
            },
        }
    }

    /// The line that says `message` in the channel `channel`, named without
    /// its `#`.
    pub fn send(message: &str, channel: &str) -> (line: String)
        ensures
            line@ == send_line(channel@, message@),
    {
        let mut line: String = "PRIVMSG #".to_owned();
        line.append(channel);
        line.append(" :");
        line.append(message);
        line.append("\r\n");
        line
    }
}

} // verus!
