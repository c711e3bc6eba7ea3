use crate::exchange_api_types::{MarketEvent, WsMessage};
use crate::text::{contains_bytes, occurs_in};
use vstd::prelude::*;
use vstd::string::*;

verus! {

/// What a text frame of the stream is, judged by its raw text.
#[derive(Clone, Copy, Debug, PartialEq, Eq, Structural)]
pub enum FrameKind {
    /// A keepalive challenge. It is answered at once and goes no further.
    Ping,
    /// The acknowledgement of the subscription. It is discarded.
    Ack,
    /// Anything else: to be decoded as an update.
    Data,
}

/// The kind of a text frame with the bytes `frame`: a frame that holds the
/// ping marker is a challenge, whatever else it holds; one without it that
/// holds the success marker is an acknowledgement.
pub open spec fn frame_kind(frame: Seq<u8>) -> FrameKind {
    if occurs_in("PING".spec_bytes(), frame) {
        FrameKind::Ping
    } else if occurs_in("success".spec_bytes(), frame) {
        FrameKind::Ack
    } else {
        FrameKind::Data
    }
}

/// Tells a keepalive challenge and the subscription's acknowledgement from
/// the frames that carry data.
pub fn classify_frame(text: &str) -> (kind: FrameKind)
    ensures
        kind == frame_kind(text.spec_bytes()),
{
    let frame = text.as_bytes();
    if contains_bytes(frame, "PING".as_bytes()) {
        FrameKind::Ping
    } else if contains_bytes(frame, "success".as_bytes()) {
        FrameKind::Ack
    } else {
        FrameKind::Data
    }
}

/// Where the reader of the stream stands.
#[derive(Clone, Copy, Debug, PartialEq, Eq, Structural)]
pub enum ReaderPhase {
    /// The connection is being made.
    Connecting,
    /// The subscription request is on its way.
    Subscribing,
    /// Waiting for the next frame.
    Reading,
    /// The answer to a challenge is on its way.
    Answering,
    /// A data frame is being decoded.
    Decoding,
    /// An update is being handed to the consumer.
    Forwarding,
    /// The loop has ended: the connection or the consumer is gone.
    Stopped,
    /// The connection could not be made, or a send failed.
    Failed,
}

/// What the outside reports to the reader.
#[derive(Debug)]
pub enum ReaderInput {
    /// The connection stands.
    Connected,
    /// The connection could not be made.
    ConnectFailed,
    /// The last message was sent.
    Sent,
    /// The last message could not be sent.
    SendFailed,
    /// A text frame of this kind has arrived.
    Text(FrameKind),
    /// A frame that is no text has arrived.
    NotText,
    /// The connection has ended.
    ConnectionEnded,
    /// The data frame was decoded into this message.
    Decoded(WsMessage),
    /// The data frame could not be decoded.
    Undecodable,
    /// The consumer has taken the update.
    Forwarded,
    /// The consumer is gone.
    ConsumerGone,
}

/// What the outside does next for the reader.
#[derive(Debug)]
pub enum ReaderAction {
    /// Send the subscription request.
    Subscribe,
    /// Read the next frame.
    Read,
    /// Answer the challenge before anything else is read.
    Pong,
    /// Decode the frame that was just reported.
    Decode,
    /// Hand this update to the consumer.
    Forward(MarketEvent),
    /// Note that the frame could not be decoded, then read the next frame.
    SkipFrame,
    /// Leave the loop.
    Stop,
    /// Give up with an error.
    Abort,
    /// The reader does not wait for this report now. Nothing changed.
    Ignore,
}

/// The phase after `input`, for a reader in `phase`.
pub open spec fn next_reader_phase(phase: ReaderPhase, input: ReaderInput) -> ReaderPhase {
    match (phase, input) {
        (ReaderPhase::Connecting, ReaderInput::Connected) => ReaderPhase::Subscribing,
        (ReaderPhase::Connecting, ReaderInput::ConnectFailed) => ReaderPhase::Failed,
        (ReaderPhase::Subscribing, ReaderInput::Sent) => ReaderPhase::Reading,
        (ReaderPhase::Subscribing, ReaderInput::SendFailed) => ReaderPhase::Failed,
        (ReaderPhase::Reading, ReaderInput::Text(FrameKind::Ping)) => ReaderPhase::Answering,
        (ReaderPhase::Reading, ReaderInput::Text(FrameKind::Ack)) => ReaderPhase::Reading,
        (ReaderPhase::Reading, ReaderInput::Text(FrameKind::Data)) => ReaderPhase::Decoding,
        (ReaderPhase::Reading, ReaderInput::NotText) => ReaderPhase::Reading,
        (ReaderPhase::Reading, ReaderInput::ConnectionEnded) => ReaderPhase::Stopped,
        (ReaderPhase::Answering, ReaderInput::Sent) => ReaderPhase::Reading,
        (ReaderPhase::Answering, ReaderInput::SendFailed) => ReaderPhase::Failed,
        (ReaderPhase::Decoding, ReaderInput::Decoded(message)) => if message.carries_event() {
            ReaderPhase::Forwarding
        } else {
            ReaderPhase::Reading
        },
        (ReaderPhase::Decoding, ReaderInput::Undecodable) => ReaderPhase::Reading,
        (ReaderPhase::Forwarding, ReaderInput::Forwarded) => ReaderPhase::Reading,
        (ReaderPhase::Forwarding, ReaderInput::ConsumerGone) => ReaderPhase::Stopped,
        _ => phase,
    }
}

/// What the reader asks for after `input`.
pub open spec fn reader_action(phase: ReaderPhase, input: ReaderInput) -> ReaderAction {
    match (phase, input) {
        (ReaderPhase::Connecting, ReaderInput::Connected) => ReaderAction::Subscribe,
        (ReaderPhase::Connecting, ReaderInput::ConnectFailed) => ReaderAction::Abort,
        (ReaderPhase::Subscribing, ReaderInput::Sent) => ReaderAction::Read,
        (ReaderPhase::Subscribing, ReaderInput::SendFailed) => ReaderAction::Abort,
        (ReaderPhase::Reading, ReaderInput::Text(FrameKind::Ping)) => ReaderAction::Pong,
        (ReaderPhase::Reading, ReaderInput::Text(FrameKind::Ack)) => ReaderAction::Read,
        (ReaderPhase::Reading, ReaderInput::Text(FrameKind::Data)) => ReaderAction::Decode,
        (ReaderPhase::Reading, ReaderInput::NotText) => ReaderAction::Read,
        (ReaderPhase::Reading, ReaderInput::ConnectionEnded) => ReaderAction::Stop,
        (ReaderPhase::Answering, ReaderInput::Sent) => ReaderAction::Read,
        (ReaderPhase::Answering, ReaderInput::SendFailed) => ReaderAction::Abort,
        (ReaderPhase::Decoding, ReaderInput::Decoded(message)) => if message.carries_event() {
            ReaderAction::Forward(message.event())
        } else {
            ReaderAction::Read
        },
        (ReaderPhase::Decoding, ReaderInput::Undecodable) => ReaderAction::SkipFrame,
        (ReaderPhase::Forwarding, ReaderInput::Forwarded) => ReaderAction::Read,
        (ReaderPhase::Forwarding, ReaderInput::ConsumerGone) => ReaderAction::Stop,
        _ => ReaderAction::Ignore,
    }
}

/// Decides what the reader of the stream does: connect, subscribe, then
/// read frame after frame until the connection or the consumer is gone.
pub struct StreamReader {
    phase: ReaderPhase,
}

impl StreamReader {
    pub closed spec fn phase(&self) -> ReaderPhase {
        self.phase
    }

    /// A reader that waits for its connection.
    pub fn new() -> (reader: Self)
        ensures
            reader.phase() == ReaderPhase::Connecting,
    {
        StreamReader { phase: ReaderPhase::Connecting }
    }

    pub fn current_phase(&self) -> (phase: ReaderPhase)
        ensures
            phase == self.phase(),
    {
        self.phase
    }

    /// Takes one report from the outside and says what to do next.
    ///
    /// A challenge is answered before the next frame is read. Only a decoded
    /// frame with both a sequence number and a payload is handed on. A frame
    /// that cannot be decoded is skipped. The loop ends when the connection
    /// ends or the consumer is gone, and fails when the connection cannot be
    /// made or a message cannot be sent.
    pub fn step(&mut self, input: ReaderInput) -> (action: ReaderAction)
        ensures
            final(self).phase() == next_reader_phase(old(self).phase(), input),
            action == reader_action(old(self).phase(), input),
    {
        match (self.phase, input) {
            (ReaderPhase::Connecting, ReaderInput::Connected) => {
                self.phase = ReaderPhase::Subscribing;
                ReaderAction::Subscribe
            },
            (ReaderPhase::Connecting, ReaderInput::ConnectFailed) => {
                self.phase = ReaderPhase::Failed;
                ReaderAction::Abort
            },
            (ReaderPhase::Subscribing, ReaderInput::Sent) => {
                self.phase = ReaderPhase::Reading;
                ReaderAction::Read
            },
            (ReaderPhase::Subscribing, ReaderInput::SendFailed) => {
                self.phase = ReaderPhase::Failed;
                ReaderAction::Abort
            },
            (ReaderPhase::Reading, ReaderInput::Text(kind)) => {
                match kind {
                    FrameKind::Ping => {
                        self.phase = ReaderPhase::Answering;
                        ReaderAction::Pong
                    },
                    FrameKind::Ack => ReaderAction::Read,
                    FrameKind::Data => {
                        self.phase = ReaderPhase::Decoding;
                        ReaderAction::Decode
                    },
                }
            },
            (ReaderPhase::Reading, ReaderInput::NotText) => ReaderAction::Read,
            (ReaderPhase::Reading, ReaderInput::ConnectionEnded) => {
                self.phase = ReaderPhase::Stopped;
                ReaderAction::Stop
            },
            (ReaderPhase::Answering, ReaderInput::Sent) => {
                self.phase = ReaderPhase::Reading;
                ReaderAction::Read
            },
            (ReaderPhase::Answering, ReaderInput::SendFailed) => {
                self.phase = ReaderPhase::Failed;
                ReaderAction::Abort
            },
            (ReaderPhase::Decoding, ReaderInput::Decoded(message)) => {
                match message.into_event() {
                    Some(event) => {
                        self.phase = ReaderPhase::Forwarding;
                        ReaderAction::Forward(event)
                    },
                    None => {
                        self.phase = ReaderPhase::Reading;
                        ReaderAction::Read
                    },
                }
            },
            (ReaderPhase::Decoding, ReaderInput::Undecodable) => {
                self.phase = ReaderPhase::Reading;
                ReaderAction::SkipFrame
            },
            (ReaderPhase::Forwarding, ReaderInput::Forwarded) => {
                self.phase = ReaderPhase::Reading;
                ReaderAction::Read
            },
            (ReaderPhase::Forwarding, ReaderInput::ConsumerGone) => {
                self.phase = ReaderPhase::Stopped;
                ReaderAction::Stop
            },
            _ => ReaderAction::Ignore,
        }
    }
}

} // verus!
