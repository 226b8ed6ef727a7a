//! The decisions of a WebSocket connection: whether it is admitted, what
//! is done with each frame that the client sends, and with which reason the
//! server closes it.

use vstd::prelude::*;
use crate::client::ClientMessage;
use crate::config::Config;
use crate::result::{
    missing_platform_message, missing_token_message, unsupported_platform_message, AppError,
    AppErrorView,
};
use crate::text::views;
use crate::token::Claims;

verus! {

/// The close code of a normal closure (RFC 6455).
pub const NORMAL_CLOSE_CODE: u16 = 1000;

/// The reason given when a connection is closed without a message from the
/// server.
pub open spec fn normal_close_reason() -> Seq<char> {
    "正常关闭"@
}

/// The kind of a frame that a client sends.
#[derive(Debug)]
pub enum IncomingFrame {
    Text(String),
    Binary,
    Ping,
    Pong,
    Close,
}

/// What the server does with a frame from the client.
#[derive(Debug)]
pub enum SocketStep {
    /// Write the text to the log and go on reading.
    Print(String),
    /// Go on reading.
    Continue,
    /// Stop reading: the client has closed, or the stream has ended or failed.
    Stop,
}

/// The query parameters of a connection request: the platform, then the
/// token, must be there.
pub fn connection_params(platform: Option<String>, token: Option<String>) -> (r: Result<(String, String), AppError>)
    ensures
        platform is None ==> (r matches Err(e) && e@ == AppErrorView::BadRequest(missing_platform_message())),
        platform is Some && token is None ==> (r matches Err(e) && e@ == AppErrorView::BadRequest(missing_token_message())),
        platform is Some && token is Some ==> (r matches Ok(p) && p.0@ == platform->Some_0@ && p.1@ == token->Some_0@),
{
    let platform = match platform {
        Some(p) => p,
        None => return Err(AppError::missing_platform()),
    };
    let token = match token {
        Some(t) => t,
        None => return Err(AppError::missing_token()),
    };
    Ok((platform, token))
}

/// Decides on a connection whose token has been read: a token that was not
/// accepted gives its error; a platform that may not connect gives
/// `BadRequest` "此平台未开发"; otherwise the user's id.
pub fn admit_connection(config: &Config, platform: &String, decoded: Result<Claims, AppError>) -> (r: Result<String, AppError>)
    ensures
        decoded is Err ==> r is Err && r->Err_0@ == decoded->Err_0@,
        decoded is Ok && !views(config.allow_platform@).contains(platform@) ==>
            (r matches Err(e) && e@ == AppErrorView::BadRequest(unsupported_platform_message())),
        decoded is Ok && views(config.allow_platform@).contains(platform@) ==>
            (r matches Ok(id) && id@ == decoded->Ok_0.id@),
{
    let claims = match decoded {
        Ok(c) => c,
        Err(e) => return Err(e),
    };
    if !config.allows_platform(platform) {
        return Err(AppError::unsupported_platform());
    }
    Ok(claims.id)
}

/// The reason with which the server closes a connection: the one of the
/// first message that asks for it, else, when the channel has closed, the
/// normal reason.
pub fn close_reason(message: Option<ClientMessage>) -> (r: String)
    ensures
        message matches Some(ClientMessage::Close(m)) ==> r@ == m@,
        message is None ==> r@ == normal_close_reason(),
{
    match message {
        Some(ClientMessage::Close(m)) => m,
        None => String::from_str("正常关闭"),
    }
}

/// What the server does with the next frame from the client: `None` when
/// the stream has ended or failed.
pub fn incoming_step(frame: Option<IncomingFrame>) -> (r: SocketStep)
    ensures
        frame matches Some(IncomingFrame::Text(t)) ==> (r matches SocketStep::Print(p) && p@ == t@),
        frame matches Some(IncomingFrame::Binary) ==> r is Continue,
        frame matches Some(IncomingFrame::Ping) ==> r is Continue,
        frame matches Some(IncomingFrame::Pong) ==> r is Continue,
        frame matches Some(IncomingFrame::Close) ==> r is Stop,
        frame is None ==> r is Stop,
{
    match frame {
        Some(IncomingFrame::Text(t)) => SocketStep::Print(t),
        Some(IncomingFrame::Binary) => SocketStep::Continue,
        Some(IncomingFrame::Ping) => SocketStep::Continue,
        Some(IncomingFrame::Pong) => SocketStep::Continue,
        Some(IncomingFrame::Close) => SocketStep::Stop,
        None => SocketStep::Stop,
    }
}

/// What happens on a connection: a frame (or the end of the stream) from
/// the client, or the first message on the client's channel (or its
/// closing).
#[derive(Debug)]
pub enum SocketEvent {
    Incoming(Option<IncomingFrame>),
    FromServer(Option<ClientMessage>),
}

/// What the server does on a connection in answer to an event.
#[derive(Debug)]
pub enum SocketAction {
    /// Write the text to the log; the connection goes on.
    Print(String),
    /// Nothing; the connection goes on.
    Wait,
    /// Send a close frame with this code and reason, close the socket and end
    /// the connection.
    SendClose(u16, String),
    /// End the connection without writing to it.
    Finish,
}

/// The mathematical value of a `SocketAction`.
pub ghost enum SocketActionView {
    Print(Seq<char>),
    Wait,
    SendClose(u16, Seq<char>),
    Finish,
}

impl View for SocketAction {
    type V = SocketActionView;

    open spec fn view(&self) -> SocketActionView {
        match self {
            SocketAction::Print(t) => SocketActionView::Print(t@),
            SocketAction::Wait => SocketActionView::Wait,
            SocketAction::SendClose(c, r) => SocketActionView::SendClose(*c, r@),
            SocketAction::Finish => SocketActionView::Finish,
        }
    }
}

/// One step of a connection: whether it has ended after the event, and what
/// is done. An ended connection does nothing more. A text from the client
/// is logged; binary, ping and pong frames get no answer; a close frame or
/// the end of the stream ends the connection. The first message on the
/// client's channel, or its closing, makes the server send the one close
/// frame, with the normal close code and the reason of `close_reason`, and
/// ends the connection.
pub open spec fn step_spec(ended: bool, event: SocketEvent) -> (bool, SocketActionView) {
    if ended {
        (true, SocketActionView::Finish)
    } else {
        match event {
            SocketEvent::Incoming(Some(IncomingFrame::Text(t))) => (false, SocketActionView::Print(t@)),
            SocketEvent::Incoming(Some(IncomingFrame::Binary)) => (false, SocketActionView::Wait),
            SocketEvent::Incoming(Some(IncomingFrame::Ping)) => (false, SocketActionView::Wait),
            SocketEvent::Incoming(Some(IncomingFrame::Pong)) => (false, SocketActionView::Wait),
            SocketEvent::Incoming(Some(IncomingFrame::Close)) => (true, SocketActionView::Finish),
            SocketEvent::Incoming(None) => (true, SocketActionView::Finish),
            SocketEvent::FromServer(Some(ClientMessage::Close(m))) => (true, SocketActionView::SendClose(NORMAL_CLOSE_CODE, m@)),
            SocketEvent::FromServer(None) => (true, SocketActionView::SendClose(NORMAL_CLOSE_CODE, normal_close_reason())),
        }
    }
}

/// The actions of a connection, one per event, from the state `ended`.
pub open spec fn run_spec(ended: bool, events: Seq<SocketEvent>) -> Seq<SocketActionView>
    decreases events.len(),
{
    if events.len() == 0 {
        Seq::<SocketActionView>::empty()
    } else {
        let (next, action) = step_spec(ended, events[0]);
        seq![action] + run_spec(next, events.drop_first())
    }
}

/// A WebSocket connection between its events.
pub struct SocketSession {
    ended: bool,
}

impl SocketSession {
    /// Whether the connection has ended.
    pub closed spec fn spec_ended(&self) -> bool {
        self.ended
    }

    /// A connection that has just opened.
    pub fn new() -> (r: SocketSession)
        ensures
            !r.spec_ended(),
    {
        SocketSession { ended: false }
    }

    /// Whether the connection has ended.
    pub fn is_ended(&self) -> (r: bool)
        ensures
            r == self.spec_ended(),
    {
        self.ended
    }

    /// Takes one event and says what to do.
    pub fn step(&mut self, event: SocketEvent) -> (r: SocketAction)
        ensures
            (final(self).spec_ended(), r@) == step_spec(old(self).spec_ended(), event),
    {
        if self.ended {
            return SocketAction::Finish;
        }
        match event {
            SocketEvent::Incoming(frame) => match incoming_step(frame) {
                SocketStep::Print(t) => SocketAction::Print(t),
                SocketStep::Continue => SocketAction::Wait,
                SocketStep::Stop => {
                    self.ended = true;
                    SocketAction::Finish
                },
            },
            SocketEvent::FromServer(message) => {
                self.ended = true;
                SocketAction::SendClose(NORMAL_CLOSE_CODE, close_reason(message))
            },
        }
    }
}

proof fn lemma_run_len(ended: bool, events: Seq<SocketEvent>)
    ensures
        run_spec(ended, events).len() == events.len(),
    decreases events.len(),
{
    if events.len() > 0 {
        lemma_run_len(step_spec(ended, events[0]).0, events.drop_first());
    }
}

proof fn lemma_run_after_end(events: Seq<SocketEvent>)
    ensures
        forall|i: int| 0 <= i < events.len() ==> #[trigger] run_spec(true, events)[i] == SocketActionView::Finish,
    decreases events.len(),
{
    lemma_run_len(true, events);
    if events.len() > 0 {
        let rest = events.drop_first();
        lemma_run_after_end(rest);
        lemma_run_len(true, rest);
        assert forall|i: int| 0 <= i < events.len() implies #[trigger] run_spec(true, events)[i] == SocketActionView::Finish by {
            if i > 0 {
                assert(run_spec(true, events)[i] == run_spec(true, rest)[i - 1]);
            }
        }
    }
}

/// What a connection writes to its socket, over any sequence of events: at
/// most one frame, a close frame with the normal close code, sent in answer
/// to the client's channel; frames from the client (text, binary, ping,
/// pong) are never answered; and after the close frame nothing more is done.
pub proof fn lemma_one_close_frame(ended: bool, events: Seq<SocketEvent>)
    ensures
        ({
            let acts = run_spec(ended, events);
            &&& acts.len() == events.len()
            &&& forall|i: int| 0 <= i < acts.len() && (#[trigger] acts[i]) is SendClose ==>
                acts[i]->SendClose_0 == NORMAL_CLOSE_CODE && events[i] is FromServer
            &&& forall|i: int, j: int| 0 <= i < j < acts.len() && (#[trigger] acts[i]) is SendClose ==>
                (#[trigger] acts[j]) == SocketActionView::Finish
            &&& ended ==> forall|i: int| 0 <= i < acts.len() ==> (#[trigger] acts[i]) == SocketActionView::Finish
        }),
    decreases events.len(),
{
    let acts = run_spec(ended, events);
    lemma_run_len(ended, events);
    if ended {
        lemma_run_after_end(events);
    }
    if events.len() > 0 {
        let (next, a0) = step_spec(ended, events[0]);
        let rest = events.drop_first();
        lemma_one_close_frame(next, rest);
        lemma_run_len(next, rest);
        let racts = run_spec(next, rest);
        assert(acts =~= seq![a0] + racts);
        assert forall|i: int| 0 <= i < acts.len() && (#[trigger] acts[i]) is SendClose implies
            acts[i]->SendClose_0 == NORMAL_CLOSE_CODE && events[i] is FromServer by {
            if i > 0 {
                assert(acts[i] == racts[i - 1]);
                assert(events[i] == rest[i - 1]);
            }
        }
        assert forall|i: int, j: int| 0 <= i < j < acts.len() && (#[trigger] acts[i]) is SendClose implies
            (#[trigger] acts[j]) == SocketActionView::Finish by {
            assert(acts[j] == racts[j - 1]);
            if i == 0 {
                assert(next);
                lemma_run_after_end(rest);
            } else {
                assert(acts[i] == racts[i - 1]);
            }
        }
    }
}

/// What one step of a live connection does, frame by frame: a text is
/// logged and the connection goes on; binary, ping and pong frames are let
/// pass; a close frame from the client or the end of the stream ends the
/// connection without writing to it; a message on the client's channel (or
/// its closing) ends it with the one close frame, code 1000, whose reason is
/// the message's (or the normal reason). An ended connection does nothing
/// more, whatever comes.
pub proof fn lemma_live_session_steps(frame: Option<IncomingFrame>, message: Option<ClientMessage>, later: SocketEvent)
    ensures
        step_spec(false, SocketEvent::Incoming(frame)).0
            <==> (frame is None || frame matches Some(IncomingFrame::Close)),
        (frame is None || frame matches Some(IncomingFrame::Close))
            ==> step_spec(false, SocketEvent::Incoming(frame)).1 == SocketActionView::Finish,
        frame matches Some(IncomingFrame::Text(t))
            ==> step_spec(false, SocketEvent::Incoming(frame)).1 == SocketActionView::Print(t@),
        (frame matches Some(IncomingFrame::Binary) || frame matches Some(IncomingFrame::Ping)
            || frame matches Some(IncomingFrame::Pong))
            ==> step_spec(false, SocketEvent::Incoming(frame)).1 == SocketActionView::Wait,
        step_spec(false, SocketEvent::FromServer(message)) == (true, SocketActionView::SendClose(
            NORMAL_CLOSE_CODE,
            match message {
                Some(ClientMessage::Close(m)) => m@,
                None => normal_close_reason(),
            },
        )),
        step_spec(true, later) == (true, SocketActionView::Finish),
{
}

} // verus!

