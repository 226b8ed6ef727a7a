use big_totoro::client::ClientMessage;
use big_totoro::config::Config;
use big_totoro::message::{Message, Type, WSRecv};
use big_totoro::result::AppError;
use big_totoro::token::Claims;
use big_totoro::user_relationship::{Group, User};
use big_totoro::ws::{admit_connection, close_reason, connection_params, incoming_step, IncomingFrame, SocketAction, SocketEvent, SocketSession, SocketStep, NORMAL_CLOSE_CODE};

fn msg(e: AppError) -> String {
    e.response_parts().2
}

#[test]
fn params_required_in_order() {
    assert_eq!(msg(connection_params(None, None).unwrap_err()), "缺少platform");
    assert_eq!(msg(connection_params(None, Some("t".into())).unwrap_err()), "缺少platform");
    assert_eq!(msg(connection_params(Some("web".into()), None).unwrap_err()), "缺少token");
    let (p, t) = connection_params(Some("web".into()), Some("tok".into())).unwrap();
    assert_eq!((p.as_str(), t.as_str()), ("web", "tok"));
}

#[test]
fn admission_checks_token_then_platform() {
    let config = Config::from_sources(Ok("ip".into()), Ok("1".into()), Ok("k".into()), Ok("1".into()), Ok("web,ios".into()), Ok("e".into())).unwrap();
    let claims = || Ok(Claims { id: "u9".into(), exp: 0 });
    assert_eq!(admit_connection(&config, &"web".to_string(), claims()).unwrap(), "u9");
    assert_eq!(msg(admit_connection(&config, &"pc".to_string(), claims()).unwrap_err()), "此平台未开发");
    assert_eq!(msg(admit_connection(&config, &"pc".to_string(), Err(AppError::invalid_token())).unwrap_err()), "无效的令牌");
}

#[test]
fn close_reasons() {
    assert_eq!(close_reason(Some(ClientMessage::Close("aaaaaa".into()))), "aaaaaa");
    assert_eq!(close_reason(None), "正常关闭");
    assert_eq!(NORMAL_CLOSE_CODE, 1000);
}

#[test]
fn incoming_frames() {
    assert!(matches!(incoming_step(Some(IncomingFrame::Text("hi".into()))), SocketStep::Print(t) if t == "hi"));
    assert!(matches!(incoming_step(Some(IncomingFrame::Binary)), SocketStep::Continue));
    assert!(matches!(incoming_step(Some(IncomingFrame::Ping)), SocketStep::Continue));
    assert!(matches!(incoming_step(Some(IncomingFrame::Pong)), SocketStep::Continue));
    assert!(matches!(incoming_step(Some(IncomingFrame::Close)), SocketStep::Stop));
    assert!(matches!(incoming_step(None), SocketStep::Stop));
}

#[test]
fn users_convert_to_and_from_ids() {
    let u: User = User::from("alice".to_string());
    assert_eq!(u.id, "alice");
    let id: String = u.into();
    assert_eq!(id, "alice");
    let g = Group { id: "g1".into(), user_ids: vec!["alice".into(), "bob".into()] };
    assert_eq!(g.user_ids.len(), 2);
}

#[test]
fn messages_hold_their_fields() {
    let m = Message { id: "1".into(), ty: Type::Group, form: "a".into(), to: "g".into(), body: "hello".into() };
    let r = WSRecv::Message(m);
    match r {
        WSRecv::Message(m) => {
            assert_eq!(m.ty, Type::Group);
            assert_eq!(m.body, "hello");
        }
    }
    assert_ne!(Type::User, Type::Group);
}

#[test]
fn session_sends_one_close_frame() {
    let mut s = SocketSession::new();
    assert!(matches!(s.step(SocketEvent::Incoming(Some(IncomingFrame::Text("hi".into())))), SocketAction::Print(t) if t == "hi"));
    assert!(matches!(s.step(SocketEvent::Incoming(Some(IncomingFrame::Ping))), SocketAction::Wait));
    assert!(!s.is_ended());
    assert!(matches!(s.step(SocketEvent::FromServer(Some(ClientMessage::Close("bye".into())))), SocketAction::SendClose(1000, r) if r == "bye"));
    assert!(s.is_ended());
    assert!(matches!(s.step(SocketEvent::FromServer(None)), SocketAction::Finish));
    assert!(matches!(s.step(SocketEvent::Incoming(Some(IncomingFrame::Text("x".into())))), SocketAction::Finish));
}

#[test]
fn session_ends_on_client_close_without_writing() {
    let mut s = SocketSession::new();
    assert!(matches!(s.step(SocketEvent::Incoming(None)), SocketAction::Finish));
    assert!(s.is_ended());
    assert!(matches!(s.step(SocketEvent::FromServer(None)), SocketAction::Finish));
    let mut t = SocketSession::new();
    assert!(matches!(t.step(SocketEvent::FromServer(None)), SocketAction::SendClose(1000, r) if r == "正常关闭"));
}
