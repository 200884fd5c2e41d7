use walrus::cron::{first_response, CronClient, EmptyResponse};
use walrus::protocol::{download_end, DownloadEvent, DownloadOutcome, 
    error_or_unexpected, ping_reply, ping_result, result_to_msg, route, unexpected, ClientMessage,
    GetMemoryRequest, MemoryEntry, MemoryList, MessageKind, ProtocolError, Route, SendResponse,
    ServerMessage, SkillsReloaded,
};
use walrus::stream_cut::StreamCut;

#[test]
fn unexpected_renders_message() {
    assert_eq!(unexpected("Pong"), "unexpected response: Pong");
}

#[test]
fn handler_errors_become_code_500() {
    let m = result_to_msg::<SkillsReloaded>(Err("bad".to_string()));
    assert!(matches!(m, ServerMessage::Error { code: 500, ref message } if message == "bad"));
    let m = result_to_msg(Ok(SkillsReloaded { count: 3 }));
    assert!(matches!(m, ServerMessage::SkillsReloaded { count: 3 }));
}

#[test]
fn typed_replies_convert_back() {
    let m: ServerMessage = MemoryList { entries: vec![("k".into(), "v".into())] }.into();
    let back = MemoryList::try_from(m).ok().unwrap();
    assert_eq!(back.entries, vec![("k".to_string(), "v".to_string())]);
    let m = ServerMessage::MemoryEntry { key: "k".into(), value: None };
    let e = MemoryEntry::try_from(m).ok().unwrap();
    assert_eq!(e.key, "k");
    assert!(e.value.is_none());
}

#[test]
fn wrong_reply_kind_is_unexpected() {
    let err = SendResponse::try_from(ServerMessage::Pong).err().unwrap();
    assert!(matches!(err, ProtocolError::Unexpected(MessageKind::Pong)));
    assert_eq!(err.message(), "unexpected response: Pong");
    let err = SendResponse::try_from(ServerMessage::Error { code: 404, message: "missing".into() }).err().unwrap();
    assert_eq!(err.message(), "server error (404): missing");
}

#[test]
fn error_or_unexpected_prefers_server_error() {
    let e = error_or_unexpected(ServerMessage::Error { code: 7, message: "m".into() });
    assert!(matches!(e, ProtocolError::Server { code: 7, .. }));
    let e = error_or_unexpected(ServerMessage::StreamEnd { agent: "a".into() });
    assert!(matches!(e, ProtocolError::Unexpected(MessageKind::StreamEnd)));
}

#[test]
fn requests_route_to_their_handlers() {
    let msg: ClientMessage = GetMemoryRequest { key: "user.name".into() }.into();
    assert!(matches!(route(msg), Route::GetMemory(ref r) if r.key == "user.name"));
    assert!(matches!(route(ClientMessage::Ping), Route::Ping));
    assert!(matches!(route(ClientMessage::ListMemory), Route::ListMemory));
}

#[test]
fn ping_round_trip() {
    assert!(matches!(ping_reply(Ok(())), ServerMessage::Pong));
    assert!(ping_result(ping_reply(Ok(()))).is_ok());
    let err = ping_result(ping_reply(Err("down".into()))).err().unwrap();
    assert_eq!(err.message(), "server error (500): down");
    let err = ping_result(ServerMessage::SessionCleared { agent: "a".into() }).err().unwrap();
    assert_eq!(err.message(), "unexpected response: SessionCleared");
}

#[test]
fn first_response_or_empty() {
    assert!(matches!(first_response(Some(ServerMessage::Pong)), Ok(ServerMessage::Pong)));
    let e = first_response(None).err().unwrap();
    assert_eq!(e, EmptyResponse);
    assert_eq!(e.message(), "server returned empty response");
    let c = CronClient::new(5u8);
    assert_eq!(c.server, 5);
}

#[test]
fn stream_cut_stops_after_end() {
    let mut cut = StreamCut::new(MessageKind::StreamEnd);
    assert!(cut.passes(Some(MessageKind::StreamStart)));
    assert!(cut.passes(None));
    assert!(cut.passes(Some(MessageKind::StreamChunk)));
    assert!(cut.passes(Some(MessageKind::StreamEnd)));
    assert!(!cut.passes(Some(MessageKind::StreamChunk)));
    assert!(!cut.passes(None));
    let mut cut = StreamCut::new(MessageKind::DownloadEnd);
    assert!(cut.passes(Some(MessageKind::StreamEnd)));
    assert!(cut.passes(Some(MessageKind::DownloadEnd)));
    assert!(!cut.passes(Some(MessageKind::DownloadEnd)));
}

#[test]
fn stream_cut_reports_end_without_another_item() {
    let mut cut = StreamCut::new(MessageKind::StreamEnd);
    assert!(!cut.is_over());
    assert!(cut.passes(Some(MessageKind::StreamChunk)));
    assert!(!cut.is_over());
    assert!(cut.passes(Some(MessageKind::StreamEnd)));
    assert!(cut.is_over());
}

#[test]
fn download_end_reports_outcome() {
    match download_end("m1".to_string(), DownloadOutcome::Done) {
        Ok(DownloadEvent::End { model }) => assert_eq!(model, "m1"),
        _ => panic!("expected the end event"),
    }
    assert_eq!(
        download_end("m1".to_string(), DownloadOutcome::Failed("no space".to_string())).err(),
        Some("download failed: no space".to_string())
    );
    assert_eq!(
        download_end("m1".to_string(), DownloadOutcome::Panicked("join".to_string())).err(),
        Some("download task panicked: join".to_string())
    );
}
