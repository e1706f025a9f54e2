use pvplay::mpv::{retry_socket, SOCKET_ATTEMPTS, load_paused_requests, read_reply_line, request_line, CommandArg, MpvError, ReplyStep, RequestIds};

#[test]
fn request_ids_count_up_from_one() {
    let mut ids = RequestIds::new();
    assert_eq!(ids.peek(), 1);
    assert_eq!(ids.take(), 1);
    assert_eq!(ids.take(), 2);
    assert_eq!(ids.peek(), 3);
}

#[test]
fn request_line_is_compact_json_with_line_feed() {
    let command = vec![
        CommandArg::Text("loadfile".to_string()),
        CommandArg::Text("/v/a \"b\"\n.mp4".to_string()),
        CommandArg::Text("replace".to_string()),
    ];
    let line = request_line(command, 7).unwrap();
    assert_eq!(
        String::from_utf8(line).unwrap(),
        "{\"command\":[\"loadfile\",\"/v/a \\\"b\\\"\\n.mp4\",\"replace\"],\"request_id\":7}\n"
    );
}

#[test]
fn load_paused_pauses_mutes_then_loads_with_successive_ids() {
    let mut ids = RequestIds::new();
    ids.take();
    let requests = load_paused_requests(&mut ids, "/v/clip.mp4").unwrap();
    assert_eq!(requests.len(), 3);
    let texts: Vec<(u64, String)> =
        requests.into_iter().map(|(id, b)| (id, String::from_utf8(b).unwrap())).collect();
    assert_eq!(texts[0], (2, "{\"command\":[\"set_property\",\"pause\",true],\"request_id\":2}\n".to_string()));
    assert_eq!(texts[1], (3, "{\"command\":[\"set_property\",\"aid\",\"no\"],\"request_id\":3}\n".to_string()));
    assert_eq!(texts[2], (4, "{\"command\":[\"loadfile\",\"/v/clip.mp4\",\"replace\"],\"request_id\":4}\n".to_string()));
    assert_eq!(ids.peek(), 5);
}

#[test]
fn flag_argument_is_json_bool() {
    let line = request_line(vec![CommandArg::Flag(false)], 9).unwrap();
    assert_eq!(String::from_utf8(line).unwrap(), "{\"command\":[false],\"request_id\":9}\n");
}

#[test]
fn replies_to_other_requests_and_events_wait() {
    assert!(matches!(read_reply_line("{\"event\":\"idle\"}\n", 3), Ok(ReplyStep::Pending)));
    assert!(matches!(
        read_reply_line("{\"request_id\":2,\"error\":\"success\"}\n", 3),
        Ok(ReplyStep::Pending)
    ));
    assert!(matches!(read_reply_line("{\"error\":\"success\"}\n", 3), Ok(ReplyStep::Pending)));
}

#[test]
fn reply_with_success_accepts() {
    assert!(matches!(
        read_reply_line("{\"data\":null,\"request_id\":3,\"error\":\"success\"}\n", 3),
        Ok(ReplyStep::Accepted)
    ));
}

#[test]
fn reply_errors() {
    match read_reply_line("{\"request_id\":3,\"error\":\"invalid parameter\"}\n", 3) {
        Err(MpvError::Rejected(s)) => assert_eq!(s, "invalid parameter"),
        other => panic!("unexpected {:?}", other),
    }
    assert!(matches!(read_reply_line("{\"request_id\":3}\n", 3), Err(MpvError::MissingStatus)));
    assert!(matches!(read_reply_line("{\"request_id\":3,\"error\":1}\n", 3), Err(MpvError::MissingStatus)));
    assert!(matches!(read_reply_line("not json\n", 3), Err(MpvError::InvalidJson)));
    assert!(matches!(read_reply_line("", 3), Err(MpvError::Closed)));
}

#[test]
fn socket_is_tried_fifty_times() {
    assert_eq!(SOCKET_ATTEMPTS, 50);
    assert!(retry_socket(1));
    assert!(retry_socket(49));
    assert!(!retry_socket(50));
}

#[test]
fn reply_reads_only_its_keys() {
    assert!(matches!(
        read_reply_line("{\"id\":3,\"error\":\"success\"}\n", 3),
        Ok(ReplyStep::Pending)
    ));
    assert!(matches!(
        read_reply_line("{\"request_id\":3,\"status\":\"success\"}\n", 3),
        Err(MpvError::MissingStatus)
    ));
    assert!(matches!(
        read_reply_line("{\"request_id\":3,\"error\":\"success\",\"event\":null}\n", 3),
        Ok(ReplyStep::Pending)
    ));
}
