use rwrk::handler::{
    check, echo, grpc_mode, handle_socket, listen_address, ping, post_data, GrpcMode,
    GrpcModeError, Params, PostData, SocketAction, SocketEvent, CREATED,
};

fn delay(sleep: &str) -> Option<u64> {
    check(&Params { sleep: Some(sleep.to_string()) }).delay
}

#[test]
fn check_answers_after_the_wait() {
    let reply = check(&Params { sleep: None });
    assert_eq!(reply.delay, None);
    assert_eq!(reply.body, "ok!");
    assert_eq!(check(&Params { sleep: Some("3".to_string()) }).body, "ok!");
    assert_eq!(delay("3"), Some(3));
    assert_eq!(delay("+3"), Some(3));
    assert_eq!(delay(""), Some(0));
    assert_eq!(delay("-1"), Some(0));
    assert_eq!(delay("1.5"), Some(0));
    assert_eq!(delay("18446744073709551615"), Some(u64::MAX));
    assert_eq!(delay("18446744073709551616"), Some(0));
}

#[test]
fn ping_is_answered() {
    assert_eq!(ping(), "pong");
}

#[test]
fn posts_are_echoed_as_created() {
    let (status, answer) = post_data(PostData { data: "héllo".to_string() });
    assert_eq!(status, 201);
    assert_eq!(status, CREATED);
    assert_eq!(answer.data, "héllo");
}

#[test]
fn sockets_echo_text() {
    match handle_socket(SocketEvent::Text("hi".to_string())) {
        SocketAction::Reply(text) => assert_eq!(text, "Echo: hi"),
        _ => panic!("text is to be echoed"),
    }
    assert!(matches!(handle_socket(SocketEvent::Other), SocketAction::Receive));
    assert!(matches!(handle_socket(SocketEvent::Sent(true)), SocketAction::Receive));
    assert!(matches!(handle_socket(SocketEvent::Sent(false)), SocketAction::Stop));
    assert!(matches!(handle_socket(SocketEvent::Close), SocketAction::Stop));
    assert!(matches!(handle_socket(SocketEvent::Failed), SocketAction::Stop));
    assert!(matches!(handle_socket(SocketEvent::Ended), SocketAction::Stop));
}

#[test]
fn grpc_messages_are_echoed() {
    assert_eq!(echo("again".to_string()), "again");
}

#[test]
fn servers_listen_on_every_interface() {
    assert_eq!(listen_address(8080), "0.0.0.0:8080");
    assert_eq!(listen_address(0), "0.0.0.0:0");
    assert_eq!(listen_address(65535), "0.0.0.0:65535");
}

#[test]
fn grpc_runs_as_server_or_client() {
    assert!(matches!(grpc_mode(true, 9090, None), Ok(GrpcMode::Server(9090))));
    match grpc_mode(false, 9090, Some("http://127.0.0.1:9090".to_string())) {
        Ok(GrpcMode::Client(url)) => assert_eq!(url, "http://127.0.0.1:9090"),
        _ => panic!("a client was asked for"),
    }
    match grpc_mode(true, 1, Some("u".to_string())) {
        Err(error) => {
            assert_eq!(error, GrpcModeError::ServerWithUrl);
            assert_eq!(error.message(), "error: -s and -u cannot be used together");
        }
        Ok(_) => panic!("the two exclude each other"),
    }
    match grpc_mode(false, 1, None) {
        Err(error) => {
            assert_eq!(error, GrpcModeError::ClientWithoutUrl);
            assert_eq!(error.message(), "error: -u is required when not running in server mode");
        }
        Ok(_) => panic!("one of the two is needed"),
    }
}
