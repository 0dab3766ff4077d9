use twitchchat::error::ChatError;
use twitchchat::message::{ChatMessage, MessageType};
use twitchchat::stream::{
    server_address, ChatStream, Delivery, Handling, Phase, Step, READ_TIMEOUT_SECS,
};
use twitchchat::Config;

fn sample() -> Config {
    Config::new(
        "token123".to_string(),
        "botname".to_string(),
        vec!["alpha".to_string(), "beta".to_string()],
        vec!["commands".to_string(), "tags".to_string()],
    )
}

fn handshake_of_sample() -> Vec<String> {
    vec![
        "CAP REQ :twitch.tv/commands twitch.tv/tags \r\n".to_string(),
        "PASS oauth:token123\r\n".to_string(),
        "NICK botname\r\n".to_string(),
        "JOIN #alpha,#beta,\r\n".to_string(),
    ]
}

fn open_stream() -> ChatStream {
    ChatStream { phase: Phase::Open }
}

#[test]
fn service_address_and_timeout() {
    assert_eq!(server_address(), "irc.chat.twitch.tv:6667");
    assert_eq!(READ_TIMEOUT_SECS, 600);
}

#[test]
fn handshake_lines_in_order() {
    assert_eq!(ChatStream::handshake(&sample()), handshake_of_sample());
}

#[test]
fn connection_is_set_up_step_by_step() {
    let cfg = sample();
    let mut stream = ChatStream::connect();
    assert_eq!(stream.phase, Phase::Connecting);
    match stream.advance(&cfg, true) {
        Step::Handshake(lines) => assert_eq!(lines, handshake_of_sample()),
        _ => panic!("the handshake was expected"),
    }
    assert_eq!(stream.phase, Phase::Handshaking);
    match stream.advance(&cfg, true) {
        Step::SetReadTimeout(secs) => assert_eq!(secs, 600),
        _ => panic!("the timeout was expected"),
    }
    assert_eq!(stream.phase, Phase::Configuring);
    assert!(matches!(stream.advance(&cfg, true), Step::Ready));
    assert_eq!(stream.phase, Phase::Open);
    assert!(matches!(stream.advance(&cfg, true), Step::Ready));
    assert!(matches!(stream.advance(&cfg, false), Step::Ready));
    assert_eq!(stream.phase, Phase::Open);
}

#[test]
fn failure_to_connect() {
    let cfg = sample();
    let mut stream = ChatStream::connect();
    assert!(matches!(stream.advance(&cfg, false), Step::Fail(ChatError::ConnectFailure)));
    assert_eq!(stream.phase, Phase::Closed(ChatError::ConnectFailure));
}

#[test]
fn failure_of_the_handshake() {
    let cfg = sample();
    let mut stream = ChatStream::connect();
    stream.advance(&cfg, true);
    assert!(matches!(stream.advance(&cfg, false), Step::Fail(ChatError::HandshakeFailure)));
    assert_eq!(stream.phase, Phase::Closed(ChatError::HandshakeFailure));
}

#[test]
fn failure_to_set_the_timeout() {
    let cfg = sample();
    let mut stream = ChatStream::connect();
    stream.advance(&cfg, true);
    stream.advance(&cfg, true);
    assert!(matches!(
        stream.advance(&cfg, false),
        Step::Fail(ChatError::TimeoutConfigurationFailure)
    ));
    assert_eq!(stream.phase, Phase::Closed(ChatError::TimeoutConfigurationFailure));
}

#[test]
fn closed_connection_stays_closed() {
    let cfg = sample();
    let mut stream = ChatStream::connect();
    stream.advance(&cfg, false);
    assert!(matches!(stream.advance(&cfg, true), Step::Fail(ChatError::ConnectFailure)));
    assert_eq!(stream.phase, Phase::Closed(ChatError::ConnectFailure));
    assert!(matches!(stream.on_message(Some("PING :x")), Delivery::Stop));
    assert_eq!(stream.phase, Phase::Closed(ChatError::ConnectFailure));
}

#[test]
fn pong_echoes_the_payload() {
    let msg = ChatMessage::new("PING :tmi.twitch.tv");
    assert_eq!(ChatStream::ping(&msg), "PONG tmi.twitch.tv\r\n");
    let empty = ChatMessage::new("PING :");
    assert_eq!(ChatStream::ping(&empty), "PONG \r\n");
}

#[test]
fn probe_is_answered_and_not_handed_on() {
    let msg = ChatMessage::new("PING :tmi.twitch.tv");
    match ChatStream::handle_message(&msg) {
        Handling::Pong(line) => assert_eq!(line, "PONG tmi.twitch.tv\r\n"),
        Handling::Deliver => panic!("a probe is not handed on"),
    }
}

#[test]
fn other_messages_are_handed_on() {
    let chat = ChatMessage::new(":a!b PRIVMSG #c :PING");
    assert!(matches!(ChatStream::handle_message(&chat), Handling::Deliver));
    let other = ChatMessage::new(":tmi.twitch.tv 001 bot :Welcome");
    assert!(matches!(ChatStream::handle_message(&other), Handling::Deliver));
    let empty = ChatMessage::new("");
    assert!(matches!(ChatStream::handle_message(&empty), Handling::Deliver));
}

#[test]
fn read_loop_answers_a_probe() {
    let mut stream = open_stream();
    match stream.on_message(Some("PING :tmi.twitch.tv")) {
        Delivery::Pong(line) => assert_eq!(line, "PONG tmi.twitch.tv\r\n"),
        _ => panic!("one answer was expected"),
    }
    assert_eq!(stream.phase, Phase::Open);
}

#[test]
fn read_loop_delivers_a_chat_message() {
    let mut stream = open_stream();
    match stream.on_message(Some("@id=7 :alice!a@b PRIVMSG #room :hello")) {
        Delivery::Deliver(msg) => {
            assert_eq!(msg.kind, MessageType::PRIVMSG);
            assert_eq!(msg.user, "alice");
            assert_eq!(msg.room, "#room");
            assert_eq!(msg.message, "hello");
            assert_eq!(msg.tags.tags.get("id").map(|v| v.as_str()), Some("7"));
        },
        _ => panic!("a delivery was expected"),
    }
    assert_eq!(stream.phase, Phase::Open);
}

#[test]
fn read_loop_delivers_in_the_order_read() {
    let mut stream = open_stream();
    let lines = [":a!x PRIVMSG #r :one", "PING :p", ":b!x PRIVMSG #r :two", ""];
    let mut seen: Vec<String> = Vec::new();
    for line in lines {
        match stream.on_message(Some(line)) {
            Delivery::Pong(answer) => seen.push(answer),
            Delivery::Deliver(msg) => seen.push(msg.message),
            Delivery::Stop => seen.push("stop".to_string()),
        }
    }
    assert_eq!(seen, vec!["one", "PONG p\r\n", "two", ""]);
}

#[test]
fn read_loop_ends_on_a_failed_read() {
    let mut stream = open_stream();
    assert!(matches!(stream.on_message(None), Delivery::Stop));
    assert_eq!(stream.phase, Phase::Closed(ChatError::ReceiveFailure));
    assert!(matches!(stream.on_message(Some(":a!b PRIVMSG #c :x")), Delivery::Stop));
    assert_eq!(stream.phase, Phase::Closed(ChatError::ReceiveFailure));
}

#[test]
fn nothing_is_read_before_the_session_is_open() {
    let mut stream = ChatStream::connect();
    assert!(matches!(stream.on_message(Some("PING :x")), Delivery::Stop));
    assert_eq!(stream.phase, Phase::Connecting);
    assert!(matches!(stream.on_message(None), Delivery::Stop));
    assert_eq!(stream.phase, Phase::Connecting);
}

#[test]
fn send_line() {
    assert_eq!(ChatStream::send("hello world", "somechannel"), "PRIVMSG #somechannel :hello world\r\n");
    assert_eq!(ChatStream::send("", ""), "PRIVMSG # :\r\n");
    assert_eq!(ChatStream::send("h\u{e9}", "caf\u{e9}"), "PRIVMSG #caf\u{e9} :h\u{e9}\r\n");
}
