use gossip_glomers::echo::EchoNodeMessage;
use gossip_glomers::io::{is_quit_token, line_signal, MessageReaderError};
use gossip_glomers::node::{CreatesInitOkMessage, TryIntoInitMessage};
use gossip_glomers::Message;

#[test]
fn new_message_has_no_reply_id() {
    let m = Message::new(
        "alice".to_string(),
        "bob".to_string(),
        Some(10),
        EchoNodeMessage::Echo { echo: "hi".to_string() },
    );
    assert_eq!(m.src(), "alice");
    assert_eq!(m.dest(), "bob");
    assert_eq!(m.msg_id(), Some(10));
    assert_eq!(m.in_reply_to(), None);
    assert_eq!(m.body(), &EchoNodeMessage::Echo { echo: "hi".to_string() });
}

#[test]
fn new_message_without_ids() {
    let m = Message::new("alice".to_string(), "bob".to_string(), None, EchoNodeMessage::InitOk);
    assert_eq!(m.msg_id(), None);
    assert_eq!(m.in_reply_to(), None);
    assert_eq!(m.body(), &EchoNodeMessage::InitOk);
}

#[test]
fn reply_message_carries_reply_id() {
    let m = Message::new_reply(
        "alice".to_string(),
        "bob".to_string(),
        7,
        Some(10),
        EchoNodeMessage::EchoOk { echo: "hi".to_string() },
    );
    assert_eq!(m.src(), "alice");
    assert_eq!(m.dest(), "bob");
    assert_eq!(m.msg_id(), Some(10));
    assert_eq!(m.in_reply_to(), Some(7));
    assert_eq!(m.body(), &EchoNodeMessage::EchoOk { echo: "hi".to_string() });
}

#[test]
fn into_parts_returns_every_field() {
    let m = Message::new_reply("a".to_string(), "b".to_string(), 3, None, EchoNodeMessage::InitOk);
    let (src, dest, msg_id, in_reply_to, body) = m.into_parts();
    assert_eq!(src, "a");
    assert_eq!(dest, "b");
    assert_eq!(msg_id, None);
    assert_eq!(in_reply_to, Some(3));
    assert_eq!(body, EchoNodeMessage::InitOk);
}

#[test]
fn echo_init_payload_is_an_init_request() {
    let init = EchoNodeMessage::Init {
        node_id: "n3".to_string(),
        node_ids: vec!["n1".to_string(), "n2".to_string(), "n3".to_string()],
    };
    let view = init.try_into_init_message().expect("init payload");
    assert_eq!(view.node_id, "n3");
    assert_eq!(view.node_ids, vec!["n1".to_string(), "n2".to_string(), "n3".to_string()]);
    assert!(EchoNodeMessage::Echo { echo: "x".to_string() }.try_into_init_message().is_none());
    assert!(EchoNodeMessage::InitOk.try_into_init_message().is_none());
    assert_eq!(EchoNodeMessage::create_init_ok(), EchoNodeMessage::InitOk);
}

#[test]
fn empty_read_signals_closed() {
    assert!(matches!(line_signal(0, ""), Some(MessageReaderError::Closed)));
}

#[test]
fn quit_words_signal_quit() {
    assert!(matches!(line_signal(5, "quit\n"), Some(MessageReaderError::Quit)));
    assert!(matches!(line_signal(2, "q\n"), Some(MessageReaderError::Quit)));
    assert!(matches!(line_signal(9, "  quit \r\n"), Some(MessageReaderError::Quit)));
    assert!(matches!(line_signal(5, "\t q \n"), Some(MessageReaderError::Quit)));
}

#[test]
fn other_lines_are_parsed() {
    assert!(line_signal(9, "not-json\n").is_none());
    assert!(line_signal(6, "quitx\n").is_none());
    assert!(line_signal(2, "Q\n").is_none());
    assert!(line_signal(1, "\n").is_none());
    let line = "{\"src\":\"a\",\"dest\":\"b\",\"body\":{\"type\":\"echo\",\"echo\":\"hi\"}}\n";
    assert!(line_signal(line.len(), line).is_none());
}

#[test]
fn quit_token_is_exact() {
    assert!(is_quit_token("q"));
    assert!(is_quit_token("quit"));
    assert!(!is_quit_token(""));
    assert!(!is_quit_token("qu"));
    assert!(!is_quit_token("quiz"));
    assert!(!is_quit_token(" quit"));
    assert!(!is_quit_token("QUIT"));
}
