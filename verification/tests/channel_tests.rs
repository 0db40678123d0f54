use rustmud::channel::{
    connect_banner, do_raw_data, frame_outgoing, read_client_bytes, wrap_message, wrap_message_climb,
    wrap_message_ext, wrap_message_raw, wrap_message_timer, ClientInput, Message, MessageType,
};
use rustmud::combat::{timer_beat, timer_beat_message, timer_request, TimerRequest};

fn text_of(input: ClientInput) -> Option<String> {
    match input {
        ClientInput::Text(t) => Some(t),
        _ => None,
    }
}

#[test]
fn message_new_is_blank() {
    let m = Message::new();
    assert_eq!(m.msg_type, MessageType::Normal);
    assert_eq!(m.content, "");
    assert_eq!(m.addr, 0);
    assert_eq!(m.timer_id, "0");
    assert_eq!(m.max_cnt, 0);
}

#[test]
fn wrapped_messages_trim_their_content() {
    let m = wrap_message(3, "  hi there \n".to_string());
    assert_eq!(m.msg_type, MessageType::Normal);
    assert_eq!(m.content, "hi there");
    assert_eq!(m.addr, 3);
    assert_eq!(m.timer_id, "");
    assert_eq!(m.max_cnt, 0);

    let e = wrap_message_ext(MessageType::NoPrompt, 4, " a ".to_string());
    assert_eq!(e.msg_type, MessageType::NoPrompt);
    assert_eq!(e.content, "a");
    assert_eq!(e.timer_id, "");
    assert_eq!(e.max_cnt, 60);

    let t = wrap_message_timer(MessageType::CombatStart, 5, "fight bob ".to_string(), "12".to_string());
    assert_eq!(t.msg_type, MessageType::CombatStart);
    assert_eq!(t.content, "fight bob");
    assert_eq!(t.timer_id, "12");
    assert_eq!(t.max_cnt, 60);

    let c = wrap_message_climb(MessageType::Timer, 6, "\tclimb up".to_string(), "7".to_string(), 4);
    assert_eq!(c.content, "climb up");
    assert_eq!(c.timer_id, "7");
    assert_eq!(c.max_cnt, 4);
    assert_eq!(c.addr, 6);
}

#[test]
fn raw_message_keeps_its_content() {
    let m = wrap_message_raw(9, "  spaced  ".to_string());
    assert_eq!(m.content, "  spaced  ");
    assert_eq!(m.msg_type, MessageType::Normal);
    assert_eq!(m.addr, 9);
    assert_eq!(m.max_cnt, 0);
}

#[test]
fn copied_message_is_equal_field_by_field() {
    let m = wrap_message_timer(MessageType::CombatIn, 2, "x".to_string(), "3".to_string());
    let c = m.copy();
    assert_eq!(c.msg_type, m.msg_type);
    assert_eq!(c.content, m.content);
    assert_eq!(c.addr, m.addr);
    assert_eq!(c.timer_id, m.timer_id);
    assert_eq!(c.max_cnt, m.max_cnt);
}

#[test]
fn raw_bytes_of_telnet_negotiation() {
    assert_eq!(do_raw_data(&[0xff, 0xfb, 0x18, b'x', b't']), "xt");
    assert_eq!(do_raw_data(&[0xff, 0xfb, 0xc9]), "");
    assert_eq!(do_raw_data(&[0xff, 0xfc, 0xc9, b'o', b'k']), "ok");
    assert_eq!(do_raw_data(&[0xff, 0xfa, 0xc9, b'a', b'b', 0xff, 0xf0]), "ab");
    assert_eq!(do_raw_data(&[0xff, 0xfb]), "奇怪的来宾");
    assert_eq!(do_raw_data(&[0xff, 0x01, 0x02, 0x03]), "奇怪的来宾");
    assert_eq!(do_raw_data(&[0xff, 0xfa, 0xc9, b'a', b'b']), "奇怪的来宾");
}

#[test]
fn raw_bytes_are_decoded_lossily() {
    // an invalid byte after the negotiation header is replaced, not dropped
    let s = do_raw_data(&[0xff, 0xfb, 0x18, b'a', 0xfe, b'b']);
    assert_eq!(s, "a\u{fffd}b");
}

#[test]
fn client_reads() {
    assert!(matches!(read_client_bytes(&[]), ClientInput::Closed));
    assert!(matches!(read_client_bytes(&[0, 0, 0]), ClientInput::Closed));
    assert_eq!(text_of(read_client_bytes(b"look\0\0")), Some("look".to_string()));
    assert_eq!(text_of(read_client_bytes("走 北".as_bytes())), Some("走 北".to_string()));
    assert_eq!(text_of(read_client_bytes(&[0xff, 0xfb, 0x18, b'x', b't'])), Some("xt".to_string()));
    assert!(matches!(read_client_bytes(&[0xff, 0xfb, 0x18]), ClientInput::Ignore));
    assert_eq!(text_of(read_client_bytes(&[0xff, 0, 1])), Some("奇怪的来宾".to_string()));
    assert_eq!(
        text_of(read_client_bytes(&[0xff, 0xfa, 0xc9, b'a', 0, 0xff, 0xf0])),
        Some("a".to_string())
    );
}

#[test]
fn outgoing_frames() {
    let mut m = wrap_message(1, "hi".to_string());
    assert_eq!(frame_outgoing(&m), vec![b'h', b'i', 10, 62, 0xff, 0xf9]);
    m.msg_type = MessageType::NoPrompt;
    assert_eq!(frame_outgoing(&m), vec![b'h', b'i', 10]);
    m.msg_type = MessageType::IacDoTerm;
    assert_eq!(frame_outgoing(&m), vec![b'h', b'i', 0xff, 0xfd, 0x18]);
    m.msg_type = MessageType::IacWillGmcp;
    assert_eq!(frame_outgoing(&m), vec![b'h', b'i']);
    m.msg_type = MessageType::IacDoGmcp;
    assert_eq!(
        frame_outgoing(&m),
        vec![0xff, 0xfd, 0xc9, 0xff, 0xfa, 0xc9, b'h', b'i', 0xff, 0xf0]
    );
    let u = wrap_message(1, "中".to_string());
    assert_eq!(frame_outgoing(&u), vec![0xe4, 0xb8, 0xad, 10, 62, 0xff, 0xf9]);
}

#[test]
fn banner_counts_minutes_and_players() {
    assert_eq!(
        connect_banner(0, 0),
        "\u{1b}[1;36m未知世界\u{1b}[0;00m已经执行了\u{1b}[1;33m1分\u{1b}[0;00m。\n目前共有 \u{1b}[1;33m1\u{1b}[0;00m 位玩家在线上。\n"
    );
    assert_eq!(
        connect_banner(125, 4),
        "\u{1b}[1;36m未知世界\u{1b}[0;00m已经执行了\u{1b}[1;33m3分\u{1b}[0;00m。\n目前共有 \u{1b}[1;33m5\u{1b}[0;00m 位玩家在线上。\n"
    );
}

#[test]
fn timer_requests() {
    let start = wrap_message_timer(MessageType::CombatStart, 5, "fight bob".to_string(), "7".to_string());
    assert!(matches!(timer_request(&start), TimerRequest::Start(7)));
    let stop = wrap_message_timer(MessageType::CombatStop, 5, "fight bob".to_string(), "8".to_string());
    assert!(matches!(timer_request(&stop), TimerRequest::Stop(8)));
    let other = wrap_message(5, "hello".to_string());
    assert!(matches!(timer_request(&other), TimerRequest::Ignore));
}

#[test]
fn timer_beats_stop_at_the_limit_or_when_stopped() {
    assert_eq!(timer_beat(0, 3, 9, 1), Some(1));
    assert_eq!(timer_beat(2, 3, 9, 1), Some(3));
    assert_eq!(timer_beat(3, 3, 9, 1), None);
    assert_eq!(timer_beat(0, 3, 1, 1), None);
    assert_eq!(timer_beat(0, 0, 9, 1), None);
}

#[test]
fn timer_beat_messages_continue_then_stop() {
    let m = wrap_message_climb(MessageType::CombatStart, 5, "fight bob".to_string(), "7".to_string(), 3);
    let c = timer_beat_message(&m, 7, 1);
    assert_eq!(c.msg_type, MessageType::CombatIn);
    assert_eq!(c.content, "fight bob continue");
    assert_eq!(c.timer_id, "7");
    assert_eq!(c.addr, 5);
    assert_eq!(c.max_cnt, 60);
    let s = timer_beat_message(&m, 7, 3);
    assert_eq!(s.msg_type, MessageType::CombatStop);
    assert_eq!(s.content, "fight bob stop");
    assert_eq!(s.timer_id, "7");
}
