use vstd::prelude::*;
use vstd::string::*;
use vstd::utf8::{decode_utf8, encode_utf8, valid_utf8};

use crate::text::{owned, trim_ws, trim_ws_str, u64_text, int_text};
use crate::utils::{colored, show_color, Color};

verus! {

broadcast use vstd::string::group_string_axioms;

/// The registry of the clients' sessions; the sessions themselves, with their sockets,
/// are kept by the server.
pub struct Sessions {}

/// The kinds of messages passed between the server's threads.
#[derive(PartialEq, Eq, Structural, Clone, Copy, Debug)]
pub enum MessageType {
    Timer,
    CombatStart,
    CombatIn,
    CombatStop,
    Command,
    Sender,
    Normal,
    NoPrompt,
    IacDoTerm,
    IacWillTerm,
    IacWillGmcp,
    IacDoGmcp,
}

/// A message passed between the server's threads; `addr` identifies a client connection.
pub struct Message {
    pub msg_type: MessageType,
    pub content: String,
    pub addr: u64,
    pub timer_id: String,
    pub max_cnt: u32,
}

/// The values a message holds.
pub struct MessageView {
    pub msg_type: MessageType,
    pub content: Seq<char>,
    pub addr: u64,
    pub timer_id: Seq<char>,
    pub max_cnt: u32,
}

impl View for Message {
    type V = MessageView;

    open spec fn view(&self) -> MessageView {
        MessageView {
            msg_type: self.msg_type,
            content: self.content@,
            addr: self.addr,
            timer_id: self.timer_id@,
            max_cnt: self.max_cnt,
        }
    }
}

/// A message with the given values and its content trimmed.
pub open spec fn made(
    msg_type: MessageType,
    addr: u64,
    content: Seq<char>,
    timer_id: Seq<char>,
    max_cnt: u32,
) -> MessageView {
    MessageView { msg_type, content: trim_ws(content), addr, timer_id, max_cnt }
}

/// The message `wrap_message` gives: a normal message to `addr`.
pub open spec fn normal_msg(addr: u64, content: Seq<char>) -> MessageView {
    made(MessageType::Normal, addr, content, seq![], 0)
}

/// The message `wrap_message_ext` gives.
pub open spec fn ext_msg(msg_type: MessageType, addr: u64, content: Seq<char>) -> MessageView {
    made(msg_type, addr, content, seq![], 60)
}

/// The message `wrap_message_timer` gives.
pub open spec fn timer_msg(
    msg_type: MessageType,
    addr: u64,
    content: Seq<char>,
    timer_id: Seq<char>,
) -> MessageView {
    made(msg_type, addr, content, timer_id, 60)
}

impl Message {
    /// The message `Message::new` gives.
    pub open spec fn new_spec() -> MessageView {
        MessageView {
            msg_type: MessageType::Normal,
            content: seq![],
            addr: 0,
            timer_id: "0"@,
            max_cnt: 0,
        }
    }

    /// An empty normal message to connection 0 with timer `0`.
    pub fn new() -> (r: Self)
        ensures
            r@ == Message::new_spec(),
    {
        Message {
            msg_type: MessageType::Normal,
            content: String::new(),
            addr: 0,
            timer_id: String::from_str("0"),
            max_cnt: 0,
        }
    }

    /// A copy of this message.
    pub fn copy(&self) -> (r: Self)
        ensures
            r@ == self@,
    {
        Message {
            msg_type: self.msg_type,
            content: self.content.clone(),
            addr: self.addr,
            timer_id: self.timer_id.clone(),
            max_cnt: self.max_cnt,
        }
    }
}

/// A message that a timer loops on `max_cnt` times.
pub fn wrap_message_climb(
    msg_type: MessageType,
    addr: u64,
    message: String,
    timer_id: String,
    max_cnt: u32,
) -> (r: Message)
    ensures
        r@ == made(msg_type, addr, message@, timer_id@, max_cnt),
{
    Message { msg_type, content: trim_ws_str(message.as_str()), addr, timer_id, max_cnt }
}

/// A timer message, looped on at most 60 times.
pub fn wrap_message_timer(msg_type: MessageType, addr: u64, message: String, timer_id: String) -> (r:
    Message)
    ensures
        r@ == timer_msg(msg_type, addr, message@, timer_id@),
{
    Message { msg_type, content: trim_ws_str(message.as_str()), addr, timer_id, max_cnt: 60 }
}

/// A message of the given kind.
pub fn wrap_message_ext(msg_type: MessageType, addr: u64, message: String) -> (r: Message)
    ensures
        r@ == ext_msg(msg_type, addr, message@),
{
    Message {
        msg_type,
        content: trim_ws_str(message.as_str()),
        addr,
        timer_id: String::new(),
        max_cnt: 60,
    }
}

/// A normal message.
pub fn wrap_message(addr: u64, message: String) -> (r: Message)
    ensures
        r@ == normal_msg(addr, message@),
{
    Message {
        msg_type: MessageType::Normal,
        content: trim_ws_str(message.as_str()),
        addr,
        timer_id: String::new(),
        max_cnt: 0,
    }
}

/// A normal message whose content is kept as it is.
pub fn wrap_message_raw(addr: u64, message: String) -> (r: Message)
    ensures
        r@ == (MessageView {
            msg_type: MessageType::Normal,
            content: message@,
            addr,
            timer_id: seq![],
            max_cnt: 0,
        }),
{
    Message { msg_type: MessageType::Normal, content: message, addr, timer_id: String::new(), max_cnt: 0 }
}


// ---------------------------------------------------------------------
// Bytes received from and sent to clients
// ---------------------------------------------------------------------

/// What `String::from_utf8_lossy` makes of a byte sequence.
pub uninterp spec fn lossy_text(bytes: Seq<u8>) -> Seq<char>;

/// Decodes bytes as UTF-8, replacing invalid sequences (`String::from_utf8_lossy`).
/// The result is a function of the bytes alone; on valid UTF-8 it is the decoded text.
/// What it is on invalid input (where replacement characters stand) is left unsaid.
#[verifier::external_body]
fn utf8_lossy(bytes: &[u8]) -> (r: String)
    ensures
        r@ == lossy_text(bytes@),
        valid_utf8(bytes@) ==> r@ == decode_utf8(bytes@),
{
    String::from_utf8_lossy(bytes).into_owned()
}

/// Decodes bytes as UTF-8 (`String::from_utf8`): the text when the bytes are valid UTF-8,
/// nothing otherwise.
#[verifier::external_body]
fn utf8_strict(bytes: Vec<u8>) -> (r: Option<String>)
    ensures
        r is Some <==> valid_utf8(bytes@),
        r matches Some(s) ==> s@ == decode_utf8(bytes@),
{
    String::from_utf8(bytes).ok()
}

/// The reply given to bytes that are neither text nor a known telnet negotiation.
pub open spec fn stranger_text() -> Seq<char> {
    "奇怪的来宾"@
}

/// The payload of a telnet terminal-type or GMCP negotiation in raw client bytes: what
/// follows `IAC WILL/WONT ...`, or what `IAC SB GMCP ... IAC SE` encloses; nothing for
/// other bytes.
pub open spec fn raw_payload(b: Seq<u8>) -> Option<Seq<u8>> {
    if b.len() < 3 {
        None
    } else if (b[0] == 0xff && b[1] == 0xfb && b[2] == 0x18) || (b[0] == 0xff && b[1] == 0xfb
        && b[2] == 0xc9) || (b[0] == 0xff && b[1] == 0xfc && b[2] == 0xc9) {
        Some(b.skip(3))
    } else if b[0] == 0xff && b[1] == 0xfa && b[2] == 0xc9 && b[b.len() - 2] == 0xff && b[b.len()
        - 1] == 0xf0 {
        Some(b.subrange(3, b.len() - 2))
    } else {
        None
    }
}

/// What raw (non-UTF-8) client bytes say: the negotiation's payload decoded (see
/// `raw_payload`), or the stranger's reply.
pub open spec fn raw_text(b: Seq<u8>) -> Seq<char> {
    match raw_payload(b) {
        Some(p) => lossy_text(p),
        None => stranger_text(),
    }
}

/// The bytes `b[lo..hi]` as a vector.
fn bytes_of(b: &[u8], lo: usize, hi: usize) -> (r: Vec<u8>)
    requires
        lo <= hi <= b@.len(),
    ensures
        r@ == b@.subrange(lo as int, hi as int),
{
    let mut r: Vec<u8> = Vec::new();
    let mut i = lo;
    while i < hi
        invariant
            lo <= i <= hi <= b@.len(),
            r@ == b@.subrange(lo as int, i as int),
        decreases hi - i,
    {
        r.push(b[i]);
        i += 1;
        assert(r@ =~= b@.subrange(lo as int, i as int));
    }
    r
}

/// Reads raw client bytes (see `raw_text`); a payload that is valid UTF-8 reads as its text.
pub fn do_raw_data(buf_clone: &[u8]) -> (r: String)
    ensures
        r@ == raw_text(buf_clone@),
        raw_payload(buf_clone@) matches Some(p) ==> (valid_utf8(p) ==> r@ == decode_utf8(p)),
{
    let n = buf_clone.len();
    if n < 3 {
        return String::from_str("奇怪的来宾");
    }
    if (buf_clone[0] == 0xff && buf_clone[1] == 0xfb && buf_clone[2] == 0x18) || (buf_clone[0]
        == 0xff && buf_clone[1] == 0xfb && buf_clone[2] == 0xc9) || (buf_clone[0] == 0xff
        && buf_clone[1] == 0xfc && buf_clone[2] == 0xc9) {
        let rest = bytes_of(buf_clone, 3, n);
        assert(rest@ =~= buf_clone@.skip(3));
        return utf8_lossy(rest.as_slice());
    } else if buf_clone[0] == 0xff && buf_clone[1] == 0xfa && buf_clone[2] == 0xc9 && buf_clone[n
        - 2] == 0xff && buf_clone[n - 1] == 0xf0 {
        let rest = bytes_of(buf_clone, 3, n - 2);
        return utf8_lossy(rest.as_slice());
    } else {
        return String::from_str("奇怪的来宾");
    }
}

/// What a read from a client amounts to.
pub enum ClientInput {
    /// The client has gone.
    Closed,
    /// Nothing to act on.
    Ignore,
    /// A command line.
    Text(String),
}

/// The bytes of a read without its zero bytes.
pub open spec fn without_nul(b: Seq<u8>) -> Seq<u8>
    decreases b.len(),
{
    if b.len() == 0 {
        b
    } else if b.last() != 0 {
        without_nul(b.drop_last()).push(b.last())
    } else {
        without_nul(b.drop_last())
    }
}

/// What a read from a client amounts to: no bytes besides zeros means the client has gone;
/// text is taken as it is; other bytes are read as telnet negotiation (see `raw_text`), and an
/// empty result is ignored.
pub open spec fn client_input(b: Seq<u8>, r: ClientInput) -> bool {
    let d = without_nul(b);
    if d.len() == 0 {
        r is Closed
    } else if valid_utf8(d) && decode_utf8(d).len() > 0 {
        r matches ClientInput::Text(t) && t@ == decode_utf8(d)
    } else if raw_text(d).len() == 0 {
        r is Ignore
    } else {
        r matches ClientInput::Text(t) && t@ == raw_text(d)
    }
}

/// Reads the bytes a client sent (see `client_input`).
pub fn read_client_bytes(buf: &[u8]) -> (r: ClientInput)
    ensures
        client_input(buf@, r),
{
    let mut kept: Vec<u8> = Vec::new();
    let mut i: usize = 0;
    while i < buf.len()
        invariant
            i <= buf@.len(),
            kept@ == without_nul(buf@.take(i as int)),
        decreases buf@.len() - i,
    {
        let x = buf[i];
        proof {
            let t = buf@.take(i + 1);
            assert(t.drop_last() =~= buf@.take(i as int));
            assert(t.last() == x);
        }
        if x != 0 {
            kept.push(x);
        }
        i += 1;
    }
    assert(buf@.take(buf@.len() as int) =~= buf@);
    if kept.len() == 0 {
        return ClientInput::Closed;
    }
    let copy = bytes_of(kept.as_slice(), 0, kept.len());
    assert(copy@ =~= kept@);
    let message = match utf8_strict(copy) {
        Some(a) => a,
        None => String::new(),
    };
    if message.unicode_len() > 0 {
        return ClientInput::Text(message);
    }
    let raw = do_raw_data(kept.as_slice());
    if raw.unicode_len() == 0 {
        ClientInput::Ignore
    } else {
        ClientInput::Text(raw)
    }
}


/// The bytes written to a client for a message: after the UTF-8 text, a newline for a
/// message without prompt, `IAC DO TERMINAL-TYPE` for a terminal query, nothing for
/// `IAC WILL GMCP`, a GMCP frame around the text for GMCP data, and otherwise a newline,
/// the prompt `>` and `IAC GA`.
pub open spec fn framed(m: MessageView) -> Seq<u8> {
    let text = encode_utf8(m.content);
    match m.msg_type {
        MessageType::NoPrompt => text + seq![10u8],
        MessageType::IacDoTerm => text + seq![0xffu8, 0xfdu8, 0x18u8],
        MessageType::IacWillGmcp => text,
        MessageType::IacDoGmcp => seq![0xffu8, 0xfdu8, 0xc9u8, 0xffu8, 0xfau8, 0xc9u8] + text + seq![
            0xffu8,
            0xf0u8,
        ],
        _ => text + seq![10u8, 62u8, 0xffu8, 0xf9u8],
    }
}

/// Appends bytes to a buffer.
fn push_bytes(out: &mut Vec<u8>, b: &[u8])
    ensures
        final(out)@ == old(out)@ + b@,
{
    let mut i: usize = 0;
    while i < b.len()
        invariant
            i <= b@.len(),
            out@ == old(out)@ + b@.take(i as int),
        decreases b@.len() - i,
    {
        out.push(b[i]);
        i += 1;
        assert(out@ =~= old(out)@ + b@.take(i as int));
    }
    assert(b@.take(b@.len() as int) =~= b@);
}

/// The bytes written to a client for a message (see `framed`).
pub fn frame_outgoing(msg: &Message) -> (r: Vec<u8>)
    ensures
        r@ == framed(msg@),
{
    let text = msg.content.as_str().as_bytes();
    let mut out: Vec<u8> = Vec::new();
    match msg.msg_type {
        MessageType::NoPrompt => {
            push_bytes(&mut out, text);
            out.push(10);
        },
        MessageType::IacDoTerm => {
            push_bytes(&mut out, text);
            out.push(0xff);
            out.push(0xfd);
            out.push(0x18);
        },
        MessageType::IacWillGmcp => {
            push_bytes(&mut out, text);
        },
        MessageType::IacDoGmcp => {
            out.push(0xff);
            out.push(0xfd);
            out.push(0xc9);
            out.push(0xff);
            out.push(0xfa);
            out.push(0xc9);
            push_bytes(&mut out, text);
            out.push(0xff);
            out.push(0xf0);
        },
        _ => {
            push_bytes(&mut out, text);
            out.push(10);
            out.push(62);
            out.push(0xff);
            out.push(0xf9);
        },
    }
    assert(out@ =~= framed(msg@));
    out
}

/// The greeting shown after the welcome screen: how long the world has run and how many
/// players are on line, counting the newcomer.
pub open spec fn banner_text(elapsed_secs: u64, cnt: u32) -> Seq<char> {
    colored("未知世界"@, Color::BLUE) + "已经执行了"@ + colored(
        int_text(elapsed_secs / 60 + 1) + "分"@,
        Color::YELLOW,
    ) + "。\n"@ + "目前共有 "@ + colored(int_text(cnt + 1), Color::YELLOW) + " 位玩家在线上。\n"@
}

/// The greeting shown after the welcome screen (see `banner_text`).
pub fn connect_banner(elapsed_secs: u64, cnt: u32) -> (r: String)
    requires
        cnt < u32::MAX,
    ensures
        r@ == banner_text(elapsed_secs, cnt),
{
    let mut minutes = u64_text(elapsed_secs / 60 + 1);
    minutes.append("分");
    let count = u64_text((cnt + 1) as u64);
    let mut r = show_color("未知世界", Color::BLUE);
    r.append("已经执行了");
    let m = show_color(minutes.as_str(), Color::YELLOW);
    r.append(m.as_str());
    r.append("。\n");
    r.append("目前共有 ");
    let c = show_color(count.as_str(), Color::YELLOW);
    r.append(c.as_str());
    r.append(" 位玩家在线上。\n");
    r
}

}
