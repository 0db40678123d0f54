use vstd::prelude::*;
use vstd::string::*;

use crate::channel::{ext_msg, normal_msg, wrap_message, wrap_message_ext, Message, MessageType, MessageView};
use crate::player::Player;
use crate::text::{owned, replace, replace_exec};

verus! {

broadcast use vstd::string::group_string_axioms;

/// How the text of a file is turned into the content of a message.
pub enum Render {
    /// As it is.
    Plain,
    /// With each written `\n` made a line break.
    Unescape,
    /// With the given place name shown in red.
    Highlight(String),
    /// As a GMCP map in which the given place name is shown in yellow.
    GmcpMap(String),
}

/// A reply whose content comes from a file: the file's text, rendered, then `suffix`.
pub struct FileReply {
    pub addr: u64,
    pub path: String,
    pub render: Render,
    pub suffix: String,
}

/// Something the game asks the server to do.
pub enum Action {
    /// Send a message to a client.
    Send(Message),
    /// Send a control message to the combat timer.
    Combat(Message),
    /// Send a client a message made from a file.
    SendFile(FileReply),
    /// Close a client's connection.
    Disconnect(u64),
}

/// How a file's text is rendered, as values.
pub enum RenderView {
    Plain,
    Unescape,
    Highlight(Seq<char>),
    GmcpMap(Seq<char>),
}

/// What an action holds, as values.
pub enum ActionView {
    Send(MessageView),
    Combat(MessageView),
    SendFile { addr: u64, path: Seq<char>, render: RenderView, suffix: Seq<char> },
    Disconnect(u64),
}

impl View for Render {
    type V = RenderView;

    open spec fn view(&self) -> RenderView {
        match self {
            Render::Plain => RenderView::Plain,
            Render::Unescape => RenderView::Unescape,
            Render::Highlight(n) => RenderView::Highlight(n@),
            Render::GmcpMap(n) => RenderView::GmcpMap(n@),
        }
    }
}

impl View for Action {
    type V = ActionView;

    open spec fn view(&self) -> ActionView {
        match self {
            Action::Send(m) => ActionView::Send(m@),
            Action::Combat(m) => ActionView::Combat(m@),
            Action::SendFile(f) => ActionView::SendFile {
                addr: f.addr,
                path: f.path@,
                render: f.render@,
                suffix: f.suffix@,
            },
            Action::Disconnect(a) => ActionView::Disconnect(*a),
        }
    }
}

/// The values of a list of actions.
pub open spec fn action_views(v: Seq<Action>) -> Seq<ActionView> {
    v.map_values(|a: Action| a@)
}

/// A message to a client.
pub open spec fn send(m: MessageView) -> ActionView {
    ActionView::Send(m)
}

/// A normal message to a client.
pub open spec fn say(addr: u64, content: Seq<char>) -> ActionView {
    ActionView::Send(normal_msg(addr, content))
}

/// A message made from a file.
pub open spec fn file_reply(addr: u64, path: Seq<char>, render: RenderView, suffix: Seq<char>) -> ActionView {
    ActionView::SendFile { addr, path, render, suffix }
}

/// A file's text, rendered.
pub open spec fn rendered(text: Seq<char>, render: RenderView) -> Seq<char> {
    match render {
        RenderView::Plain => text,
        RenderView::Unescape => replace(text, "\\n"@, "\n"@),
        RenderView::Highlight(name) => replace(text, name, "\u{1b}[1;41m"@ + name + "\u{1b}[0;00m"@),
        RenderView::GmcpMap(name) => "\n            Map "@ + "{\"content\" : \""@ + replace(
            text,
            name,
            "<span style='color: yellow'>"@ + name + "</span>"@,
        ) + "\"}"@,
    }
}

/// The message sent for a file reply once the file's text is known: a GMCP message for a
/// map, a normal message otherwise.
pub open spec fn file_message(addr: u64, render: RenderView, suffix: Seq<char>, text: Seq<char>) -> MessageView {
    match render {
        RenderView::GmcpMap(_) => ext_msg(MessageType::IacDoGmcp, addr, rendered(text, render) + suffix),
        _ => normal_msg(addr, rendered(text, render) + suffix),
    }
}

/// Renders a file's text (see `rendered`).
pub fn render_text(text: &str, render: &Render) -> (r: String)
    ensures
        r@ == rendered(text@, render@),
{
    match render {
        Render::Plain => owned(text),
        Render::Unescape => replace_exec(text, "\\n", "\n"),
        Render::Highlight(name) => {
            let mut colored = String::from_str("\u{1b}[1;41m");
            colored.append(name.as_str());
            colored.append("\u{1b}[0;00m");
            replace_exec(text, name.as_str(), colored.as_str())
        },
        Render::GmcpMap(name) => {
            let mut span = String::from_str("<span style='color: yellow'>");
            span.append(name.as_str());
            span.append("</span>");
            let replaced = replace_exec(text, name.as_str(), span.as_str());
            let mut view = String::from_str("\n            Map ");
            view.append("{\"content\" : \"");
            view.append(replaced.as_str());
            view.append("\"}");
            view
        },
    }
}

/// The message to send for a file reply, given the file's text (see `file_message`).
pub fn complete_file_reply(reply: &FileReply, text: &str) -> (r: Message)
    ensures
        r@ == file_message(reply.addr, reply.render@, reply.suffix@, text@),
{
    let mut content = render_text(text, &reply.render);
    content.append(reply.suffix.as_str());
    match reply.render {
        Render::GmcpMap(_) => wrap_message_ext(MessageType::IacDoGmcp, reply.addr, content),
        _ => wrap_message(reply.addr, content),
    }
}

/// The line listing the other players in a place: `    普通百姓 name` and a line break for
/// each entry that is not `me` and stands at `pos`, in table order.
pub open spec fn others_text(es: Seq<(u64, Player)>, me: Seq<char>, pos: u32) -> Seq<char>
    decreases es.len(),
{
    if es.len() == 0 {
        seq![]
    } else {
        let prev = others_text(es.drop_last(), me, pos);
        let p = es.last().1;
        if p.name@ != me && p.pos == pos {
            prev + "    普通百姓 "@ + p.name@ + "\n"@
        } else {
            prev
        }
    }
}

/// Lists the other players in a place (see `others_text`).
pub fn others_names(es: &Vec<(u64, Player)>, me: &str, pos: u32) -> (r: String)
    ensures
        r@ == others_text(es@, me@, pos),
{
    let mut names = String::new();
    let mut i: usize = 0;
    while i < es.len()
        invariant
            i <= es@.len(),
            names@ == others_text(es@.take(i as int), me@, pos),
        decreases es@.len() - i,
    {
        assert(es@.take(i + 1).drop_last() =~= es@.take(i as int));
        let p = &es[i].1;
        if !crate::text::str_eq(p.name.as_str(), me) && p.pos == pos {
            names.append("    普通百姓 ");
            names.append(p.name.as_str());
            names.append("\n");
        }
        i += 1;
    }
    assert(es@.take(es@.len() as int) =~= es@);
    names
}

}
