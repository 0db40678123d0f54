use std::collections::HashMap;
use vstd::prelude::*;
use vstd::string::*;

use crate::command::Command;
use crate::action::{
    action_views, file_reply, others_names, others_text, say, send, Action, ActionView, FileReply,
    Render, RenderView,
};
use crate::channel::{ext_msg, wrap_message, wrap_message_ext, Message, MessageType, MessageView};
use crate::map::{Node, NodeView};
use crate::player::{player_at, Player, PlayerTable};
use crate::text::{
    contains, contains_exec, lower, owned, replace, replace_exec, str_eq, to_lower, word_or,
    word_or_exec,
};

verus! {

broadcast use {vstd::string::group_string_axioms, vstd::std_specs::hash::group_hash_axioms};

/// The looking commands: `l`/`ls`/`look`, `localmaps`/`lm`, `list`, `startgmcp`, `xgmcp`.
pub struct LookCommand<'a> {
    pub players: &'a PlayerTable,
    pub msg: &'a Message,
    pub nodes: &'a HashMap<u32, Node>,
    pub out: Vec<Action>,
}

/// Which stage of a place a player sees: the opened state where the place has something to
/// open, else the knocked state where it has something to knock on, else stage 0.
pub open spec fn view_stage(node: NodeView, p: Player) -> u32 {
    if node.openat.dom().len() != 0 {
        p.opened
    } else if node.knockat.dom().len() != 0 {
        p.knocked
    } else {
        0
    }
}

/// The file showing a place at a stage: that stage's view, or the place's plain view.
pub open spec fn stage_file(node: NodeView, stage: u32) -> Seq<char> {
    if node.looks.contains_key(stage) {
        node.looks[stage]
    } else {
        node.look
    }
}

/// What `look` shows: a named thing of the place (from a file when its text names a `.txt`
/// file, with written `\n` made line breaks), or, without a target, the place's view at the
/// player's stage followed by the other players there. The answer is `look_` and the target.
pub open spec fn look_outcome(
    es: Seq<(u64, Player)>,
    node: NodeView,
    msg: MessageView,
    before: Seq<ActionView>,
    after: Seq<ActionView>,
    ret: Seq<char>,
) -> bool {
    let target = word_or(msg.content, 1, seq![]);
    let cmd = target + word_or(msg.content, 2, seq![]);
    if cmd.len() != 0 {
        if node.lookat.contains_key(cmd) {
            let view = node.lookat[cmd];
            &&& ret == "look_"@ + target
            &&& after == before.push(
                if contains(view, ".txt"@) {
                    file_reply(msg.addr, view, RenderView::Unescape, seq![])
                } else {
                    say(msg.addr, replace(view, "\\n"@, "\n"@))
                },
            )
        } else {
            &&& ret == Seq::<char>::empty()
            &&& after == before.push(say(msg.addr, "要看什么?"@))
        }
    } else {
        let p = player_at(es, msg.addr).unwrap();
        &&& ret == "look_"@ + target
        &&& after == before.push(
            file_reply(
                msg.addr,
                stage_file(node, view_stage(node, p)),
                RenderView::Plain,
                others_text(es, p.name@, p.pos),
            ),
        )
    }
}

/// Everything the looking commands can do, by command word (in any letter case); the answer
/// is `no map!` when the player stands nowhere known and `ok` for other words.
pub open spec fn look_command_outcome(
    es: Seq<(u64, Player)>,
    nodes: Map<u32, Node>,
    msg: MessageView,
    before: Seq<ActionView>,
    after: Seq<ActionView>,
    ret: Seq<char>,
) -> bool {
    let p = player_at(es, msg.addr).unwrap();
    let key = lower(word_or(msg.content, 0, "none"@));
    if !nodes.contains_key(p.pos) {
        ret == "no map!"@ && after == before
    } else {
        let node = nodes[p.pos]@;
        if key == "localmaps"@ || key == "lm"@ {
            &&& ret == "ok"@
            &&& after == before.push(
                file_reply(msg.addr, node.localmaps, RenderView::Highlight(node.name), seq![]),
            )
        } else if key == "l"@ || key == "ls"@ || key == "look"@ {
            look_outcome(es, node, msg, before, after, ret)
        } else if key == "list"@ {
            &&& ret == Seq::<char>::empty()
            &&& after == before.push(
                if node.list.len() == 0 {
                    say(msg.addr, "什么？"@)
                } else {
                    file_reply(msg.addr, node.list, RenderView::Unescape, seq![])
                },
            )
        } else if key == "startgmcp"@ {
            &&& ret == Seq::<char>::empty()
            &&& after == before.push(
                send(ext_msg(MessageType::IacDoTerm, msg.addr, "RUSTMUD version : OS v0.01 on port 7878."@)),
            )
        } else if key == "xgmcp"@ {
            &&& ret == Seq::<char>::empty()
            &&& after == before.push(
                send(ext_msg(MessageType::IacDoGmcp, msg.addr, "Player.Vital {\"hp\": 100, \"maxhp\": 500}"@)),
            )
        } else {
            ret == "ok"@ && after == before
        }
    }
}

impl<'a> LookCommand<'a> {
    /// A command reading `msg` against the players on line and the map.
    pub fn new(players: &'a PlayerTable, msg: &'a Message, nodes: &'a HashMap<u32, Node>) -> (r:
        Self)
        ensures
            r.players == players,
            r.msg == msg,
            r.nodes == nodes,
            r.out@ == Seq::<Action>::empty(),
    {
        LookCommand { players, msg, nodes, out: Vec::new() }
    }

    /// Shows the local map with the place's name in red; answers `ok`.
    pub fn do_localmaps(&mut self, node: &Node) -> (r: String)
        ensures
            r@ == "ok"@,
            final(self).players == old(self).players,
            final(self).msg == old(self).msg,
            final(self).nodes == old(self).nodes,
            action_views(final(self).out@) == action_views(old(self).out@).push(
                file_reply(old(self).msg.addr, node@.localmaps, RenderView::Highlight(node@.name), seq![]),
            ),
    {
        let reply = FileReply {
            addr: self.msg.addr,
            path: node.localmaps.clone(),
            render: Render::Highlight(node.name.clone()),
            suffix: String::new(),
        };
        let ghost before = action_views(self.out@);
        self.out.push(Action::SendFile(reply));
        assert(action_views(self.out@) =~= before.push(
            file_reply(old(self).msg.addr, node@.localmaps, RenderView::Highlight(node@.name), seq![]),
        ));
        String::from_str("ok")
    }

    /// Looks at a named thing of the place, or at the place itself (see `look_outcome`).
    pub fn do_look(&mut self, node: &Node) -> (r: String)
        requires
            word_or(old(self).msg.content@, 1, seq![]).len() + word_or(old(self).msg.content@, 2, seq![]).len() == 0
                ==> player_at(old(self).players.entries@, old(self).msg.addr) is Some,
        ensures
            final(self).players == old(self).players,
            final(self).msg == old(self).msg,
            final(self).nodes == old(self).nodes,
            look_outcome(
                old(self).players.entries@,
                node@,
                old(self).msg@,
                action_views(old(self).out@),
                action_views(final(self).out@),
                r@,
            ),
    {
        let ghost before = action_views(self.out@);
        proof {
            reveal_strlit("");
            assert(""@ =~= Seq::<char>::empty());
        }
        let target = word_or_exec(self.msg.content.as_str(), 1, "");
        let mut ret_cmd = String::from_str("look_");
        ret_cmd.append(target.as_str());
        let cmd2 = word_or_exec(self.msg.content.as_str(), 2, "");
        let mut cmd = target.clone();
        cmd.append(cmd2.as_str());
        if cmd.unicode_len() != 0 {
            match node.lookat.get(cmd.as_str()) {
                None => {
                    let m = wrap_message(self.msg.addr, String::from_str("要看什么?"));
                    self.out.push(Action::Send(m));
                    assert(action_views(self.out@) =~= before.push(say(old(self).msg.addr, "要看什么?"@)));
                    return String::new();
                },
                Some(view) => {
                    if contains_exec(view.as_str(), ".txt") {
                        let reply = FileReply {
                            addr: self.msg.addr,
                            path: view.clone(),
                            render: Render::Unescape,
                            suffix: String::new(),
                        };
                        self.out.push(Action::SendFile(reply));
                        assert(action_views(self.out@) =~= before.push(
                            file_reply(old(self).msg.addr, view@, RenderView::Unescape, seq![]),
                        ));
                    } else {
                        let shown = replace_exec(view.as_str(), "\\n", "\n");
                        let m = wrap_message(self.msg.addr, shown);
                        self.out.push(Action::Send(m));
                        assert(action_views(self.out@) =~= before.push(
                            say(old(self).msg.addr, replace(view@, "\\n"@, "\n"@)),
                        ));
                    }
                    return ret_cmd;
                },
            }
        }
        let player = match self.players.get(self.msg.addr) {
            Some(p) => p,
            None => {
                return String::new();
            },
        };
        let stage = if !node.openat.is_empty() {
            player.opened
        } else if !node.knockat.is_empty() {
            player.knocked
        } else {
            0
        };
        let look_book = match node.looks.get(&stage) {
            Some(a) => a.clone(),
            None => node.look.clone(),
        };
        let names = others_names(&self.players.entries, player.name.as_str(), player.pos);
        let reply = FileReply {
            addr: self.msg.addr,
            path: look_book,
            render: Render::Plain,
            suffix: names,
        };
        self.out.push(Action::SendFile(reply));
        assert(action_views(self.out@) =~= before.push(
            file_reply(
                old(self).msg.addr,
                stage_file(node@, view_stage(node@, *player)),
                RenderView::Plain,
                others_text(old(self).players.entries@, player.name@, player.pos),
            ),
        ));
        ret_cmd
    }

    /// Shows the place's list, if it has one; answers nothing.
    pub fn do_list(&mut self, node: &Node) -> (r: String)
        ensures
            r@ == Seq::<char>::empty(),
            final(self).players == old(self).players,
            final(self).msg == old(self).msg,
            final(self).nodes == old(self).nodes,
            action_views(final(self).out@) == action_views(old(self).out@).push(
                if node@.list.len() == 0 {
                    say(old(self).msg.addr, "什么？"@)
                } else {
                    file_reply(old(self).msg.addr, node@.list, RenderView::Unescape, seq![])
                },
            ),
    {
        let ghost before = action_views(self.out@);
        if node.list.unicode_len() == 0 {
            let m = wrap_message(self.msg.addr, String::from_str("什么？"));
            self.out.push(Action::Send(m));
        } else {
            let reply = FileReply {
                addr: self.msg.addr,
                path: node.list.clone(),
                render: Render::Unescape,
                suffix: String::new(),
            };
            self.out.push(Action::SendFile(reply));
        }
        assert(action_views(self.out@) =~= before.push(
            if node@.list.len() == 0 {
                say(old(self).msg.addr, "什么？"@)
            } else {
                file_reply(old(self).msg.addr, node@.list, RenderView::Unescape, seq![])
            },
        ));
        String::new()
    }

    /// Asks the client for its terminal type; answers nothing.
    pub fn do_start_gmcp(&mut self, node: &Node) -> (r: String)
        ensures
            r@ == Seq::<char>::empty(),
            final(self).players == old(self).players,
            final(self).msg == old(self).msg,
            final(self).nodes == old(self).nodes,
            action_views(final(self).out@) == action_views(old(self).out@).push(
                send(ext_msg(MessageType::IacDoTerm, old(self).msg.addr, "RUSTMUD version : OS v0.01 on port 7878."@)),
            ),
    {
        let m = wrap_message_ext(
            MessageType::IacDoTerm,
            self.msg.addr,
            String::from_str("RUSTMUD version : OS v0.01 on port 7878."),
        );
        let ghost before = action_views(self.out@);
        self.out.push(Action::Send(m));
        assert(action_views(self.out@) =~= before.push(
            send(ext_msg(MessageType::IacDoTerm, old(self).msg.addr, "RUSTMUD version : OS v0.01 on port 7878."@)),
        ));
        String::new()
    }

    /// Sends sample GMCP vitals; answers nothing.
    pub fn do_send_gmcp(&mut self, node: &Node) -> (r: String)
        ensures
            r@ == Seq::<char>::empty(),
            final(self).players == old(self).players,
            final(self).msg == old(self).msg,
            final(self).nodes == old(self).nodes,
            action_views(final(self).out@) == action_views(old(self).out@).push(
                send(ext_msg(MessageType::IacDoGmcp, old(self).msg.addr, "Player.Vital {\"hp\": 100, \"maxhp\": 500}"@)),
            ),
    {
        let m = wrap_message_ext(
            MessageType::IacDoGmcp,
            self.msg.addr,
            String::from_str("Player.Vital {\"hp\": 100, \"maxhp\": 500}"),
        );
        let ghost before = action_views(self.out@);
        self.out.push(Action::Send(m));
        assert(action_views(self.out@) =~= before.push(
            send(ext_msg(MessageType::IacDoGmcp, old(self).msg.addr, "Player.Vital {\"hp\": 100, \"maxhp\": 500}"@)),
        ));
        String::new()
    }

}

impl<'a> Command for LookCommand<'a> {
    /// What the command needs of the players on line.
    open spec fn ready(&self) -> bool {
        &&& player_at(self.players.entries@, self.msg.addr) is Some
    }

    /// What a run of the command does, answering `r`.
    open spec fn ran(&self, after: &Self, r: Seq<char>) -> bool {
        &&& after.players == self.players
        &&& after.msg == self.msg
        &&& after.nodes == self.nodes
        &&& look_command_outcome(
            self.players.entries@,
            self.nodes@,
            self.msg@,
            action_views(self.out@),
            action_views(after.out@),
            r,
        )
    }

    /// Runs a looking command (see `look_command_outcome`).
    fn execute(&mut self) -> (r: String)
    {
        let player = match self.players.get(self.msg.addr) {
            Some(p) => p,
            None => {
                return String::new();
            },
        };
        let node = match self.nodes.get(&player.pos) {
            Some(a) => a,
            None => {
                return String::from_str("no map!");
            },
        };
        let first = word_or_exec(self.msg.content.as_str(), 0, "none");
        let cmd = to_lower(first.as_str());
        let c = cmd.as_str();
        if str_eq(c, "localmaps") || str_eq(c, "lm") {
            self.do_localmaps(node)
        } else if str_eq(c, "l") || str_eq(c, "ls") || str_eq(c, "look") {
            self.do_look(node)
        } else if str_eq(c, "list") {
            self.do_list(node)
        } else if str_eq(c, "startgmcp") {
            self.do_start_gmcp(node)
        } else if str_eq(c, "xgmcp") {
            self.do_send_gmcp(node)
        } else {
            String::from_str("ok")
        }
    }
}

}
