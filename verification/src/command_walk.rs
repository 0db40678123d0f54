use std::collections::HashMap;
use vstd::prelude::*;
use vstd::string::*;

use crate::command::Command;
use crate::action::{
    action_views, file_reply, others_names, others_text, say, send, Action, ActionView, FileReply,
    Render, RenderView,
};
use crate::channel::{
    ext_msg, timer_msg, wrap_message, wrap_message_ext, wrap_message_timer, Message, MessageType,
    MessageView,
};
use crate::command_look::{view_stage};
use crate::map::{Node, NodeView};
use crate::player::{player_at, Player, PlayerTable};
use crate::text::{int_text, str_eq, u64_text};

verus! {

broadcast use {vstd::string::group_string_axioms, vstd::std_specs::hash::group_hash_axioms};

/// The walking commands: `e`, `w`, `s`, `n`, `se`, `sw`, `ne`, `nw`.
pub struct WalkCommand<'a> {
    pub players: &'a PlayerTable,
    pub msg: &'a Message,
    pub nodes: &'a HashMap<u32, Node>,
    pub new_pos: u32,
    pub out: Vec<Action>,
}

/// The exit at a stage: the staged exit if there is one, else the plain exit.
pub open spec fn exit_at(staged: Map<u32, u32>, stage: u32, plain: u32) -> u32 {
    if staged.contains_key(stage) {
        staged[stage]
    } else {
        plain
    }
}

/// Where a walking word leads from a place at a stage; 0 for no way (or no walking word).
pub open spec fn walk_target(node: NodeView, stage: u32, word: Seq<char>) -> u32 {
    if word == "e"@ {
        exit_at(node.easts, stage, node.east_id)
    } else if word == "w"@ {
        exit_at(node.wests, stage, node.west_id)
    } else if word == "s"@ {
        exit_at(node.souths, stage, node.south_id)
    } else if word == "n"@ {
        exit_at(node.norths, stage, node.north_id)
    } else if word == "se"@ {
        exit_at(node.southeasts, stage, node.southeast_id)
    } else if word == "sw"@ {
        exit_at(node.southwests, stage, node.southwest_id)
    } else if word == "ne"@ {
        exit_at(node.northeasts, stage, node.northeast_id)
    } else if word == "nw"@ {
        exit_at(node.northwests, stage, node.northwest_id)
    } else {
        0
    }
}

/// The GMCP map a client is sent for a place: its local map with the place's name in yellow.
pub open spec fn gmcp_map_reply(addr: u64, node: NodeView) -> ActionView {
    file_reply(addr, node.localmaps_gmcp, RenderView::GmcpMap(node.name), seq![])
}

/// The actions before arriving: stopping the player's running timer, if any.
pub open spec fn stop_timer(p: Player, addr: u64) -> Seq<ActionView> {
    if p.timer_id != 0 {
        seq![ActionView::Combat(timer_msg(MessageType::CombatStop, addr, "stop"@, int_text(p.timer_id as int)))]
    } else {
        seq![]
    }
}

/// What a walking command does. A player who is climbing or asleep is told to finish first.
/// Otherwise a running timer is stopped, the exit for the word is taken (the player is told
/// when there is none), and on arrival the player gets the new place's GMCP map and its view
/// (at the player's knocked stage) with the other players there. The answer is the word, `@`
/// and the new position; `no map!` when the start or the end is not on the map. Only a walk
/// that arrives changes the command's position (`old_pos` before, `new_pos` after).
pub open spec fn walk_outcome(
    es: Seq<(u64, Player)>,
    nodes: Map<u32, Node>,
    msg: MessageView,
    before: Seq<ActionView>,
    after: Seq<ActionView>,
    ret: Seq<char>,
    old_pos: u32,
    new_pos: u32,
) -> bool {
    let p = player_at(es, msg.addr).unwrap();
    let addr = msg.addr;
    if p.climbing == 1 || p.sleep == 1 {
        &&& ret == Seq::<char>::empty()
        &&& new_pos == old_pos
        &&& after == before.push(say(addr, "你的动作还没有完成，不能移动。"@))
    } else if !nodes.contains_key(p.pos) {
        &&& ret == "no map!"@
        &&& new_pos == old_pos
        &&& after == before + stop_timer(p, addr)
    } else {
        let node = nodes[p.pos]@;
        let target = walk_target(node, view_stage(node, p), msg.content);
        let no_way = if target == 0 {
            seq![send(ext_msg(MessageType::Sender, addr, "这里没有路"@))]
        } else {
            seq![]
        };
        if !nodes.contains_key(target) {
            &&& ret == "no map!"@
            &&& new_pos == old_pos
            &&& after == before + stop_timer(p, addr) + no_way
        } else {
            let dest = nodes[target]@;
            let look_book = if dest.looks.contains_key(p.knocked) {
                dest.looks[p.knocked]
            } else {
                dest.look
            };
            &&& ret == msg.content + "@"@ + int_text(target as int)
            &&& new_pos == target
            &&& after == before + stop_timer(p, addr) + no_way + seq![
                gmcp_map_reply(addr, dest),
                file_reply(addr, look_book, RenderView::Plain, others_text(es, p.name@, target)),
            ]
        }
    }
}

impl<'a> WalkCommand<'a> {
    /// A command reading `msg` against the players on line and the map.
    pub fn new(players: &'a PlayerTable, msg: &'a Message, nodes: &'a HashMap<u32, Node>) -> (r:
        Self)
        ensures
            r.players == players,
            r.msg == msg,
            r.nodes == nodes,
            r.new_pos == 0,
            r.out@ == Seq::<Action>::empty(),
    {
        WalkCommand { players, msg, nodes, new_pos: 0, out: Vec::new() }
    }

    /// Sends the GMCP map of the place the command leads to, if it is on the map (the
    /// arguments are not read); answers nothing.
    pub fn send_msg(&mut self, addr: u64, message: &str) -> (r: String)
        ensures
            r@ == Seq::<char>::empty(),
            final(self).players == old(self).players,
            final(self).msg == old(self).msg,
            final(self).nodes == old(self).nodes,
            final(self).new_pos == old(self).new_pos,
            action_views(final(self).out@) == action_views(old(self).out@) + if old(self).nodes@.contains_key(old(self).new_pos) {
                seq![gmcp_map_reply(old(self).msg.addr, old(self).nodes@[old(self).new_pos]@)]
            } else {
                seq![]
            },
    {
        let ghost before = action_views(self.out@);
        let cur_node = match self.nodes.get(&self.new_pos) {
            Some(a) => a,
            None => {
                assert(action_views(self.out@) =~= before + seq![]);
                return String::new();
            },
        };
        let reply = FileReply {
            addr: self.msg.addr,
            path: cur_node.localmaps_gmcp.clone(),
            render: Render::GmcpMap(cur_node.name.clone()),
            suffix: String::new(),
        };
        self.out.push(Action::SendFile(reply));
        assert(action_views(self.out@) =~= before + seq![gmcp_map_reply(old(self).msg.addr, old(self).nodes@[old(self).new_pos]@)]);
        String::new()
    }

}

impl<'a> Command for WalkCommand<'a> {
    /// What the command needs of the players on line.
    open spec fn ready(&self) -> bool {
        &&& player_at(self.players.entries@, self.msg.addr) is Some
    }

    /// What a run of the command does, answering `r`.
    open spec fn ran(&self, after: &Self, r: Seq<char>) -> bool {
        &&& after.players == self.players
        &&& after.msg == self.msg
        &&& after.nodes == self.nodes
        &&& walk_outcome(
            self.players.entries@,
            self.nodes@,
            self.msg@,
            action_views(self.out@),
            action_views(after.out@),
            r,
            self.new_pos,
            after.new_pos,
        )
    }

    /// Walks the player (see `walk_outcome`).
    fn execute(&mut self) -> (r: String)
    {
        let ghost before = action_views(self.out@);
        let player = match self.players.get(self.msg.addr) {
            Some(p) => p,
            None => {
                return String::new();
            },
        };
        let addr = self.msg.addr;
        if player.climbing == 1 || player.sleep == 1 {
            let m = wrap_message(addr, String::from_str("你的动作还没有完成，不能移动。"));
            self.out.push(Action::Send(m));
            assert(action_views(self.out@) =~= before.push(say(addr, "你的动作还没有完成，不能移动。"@)));
            return String::new();
        }
        if player.timer_id != 0 {
            let id = u64_text(player.timer_id as u64);
            let m = wrap_message_timer(MessageType::CombatStop, addr, String::from_str("stop"), id);
            self.out.push(Action::Combat(m));
        }
        assert(action_views(self.out@) =~= before + stop_timer(*player, addr));
        let ghost stopped = action_views(self.out@);
        let node = match self.nodes.get(&player.pos) {
            Some(a) => a,
            None => {
                return String::from_str("no map!");
            },
        };
        let stage = if !node.openat.is_empty() {
            player.opened
        } else if !node.knockat.is_empty() {
            player.knocked
        } else {
            0
        };
        let east_id = match node.easts.get(&stage) { Some(a) => *a, None => node.east_id };
        let west_id = match node.wests.get(&stage) { Some(a) => *a, None => node.west_id };
        let south_id = match node.souths.get(&stage) { Some(a) => *a, None => node.south_id };
        let north_id = match node.norths.get(&stage) { Some(a) => *a, None => node.north_id };
        let northeast_id = match node.northeasts.get(&stage) { Some(a) => *a, None => node.northeast_id };
        let northwest_id = match node.northwests.get(&stage) { Some(a) => *a, None => node.northwest_id };
        let southeast_id = match node.southeasts.get(&stage) { Some(a) => *a, None => node.southeast_id };
        let southwest_id = match node.southwests.get(&stage) { Some(a) => *a, None => node.southwest_id };
        let c = self.msg.content.as_str();
        let new_pos: u32 = if str_eq(c, "e") {
            east_id
        } else if str_eq(c, "w") {
            west_id
        } else if str_eq(c, "s") {
            south_id
        } else if str_eq(c, "n") {
            north_id
        } else if str_eq(c, "se") {
            southeast_id
        } else if str_eq(c, "sw") {
            southwest_id
        } else if str_eq(c, "ne") {
            northeast_id
        } else if str_eq(c, "nw") {
            northwest_id
        } else {
            0
        };
        assert(new_pos == walk_target(node@, view_stage(node@, *player), self.msg.content@));
        if new_pos == 0 {
            let m = wrap_message_ext(MessageType::Sender, addr, String::from_str("这里没有路"));
            self.out.push(Action::Send(m));
        }
        let ghost no_way = if new_pos == 0 {
            seq![send(ext_msg(MessageType::Sender, addr, "这里没有路"@))]
        } else {
            seq![]
        };
        assert(action_views(self.out@) =~= stopped + no_way);
        let dest = match self.nodes.get(&new_pos) {
            Some(a) => a,
            None => {
                return String::from_str("no map!");
            },
        };
        let look_book = match dest.looks.get(&player.knocked) {
            Some(a) => a.clone(),
            None => dest.look.clone(),
        };
        self.new_pos = new_pos;
        let ghost mid = action_views(self.out@);
        self.send_msg(addr, "");
        assert(action_views(self.out@) == mid + seq![gmcp_map_reply(addr, dest@)]);
        let names = others_names(&self.players.entries, player.name.as_str(), new_pos);
        let reply = FileReply { addr, path: look_book, render: Render::Plain, suffix: names };
        let ghost mid2 = action_views(self.out@);
        self.out.push(Action::SendFile(reply));
        assert(action_views(self.out@) == mid2.push(
            file_reply(addr, look_book@, RenderView::Plain, others_text(old(self).players.entries@, player.name@, new_pos)),
        ));
        assert(action_views(self.out@) =~= before + stop_timer(*player, addr) + no_way + seq![
            gmcp_map_reply(addr, dest@),
            file_reply(addr, look_book@, RenderView::Plain, others_text(old(self).players.entries@, player.name@, new_pos)),
        ]);
        let mut ret = self.msg.content.clone();
        ret.append("@");
        let pos_text = u64_text(new_pos as u64);
        ret.append(pos_text.as_str());
        ret
    }
}

}
