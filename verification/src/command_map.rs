use std::collections::HashMap;
use vstd::prelude::*;
use vstd::string::*;

use crate::command::Command;
use crate::action::{action_views, send, Action, ActionView};
use crate::channel::{ext_msg, wrap_message_ext, Message, MessageType, MessageView};
use crate::factory_mapfiles::MapFiles;
use crate::map::Node;
use crate::player::{player_at, Player, PlayerTable};
use crate::text::{lower, replace, replace_exec, to_lower};

verus! {

broadcast use {vstd::string::group_string_axioms, vstd::std_specs::hash::group_hash_axioms};

/// The `map` command: the player's local map for the client's map pane.
pub struct MapCommand<'a> {
    pub players: &'a PlayerTable,
    pub msg: &'a Message,
    pub msg_type: String,
    pub nodes: &'a HashMap<u32, Node>,
    pub mapfiles: &'a MapFiles,
    pub out: Vec<Action>,
}

/// The GMCP map message: the map text with the place's name marked in yellow.
pub open spec fn map_view(map_text: Seq<char>, place: Seq<char>) -> Seq<char> {
    "\n            Map "@ + "{\"content\" : \""@ + replace(
        map_text,
        place,
        "<span style='color: yellow'>"@ + place + "</span>"@,
    ) + "\"}"@
}

/// The map sent to `addr` for the player on the message's connection: that of the place
/// they stand on, when the place and its map file are known; else nothing is sent.
pub open spec fn map_actions(
    es: Seq<(u64, Player)>,
    nodes: Map<u32, Node>,
    files: Map<Seq<char>, (Seq<char>, Seq<char>)>,
    msg: MessageView,
    addr: u64,
    before: Seq<ActionView>,
) -> Seq<ActionView> {
    let p = player_at(es, msg.addr).unwrap();
    if nodes.contains_key(p.pos) && files.contains_key(nodes[p.pos].localmaps_gmcp@) {
        let node = nodes[p.pos];
        before.push(
            send(
                ext_msg(
                    MessageType::IacDoGmcp,
                    addr,
                    map_view(files[node.localmaps_gmcp@].0, node.name@),
                ),
            ),
        )
    } else {
        before
    }
}

impl<'a> MapCommand<'a> {
    /// A command reading `msg` against the players on line, the map and the map files.
    pub fn new(
        players: &'a PlayerTable,
        msg: &'a Message,
        nodes: &'a HashMap<u32, Node>,
        mapfiles: &'a MapFiles,
    ) -> (r: Self)
        ensures
            r.players == players,
            r.msg == msg,
            r.msg_type@ == Seq::<char>::empty(),
            r.nodes == nodes,
            r.mapfiles == mapfiles,
            r.out@ == Seq::<Action>::empty(),
    {
        MapCommand { players, msg, msg_type: String::new(), nodes, mapfiles, out: Vec::new() }
    }

    /// Sends the map to `addr` (see `map_actions`); the answer is empty.
    pub fn send_msg(&mut self, addr: u64, message: &str) -> (r: String)
        requires
            player_at(old(self).players.entries@, old(self).msg.addr) is Some,
        ensures
            r@ == Seq::<char>::empty(),
            final(self).players == old(self).players,
            final(self).msg == old(self).msg,
            final(self).msg_type == old(self).msg_type,
            final(self).nodes == old(self).nodes,
            final(self).mapfiles == old(self).mapfiles,
            action_views(final(self).out@) == map_actions(
                old(self).players.entries@,
                old(self).nodes@,
                old(self).mapfiles@,
                old(self).msg@,
                addr,
                action_views(old(self).out@),
            ),
    {
        let ghost before = action_views(self.out@);
        let player = match self.players.get(self.msg.addr) {
            Some(p) => p,
            None => {
                return String::new();
            },
        };
        let cur_node = match self.nodes.get(&player.pos) {
            Some(a) => a,
            None => {
                return String::new();
            },
        };
        let mapfile = match self.mapfiles.get(cur_node.localmaps_gmcp.as_str()) {
            Some(a) => a,
            None => {
                return String::new();
            },
        };
        let mut marked = String::from_str("<span style='color: yellow'>");
        marked.append(cur_node.name.as_str());
        marked.append("</span>");
        let new_content = replace_exec(mapfile.content.as_str(), cur_node.name.as_str(), marked.as_str());
        let mut view = String::from_str("\n            Map ");
        view.append("{\"content\" : \"");
        view.append(new_content.as_str());
        view.append("\"}");
        let ghost v = view@;
        let m = wrap_message_ext(MessageType::IacDoGmcp, addr, view);
        self.out.push(Action::Send(m));
        assert(action_views(self.out@) =~= before.push(send(ext_msg(MessageType::IacDoGmcp, addr, v))));
        String::new()
    }

}

impl<'a> Command for MapCommand<'a> {
    /// What the command needs of the players on line.
    open spec fn ready(&self) -> bool {
        &&& player_at(self.players.entries@, self.msg.addr) is Some
    }

    /// What a run of the command does, answering `r`.
    open spec fn ran(&self, after: &Self, r: Seq<char>) -> bool {
        &&& after.players == self.players
        &&& after.msg == self.msg
        &&& after.nodes == self.nodes
        &&& after.mapfiles == self.mapfiles
        &&& after.msg_type@ == lower(self.msg.content@)
        &&& r == self.msg.content@
        &&& action_views(after.out@) == map_actions(
            self.players.entries@,
            self.nodes@,
            self.mapfiles@,
            self.msg@,
            self.msg.addr,
            action_views(self.out@),
        )
    }

    /// Takes the message type from the message, lower-cased, sends the map to the sender and
    /// answers the message's text.
    fn execute(&mut self) -> (r: String)
    {
        self.msg_type = to_lower(self.msg.content.as_str());
        let _answer = self.send_msg(self.msg.addr, "");
        self.msg.content.clone()
    }
}

}
