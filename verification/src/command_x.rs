use vstd::prelude::*;
use vstd::string::*;

use crate::command::Command;
use crate::channel::{Message, MessageView};
use crate::player::{player_at, PlayerTable};

verus! {

broadcast use vstd::string::group_string_axioms;

/// A command that holds its own copy of the players.
pub struct XCommand {
    pub players: PlayerTable,
    pub msg: Message,
}

impl XCommand {
    /// A command with no players and an empty message.
    pub fn new() -> (r: Self)
        ensures
            r.players.entries@.len() == 0,
            r.msg@ == Message::new_spec(),
    {
        XCommand { players: PlayerTable::new(), msg: Message::new() }
    }

    /// Replaces the command's players.
    pub fn set_players(&mut self, players: PlayerTable)
        ensures
            final(self).players == players,
            final(self).msg == old(self).msg,
    {
        self.players = players;
    }
}

impl Command for XCommand {
    /// It can always run.
    open spec fn ready(&self) -> bool {
        true
    }

    /// It answers `no` when no player is on the message's connection, nothing otherwise.
    open spec fn ran(&self, after: &Self, r: Seq<char>) -> bool {
        &&& after == self
        &&& r == (if player_at(self.players.entries@, self.msg.addr) is Some {
            Seq::<char>::empty()
        } else {
            "no"@
        })
    }

    /// Answers `no` when no player is on the message's connection, nothing otherwise.
    fn execute(&mut self) -> (r: String) {
        match self.players.get(self.msg.addr) {
            Some(_p) => String::new(),
            None => String::from_str("no"),
        }
    }
}

}
