use vstd::prelude::*;

use crate::command_chat::ChatCommand;
use crate::command_climb::ClimbCommand;
use crate::command_fight::FightCommand;
use crate::command_friend::FriendCommand;
use crate::command_hp::HpCommand;
use crate::command_look::LookCommand;
use crate::command_map::MapCommand;
use crate::command_quest::QuestCommand;
use crate::command_walk::WalkCommand;
use crate::command_x::XCommand;

verus! {

/// A player's command.
pub trait Command {
    /// Whether the command can run: what it needs of the state it reads holds.
    spec fn ready(&self) -> bool;

    /// Whether a run of the command takes it to `after` and answers `r`.
    spec fn ran(&self, after: &Self, r: Seq<char>) -> bool;

    /// Runs the command and gives its answer.
    fn execute(&mut self) -> (r: String)
        requires
            old(self).ready(),
        ensures
            old(self).ran(final(self), r@),
    ;
}

/// The command that does nothing.
pub struct EmptyCommand {}

impl EmptyCommand {
    /// The command that does nothing.
    pub fn new() -> (r: Self) {
        EmptyCommand {}
    }
}

impl Command for EmptyCommand {
    /// It can always run.
    open spec fn ready(&self) -> bool {
        true
    }

    /// It answers nothing.
    open spec fn ran(&self, after: &Self, r: Seq<char>) -> bool {
        r == Seq::<char>::empty()
    }

    /// Answers nothing.
    fn execute(&mut self) -> (r: String) {
        String::new()
    }
}

/// One of the game's commands.
pub enum Commands<'a> {
    Empty(EmptyCommand),
    Hp(HpCommand<'a>),
    Quest(QuestCommand<'a>),
    Look(LookCommand<'a>),
    Fight(FightCommand<'a>),
    Walk(WalkCommand<'a>),
    Climb(ClimbCommand<'a>),
    Chat(ChatCommand<'a>),
    Friend(FriendCommand<'a>),
    Gmcp(MapCommand<'a>),
    X(XCommand),
}

impl<'a> Command for Commands<'a> {
    /// The held command can run.
    open spec fn ready(&self) -> bool {
        match self {
            Commands::Empty(c) => c.ready(),
            Commands::Hp(c) => c.ready(),
            Commands::Quest(c) => c.ready(),
            Commands::Look(c) => c.ready(),
            Commands::Fight(c) => c.ready(),
            Commands::Walk(c) => c.ready(),
            Commands::Climb(c) => c.ready(),
            Commands::Chat(c) => c.ready(),
            Commands::Friend(c) => c.ready(),
            Commands::Gmcp(c) => c.ready(),
            Commands::X(c) => c.ready(),
        }
    }

    /// The held command ran, and is still the one held.
    open spec fn ran(&self, after: &Self, r: Seq<char>) -> bool {
        match (self, after) {
            (Commands::Empty(c), Commands::Empty(d)) => c.ran(d, r),
            (Commands::Hp(c), Commands::Hp(d)) => c.ran(d, r),
            (Commands::Quest(c), Commands::Quest(d)) => c.ran(d, r),
            (Commands::Look(c), Commands::Look(d)) => c.ran(d, r),
            (Commands::Fight(c), Commands::Fight(d)) => c.ran(d, r),
            (Commands::Walk(c), Commands::Walk(d)) => c.ran(d, r),
            (Commands::Climb(c), Commands::Climb(d)) => c.ran(d, r),
            (Commands::Chat(c), Commands::Chat(d)) => c.ran(d, r),
            (Commands::Friend(c), Commands::Friend(d)) => c.ran(d, r),
            (Commands::Gmcp(c), Commands::Gmcp(d)) => c.ran(d, r),
            (Commands::X(c), Commands::X(d)) => c.ran(d, r),
            _ => false,
        }
    }

    /// Runs the held command.
    fn execute(&mut self) -> (r: String) {
        match self {
            Commands::Empty(c) => c.execute(),
            Commands::Hp(c) => c.execute(),
            Commands::Quest(c) => c.execute(),
            Commands::Look(c) => c.execute(),
            Commands::Fight(c) => c.execute(),
            Commands::Walk(c) => c.execute(),
            Commands::Climb(c) => c.execute(),
            Commands::Chat(c) => c.execute(),
            Commands::Friend(c) => c.execute(),
            Commands::Gmcp(c) => c.execute(),
            Commands::X(c) => c.execute(),
        }
    }
}

/// The command an invoker holds after `Invoker::new` and then `Invoker::set` with each of
/// `sets` in turn: the last one set, or the command that does nothing.
pub open spec fn held_after<'a>(sets: Seq<Commands<'a>>) -> Commands<'a> {
    if sets.len() == 0 {
        Commands::Empty(EmptyCommand {})
    } else {
        sets.last()
    }
}

/// Holds the command to run next.
pub struct Invoker<'a> {
    pub command: Commands<'a>,
}

impl<'a> Invoker<'a> {
    /// An invoker holding the command that does nothing.
    pub fn new() -> (r: Self)
        ensures
            r.command == held_after(Seq::<Commands<'a>>::empty()),
    {
        Invoker { command: Commands::Empty(EmptyCommand::new()) }
    }

    /// Holds `command` next: after the commands `sets` were set, the invoker holds
    /// `held_after(sets.push(command))`.
    pub fn set(&mut self, command: Commands<'a>)
        ensures
            final(self).command == command,
            forall|sets: Seq<Commands<'a>>| #[trigger] held_after(sets.push(command)) == final(self).command,
    {
        self.command = command;
    }

    /// Runs the held command and gives its answer.
    pub fn execute(&mut self) -> (r: String)
        requires
            old(self).command.ready(),
        ensures
            old(self).command.ran(&final(self).command, r@),
    {
        self.command.execute()
    }
}

}
