use vstd::prelude::*;
use vstd::string::*;

use crate::action::{action_views, say, Action, ActionView};
use crate::channel::{wrap_message, Message};
use crate::text::str_eq;

verus! {

broadcast use vstd::string::group_string_axioms;

/// A step that follows a command, reading its answer.
pub trait PostProcess {
    /// Whether the step can run: what it needs of the answer and the state holds.
    spec fn ready(&self) -> bool;

    /// Whether a run of the step takes it to `after` and answers `r`.
    spec fn ran(&self, after: &Self, r: Seq<char>) -> bool;

    /// Runs the step and gives its answer.
    fn execute(&mut self) -> (r: String)
        requires
            old(self).ready(),
        ensures
            old(self).ran(final(self), r@),
    ;
}

/// What follows a command whose answer was `none`: the player is told there is no such
/// command.
pub struct ProcessNone<'a> {
    pub ret_str: String,
    pub msg: &'a Message,
    pub out: Vec<Action>,
}

impl<'a> ProcessNone<'a> {
    /// The step after a command that answered `ret_str` to `msg`.
    pub fn new(ret_str: String, msg: &'a Message) -> (r: Self)
        ensures
            r.ret_str == ret_str,
            r.msg == msg,
            r.out@ == Seq::<Action>::empty(),
    {
        ProcessNone { ret_str, msg, out: Vec::new() }
    }

}

impl<'a> PostProcess for ProcessNone<'a> {
    /// What the step needs of the answer and the players.
    open spec fn ready(&self) -> bool {
        true
    }

    /// What a run of the step does, answering `r`.
    open spec fn ran(&self, after: &Self, r: Seq<char>) -> bool {
        &&& r == Seq::<char>::empty()
        &&& after.ret_str == self.ret_str
        &&& after.msg == self.msg
        &&& action_views(after.out@) == if self.ret_str@ == "none"@ {
            action_views(self.out@).push(
                say(self.msg.addr, "There is no match command."@),
            )
        } else {
            action_views(self.out@)
        }
    }

    /// Tells the player there is no matching command when the answer was `none`; answers
    /// nothing.
    fn execute(&mut self) -> (r: String)
    {
        if str_eq(self.ret_str.as_str(), "none") {
            let ghost before = action_views(self.out@);
            let m = wrap_message(self.msg.addr, String::from_str("There is no match command."));
            self.out.push(Action::Send(m));
            assert(action_views(self.out@) =~= before.push(
                say(old(self).msg.addr, "There is no match command."@),
            ));
        }
        String::new()
    }
}

}
