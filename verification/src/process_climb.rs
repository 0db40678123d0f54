use vstd::prelude::*;
use vstd::string::*;

use crate::process::PostProcess;
use crate::channel::Message;
use crate::player::{has_named, has_named_exec, update_named, Player, PlayerTable};
use crate::service::LoginInfo;
use crate::text::{contains, contains_exec, parse_u32, parse_u32_exec, piece_or, split, split_str, str_eq, views};

verus! {

broadcast use vstd::string::group_string_axioms;

/// What follows a lasting action (`climb`, `knock`, `open`, `sleep`): the player's state of
/// that action, and for a climb the place reached.
pub struct ProcessClimb<'a> {
    pub ret_str: String,
    pub players: &'a mut PlayerTable,
    pub login_info: &'a LoginInfo,
    pub msg: &'a Message,
}

/// Word `i` of an answer split at single spaces, or `0`.
pub open spec fn ret_word(ret: Seq<char>, i: int) -> Seq<char> {
    piece_or(split(ret, seq![' ']), i, "0"@)
}

/// Whether the answer reports a state of knocking, opening or sleeping.
pub open spec fn state_marked(ret: Seq<char>) -> bool {
    contains(ret, "knocked"@) || contains(ret, "opened"@) || contains(ret, "sleep"@)
}

/// A player after a `climbing <state> _ <place>` answer: the climbing state set, and on the
/// place unless it is `0`.
pub open spec fn climbed(p: Player, ret: Seq<char>) -> Player {
    Player {
        climbing: parse_u32(ret_word(ret, 1)).unwrap() as u32,
        pos: if ret_word(ret, 3) == "0"@ {
            p.pos
        } else {
            parse_u32(ret_word(ret, 3)).unwrap() as u32
        },
        ..p
    }
}

/// A player after a `knocked|opened|sleep <state>` answer: the first of these states the
/// answer names is set.
pub open spec fn state_set(p: Player, ret: Seq<char>) -> Player {
    let v = parse_u32(ret_word(ret, 1)).unwrap() as u32;
    if contains(ret, "knocked"@) {
        Player { knocked: v, ..p }
    } else if contains(ret, "opened"@) {
        Player { opened: v, ..p }
    } else {
        Player { sleep: v, ..p }
    }
}

/// The entries after the answer `ret` for the players named `name`.
pub open spec fn after_lasting(es: Seq<(u64, Player)>, name: Seq<char>, ret: Seq<char>) -> Seq<
    (u64, Player),
> {
    let es1 = if contains(ret, "climbing"@) {
        update_named(es, name, |p: Player| climbed(p, ret))
    } else {
        es
    };
    if state_marked(ret) {
        update_named(es1, name, |p: Player| state_set(p, ret))
    } else {
        es1
    }
}

/// Whether the numbers of the answer can be read wherever they are needed.
pub open spec fn lasting_safe(es: Seq<(u64, Player)>, name: Seq<char>, ret: Seq<char>) -> bool {
    has_named(es, name) ==> {
        &&& (contains(ret, "climbing"@) || state_marked(ret)) ==> parse_u32(ret_word(ret, 1)) is Some
        &&& (contains(ret, "climbing"@) && ret_word(ret, 3) != "0"@) ==> parse_u32(ret_word(ret, 3)) is Some
    }
}

/// Whether the numbers of a lasting-action answer can be read (see `lasting_safe`).
pub fn lasting_safe_exec(es: &Vec<(u64, Player)>, name: &str, ret: &str) -> (b: bool)
    ensures
        b == lasting_safe(es@, name@, ret@),
{
    proof {
        reveal_strlit(" ");
        reveal_strlit("0");
        assert(" "@ =~= seq![' ']);
    }
    if !has_named_exec(es, name) {
        return true;
    }
    let words = split_str(ret, " ");
    let status = if words.len() > 1 {
        assert(views(words@)[1] == words@[1]@);
        words[1].clone()
    } else {
        String::from_str("0")
    };
    let new_pos = if words.len() > 3 {
        assert(views(words@)[3] == words@[3]@);
        words[3].clone()
    } else {
        String::from_str("0")
    };
    let climbing = contains_exec(ret, "climbing");
    let marked = contains_exec(ret, "knocked") || contains_exec(ret, "opened") || contains_exec(ret, "sleep");
    let status_ok = !(climbing || marked) || parse_u32_exec(status.as_str()).is_some();
    let pos_ok = !climbing || str_eq(new_pos.as_str(), "0") || parse_u32_exec(new_pos.as_str()).is_some();
    status_ok && pos_ok
}

impl<'a> ProcessClimb<'a> {
    /// The step after a command that answered `ret_str`, for the player logged in as
    /// `login_info`.
    pub fn new(
        ret_str: String,
        players: &'a mut PlayerTable,
        login_info: &'a LoginInfo,
        msg: &'a Message,
    ) -> (r: Self)
        ensures
            r.ret_str == ret_str,
            *r.players == *old(players),
            *final(r.players) == *final(players),
            r.login_info == login_info,
            r.msg == msg,
    {
        ProcessClimb { ret_str, players, login_info, msg }
    }

}

impl<'a> PostProcess for ProcessClimb<'a> {
    /// What the step needs of the answer and the players.
    open spec fn ready(&self) -> bool {
        &&& lasting_safe(
            self.players.entries@,
            self.login_info.login.login_name@,
            self.ret_str@,
        )
    }

    /// What a run of the step does, answering `r`.
    open spec fn ran(&self, after: &Self, r: Seq<char>) -> bool {
        &&& r == Seq::<char>::empty()
        &&& after.ret_str == self.ret_str
        &&& after.login_info == self.login_info
        &&& after.msg == self.msg
        &&& after.players.entries@ == after_lasting(
            self.players.entries@,
            self.login_info.login.login_name@,
            self.ret_str@,
        )
    }

    /// Keeps the states the answer reports (see `after_lasting`); answers nothing.
    fn execute(&mut self) -> (r: String)
        ensures
            *final(final(self).players) == *final(old(self).players),
    {
        proof {
            reveal_strlit(" ");
            reveal_strlit("0");
            assert(" "@ =~= seq![' ']);
        }
        let ghost name = self.login_info.login.login_name@;
        let ghost ret = self.ret_str@;
        let ghost es = self.players.entries@;
        let words = split_str(self.ret_str.as_str(), " ");
        let status = if words.len() > 1 {
            assert(views(words@)[1] == words@[1]@);
            words[1].clone()
        } else {
            String::from_str("0")
        };
        let new_pos = if words.len() > 3 {
            assert(views(words@)[3] == words@[3]@);
            words[3].clone()
        } else {
            String::from_str("0")
        };
        let climbing = contains_exec(self.ret_str.as_str(), "climbing");
        let ghost es1 = if climbing {
            update_named(es, name, |p: Player| climbed(p, ret))
        } else {
            es
        };
        if climbing {
            let n = self.players.entries.len();
            let mut i: usize = 0;
            while i < n
                invariant
                    n == es.len(),
                    i <= n,
                    name == self.login_info.login.login_name@,
                    ret == old(self).ret_str@,
                    status@ == ret_word(ret, 1),
                    new_pos@ == ret_word(ret, 3),
                    self.ret_str == old(self).ret_str,
                    self.login_info == old(self).login_info,
                    self.msg == old(self).msg,
                    *final(self.players) == *final(old(self).players),
                    es == old(self).players.entries@,
                    es1 == update_named(es, name, |p: Player| climbed(p, ret)),
                    lasting_safe(es, name, ret),
                    contains(ret, "climbing"@),
                    self.players.entries@.len() == n,
                    forall|j: int| 0 <= j < i ==> self.players.entries@[j] == es1[j],
                    forall|j: int| i <= j < n ==> self.players.entries@[j] == es[j],
                decreases n - i,
            {
                if str_eq(self.players.entries[i].1.name.as_str(), self.login_info.login.login_name.as_str()) {
                    proof {
                        assert(has_named(es, name)) by {
                            assert(es[i as int].1.name@ == name);
                        }
                    }
                    let (a, mut p) = self.players.entries.remove(i);
                    p.climbing = match parse_u32_exec(status.as_str()) {
                        Some(v) => v,
                        None => p.climbing,
                    };
                    if !str_eq(new_pos.as_str(), "0") {
                        p.pos = match parse_u32_exec(new_pos.as_str()) {
                            Some(v) => v,
                            None => p.pos,
                        };
                    }
                    self.players.entries.insert(i, (a, p));
                }
                i += 1;
            }
            assert(self.players.entries@ =~= es1);
        }
        let knocked = contains_exec(self.ret_str.as_str(), "knocked");
        let opened = contains_exec(self.ret_str.as_str(), "opened");
        let sleep = contains_exec(self.ret_str.as_str(), "sleep");
        if knocked || opened || sleep {
            let ghost es2 = update_named(es1, name, |p: Player| state_set(p, ret));
            let n = self.players.entries.len();
            let mut i: usize = 0;
            while i < n
                invariant
                    n == es1.len(),
                    es1.len() == es.len(),
                    forall|j: int| 0 <= j < es.len() ==> (#[trigger] es1[j]).1.name@ == es[j].1.name@,
                    i <= n,
                    name == self.login_info.login.login_name@,
                    ret == old(self).ret_str@,
                    status@ == ret_word(ret, 1),
                    knocked == contains(ret, "knocked"@),
                    opened == contains(ret, "opened"@),
                    self.ret_str == old(self).ret_str,
                    self.login_info == old(self).login_info,
                    self.msg == old(self).msg,
                    *final(self.players) == *final(old(self).players),
                    es == old(self).players.entries@,
                    es2 == update_named(es1, name, |p: Player| state_set(p, ret)),
                    lasting_safe(es, name, ret),
                    state_marked(ret),
                    self.players.entries@.len() == n,
                    forall|j: int| 0 <= j < i ==> self.players.entries@[j] == es2[j],
                    forall|j: int| i <= j < n ==> self.players.entries@[j] == es1[j],
                decreases n - i,
            {
                if str_eq(self.players.entries[i].1.name.as_str(), self.login_info.login.login_name.as_str()) {
                    proof {
                        assert(has_named(es, name)) by {
                            assert(es1[i as int].1.name@ == es[i as int].1.name@);
                            assert(es[i as int].1.name@ == name);
                        }
                    }
                    let (a, mut p) = self.players.entries.remove(i);
                    let v = match parse_u32_exec(status.as_str()) {
                        Some(v) => v,
                        None => 0,
                    };
                    if knocked {
                        p.knocked = v;
                    } else if opened {
                        p.opened = v;
                    } else {
                        p.sleep = v;
                    }
                    self.players.entries.insert(i, (a, p));
                }
                i += 1;
            }
            assert(self.players.entries@ =~= es2);
        }
        String::new()
    }
}

}
