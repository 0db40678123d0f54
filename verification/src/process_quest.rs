use std::collections::HashMap;
use vstd::prelude::*;
use vstd::std_specs::iter::IteratorSpec;
use vstd::string::*;

use crate::process::PostProcess;
use crate::action::{action_views, send, Action, ActionView};
use crate::channel::{ext_msg, wrap_message_ext, Message, MessageType};
use crate::player::{first_named_at, has_named, player_at, Player, PlayerTable};
use crate::process_walk::walk_target;
use crate::quest::{Quest, QuestView};
use crate::service::LoginInfo;
use crate::text::{contains, contains_exec, parse_u32, parse_u32_exec, split_str, str_eq, views};

verus! {

broadcast use {vstd::string::group_string_axioms, vstd::std_specs::hash::group_hash_axioms};

/// What follows a command for the newcomers' guide: the quest the answer stands for is
/// taken a step further, and rewards are handed out.
pub struct ProcessQuest<'a> {
    pub ret_str: String,
    pub quests: &'a HashMap<u32, Quest>,
    pub players: &'a mut PlayerTable,
    pub login_info: &'a LoginInfo,
    pub msg: &'a Message,
    pub out: Vec<Action>,
}

/// The quest name a command's answer stands for: `q_` and the direction walked (`east`,
/// `west`, `south`, `north`, tested in that order), or `q_` and the answer itself.
pub open spec fn quest_key(ret: Seq<char>) -> Seq<char> {
    "q_"@ + if contains(ret, "e@"@) {
        "east"@
    } else if contains(ret, "w@"@) {
        "west"@
    } else if contains(ret, "s@"@) {
        "south"@
    } else if contains(ret, "n@"@) {
        "north"@
    } else {
        ret
    }
}

/// The place a quest step is taken at: the number after `@` in the answer (`0` without one).
pub open spec fn quest_pos(ret: Seq<char>) -> u32 {
    parse_u32(walk_target(ret)).unwrap() as u32
}

/// A player's finished quests after a step of `q` taken at `pos`: `q` is done when it belongs
/// to that place.
pub open spec fn first_stage(p: Player, q: QuestView, pos: u32) -> Map<u32, bool> {
    if q.node == pos {
        p.newbie_quest@.insert(q.id, true)
    } else {
        p.newbie_quest@
    }
}

/// Whether the step of `q` completes its parent: `q` has a known parent all of whose
/// sub-quests are done.
pub open spec fn parent_hit(p: Player, q: QuestView, pos: u32, quests: Map<u32, Quest>) -> bool {
    &&& q.parent != 0
    &&& quests.contains_key(q.parent)
    &&& quests[q.parent]@.subquest.dom().subset_of(first_stage(p, q, pos).dom())
}

/// A player's experience and skill after the step: raised by `q`'s reward for a top-level
/// quest, by the parent's when the step completes the parent.
pub open spec fn quest_gain(p: Player, q: QuestView, pos: u32, quests: Map<u32, Quest>) -> (int, int) {
    if q.parent == 0 {
        (p.xp + q.xp, p.sp + q.sp)
    } else if parent_hit(p, q, pos, quests) {
        (p.xp + quests[q.parent]@.xp, p.sp + quests[q.parent]@.sp)
    } else {
        (p.xp as int, p.sp as int)
    }
}

/// How a player of the login's name stands after a step of `q` at `pos`: finished quests,
/// next quest, experience and skill as above, everything else as before.
pub open spec fn quest_advanced(
    p: Player,
    p2: Player,
    q: QuestView,
    pos: u32,
    quests: Map<u32, Quest>,
) -> bool {
    let hit = parent_hit(p, q, pos, quests);
    let gain = quest_gain(p, q, pos, quests);
    &&& p2.newbie_quest@ == if hit {
        first_stage(p, q, pos).insert(q.parent, true)
    } else {
        first_stage(p, q, pos)
    }
    &&& p2 == Player {
        newbie_quest: p2.newbie_quest,
        newbie_next: if q.parent == 0 {
            q.next
        } else if hit {
            quests[q.parent]@.next
        } else {
            p.newbie_next
        },
        xp: gain.0 as u32,
        sp: gain.1 as u32,
        ..p
    }
}

/// The notices of a reward: the award, then what follows it.
pub open spec fn award_notes(addr: u64, award: Seq<char>, after: Seq<char>) -> Seq<ActionView> {
    seq![
        send(ext_msg(MessageType::NoPrompt, addr, award)),
        send(ext_msg(MessageType::NoPrompt, addr, after)),
    ]
}

/// The parent's reward notices, once for each player of the login's name whose step
/// completes it, in table order.
pub open spec fn parent_notes(
    es: Seq<(u64, Player)>,
    name: Seq<char>,
    q: QuestView,
    pos: u32,
    quests: Map<u32, Quest>,
    addr: u64,
) -> Seq<ActionView>
    decreases es.len(),
{
    if es.len() == 0 {
        seq![]
    } else {
        parent_notes(es.drop_last(), name, q, pos, quests, addr) + if es.last().1.name@ == name
            && parent_hit(es.last().1, q, pos, quests) {
            award_notes(addr, quests[q.parent]@.award, quests[q.parent]@.after)
        } else {
            seq![]
        }
    }
}

/// No player of the name, no parent's notices.
pub proof fn lemma_parent_notes_unnamed(
    es: Seq<(u64, Player)>,
    name: Seq<char>,
    q: QuestView,
    pos: u32,
    quests: Map<u32, Quest>,
    addr: u64,
)
    requires
        forall|j: int| 0 <= j < es.len() ==> (#[trigger] es[j]).1.name@ != name,
    ensures
        parent_notes(es, name, q, pos, quests, addr) == Seq::<ActionView>::empty(),
    decreases es.len(),
{
    if es.len() > 0 {
        let p = es.drop_last();
        assert forall|j: int| 0 <= j < p.len() implies (#[trigger] p[j]).1.name@ != name by {
            assert(p[j] == es[j]);
        }
        lemma_parent_notes_unnamed(p, name, q, pos, quests, addr);
        assert(es.last() == es[es.len() - 1]);
    }
}

/// Whether an entry was taken a step right: advanced when it is of the login's name, else
/// unchanged.
pub open spec fn entry_stepped(
    e: (u64, Player),
    e2: (u64, Player),
    name: Seq<char>,
    q: QuestView,
    pos: u32,
    quests: Map<u32, Quest>,
) -> bool {
    if e.1.name@ == name {
        e2.0 == e.0 && quest_advanced(e.1, e2.1, q, pos, quests)
    } else {
        e2 == e
    }
}

/// What a step of quest `q` does for the login's name. Nothing when the player on the
/// message's connection has already done `q`. When `q`'s parent is unknown, only the first
/// player of the name has `q` marked done (at its place) before the step stops. Otherwise a
/// top-level quest's reward is announced, every player of the name is advanced, and each whose
/// step completes the parent hears the parent's reward.
pub open spec fn quest_applied(
    es: Seq<(u64, Player)>,
    quests: Map<u32, Quest>,
    addr: u64,
    name: Seq<char>,
    ret: Seq<char>,
    q: QuestView,
    before: Seq<ActionView>,
    after: Seq<ActionView>,
    es2: Seq<(u64, Player)>,
) -> bool {
    let p = player_at(es, addr).unwrap();
    let pos = quest_pos(ret);
    if p.newbie_quest@.contains_key(q.id) {
        after == before && es2 == es
    } else if q.parent != 0 && !quests.contains_key(q.parent) {
        &&& after == before
        &&& es2.len() == es.len()
        &&& if has_named(es, name) {
            exists|i: int|
                #![trigger first_named_at(es, name, i)]
                {
                    &&& first_named_at(es, name, i)
                    &&& es2[i].0 == es[i].0
                    &&& es2[i].1.newbie_quest@ == first_stage(es[i].1, q, pos)
                    &&& es2[i].1 == Player { newbie_quest: es2[i].1.newbie_quest, ..es[i].1 }
                    &&& forall|j: int| 0 <= j < es.len() && j != i ==> es2[j] == es[j]
                }
        } else {
            es2 == es
        }
    } else {
        &&& after == before + (if q.parent == 0 {
            award_notes(addr, q.award, q.after)
        } else {
            seq![]
        }) + parent_notes(es, name, q, pos, quests, addr)
        &&& es2.len() == es.len()
        &&& forall|j: int| 0 <= j < es.len() ==> entry_stepped(es[j], es2[j], name, q, pos, quests)
    }
}

/// Whether a step of `q` can be taken: the place in the answer can be read, and nobody's
/// experience or skill goes past `u32::MAX`.
pub open spec fn quest_step_safe(
    es: Seq<(u64, Player)>,
    quests: Map<u32, Quest>,
    addr: u64,
    name: Seq<char>,
    ret: Seq<char>,
    q: QuestView,
) -> bool {
    !player_at(es, addr).unwrap().newbie_quest@.contains_key(q.id) ==> {
        &&& parse_u32(walk_target(ret)) is Some
        &&& forall|j: int|
            0 <= j < es.len() && es[j].1.name@ == name ==> {
                let g = #[trigger] quest_gain(es[j].1, q, quest_pos(ret), quests);
                g.0 <= u32::MAX && g.1 <= u32::MAX
            }
    }
}

/// The keys of `have`, with `extra` added when there is one.
pub open spec fn keys_with(have: Map<u32, bool>, extra: Option<u32>) -> Set<u32> {
    match extra {
        Some(x) => have.dom().insert(x),
        None => have.dom(),
    }
}

/// Whether every key of `sub` is a key of `have` or is `extra`.
pub fn all_in(sub: &HashMap<u32, bool>, have: &HashMap<u32, bool>, extra: Option<u32>) -> (b: bool)
    ensures
        b == sub@.dom().subset_of(keys_with(have@, extra)),
{
    let mut all = true;
    let ghost ks = vstd::std_specs::hash::spec_keys_iter(sub).remaining();
    for k in it: sub.keys()
        invariant
            it.seq() == ks,
            ks.unref().to_set() == sub@.dom(),
            all == (forall|j: int| 0 <= j < it.index() ==> keys_with(have@, extra).contains(*ks[j])),
        ensures
            all == (forall|j: int| 0 <= j < ks.len() ==> keys_with(have@, extra).contains(*ks[j])),
    {
        let is_extra = match extra {
            Some(x) => *k == x,
            None => false,
        };
        if !have.contains_key(k) && !is_extra {
            all = false;
        }
    }
    proof {
        if all {
            assert forall|k: u32| sub@.dom().contains(k) implies keys_with(have@, extra).contains(k) by {
                assert(ks.unref().to_set().contains(k));
                let j = ks.unref().index_of(k);
                assert(*ks[j] == k);
            }
        } else {
            let j = choose|j: int| 0 <= j < ks.len() && !keys_with(have@, extra).contains(*ks[j]);
            assert(ks.unref()[j] == *ks[j]);
            assert(ks.unref().to_set().contains(*ks[j]));
        }
    }
    all
}

/// Whether a step of `q` can be taken (see `quest_step_safe`), for a message whose
/// connection has a player.
pub fn quest_step_ready(
    players: &PlayerTable,
    quests: &HashMap<u32, Quest>,
    addr: u64,
    name: &str,
    ret: &str,
    q: &Quest,
) -> (b: bool)
    requires
        player_at(players.entries@, addr) is Some,
    ensures
        b == quest_step_safe(players.entries@, quests@, addr, name@, ret@, q@),
{
    let ghost es = players.entries@;
    let done = match players.get(addr) {
        Some(p) => p.newbie_quest.contains_key(&q.id),
        None => true,
    };
    if done {
        return true;
    }
    assert(!player_at(es, addr).unwrap().newbie_quest@.contains_key(q@.id));
    let target = crate::process_walk::walk_target_exec(ret);
    let pos: u32 = match parse_u32_exec(target.as_str()) {
        Some(v) => v,
        None => {
            return false;
        },
    };
    assert(pos == quest_pos(ret@));
    let extra = if q.node == pos {
        Some(q.id)
    } else {
        None
    };
    let pq_opt = if q.parent != 0 {
        quests.get(&q.parent)
    } else {
        None
    };
    let es_v = &players.entries;
    let mut i: usize = 0;
    while i < es_v.len()
        invariant
            es_v == &players.entries,
            es == es_v@,
            i <= es.len(),
            pos == quest_pos(ret@),
            extra == (if q.node == pos { Some(q.id) } else { None::<u32> }),
            q.parent != 0 ==> match pq_opt {
                Some(pq) => quests@.contains_key(q.parent) && quests@[q.parent] == *pq,
                None => !quests@.contains_key(q.parent),
            },
            forall|j: int|
                0 <= j < i && es[j].1.name@ == name@ ==> {
                    let g = #[trigger] quest_gain(es[j].1, q@, pos, quests@);
                    g.0 <= u32::MAX && g.1 <= u32::MAX
                },
            !player_at(es, addr).unwrap().newbie_quest@.contains_key(q@.id),
        decreases es.len() - i,
    {
        let p = &es_v[i].1;
        if str_eq(p.name.as_str(), name) {
            let ok = if q.parent == 0 {
                (p.xp as u64) + (q.xp as u64) <= (u32::MAX as u64) && (p.sp as u64) + (q.sp as u64)
                    <= (u32::MAX as u64)
            } else {
                match pq_opt {
                    Some(pq) => {
                        let hit = all_in(&pq.subquest, &p.newbie_quest, extra);
                        proof {
                            assert(keys_with(p.newbie_quest@, extra) =~= first_stage(*p, q@, pos).dom());
                        }
                        !hit || ((p.xp as u64) + (pq.xp as u64) <= (u32::MAX as u64) && (p.sp as u64)
                            + (pq.sp as u64) <= (u32::MAX as u64))
                    },
                    None => true,
                }
            };
            if !ok {
                proof {
                    assert(es[i as int].1 == *p);
                    if q.parent != 0 {
                        if let Some(pq) = pq_opt {
                            assert(pq@ == quests@[q.parent]@);
                        }
                    }
                    let g = quest_gain(es[i as int].1, q@, pos, quests@);
                    assert(!(g.0 <= u32::MAX && g.1 <= u32::MAX));
                    assert(es[i as int].1.name@ == name@);
                    assert(!player_at(es, addr).unwrap().newbie_quest@.contains_key(q@.id));
                    assert(!quest_step_safe(es, quests@, addr, name@, ret@, q@));
                }
                return false;
            }
        }
        i += 1;
    }
    true
}

/// Some quest named `name`, if there is one. Which of several such quests comes back
/// depends on the order in which the table is walked.
pub fn find_quest_named<'b>(quests: &'b HashMap<u32, Quest>, name: &str) -> (r: Option<&'b Quest>)
    ensures
        match r {
            Some(q) => exists|k: u32|
                quests@.contains_key(k) && quests@[k] == *q && q.name@ == name@,
            None => forall|k: u32| quests@.contains_key(k) ==> quests@[k].name@ != name@,
        },
{
    let ghost vs = vstd::std_specs::hash::spec_hash_map_iter(quests).remaining();
    for kv in it: quests.iter()
        invariant
            it.seq() == vs,
            forall|j: int| 0 <= j < it.index() ==> (*vs[j].1).name@ != name@,
        ensures
            forall|j: int| 0 <= j < vs.len() ==> (*vs[j].1).name@ != name@,
    {
        let (k, q) = kv;
        if str_eq(q.name.as_str(), name) {
            proof {
                let i = it.index();
                assert(quests@.contains_key(*vs[i].0) && quests@[*vs[i].0] == *vs[i].1);
            }
            return Some(q);
        }
    }
    proof {
        assert forall|k: u32| quests@.contains_key(k) implies quests@[k].name@ != name@ by {
            assert(vs.contains((&k, &quests@[k])));
        }
    }
    None
}

/// The quest name for an answer (see `quest_key`).
pub fn quest_key_exec(ret: &str) -> (r: String)
    ensures
        r@ == quest_key(ret@),
{
    let mut r = String::from_str("q_");
    if contains_exec(ret, "e@") {
        r.append("east");
    } else if contains_exec(ret, "w@") {
        r.append("west");
    } else if contains_exec(ret, "s@") {
        r.append("south");
    } else if contains_exec(ret, "n@") {
        r.append("north");
    } else {
        r.append(ret);
    }
    r
}

impl<'a> ProcessQuest<'a> {
    /// The step after a command that answered `ret_str`, for the player logged in as
    /// `login_info`.
    pub fn new(
        ret_str: String,
        quests: &'a HashMap<u32, Quest>,
        players: &'a mut PlayerTable,
        login_info: &'a LoginInfo,
        msg: &'a Message,
    ) -> (r: Self)
        ensures
            r.ret_str == ret_str,
            r.quests == quests,
            *r.players == *old(players),
            *final(r.players) == *final(players),
            r.login_info == login_info,
            r.msg == msg,
            r.out@ == Seq::<Action>::empty(),
    {
        ProcessQuest { ret_str, quests, players, login_info, msg, out: Vec::new() }
    }

    /// Takes a step of quest `q` (see `quest_applied`); answers nothing.
    pub fn apply_quest(&mut self, q: &Quest) -> (r: String)
        requires
            player_at(old(self).players.entries@, old(self).msg.addr) is Some,
            quest_step_safe(
                old(self).players.entries@,
                old(self).quests@,
                old(self).msg.addr,
                old(self).login_info.login.login_name@,
                old(self).ret_str@,
                q@,
            ),
        ensures
            r@ == Seq::<char>::empty(),
            final(self).ret_str == old(self).ret_str,
            final(self).quests == old(self).quests,
            final(self).login_info == old(self).login_info,
            final(self).msg == old(self).msg,
            *final(final(self).players) == *final(old(self).players),
            quest_applied(
                old(self).players.entries@,
                old(self).quests@,
                old(self).msg.addr,
                old(self).login_info.login.login_name@,
                old(self).ret_str@,
                q@,
                action_views(old(self).out@),
                action_views(final(self).out@),
                final(self).players.entries@,
            ),
    {
        let ghost before = action_views(self.out@);
        let ghost es = self.players.entries@;
        let ghost name = self.login_info.login.login_name@;
        let ghost quests = self.quests@;
        let addr = self.msg.addr;
        let done = match self.players.get(addr) {
            Some(p) => p.newbie_quest.contains_key(&q.id),
            None => true,
        };
        if done {
            return String::new();
        }
        assert(!player_at(es, addr).unwrap().newbie_quest@.contains_key(q@.id));
        if q.parent == 0 {
            let m1 = wrap_message_ext(MessageType::NoPrompt, addr, q.award.clone());
            self.out.push(Action::Send(m1));
            let m2 = wrap_message_ext(MessageType::NoPrompt, addr, q.after.clone());
            self.out.push(Action::Send(m2));
        }
        let ghost intro = if q.parent == 0 {
            award_notes(addr, q@.award, q@.after)
        } else {
            seq![]
        };
        assert(action_views(self.out@) =~= before + intro);
        proof {
            reveal_strlit("@");
            assert("@"@ =~= seq!['@']);
        }
        let pieces = split_str(self.ret_str.as_str(), "@");
        let target = if pieces.len() > 1 {
            assert(views(pieces@)[1] == pieces@[1]@);
            pieces[1].clone()
        } else {
            proof {
                reveal_strlit("0");
            }
            String::from_str("0")
        };
        let pos: u32 = match parse_u32_exec(target.as_str()) {
            Some(v) => v,
            None => 0,
        };
        assert(pos == quest_pos(old(self).ret_str@));
        let parent_known = self.quests.contains_key(&q.parent);
        let n = self.players.entries.len();
        let mut i: usize = 0;
        assert(es.take(0) =~= Seq::<(u64, Player)>::empty());
        while i < n
            invariant
                n == es.len(),
                i <= n,
                name == self.login_info.login.login_name@,
                quests == self.quests@,
                pos == quest_pos(old(self).ret_str@),
                parent_known == quests.contains_key(q.parent),
                addr == old(self).msg.addr,
                self.ret_str == old(self).ret_str,
                self.quests == old(self).quests,
                self.login_info == old(self).login_info,
                self.msg == old(self).msg,
                *final(self.players) == *final(old(self).players),
                es == old(self).players.entries@,
                before == action_views(old(self).out@),
                intro == if q.parent == 0 {
                    award_notes(addr, q@.award, q@.after)
                } else {
                    Seq::<ActionView>::empty()
                },
                !player_at(es, addr).unwrap().newbie_quest@.contains_key(q@.id),
                quest_step_safe(es, quests, addr, name, old(self).ret_str@, q@),
                self.players.entries@.len() == n,
                forall|j: int|
                    0 <= j < i ==> entry_stepped(
                        #[trigger] es[j],
                        self.players.entries@[j],
                        name,
                        q@,
                        pos,
                        quests,
                    ),
                forall|j: int| i <= j < n ==> self.players.entries@[j] == es[j],
                (q.parent != 0 && !parent_known) ==> forall|j: int|
                    0 <= j < i ==> (#[trigger] es[j]).1.name@ != name,
                action_views(self.out@) == before + intro + parent_notes(
                    es.take(i as int),
                    name,
                    q@,
                    pos,
                    quests,
                    addr,
                ),
            decreases n - i,
        {
            let ghost t = es.take(i + 1);
            let ghost out0 = action_views(self.out@);
            assert(t.drop_last() =~= es.take(i as int));
            assert(t.last() == es[i as int]);
            if str_eq(self.players.entries[i].1.name.as_str(), self.login_info.login.login_name.as_str()) {
                let ghost e = es[i as int];
                let (a, mut p) = self.players.entries.remove(i);
                if q.node == pos {
                    p.newbie_quest.insert(q.id, true);
                }
                assert(p.newbie_quest@ == first_stage(e.1, q@, pos));
                if q.parent == 0 {
                    proof {
                        assert(quest_gain(e.1, q@, pos, quests).0 <= u32::MAX);
                    }
                    p.newbie_next = q.next;
                    p.xp = p.xp + q.xp;
                    p.sp = p.sp + q.sp;
                } else {
                    let pq = match self.quests.get(&q.parent) {
                        Some(pq) => pq,
                        None => {
                            self.players.entries.insert(i, (a, p));
                            proof {
                                assert(first_named_at(es, name, i as int));
                                let pre = es.take(i as int);
                                assert forall|j: int| 0 <= j < pre.len() implies (#[trigger] pre[j]).1.name@ != name by {
                                    assert(pre[j] == es[j]);
                                }
                                lemma_parent_notes_unnamed(pre, name, q@, pos, quests, addr);
                                assert(intro =~= Seq::<ActionView>::empty());
                                assert(action_views(self.out@) == before + intro + parent_notes(pre, name, q@, pos, quests, addr));
                                assert(action_views(self.out@) =~= before);
                                assert(has_named(es, name));
                                assert forall|j: int| 0 <= j < es.len() && j != i implies self.players.entries@[j] == es[j] by {
                                    if j < i {
                                        assert(entry_stepped(es[j], self.players.entries@[j], name, q@, pos, quests));
                                    }
                                }
                            }
                            return String::new();
                        },
                    };
                    let all = all_in(&pq.subquest, &p.newbie_quest, None);
                    assert(keys_with(p.newbie_quest@, None) =~= first_stage(e.1, q@, pos).dom());
                    assert(*pq == quests[q.parent]);
                    assert(all == parent_hit(e.1, q@, pos, quests));
                    if all {
                        proof {
                            assert(quest_gain(e.1, q@, pos, quests).0 <= u32::MAX);
                        }
                        p.newbie_quest.insert(q.parent, true);
                        p.newbie_next = pq.next;
                        p.xp = p.xp + pq.xp;
                        p.sp = p.sp + pq.sp;
                        let m1 = wrap_message_ext(MessageType::NoPrompt, addr, pq.award.clone());
                        self.out.push(Action::Send(m1));
                        let m2 = wrap_message_ext(MessageType::NoPrompt, addr, pq.after.clone());
                        self.out.push(Action::Send(m2));
                        assert(action_views(self.out@) =~= out0 + award_notes(addr, quests[q.parent]@.award, quests[q.parent]@.after));
                    }
                }
                self.players.entries.insert(i, (a, p));
            }
            assert(action_views(self.out@) =~= before + intro + parent_notes(
                es.take(i + 1),
                name,
                q@,
                pos,
                quests,
                addr,
            ));
            i += 1;
        }
        assert(es.take(n as int) =~= es);
        proof {
            if q.parent != 0 && !parent_known {
                lemma_parent_notes_unnamed(es, name, q@, pos, quests, addr);
                assert(action_views(self.out@) =~= before);
                assert(!has_named(es, name));
                assert forall|j: int| 0 <= j < es.len() implies self.players.entries@[j] == es[j] by {
                    assert(entry_stepped(es[j], self.players.entries@[j], name, q@, pos, quests));
                }
                assert(self.players.entries@ =~= es);
            }
        }
        String::new()
    }

}

impl<'a> PostProcess for ProcessQuest<'a> {
    /// What the step needs of the answer and the players.
    open spec fn ready(&self) -> bool {
        &&& forall|k: u32|
            self.quests@.contains_key(k) && (#[trigger] self.quests@[k]).name@
                == quest_key(self.ret_str@) ==> quest_step_safe(
                self.players.entries@,
                self.quests@,
                self.msg.addr,
                self.login_info.login.login_name@,
                self.ret_str@,
                self.quests@[k]@,
            )
    }

    /// What a run of the step does, answering `r`.
    open spec fn ran(&self, after: &Self, r: Seq<char>) -> bool {
        &&& after.ret_str == self.ret_str
        &&& after.quests == self.quests
        &&& after.login_info == self.login_info
        &&& after.msg == self.msg
        &&& ({
            let es = self.players.entries@;
            let quests = self.quests@;
            let key = quest_key(self.ret_str@);
            if player_at(es, self.msg.addr) is None {
                &&& r == "99"@
                &&& after.players.entries@ == es
                &&& after.out@ == self.out@
            } else if forall|k: u32| quests.contains_key(k) ==> quests[k].name@ != key {
                &&& r == Seq::<char>::empty()
                &&& after.players.entries@ == es
                &&& after.out@ == self.out@
            } else {
                &&& r == Seq::<char>::empty()
                &&& exists|k: u32|
                    #![trigger quests[k]]
                    quests.contains_key(k) && quests[k].name@ == key && quest_applied(
                        es,
                        quests,
                        self.msg.addr,
                        self.login_info.login.login_name@,
                        self.ret_str@,
                        quests[k]@,
                        action_views(self.out@),
                        action_views(after.out@),
                        after.players.entries@,
                    )
            }
        })
    }

    /// Takes the answer a step further on some quest of its name (see `quest_key`): answers
    /// `99` when nobody plays on the message's connection; otherwise, with a quest of that
    /// name, does what `quest_applied` says for one of them, and answers nothing.
    fn execute(&mut self) -> (r: String)
        ensures
            *final(final(self).players) == *final(old(self).players),
    {
        let key = quest_key_exec(self.ret_str.as_str());
        if self.players.get(self.msg.addr).is_none() {
            return String::from_str("99");
        }
        let quests = self.quests;
        match find_quest_named(quests, key.as_str()) {
            None => String::new(),
            Some(q) => {
                let ghost k = choose|k: u32| quests@.contains_key(k) && quests@[k] == *q && q.name@ == key@;
                assert(quests@[k] == *q);
                self.apply_quest(q)
            },
        }
    }
}

}
