use vstd::prelude::*;
use vstd::string::*;

use crate::action::{file_reply, others_text, ActionView, RenderView};
use crate::channel::MessageView;
use crate::command::{held_after, Command, Commands};
use crate::utils::{id_after, next_id};
use crate::utils_parsing::{cleaned, first_field, separator_index};
use crate::factory_mapfiles::{mapfiles_of, MapFile};
use crate::command_fight::{fight_outcome, fight_safe, fight_timer, named_entry, present_at};
use crate::command_walk::{exit_at, walk_outcome};
use crate::command_look::{look_outcome, view_stage};
use crate::login::{first_user, login_matches, login_outcome, named_addrs, placed, without_addrs};
use crate::log::{log_line, logged, Level, LoggerSlot};
use crate::map::{
    apply_node_line, apply_plain_key, apply_stage, dir_index, item_num, stage_mark, with_staged_exit, Node,
    NodeView,
};
use crate::quest::{line_item, line_key};
use crate::command_climb::climb_outcome;
use crate::player::{addr_index, addrs_unique, has_named, lemma_addr_from, player_at, update_named, Player};
use crate::process_climb::after_lasting;
use crate::process_fight::fought;
use crate::process_quest::{entry_stepped, quest_advanced, quest_applied, quest_key};
use crate::process_walk::walked;
use crate::quest::{Quest, QuestView};
use crate::service::{
    CommandWord,
    command_kind, command_ran, command_ready, fight_stage, info_from, infos_seated, quest_stage,
    served, steps_served, walk_stage, Login, LoginInfo, Service, ServiceFault,
};
use crate::action::{action_views, say};
use crate::channel::MessageType;
use crate::login::login_safe;
use crate::player::Group;
use crate::process_fight::fight_report_safe;
use crate::process_walk::walk_safe;
use crate::process_climb::lasting_safe;
use crate::text::{
    contains, find, find_from, lemma_find_from, int_text, join, lacks, lemma_int_text, lemma_parse_int_text,
    lemma_split_join, lemma_split_pieces_lack, matches_at, parse_i32, parse_u32, parse_usize,
    piece_or, split, word_or, is_digit, lemma_nat_text, nat_text, digit_char,
};
use crate::text_map::text_map_of;

verus! {

/// What a fight round reports, the step after it reads back: the answer splits into
/// `fight`, the opponent, both sides' health after the blow and the combat timer, and each
/// number reads back as the value the round computed.
pub proof fn law_fight_report_read_back(
    es: Seq<(u64, Player)>,
    msg: MessageView,
    id: usize,
    before: Seq<ActionView>,
    after: Seq<ActionView>,
    ret: Seq<char>,
    id_after: usize,
)
    requires
        fight_outcome(es, msg, id, before, after, ret, id_after),
        fight_safe(es, msg),
        player_at(es, msg.addr) is Some,
        split(msg.content, seq![' ']).len() > 1,
        player_at(es, msg.addr).unwrap().name@ != word_or(msg.content, 1, seq![]),
        present_at(
            es,
            word_or(msg.content, 1, seq![]),
            player_at(es, msg.addr).unwrap().pos,
        ),
    ensures
        ({
            let p = player_at(es, msg.addr).unwrap();
            let opponent = word_or(msg.content, 1, seq![]);
            let o = named_entry(es, opponent).1;
            let words = split(ret, seq![' ']);
            &&& contains(ret, "fight"@)
            &&& words == seq![
                "fight"@,
                opponent,
                int_text(p.hp - 3),
                int_text(o.hp - 7),
                int_text(fight_timer(msg, id)),
            ]
            &&& parse_i32(words[2]) == Some(p.hp - 3)
            &&& parse_i32(words[3]) == Some(o.hp - 7)
            &&& parse_usize(words[4]) == Some(fight_timer(msg, id))
        }),
{
    let p = player_at(es, msg.addr).unwrap();
    let opponent = word_or(msg.content, 1, seq![]);
    let o = named_entry(es, opponent).1;
    let timer = fight_timer(msg, id);
    let a = int_text(p.hp - 3);
    let b = int_text(o.hp - 7);
    let t = int_text(timer);
    reveal_strlit("fight ");
    reveal_strlit("fight");
    reveal_strlit(" ");
    lemma_split_pieces_lack(msg.content, ' ', 0);
    assert(opponent == split(msg.content, seq![' '])[1]);
    assert(lacks(opponent, ' '));
    lemma_int_text(p.hp - 3);
    lemma_int_text(o.hp - 7);
    lemma_int_text(timer);
    lemma_parse_int_text(p.hp - 3);
    lemma_parse_int_text(o.hp - 7);
    lemma_parse_int_text(timer);
    let pieces = seq!["fight"@, opponent, a, b, t];
    assert(lacks("fight"@, ' '));
    assert forall|i: int| 0 <= i < pieces.len() implies lacks(#[trigger] pieces[i], ' ') by {}
    let p4 = pieces.drop_first().drop_first().drop_first().drop_first();
    let p3 = pieces.drop_first().drop_first().drop_first();
    let p2 = pieces.drop_first().drop_first();
    let p1 = pieces.drop_first();
    assert(p4 =~= seq![t]);
    assert(p3 =~= seq![b, t]);
    assert(p2 =~= seq![a, b, t]);
    assert(p1 =~= seq![opponent, a, b, t]);
    assert(join(p4, ' ') == t);
    assert(join(p3, ' ') == b + seq![' '] + t);
    assert(join(p2, ' ') == a + seq![' '] + (b + seq![' '] + t));
    assert(join(p1, ' ') == opponent + seq![' '] + (a + seq![' '] + (b + seq![' '] + t)));
    assert(join(pieces, ' ') =~= ret);
    lemma_split_join(pieces, ' ');
    assert(matches_at(ret, "fight"@, 0)) by {
        assert(ret.subrange(0, 5) =~= "fight"@);
    }
    assert(find_from(ret, "fight"@, 0) == Some(0int));
}

/// What a walk that moves reports, the step after it reads back: the place after `@` is the
/// place reached, and the walker is put there with their timer stopped (for a message
/// without `@`, to a place other than 0).
pub proof fn law_walk_report_read_back(
    es: Seq<(u64, Player)>,
    nodes: Map<u32, Node>,
    msg: MessageView,
    before: Seq<ActionView>,
    after: Seq<ActionView>,
    ret: Seq<char>,
    old_pos: u32,
    new_pos: u32,
    q: Player,
)
    requires
        walk_outcome(es, nodes, msg, before, after, ret, old_pos, new_pos),
        player_at(es, msg.addr) is Some,
        ({
            let p = player_at(es, msg.addr).unwrap();
            &&& !(p.climbing == 1 || p.sleep == 1)
            &&& nodes.contains_key(p.pos)
            &&& nodes.contains_key(
                crate::command_walk::walk_target(
                    nodes[p.pos]@,
                    view_stage(nodes[p.pos]@, p),
                    msg.content,
                ),
            )
        }),
        lacks(msg.content, '@'),
        new_pos != 0,
    ensures
        crate::process_walk::walk_target(ret) == int_text(new_pos as int),
        parse_u32(crate::process_walk::walk_target(ret)) == Some(new_pos as int),
        walked(q, crate::process_walk::walk_target(ret)).pos == new_pos,
        walked(q, crate::process_walk::walk_target(ret)).timer_id == 0,
{
    reveal_strlit("@");
    reveal_strlit("0");
    let t = int_text(new_pos as int);
    lemma_int_text(new_pos as int);
    lemma_parse_int_text(new_pos as int);
    let pieces = seq![msg.content, t];
    assert forall|i: int| 0 <= i < pieces.len() implies lacks(#[trigger] pieces[i], '@') by {}
    assert(pieces.drop_first() =~= seq![t]);
    assert("@"@ =~= seq!['@']);
    assert(ret == msg.content + "@"@ + t);
    assert(join(pieces, '@') == msg.content + seq!['@'] + join(pieces.drop_first(), '@'));
    assert(join(pieces, '@') =~= ret);
    lemma_split_join(pieces, '@');
    assert(split(ret, seq!['@']) == pieces);
    assert(piece_or(pieces, 1, "0"@) == t);
    if t == "0"@ {
        assert(t[0] == '0');
        assert(new_pos == 0) by {
            assert(parse_u32("0"@) == Some(0int)) by {
                lemma_parse_int_text(0);
                assert(int_text(0) =~= "0"@);
            }
        }
    }
}

/// A connection is logged in only with a right password for the name it gave: a login
/// step that logs a connection in had a name, and a known login has that name and the
/// message's text as its password.
pub proof fn law_login_needs_password(
    es: Seq<(u64, Player)>,
    logins: Seq<Login>,
    users: Seq<Player>,
    quests: Map<u32, Quest>,
    msg: MessageView,
    info: LoginInfo,
    before: Seq<ActionView>,
    after: Seq<ActionView>,
    ret: u32,
    es2: Seq<(u64, Player)>,
    info2: LoginInfo,
)
    requires
        login_outcome(es, logins, users, quests, msg, info, before, after, ret, es2, info2),
        !info.b_login,
        info2.b_login,
    ensures
        info.login.login_name@.len() != 0,
        info2.login.login_name@ == info.login.login_name@,
        login_matches(logins, info.login.login_name@, msg.content),
{
}

/// A login step never logs a connection out.
pub proof fn law_login_keeps_logged_in(
    es: Seq<(u64, Player)>,
    logins: Seq<Login>,
    users: Seq<Player>,
    quests: Map<u32, Quest>,
    msg: MessageView,
    info: LoginInfo,
    before: Seq<ActionView>,
    after: Seq<ActionView>,
    ret: u32,
    es2: Seq<(u64, Player)>,
    info2: LoginInfo,
)
    requires
        login_outcome(es, logins, users, quests, msg, info, before, after, ret, es2, info2),
        info.b_login,
    ensures
        info2.b_login,
{
}

/// After players are dropped by connection, no remaining player is on a dropped
/// connection, and every player on another connection remains.
pub proof fn law_dropped_connections_gone(es: Seq<(u64, Player)>, gone: Seq<u64>)
    ensures
        forall|i: int|
            0 <= i < without_addrs(es, gone).len() ==> !gone.contains(
                (#[trigger] without_addrs(es, gone)[i]).0,
            ),
        forall|i: int|
            0 <= i < es.len() && !gone.contains((#[trigger] es[i]).0) ==> without_addrs(
                es,
                gone,
            ).contains(es[i]),
    decreases es.len(),
{
    if es.len() > 0 {
        let rest = es.drop_first();
        law_dropped_connections_gone(rest, gone);
        let w = without_addrs(es, gone);
        let wr = without_addrs(rest, gone);
        if gone.contains(es[0].0) {
            assert(w == wr);
        } else {
            assert(w == seq![es[0]] + wr);
            assert forall|i: int| 0 <= i < w.len() implies !gone.contains((#[trigger] w[i]).0) by {
                if i > 0 {
                    assert(w[i] == wr[i - 1]);
                }
            }
        }
        assert forall|i: int| 0 <= i < es.len() && !gone.contains((#[trigger] es[i]).0) implies w.contains(
            es[i],
        ) by {
            if i == 0 {
                assert(w[0] == es[0]);
            } else {
                assert(es[i] == rest[i - 1]);
                assert(wr.contains(rest[i - 1]));
                let k = choose|k: int| 0 <= k < wr.len() && wr[k] == rest[i - 1];
                if gone.contains(es[0].0) {
                    assert(w[k] == wr[k]);
                } else {
                    assert(w[k + 1] == wr[k]);
                }
            }
        }
    }
}

/// Whether two tables seat the same players: as many entries, each on the same
/// connection under the same name.
pub open spec fn same_seats(es: Seq<(u64, Player)>, es2: Seq<(u64, Player)>) -> bool {
    &&& es2.len() == es.len()
    &&& forall|i: int|
        0 <= i < es.len() ==> (#[trigger] es2[i]).0 == es[i].0 && es2[i].1.name@ == es[i].1.name@
}

/// The steps after a command (walk, fight, lasting action, quest) never seat, unseat or
/// rename anyone: they change players in place.
pub proof fn law_steps_keep_seats(
    es: Seq<(u64, Player)>,
    name: Seq<char>,
    ret: Seq<char>,
    target: Seq<char>,
    words: Seq<Seq<char>>,
)
    ensures
        same_seats(es, update_named(es, name, |p: Player| walked(p, target))),
        same_seats(es, fought(es, name, words)),
        same_seats(es, after_lasting(es, name, ret)),
{
    let w = update_named(es, name, |p: Player| walked(p, target));
    assert forall|i: int| 0 <= i < es.len() implies (#[trigger] w[i]).0 == es[i].0 && w[i].1.name@
        == es[i].1.name@ by {}
    let f = fought(es, name, words);
    assert forall|i: int| 0 <= i < es.len() implies (#[trigger] f[i]).0 == es[i].0 && f[i].1.name@
        == es[i].1.name@ by {}
    let es1 = if contains(ret, "climbing"@) {
        update_named(es, name, |p: Player| crate::process_climb::climbed(p, ret))
    } else {
        es
    };
    assert forall|i: int| 0 <= i < es.len() implies (#[trigger] es1[i]).0 == es[i].0 && es1[i].1.name@
        == es[i].1.name@ by {}
    let l = after_lasting(es, name, ret);
    assert forall|i: int| 0 <= i < es.len() implies (#[trigger] l[i]).0 == es[i].0 && l[i].1.name@
        == es[i].1.name@ by {
        assert(es1[i].0 == es[i].0);
    }
}

/// A quest step never seats, unseats or renames anyone either.
pub proof fn law_quest_step_keeps_seats(
    es: Seq<(u64, Player)>,
    quests: Map<u32, Quest>,
    addr: u64,
    name: Seq<char>,
    ret: Seq<char>,
    q: QuestView,
    before: Seq<ActionView>,
    after: Seq<ActionView>,
    es2: Seq<(u64, Player)>,
)
    requires
        quest_applied(es, quests, addr, name, ret, q, before, after, es2),
    ensures
        same_seats(es, es2),
{
    let p = player_at(es, addr).unwrap();
    if p.newbie_quest@.contains_key(q.id) {
    } else if q.parent != 0 && !quests.contains_key(q.parent) {
        if crate::player::has_named(es, name) {
            let i = choose|i: int|
                #![trigger crate::player::first_named_at(es, name, i)]
                {
                    &&& crate::player::first_named_at(es, name, i)
                    &&& es2[i].0 == es[i].0
                    &&& es2[i].1.newbie_quest@ == crate::process_quest::first_stage(
                        es[i].1,
                        q,
                        crate::process_quest::quest_pos(ret),
                    )
                    &&& es2[i].1 == Player { newbie_quest: es2[i].1.newbie_quest, ..es[i].1 }
                    &&& forall|j: int| 0 <= j < es.len() && j != i ==> es2[j] == es[j]
                };
            assert forall|j: int| 0 <= j < es.len() implies (#[trigger] es2[j]).0 == es[j].0
                && es2[j].1.name@ == es[j].1.name@ by {}
        }
    } else {
        assert forall|j: int| 0 <= j < es.len() implies (#[trigger] es2[j]).0 == es[j].0
            && es2[j].1.name@ == es[j].1.name@ by {
            assert(entry_stepped(es[j], es2[j], name, q, crate::process_quest::quest_pos(ret), quests));
        }
    }
}

/// The counter after `k` identifiers is the starting value plus `k`, modulo the number of
/// `usize` values.
pub proof fn lemma_id_after(c: usize, k: nat)
    ensures
        id_after(c, k) as int == (c + k) % (usize::MAX as int + 1),
    decreases k,
{
    let m = usize::MAX as int + 1;
    if k == 0 {
        assert(c as int % m == c) by (nonlinear_arith)
            requires
                0 <= c < m,
        ;
    } else {
        lemma_id_after(c, (k - 1) as nat);
        let a = c + k - 1;
        let x = a % m;
        assert((a + 1) % m == (if x == m - 1 {
            0
        } else {
            x + 1
        })) by (nonlinear_arith)
            requires
                m > 1,
                a >= 0,
                x == a % m,
        ;
    }
}

/// Successive calls of `get_id` on one counter never hand out the same identifier twice
/// until the counter has gone all the way round: the call after `k` others hands out
/// `id_after(c, k)`, and any two of these at most `usize::MAX` calls apart differ. Two
/// successive calls hand out `a` and then `a + 1` (below the wrap).
pub proof fn law_ids_never_repeat(c: usize, i: nat, j: nat)
    requires
        i < j,
        j - i <= usize::MAX,
    ensures
        id_after(c, i) != id_after(c, j),
        id_after(c, i) < usize::MAX ==> id_after(c, i + 1) == id_after(c, i) + 1,
{
    let m = usize::MAX as int + 1;
    lemma_id_after(c, i);
    lemma_id_after(c, j);
    let x = c + i;
    let d = j - i;
    assert(x % m != (x + d) % m) by (nonlinear_arith)
        requires
            m > 1,
            x >= 0,
            0 < d < m,
    ;
    assert(id_after(c, i + 1) == next_id(id_after(c, i)));
}

/// Once a logger is installed, every error message is written.
pub proof fn law_errors_logged(slot: LoggerSlot, message: Seq<char>)
    requires
        slot.logger is Some,
    ensures
        logged(slot, Level::Error, message) == Some(log_line(Level::Error, message)),
{
}

/// Reading a key of a text table after writing it gives what was written, and writing a
/// key leaves the other keys as they were.
pub proof fn law_text_map_read_after_write(es: Seq<(String, String)>, k: String, v: String, k2: Seq<char>)
    ensures
        text_map_of(es.push((k, v))).contains_key(k@),
        text_map_of(es.push((k, v)))[k@] == v@,
        k2 != k@ ==> (text_map_of(es.push((k, v))).contains_key(k2) == text_map_of(es).contains_key(k2)),
        k2 != k@ && text_map_of(es).contains_key(k2) ==> text_map_of(es.push((k, v)))[k2] == text_map_of(es)[k2],
{
    assert(es.push((k, v)).drop_last() =~= es);
}

/// Looking a map file up after filing it gives the file filed, and filing a file leaves the
/// other names as they were.
pub proof fn law_map_files_read_after_write(
    es: Seq<(String, MapFile)>,
    name: String,
    file: MapFile,
    k2: Seq<char>,
)
    ensures
        mapfiles_of(es.push((name, file))).contains_key(name@),
        mapfiles_of(es.push((name, file)))[name@] == (file.content@, file.fullpath@),
        k2 != name@ ==> (mapfiles_of(es.push((name, file))).contains_key(k2) == mapfiles_of(
            es,
        ).contains_key(k2)),
        k2 != name@ && mapfiles_of(es).contains_key(k2) ==> mapfiles_of(es.push((name, file)))[k2]
            == mapfiles_of(es)[k2],
{
    assert(es.push((name, file)).drop_last() =~= es);
}

/// An invoker runs the last command set: one that was never set runs the command that does
/// nothing, which can always run and answers nothing; otherwise running it is running the
/// last command set, and only that one.
pub proof fn law_invoker_runs_last_set<'a>(sets: Seq<Commands<'a>>, after: Commands<'a>, r: Seq<char>)
    ensures
        sets.len() == 0 ==> held_after(sets).ready(),
        sets.len() == 0 && held_after(sets).ran(&after, r) ==> r == Seq::<char>::empty() && after is Empty,
        sets.len() > 0 ==> held_after(sets) == sets.last(),
        sets.len() > 0 ==> (held_after(sets).ready() == sets.last().ready() && held_after(sets).ran(
            &after,
            r,
        ) == sets.last().ran(&after, r)),
{
}

/// Tables that seat the same players on the same connections are keyed alike.
pub proof fn lemma_same_seats_unique(es: Seq<(u64, Player)>, es2: Seq<(u64, Player)>)
    requires
        same_seats(es, es2),
        addrs_unique(es),
    ensures
        addrs_unique(es2),
{
    assert forall|i: int, j: int| 0 <= i < j < es2.len() implies (#[trigger] es2[i]).0 != (
    #[trigger] es2[j]).0 by {
        assert(es2[i].0 == es[i].0);
        assert(es2[j].0 == es[j].0);
    }
}

/// Dropping connections keeps only entries of the table, in order, so a table keyed by
/// connection stays so.
pub proof fn lemma_without_addrs_unique(es: Seq<(u64, Player)>, gone: Seq<u64>)
    requires
        addrs_unique(es),
    ensures
        addrs_unique(without_addrs(es, gone)),
        forall|k: int| 0 <= k < without_addrs(es, gone).len() ==> es.contains(
            #[trigger] without_addrs(es, gone)[k],
        ),
    decreases es.len(),
{
    if es.len() > 0 {
        let rest = es.drop_first();
        assert forall|i: int, j: int| 0 <= i < j < rest.len() implies (#[trigger] rest[i]).0 != (
        #[trigger] rest[j]).0 by {
            assert(rest[i] == es[i + 1]);
            assert(rest[j] == es[j + 1]);
        }
        lemma_without_addrs_unique(rest, gone);
        let w = without_addrs(es, gone);
        let wr = without_addrs(rest, gone);
        assert forall|k: int| 0 <= k < wr.len() implies es.contains(#[trigger] wr[k]) && wr[k].0
            != es[0].0 by {
            assert(rest.contains(wr[k]));
            let m = choose|m: int| 0 <= m < rest.len() && rest[m] == wr[k];
            assert(es[m + 1] == rest[m]);
        }
        if gone.contains(es[0].0) {
            assert(w == wr);
        } else {
            assert(w == seq![es[0]] + wr);
            assert forall|i: int, j: int| 0 <= i < j < w.len() implies (#[trigger] w[i]).0 != (
            #[trigger] w[j]).0 by {
                assert(w[j] == wr[j - 1]);
                if i > 0 {
                    assert(w[i] == wr[i - 1]);
                }
            }
            assert forall|k: int| 0 <= k < w.len() implies es.contains(#[trigger] w[k]) by {
                if k == 0 {
                    assert(es[0] == w[0]);
                } else {
                    assert(w[k] == wr[k - 1]);
                }
            }
        }
    }
}

/// A login step keeps the player table keyed by connection: a connection gets at most one
/// seat, whichever way the step goes.
pub proof fn law_login_keeps_connections_unique(
    es: Seq<(u64, Player)>,
    logins: Seq<Login>,
    users: Seq<Player>,
    quests: Map<u32, Quest>,
    msg: MessageView,
    info: LoginInfo,
    before: Seq<ActionView>,
    after: Seq<ActionView>,
    ret: u32,
    es2: Seq<(u64, Player)>,
    info2: LoginInfo,
)
    requires
        login_outcome(es, logins, users, quests, msg, info, before, after, ret, es2, info2),
        addrs_unique(es),
    ensures
        addrs_unique(es2),
{
    let addr = msg.addr;
    lemma_addr_from(es, addr, 0);
    let name = info.login.login_name@;
    if name.len() == 0 || !login_matches(logins, name, msg.content) {
        if addr_index(es, addr) is None {
            assert forall|i: int, j: int| 0 <= i < j < es2.len() implies (#[trigger] es2[i]).0 != (
            #[trigger] es2[j]).0 by {
                assert(es2[i] == es[i]);
                if j < es.len() {
                    assert(es2[j] == es[j]);
                }
            }
        }
    } else {
        let es1 = placed(es, addr, first_user(users, name));
        match addr_index(es, addr) {
            Some(i) => {
                assert forall|a: int, b: int| 0 <= a < b < es1.len() implies (#[trigger] es1[a]).0
                    != (#[trigger] es1[b]).0 by {
                    assert(es1[a].0 == es[a].0);
                    assert(es1[b].0 == es[b].0);
                }
            },
            None => {
                assert forall|a: int, b: int| 0 <= a < b < es1.len() implies (#[trigger] es1[a]).0
                    != (#[trigger] es1[b]).0 by {
                    assert(es1[a] == es[a]);
                    if b < es.len() {
                        assert(es1[b] == es[b]);
                    }
                }
            },
        }
        if has_named(es, name) {
            lemma_without_addrs_unique(es1, named_addrs(es, name));
        }
    }
}

/// The steps after a command keep the player table keyed by connection.
pub proof fn lemma_steps_keep_unique(
    es: Seq<(u64, Player)>,
    quests: Map<u32, Quest>,
    addr: u64,
    name: Seq<char>,
    ret: Seq<char>,
    before: Seq<ActionView>,
    after: Seq<ActionView>,
    es_f: Seq<(u64, Player)>,
    r: Result<u32, ServiceFault>,
)
    requires
        steps_served(es, quests, addr, name, ret, before, after, es_f, r),
        r is Ok,
        addrs_unique(es),
    ensures
        addrs_unique(es_f),
{
    let words = split(ret, seq![' ']);
    let es1 = fight_stage(es, name, ret);
    law_steps_keep_seats(es, name, ret, ret, words);
    if contains(ret, "fight"@) && words.len() >= 5 {
        lemma_same_seats_unique(es, es1);
    }
    let (acts2, es2, failed) = choose|acts2: Seq<ActionView>, es2: Seq<(u64, Player)>, failed: bool|
        #![trigger quest_stage(es1, quests, addr, name, ret, before, acts2, es2, failed)]
        quest_stage(es1, quests, addr, name, ret, before, acts2, es2, failed) && if failed {
            r == Err::<u32, ServiceFault>(ServiceFault::QuestStep)
        } else if !walk_safe(es2, name, ret) {
            r == Err::<u32, ServiceFault>(ServiceFault::WalkReport)
        } else {
            let es3 = walk_stage(es2, name, ret);
            if !lasting_safe(es3, name, ret) {
                r == Err::<u32, ServiceFault>(ServiceFault::LastingReport)
            } else {
                &&& r == Ok::<u32, ServiceFault>(0)
                &&& es_f == after_lasting(es3, name, ret)
                &&& after == if ret == "none"@ {
                    acts2.push(say(addr, "There is no match command."@))
                } else {
                    acts2
                }
            }
        };
    let key = crate::process_quest::quest_key(ret);
    if !(player_at(es1, addr) is None || (forall|k: u32| quests.contains_key(k) ==> quests[k].name@ != key)) {
        let k = choose|k: u32|
            #![trigger quests[k]]
            quests.contains_key(k) && quests[k].name@ == key && if crate::process_quest::quest_step_safe(
                es1,
                quests,
                addr,
                name,
                ret,
                quests[k]@,
            ) {
                !failed && quest_applied(es1, quests, addr, name, ret, quests[k]@, before, acts2, es2)
            } else {
                failed
            };
        law_quest_step_keeps_seats(es1, quests, addr, name, ret, quests[k]@, before, acts2, es2);
        lemma_same_seats_unique(es1, es2);
    }
    let es3 = walk_stage(es2, name, ret);
    law_steps_keep_seats(es2, name, ret, crate::process_walk::walk_target(ret), words);
    if crate::process_walk::walk_marked(ret) {
        lemma_same_seats_unique(es2, es3);
    }
    law_steps_keep_seats(es3, name, ret, ret, words);
    lemma_same_seats_unique(es3, es_f);
}

/// Serving a message keeps the player table keyed by connection: after any message served
/// without a fault, no connection has two seats.
pub proof fn law_service_keeps_connections_unique(
    s: Service,
    s2: Service,
    msg: MessageView,
    logins: Seq<Login>,
    users: Seq<Player>,
    groups: Seq<Group>,
    r: Result<u32, ServiceFault>,
)
    requires
        served(s, s2, msg, logins, users, groups, r),
        r is Ok,
        s.players.wf(),
    ensures
        s2.players.wf(),
{
    let addr = msg.addr;
    let es = s.players.entries@;
    let before = action_views(s.out@);
    let after = action_views(s2.out@);
    if msg.msg_type != MessageType::Timer {
        let infos1 = choose|infos1: Seq<(u64, LoginInfo)>|
            #![trigger infos_seated(s.login_infos@, addr, infos1)]
            infos_seated(s.login_infos@, addr, infos1) && {
                let k = info_from(infos1, addr, 0).unwrap();
                let info = infos1[k].1;
                if !info.b_login {
                    if !login_safe(logins, users, info, msg.content) {
                        r == Err::<u32, ServiceFault>(ServiceFault::Login)
                    } else {
                        exists|code: u32, info2: LoginInfo|
                            #![trigger login_outcome(es, logins, users, s.quests@, msg, info, before, after, code, s2.players.entries@, info2)]
                            {
                                &&& r == Ok::<u32, ServiceFault>(code)
                                &&& login_outcome(
                                    es,
                                    logins,
                                    users,
                                    s.quests@,
                                    msg,
                                    info,
                                    before,
                                    after,
                                    code,
                                    s2.players.entries@,
                                    info2,
                                )
                                &&& s2.login_infos@ == infos1.update(k, (addr, info2))
                                &&& s2.next_id == s.next_id
                            }
                    }
                } else {
                    &&& s2.login_infos@ == infos1
                    &&& match command_kind(word_or(msg.content, 0, "none"@)) {
                        None => {
                            &&& r == Ok::<u32, ServiceFault>(0)
                            &&& after == before.push(say(addr, "要做什么?"@))
                            &&& s2.players == s.players
                            &&& s2.next_id == s.next_id
                        },
                        Some(kind) => if !command_ready(kind, es, msg) {
                            r == Err::<u32, ServiceFault>(ServiceFault::Command)
                        } else {
                            exists|ret: Seq<char>, acts1: Seq<ActionView>|
                                #![trigger command_ran(kind, es, s.nodes@, s.quests@, s.mapfiles@, msg, users, groups, s.next_id, before, acts1, ret, s2.next_id)]
                                command_ran(
                                    kind,
                                    es,
                                    s.nodes@,
                                    s.quests@,
                                    s.mapfiles@,
                                    msg,
                                    users,
                                    groups,
                                    s.next_id,
                                    before,
                                    acts1,
                                    ret,
                                    s2.next_id,
                                ) && steps_served(
                                    es,
                                    s.quests@,
                                    addr,
                                    info.login.login_name@,
                                    ret,
                                    acts1,
                                    after,
                                    s2.players.entries@,
                                    r,
                                )
                        },
                    }
                }
            };
        let k = info_from(infos1, addr, 0).unwrap();
        let info = infos1[k].1;
        if !info.b_login {
            let (code, info2) = choose|code: u32, info2: LoginInfo|
                #![trigger login_outcome(es, logins, users, s.quests@, msg, info, before, after, code, s2.players.entries@, info2)]
                {
                    &&& r == Ok::<u32, ServiceFault>(code)
                    &&& login_outcome(
                        es,
                        logins,
                        users,
                        s.quests@,
                        msg,
                        info,
                        before,
                        after,
                        code,
                        s2.players.entries@,
                        info2,
                    )
                    &&& s2.login_infos@ == infos1.update(k, (addr, info2))
                    &&& s2.next_id == s.next_id
                };
            law_login_keeps_connections_unique(
                es,
                logins,
                users,
                s.quests@,
                msg,
                info,
                before,
                after,
                code,
                s2.players.entries@,
                info2,
            );
        } else {
            match command_kind(word_or(msg.content, 0, "none"@)) {
                None => {},
                Some(kind) => {
                    let (ret, acts1) = choose|ret: Seq<char>, acts1: Seq<ActionView>|
                        #![trigger command_ran(kind, es, s.nodes@, s.quests@, s.mapfiles@, msg, users, groups, s.next_id, before, acts1, ret, s2.next_id)]
                        command_ran(
                            kind,
                            es,
                            s.nodes@,
                            s.quests@,
                            s.mapfiles@,
                            msg,
                            users,
                            groups,
                            s.next_id,
                            before,
                            acts1,
                            ret,
                            s2.next_id,
                        ) && steps_served(
                            es,
                            s.quests@,
                            addr,
                            info.login.login_name@,
                            ret,
                            acts1,
                            after,
                            s2.players.entries@,
                            r,
                        );
                    lemma_steps_keep_unique(
                        es,
                        s.quests@,
                        addr,
                        info.login.login_name@,
                        ret,
                        acts1,
                        after,
                        s2.players.entries@,
                        r,
                    );
                },
            }
        }
    }
}

/// A one-character pattern matches exactly where that character stands.
proof fn lemma_matches_char(c: Seq<char>, x: char, k: int)
    ensures
        matches_at(c, seq![x], k) <==> (0 <= k < c.len() && c[k] == x),
{
    if 0 <= k < c.len() && c[k] == x {
        assert(c.subrange(k, k + 1) =~= seq![x]);
    }
    if matches_at(c, seq![x], k) {
        assert(c.subrange(k, k + 1)[0] == c[k]);
    }
}

/// Taking the first field off a `,`/`;` list loses nothing. Where the cleaned text has a
/// separator at `p > 0` (its first `,`, or a `;` before it), the first field, that separator
/// and the rest rebuild the text, and the field holds no `,` (and no `;` unless the text
/// starts with one); a first `,` after the start always gives such a separator. Text
/// without a `,` is one field with nothing left.
pub proof fn law_first_field_rebuilds(s: Seq<char>)
    ensures
        ({
            let c = cleaned(s);
            let p = separator_index(c);
            p > 0 ==> {
                &&& p < c.len()
                &&& (c[p] == ',' || c[p] == ';')
                &&& first_field(s).0 + seq![c[p]] + first_field(s).1 == c
                &&& !first_field(s).0.contains(',')
                &&& c[0] != ';' ==> !first_field(s).0.contains(';')
            }
        }),
        ({
            let c = cleaned(s);
            find(c, seq![',']) matches Some(i) ==> (i > 0 ==> separator_index(c) > 0)
        }),
        !cleaned(s).contains(',') ==> first_field(s) == (cleaned(s), Seq::<char>::empty()),
{
    let c = cleaned(s);
    let p = separator_index(c);
    lemma_find_from(c, seq![','], 0);
    lemma_find_from(c, seq![';'], 0);
    let (f, r) = first_field(s);
    assert forall|k: int| #![trigger c[k]] 0 <= k < c.len() implies (matches_at(c, seq![','], k) <==> c[k] == ',') && (
        matches_at(c, seq![';'], k) <==> c[k] == ';') by {
        lemma_matches_char(c, ',', k);
        lemma_matches_char(c, ';', k);
    }
    if p > 0 {
        lemma_matches_char(c, c[p], p);
        assert(f == c.take(p));
        assert(r == c.skip(p + 1));
        assert(f + seq![c[p]] + r =~= c);
        if f.contains(',') {
            let k = choose|k: int| 0 <= k < f.len() && f[k] == ',';
            assert(c[k] == ',');
            lemma_matches_char(c, ',', k);
        }
        if c[0] != ';' && f.contains(';') {
            let k = choose|k: int| 0 <= k < f.len() && f[k] == ';';
            assert(c[k] == ';');
            lemma_matches_char(c, ';', k);
        }
    }
    if !c.contains(',') {
        if find(c, seq![',']) is Some {
            let k = find(c, seq![',']).unwrap();
            lemma_matches_char(c, ',', k);
            assert(c[k] == ',');
        }
    }
}

/// A walk goes the way its word names. From a place on the map, a player who is free to
/// move and says one of the eight direction words is taken through that direction's exit:
/// the exit for the player's stage at the place when the place has one (the stage is the
/// opened state where the place has things to open, else the knocked state where it has
/// things to knock on, else 0), the plain exit otherwise. When that exit leads to a place on
/// the map, the player is put there and told the word, `@` and the place.
pub proof fn law_walk_takes_named_exit(
    es: Seq<(u64, Player)>,
    nodes: Map<u32, Node>,
    msg: MessageView,
    before: Seq<ActionView>,
    after: Seq<ActionView>,
    ret: Seq<char>,
    old_pos: u32,
    new_pos: u32,
)
    requires
        walk_outcome(es, nodes, msg, before, after, ret, old_pos, new_pos),
        player_at(es, msg.addr) is Some,
        !(player_at(es, msg.addr).unwrap().climbing == 1 || player_at(es, msg.addr).unwrap().sleep
            == 1),
        nodes.contains_key(player_at(es, msg.addr).unwrap().pos),
    ensures
        ({
            let p = player_at(es, msg.addr).unwrap();
            let node = nodes[p.pos]@;
            let stage = if node.openat.dom().len() != 0 {
                p.opened
            } else if node.knockat.dom().len() != 0 {
                p.knocked
            } else {
                0
            };
            let way = |staged: Map<u32, u32>, plain: u32|
                if staged.contains_key(stage) {
                    staged[stage]
                } else {
                    plain
                };
            let arrives = |x: u32| nodes.contains_key(x) ==> new_pos == x && ret == msg.content + "@"@
                + int_text(x as int);
            &&& msg.content == "e"@ ==> arrives(way(node.easts, node.east_id))
            &&& msg.content == "w"@ ==> arrives(way(node.wests, node.west_id))
            &&& msg.content == "s"@ ==> arrives(way(node.souths, node.south_id))
            &&& msg.content == "n"@ ==> arrives(way(node.norths, node.north_id))
            &&& msg.content == "se"@ ==> arrives(way(node.southeasts, node.southeast_id))
            &&& msg.content == "sw"@ ==> arrives(way(node.southwests, node.southwest_id))
            &&& msg.content == "ne"@ ==> arrives(way(node.northeasts, node.northeast_id))
            &&& msg.content == "nw"@ ==> arrives(way(node.northwests, node.northwest_id))
        }),
{
    reveal_strlit("e");
    reveal_strlit("w");
    reveal_strlit("s");
    reveal_strlit("n");
    reveal_strlit("se");
    reveal_strlit("sw");
    reveal_strlit("ne");
    reveal_strlit("nw");
    assert("e"@.len() == 1);
    assert("e"@[0] == 'e');
    assert("w"@.len() == 1);
    assert("w"@[0] == 'w');
    assert("s"@.len() == 1);
    assert("s"@[0] == 's');
    assert("n"@.len() == 1);
    assert("n"@[0] == 'n');
    assert("se"@.len() == 2);
    assert("se"@[0] == 's');
    assert("se"@[1] == 'e');
    assert("sw"@.len() == 2);
    assert("sw"@[0] == 's');
    assert("sw"@[1] == 'w');
    assert("ne"@.len() == 2);
    assert("ne"@[0] == 'n');
    assert("ne"@[1] == 'e');
    assert("nw"@.len() == 2);
    assert("nw"@[0] == 'n');
    assert("nw"@[1] == 'w');
    let p = player_at(es, msg.addr).unwrap();
    let node = nodes[p.pos]@;
    let stage = view_stage(node, p);
    let target = crate::command_walk::walk_target(node, stage, msg.content);
    assert(msg.content == "e"@ ==> target == exit_at(node.easts, stage, node.east_id));
    assert(msg.content == "w"@ ==> target == exit_at(node.wests, stage, node.west_id));
    assert(msg.content == "s"@ ==> target == exit_at(node.souths, stage, node.south_id));
    assert(msg.content == "n"@ ==> target == exit_at(node.norths, stage, node.north_id));
    assert(msg.content == "se"@ ==> target == exit_at(node.southeasts, stage, node.southeast_id));
    assert(msg.content == "sw"@ ==> target == exit_at(node.southwests, stage, node.southwest_id));
    assert(msg.content == "ne"@ ==> target == exit_at(node.northeasts, stage, node.northeast_id));
    assert(msg.content == "nw"@ ==> target == exit_at(node.northwests, stage, node.northwest_id));
    assert(nodes.contains_key(target) ==> new_pos == target && ret == msg.content + "@"@ + int_text(
        target as int,
    ));
}

/// A finished climb shows where it ends. When a climb the place has (a known, non-empty
/// `climb@<target>` text) is told anything but to start (`0`) or go on (`continue`), and the
/// place's destination is on the map, the climber is told `pending 0 destpos` and the
/// destination, and the last thing sent is the destination's own view, with the other
/// players there; at most one finishing text comes before it.
pub proof fn law_climb_ends_at_destination_view(
    es: Seq<(u64, Player)>,
    nodes: Map<u32, Node>,
    p: Player,
    node: NodeView,
    msg: MessageView,
    id: usize,
    before: Seq<ActionView>,
    after: Seq<ActionView>,
    ret: Seq<char>,
    id2: usize,
)
    requires
        climb_outcome(es, nodes, p, node, msg, id, before, after, ret, id2),
        word_or(msg.content, 1, seq![]).len() != 0,
        node.climbat.contains_key(word_or(msg.content, 1, seq![])),
        node.climbat[word_or(msg.content, 1, seq![])].len() != 0,
        word_or(msg.content, 2, "0"@) != "0"@,
        word_or(msg.content, 2, "0"@) != "continue"@,
        nodes.contains_key(node.destpos),
    ensures
        ret == "pending 0 destpos "@ + int_text(node.destpos as int),
        before.len() + 1 <= after.len() <= before.len() + 2,
        after.last() == file_reply(
            msg.addr,
            nodes[node.destpos]@.look,
            RenderView::Plain,
            others_text(es, p.name@, node.destpos),
        ),
        id2 == id,
{
}

/// The list of the others at a place never names the one asking: adding an entry under the
/// asker's own name changes nothing, while an entry for someone else at the place adds that
/// player's line, and one elsewhere adds nothing.
pub proof fn law_others_never_name_me(es: Seq<(u64, Player)>, me: Seq<char>, pos: u32, a: u64, q: Player)
    ensures
        q.name@ == me ==> others_text(es.push((a, q)), me, pos) == others_text(es, me, pos),
        q.name@ != me && q.pos == pos ==> others_text(es.push((a, q)), me, pos) == others_text(
            es,
            me,
            pos,
        ) + "    普通百姓 "@ + q.name@ + "\n"@,
        q.pos != pos ==> others_text(es.push((a, q)), me, pos) == others_text(es, me, pos),
{
    assert(es.push((a, q)).drop_last() =~= es);
}

/// Looking around (`look`, `l` or `ls` with no target) shows the place's view for the
/// looker's stage together with the list of the others at the looker's place, listed for
/// the looker, so the looker is never among them (see `law_others_never_name_me`).
pub proof fn law_look_lists_only_others(
    es: Seq<(u64, Player)>,
    node: NodeView,
    msg: MessageView,
    before: Seq<ActionView>,
    after: Seq<ActionView>,
    ret: Seq<char>,
)
    requires
        look_outcome(es, node, msg, before, after, ret),
        word_or(msg.content, 1, seq![]).len() == 0,
        word_or(msg.content, 2, seq![]).len() == 0,
    ensures
        ({
            let p = player_at(es, msg.addr).unwrap();
            let stage = if node.openat.dom().len() != 0 {
                p.opened
            } else if node.knockat.dom().len() != 0 {
                p.knocked
            } else {
                0
            };
            &&& after.len() == before.len() + 1
            &&& after.last() matches ActionView::SendFile { addr, path, render, suffix }
            &&& addr == msg.addr
            &&& path == (if node.looks.contains_key(stage) {
                node.looks[stage]
            } else {
                node.look
            })
            &&& render == RenderView::Plain
            &&& suffix == others_text(es, p.name@, p.pos)
        }),
{
    let t = word_or(msg.content, 1, seq![]);
    assert(t + word_or(msg.content, 2, seq![]) =~= Seq::<char>::empty());
}

/// Whether `s` holds the two characters `a`, `b` next to each other.
proof fn lemma_contains_pair(s: Seq<char>, a: char, b: char)
    ensures
        contains(s, seq![a, b]) <==> exists|k: int| 0 <= k && k + 1 < s.len() && #[trigger] s[k] == a && s[k + 1] == b,
{
    lemma_find_from(s, seq![a, b], 0);
    if exists|k: int| 0 <= k && k + 1 < s.len() && #[trigger] s[k] == a && s[k + 1] == b {
        let k = choose|k: int| 0 <= k && k + 1 < s.len() && #[trigger] s[k] == a && s[k + 1] == b;
        assert(s.subrange(k, k + 2) =~= seq![a, b]);
        assert(matches_at(s, seq![a, b], k));
    }
    if contains(s, seq![a, b]) {
        let k = find(s, seq![a, b]).unwrap();
        assert(s.subrange(k, k + 2)[0] == s[k]);
        assert(s.subrange(k, k + 2)[1] == s[k + 1]);
    }
}

/// The quest a step looks up is named after the way the answer went: an answer holding
/// `e@` looks up `q_east`; else one holding `w@` looks up `q_west`; else `s@` gives
/// `q_south` and `n@` gives `q_north`; any other answer looks up `q_` and the answer itself.
pub proof fn law_quest_key_names_the_way(ret: Seq<char>)
    ensures
        contains(ret, "e@"@) ==> quest_key(ret) == "q_east"@,
        !contains(ret, "e@"@) && contains(ret, "w@"@) ==> quest_key(ret) == "q_west"@,
        !contains(ret, "e@"@) && !contains(ret, "w@"@) && contains(ret, "s@"@) ==> quest_key(ret)
            == "q_south"@,
        !contains(ret, "e@"@) && !contains(ret, "w@"@) && !contains(ret, "s@"@) && contains(
            ret,
            "n@"@,
        ) ==> quest_key(ret) == "q_north"@,
        !contains(ret, "e@"@) && !contains(ret, "w@"@) && !contains(ret, "s@"@) && !contains(
            ret,
            "n@"@,
        ) ==> quest_key(ret) == "q_"@ + ret,
{
    reveal_strlit("q_");
    reveal_strlit("east");
    reveal_strlit("west");
    reveal_strlit("south");
    reveal_strlit("north");
    reveal_strlit("q_east");
    reveal_strlit("q_west");
    reveal_strlit("q_south");
    reveal_strlit("q_north");
    assert("q_"@ + "east"@ =~= "q_east"@);
    assert("q_"@ + "west"@ =~= "q_west"@);
    assert("q_"@ + "south"@ =~= "q_south"@);
    assert("q_"@ + "north"@ =~= "q_north"@);
}

/// A walk's answer for one of the four plain directions (`e`, `w`, `s`, `n`, then `@` and
/// the place reached) looks up the quest of that direction.
pub proof fn law_walk_answer_names_its_quest(word: Seq<char>, pos: u32)
    requires
        word == "e"@ || word == "w"@ || word == "s"@ || word == "n"@,
    ensures
        word == "e"@ ==> quest_key(word + "@"@ + int_text(pos as int)) == "q_east"@,
        word == "w"@ ==> quest_key(word + "@"@ + int_text(pos as int)) == "q_west"@,
        word == "s"@ ==> quest_key(word + "@"@ + int_text(pos as int)) == "q_south"@,
        word == "n"@ ==> quest_key(word + "@"@ + int_text(pos as int)) == "q_north"@,
{
    reveal_strlit("e");
    reveal_strlit("w");
    reveal_strlit("s");
    reveal_strlit("n");
    reveal_strlit("@");
    reveal_strlit("e@");
    reveal_strlit("w@");
    reveal_strlit("s@");
    reveal_strlit("n@");
    let t = int_text(pos as int);
    lemma_nat_text(pos as nat);
    assert(t == nat_text(pos as nat));
    let ret = word + "@"@ + t;
    assert(ret.len() == t.len() + 2);
    assert(ret[0] == word[0]);
    assert(ret[1] == '@');
    assert forall|k: int| 2 <= k < ret.len() implies is_digit(#[trigger] ret[k]) by {
        assert(ret[k] == t[k - 2]);
    }
    assert("e@"@ =~= seq!['e', '@']);
    assert("w@"@ =~= seq!['w', '@']);
    assert("s@"@ =~= seq!['s', '@']);
    assert("n@"@ =~= seq!['n', '@']);
    lemma_contains_pair(ret, 'e', '@');
    lemma_contains_pair(ret, 'w', '@');
    lemma_contains_pair(ret, 's', '@');
    lemma_contains_pair(ret, 'n', '@');
    law_quest_key_names_the_way(ret);
}

/// A key without `$` holds no stage marker.
proof fn lemma_no_stage_mark(key: Seq<char>)
    requires
        forall|i: int| 0 <= i < key.len() ==> key[i] != '$',
    ensures
        forall|stage: u32| !contains(key, #[trigger] stage_mark(stage)),
{
    assert forall|stage: u32| !contains(key, #[trigger] stage_mark(stage)) by {
        let m = stage_mark(stage);
        lemma_find_from(key, m, 0);
        if contains(key, m) {
            let k = find(key, m).unwrap();
            assert(key.subrange(k, k + m.len())[0] == key[k]);
            assert(m[0] == '$');
        }
    }
}

/// The lengths and telling letters of the keys a place's description is read by.
proof fn lemma_map_key_letters()
    ensures
        "east$1"@.len() == 6,
        "east$1"@[0] == 'e',
        "east$1"@[5] == '1',
        "east"@.len() == 4,
        "east"@[0] == 'e',
        "west"@.len() == 4,
        "west"@[0] == 'w',
        "south"@.len() == 5,
        "south"@[0] == 's',
        "north"@.len() == 5,
        "north"@[0] == 'n',
        "southeast"@.len() == 9,
        "southeast"@[0] == 's',
        "southeast"@[5] == 'e',
        "southwest"@.len() == 9,
        "southwest"@[0] == 's',
        "southwest"@[5] == 'w',
        "northeast"@.len() == 9,
        "northeast"@[0] == 'n',
        "northeast"@[5] == 'e',
        "northwest"@.len() == 9,
        "northwest"@[0] == 'n',
        "northwest"@[5] == 'w',
        "id"@.len() == 2,
        "id"@[0] == 'i',
        "name"@.len() == 4,
        "name"@[0] == 'n',
        "look"@.len() == 4,
        "look"@[0] == 'l',
        "look@river"@.len() == 10,
        "look@river"@[0] == 'l',
        "look@river"@[5] == 'r',
        "look@path"@.len() == 9,
        "look@path"@[0] == 'l',
        "look@path"@[5] == 'p',
        "climb@up"@.len() == 8,
        "climb@up"@[0] == 'c',
        "climb@up"@[5] == '@',
        "climb@updone"@.len() == 12,
        "climb@updone"@[0] == 'c',
        "climb@updone"@[5] == '@',
        "climb@down"@.len() == 10,
        "climb@down"@[0] == 'c',
        "climb@down"@[5] == '@',
        "knock@gate"@.len() == 10,
        "knock@gate"@[0] == 'k',
        "knock@gate"@[5] == '@',
        "knock@gatedone"@.len() == 14,
        "knock@gatedone"@[0] == 'k',
        "knock@gatedone"@[5] == '@',
        "destpos"@.len() == 7,
        "destpos"@[0] == 'd',
        "destpos"@[5] == 'o',
        "localmaps"@.len() == 9,
        "localmaps"@[0] == 'l',
        "localmaps"@[5] == 'm',
{
    reveal_strlit("east$1");
    reveal_strlit("east");
    reveal_strlit("west");
    reveal_strlit("south");
    reveal_strlit("north");
    reveal_strlit("southeast");
    reveal_strlit("southwest");
    reveal_strlit("northeast");
    reveal_strlit("northwest");
    reveal_strlit("id");
    reveal_strlit("name");
    reveal_strlit("look");
    reveal_strlit("look@river");
    reveal_strlit("look@path");
    reveal_strlit("climb@up");
    reveal_strlit("climb@updone");
    reveal_strlit("climb@down");
    reveal_strlit("knock@gate");
    reveal_strlit("knock@gatedone");
    reveal_strlit("destpos");
    reveal_strlit("localmaps");
}

/// A line of a place's description naming a direction (`east=N`, `south=N`, ... ) sets that
/// direction's exit of the place to `N`, and nothing else.
pub proof fn law_map_line_sets_named_exit(n: NodeView, line: Seq<char>, v: u32)
    requires
        parse_u32(line_item(line)) == Some(v as int),
    ensures
        line_key(line) == "east"@ ==> apply_node_line(n, line) == (NodeView { east_id: v, ..n }),
        line_key(line) == "west"@ ==> apply_node_line(n, line) == (NodeView { west_id: v, ..n }),
        line_key(line) == "south"@ ==> apply_node_line(n, line) == (NodeView { south_id: v, ..n }),
        line_key(line) == "north"@ ==> apply_node_line(n, line) == (NodeView { north_id: v, ..n }),
        line_key(line) == "southeast"@ ==> apply_node_line(n, line) == (NodeView { southeast_id: v, ..n }),
        line_key(line) == "southwest"@ ==> apply_node_line(n, line) == (NodeView { southwest_id: v, ..n }),
        line_key(line) == "northeast"@ ==> apply_node_line(n, line) == (NodeView { northeast_id: v, ..n }),
        line_key(line) == "northwest"@ ==> apply_node_line(n, line) == (NodeView { northwest_id: v, ..n }),
{
    lemma_map_key_letters();
    assert(line_key(line) == "east"@ ==> apply_node_line(n, line) == (NodeView { east_id: v, ..n })) by {
        reveal_strlit("east");
        lemma_no_stage_mark("east"@);
    }
    assert(line_key(line) == "west"@ ==> apply_node_line(n, line) == (NodeView { west_id: v, ..n })) by {
        reveal_strlit("west");
        lemma_no_stage_mark("west"@);
    }
    assert(line_key(line) == "south"@ ==> apply_node_line(n, line) == (NodeView { south_id: v, ..n })) by {
        reveal_strlit("south");
        lemma_no_stage_mark("south"@);
    }
    assert(line_key(line) == "north"@ ==> apply_node_line(n, line) == (NodeView { north_id: v, ..n })) by {
        reveal_strlit("north");
        lemma_no_stage_mark("north"@);
    }
    assert(line_key(line) == "southeast"@ ==> apply_node_line(n, line) == (NodeView { southeast_id: v, ..n })) by {
        reveal_strlit("southeast");
        lemma_no_stage_mark("southeast"@);
    }
    assert(line_key(line) == "southwest"@ ==> apply_node_line(n, line) == (NodeView { southwest_id: v, ..n })) by {
        reveal_strlit("southwest");
        lemma_no_stage_mark("southwest"@);
    }
    assert(line_key(line) == "northeast"@ ==> apply_node_line(n, line) == (NodeView { northeast_id: v, ..n })) by {
        reveal_strlit("northeast");
        lemma_no_stage_mark("northeast"@);
    }
    assert(line_key(line) == "northwest"@ ==> apply_node_line(n, line) == (NodeView { northwest_id: v, ..n })) by {
        reveal_strlit("northwest");
        lemma_no_stage_mark("northwest"@);
    }
}

/// The words that call the game's commands: `hp` and `who` show health, `jq` and `jobquery`
/// the guide quest, the looking words look, `fight` fights, the eight directions walk, the
/// lasting actions climb, knock, open, sleep and bathe, `chat` and `` ` `` chat, `friend`
/// and `group` list friends, and `gmcp.localmap` sends the map.
pub proof fn law_command_words()
    ensures
        command_kind("hp"@) == Some(CommandWord::Hp),
        command_kind("who"@) == Some(CommandWord::Hp),
        command_kind("jq"@) == Some(CommandWord::Quest),
        command_kind("jobquery"@) == Some(CommandWord::Quest),
        command_kind("l"@) == Some(CommandWord::Look),
        command_kind("ls"@) == Some(CommandWord::Look),
        command_kind("look"@) == Some(CommandWord::Look),
        command_kind("localmaps"@) == Some(CommandWord::Look),
        command_kind("lm"@) == Some(CommandWord::Look),
        command_kind("list"@) == Some(CommandWord::Look),
        command_kind("startgmcp"@) == Some(CommandWord::Look),
        command_kind("xgmcp"@) == Some(CommandWord::Look),
        command_kind("fight"@) == Some(CommandWord::Fight),
        command_kind("e"@) == Some(CommandWord::Walk),
        command_kind("w"@) == Some(CommandWord::Walk),
        command_kind("s"@) == Some(CommandWord::Walk),
        command_kind("n"@) == Some(CommandWord::Walk),
        command_kind("ne"@) == Some(CommandWord::Walk),
        command_kind("sw"@) == Some(CommandWord::Walk),
        command_kind("se"@) == Some(CommandWord::Walk),
        command_kind("nw"@) == Some(CommandWord::Walk),
        command_kind("climb"@) == Some(CommandWord::Climb),
        command_kind("knock"@) == Some(CommandWord::Climb),
        command_kind("open"@) == Some(CommandWord::Climb),
        command_kind("sleep"@) == Some(CommandWord::Climb),
        command_kind("bath"@) == Some(CommandWord::Climb),
        command_kind("chat"@) == Some(CommandWord::Chat),
        command_kind("`"@) == Some(CommandWord::Chat),
        command_kind("friend"@) == Some(CommandWord::Friend),
        command_kind("group"@) == Some(CommandWord::Friend),
        command_kind("gmcp.localmap"@) == Some(CommandWord::Gmcp),
{
    reveal_strlit("hp");
    reveal_strlit("who");
    reveal_strlit("jq");
    reveal_strlit("jobquery");
    reveal_strlit("l");
    reveal_strlit("ls");
    reveal_strlit("look");
    reveal_strlit("localmaps");
    reveal_strlit("lm");
    reveal_strlit("list");
    reveal_strlit("startgmcp");
    reveal_strlit("xgmcp");
    reveal_strlit("fight");
    reveal_strlit("e");
    reveal_strlit("w");
    reveal_strlit("s");
    reveal_strlit("n");
    reveal_strlit("ne");
    reveal_strlit("sw");
    reveal_strlit("se");
    reveal_strlit("nw");
    reveal_strlit("climb");
    reveal_strlit("knock");
    reveal_strlit("open");
    reveal_strlit("sleep");
    reveal_strlit("bath");
    reveal_strlit("chat");
    reveal_strlit("`");
    reveal_strlit("friend");
    reveal_strlit("group");
    reveal_strlit("gmcp.localmap");
    assert("hp"@.len() == 2);
    assert("hp"@[0] == 'h');
    assert("hp"@[1] == 'p');
    assert("who"@.len() == 3);
    assert("who"@[0] == 'w');
    assert("who"@[1] == 'h');
    assert("jq"@.len() == 2);
    assert("jq"@[0] == 'j');
    assert("jq"@[1] == 'q');
    assert("jobquery"@.len() == 8);
    assert("jobquery"@[0] == 'j');
    assert("jobquery"@[1] == 'o');
    assert("l"@.len() == 1);
    assert("l"@[0] == 'l');
    assert("ls"@.len() == 2);
    assert("ls"@[0] == 'l');
    assert("ls"@[1] == 's');
    assert("look"@.len() == 4);
    assert("look"@[0] == 'l');
    assert("look"@[1] == 'o');
    assert("localmaps"@.len() == 9);
    assert("localmaps"@[0] == 'l');
    assert("localmaps"@[1] == 'o');
    assert("lm"@.len() == 2);
    assert("lm"@[0] == 'l');
    assert("lm"@[1] == 'm');
    assert("list"@.len() == 4);
    assert("list"@[0] == 'l');
    assert("list"@[1] == 'i');
    assert("startgmcp"@.len() == 9);
    assert("startgmcp"@[0] == 's');
    assert("startgmcp"@[1] == 't');
    assert("xgmcp"@.len() == 5);
    assert("xgmcp"@[0] == 'x');
    assert("xgmcp"@[1] == 'g');
    assert("fight"@.len() == 5);
    assert("fight"@[0] == 'f');
    assert("fight"@[1] == 'i');
    assert("e"@.len() == 1);
    assert("e"@[0] == 'e');
    assert("w"@.len() == 1);
    assert("w"@[0] == 'w');
    assert("s"@.len() == 1);
    assert("s"@[0] == 's');
    assert("n"@.len() == 1);
    assert("n"@[0] == 'n');
    assert("ne"@.len() == 2);
    assert("ne"@[0] == 'n');
    assert("ne"@[1] == 'e');
    assert("sw"@.len() == 2);
    assert("sw"@[0] == 's');
    assert("sw"@[1] == 'w');
    assert("se"@.len() == 2);
    assert("se"@[0] == 's');
    assert("se"@[1] == 'e');
    assert("nw"@.len() == 2);
    assert("nw"@[0] == 'n');
    assert("nw"@[1] == 'w');
    assert("climb"@.len() == 5);
    assert("climb"@[0] == 'c');
    assert("climb"@[1] == 'l');
    assert("knock"@.len() == 5);
    assert("knock"@[0] == 'k');
    assert("knock"@[1] == 'n');
    assert("open"@.len() == 4);
    assert("open"@[0] == 'o');
    assert("open"@[1] == 'p');
    assert("sleep"@.len() == 5);
    assert("sleep"@[0] == 's');
    assert("sleep"@[1] == 'l');
    assert("bath"@.len() == 4);
    assert("bath"@[0] == 'b');
    assert("bath"@[1] == 'a');
    assert("chat"@.len() == 4);
    assert("chat"@[0] == 'c');
    assert("chat"@[1] == 'h');
    assert("`"@.len() == 1);
    assert("`"@[0] == '`');
    assert("friend"@.len() == 6);
    assert("friend"@[0] == 'f');
    assert("friend"@[1] == 'r');
    assert("group"@.len() == 5);
    assert("group"@[0] == 'g');
    assert("group"@[1] == 'r');
    assert("gmcp.localmap"@.len() == 13);
    assert("gmcp.localmap"@[0] == 'g');
    assert("gmcp.localmap"@[1] == 'm');
}

/// A key made of a word without `$`, then `$` and a stage digit from 1 to 4: the word is
/// its part before `$`, and it holds the marker of that stage and of no other.
proof fn lemma_staged_key(word: Seq<char>, stage: u32, key: Seq<char>)
    requires
        1 <= stage <= 4,
        word.len() > 0,
        lacks(word, '$'),
        key == word + seq!['$', digit_char(stage as int)],
    ensures
        split(key, seq!['$'])[0] == word,
        forall|t: u32| 1 <= t <= 4 ==> (contains(key, #[trigger] stage_mark(t)) <==> t == stage),
{
    let c = digit_char(stage as int);
    let pieces = seq![word, seq![c]];
    assert(pieces.drop_first() =~= seq![seq![c]]);
    assert(join(pieces.drop_first(), '$') == seq![c]);
    assert(join(pieces, '$') =~= key);
    assert forall|i: int| 0 <= i < pieces.len() implies lacks(#[trigger] pieces[i], '$') by {}
    lemma_split_join(pieces, '$');
    assert forall|t: u32| 1 <= t <= 4 implies (contains(key, #[trigger] stage_mark(t)) <==> t == stage) by {
        let m = stage_mark(t);
        assert(nat_text(t as nat) =~= seq![digit_char(t as int)]);
        assert(m =~= seq!['$', digit_char(t as int)]);
        lemma_find_from(key, m, 0);
        let w = word.len() as int;
        if t == stage {
            assert(key.subrange(w, w + 2) =~= m);
            assert(matches_at(key, m, w));
        }
        if contains(key, m) {
            let k = find(key, m).unwrap();
            assert(key.subrange(k, k + 2)[0] == key[k]);
            assert(key.subrange(k, k + 2)[1] == key[k + 1]);
            assert(key[k] == '$');
            if k < w {
                assert(key[k] == word[k]);
            }
            assert(k == w);
            assert(key[k + 1] == c);
            assert((digit_char(t as int) as u32) == t + 48);
            assert((c as u32) == stage + 48);
        }
    }
}

/// A staged line with a known word changes the place only as its stage says: the plain
/// reading leaves the place alone (or, for `east$1`, does what stage 1 does anyway), and
/// of the four stages only the line's own applies.
proof fn lemma_staged_line_is_its_stage(n: NodeView, line: Seq<char>, dir: Seq<char>, stage: u32)
    requires
        1 <= stage <= 4,
        line_key(line) == dir + seq!['$', digit_char(stage as int)],
        dir == "look"@ || dir == "east"@ || dir == "west"@ || dir == "south"@ || dir == "north"@ || dir
            == "southeast"@ || dir == "southwest"@ || dir == "northeast"@ || dir == "northwest"@,
    ensures
        split(line_key(line), seq!['$'])[0] == dir,
        contains(line_key(line), stage_mark(stage)),
        apply_node_line(n, line) == apply_stage(n, line_key(line), line_item(line), stage),
{
    lemma_map_key_letters();
    reveal_strlit("look");
    reveal_strlit("east");
    reveal_strlit("west");
    reveal_strlit("south");
    reveal_strlit("north");
    reveal_strlit("southeast");
    reveal_strlit("southwest");
    reveal_strlit("northeast");
    reveal_strlit("northwest");
    let key = line_key(line);
    let item = line_item(line);
    lemma_staged_key(dir, stage, key);
    assert(key.len() == dir.len() + 2);
    assert(key[0] == dir[0]);
    assert(key[dir.len() as int + 1] == digit_char(stage as int));
    assert(dir_index(key) == -1);
    let x0 = apply_plain_key(n, key, item);
    if key == "east$1"@ {
        assert(x0 == with_staged_exit(n, 0, 1, item_num(item)));
        assert(stage == 1) by {
            assert(key[5] == '1');
            assert((digit_char(stage as int) as u32) == stage + 48);
        }
    } else {
        assert(x0 == n);
    }
    let y = apply_stage(n, key, item, stage);
    let x1 = apply_stage(x0, key, item, 1);
    let x2 = apply_stage(x1, key, item, 2);
    let x3 = apply_stage(x2, key, item, 3);
    let x4 = apply_stage(x3, key, item, 4);
    assert(contains(key, stage_mark(1)) <==> stage == 1);
    assert(contains(key, stage_mark(2)) <==> stage == 2);
    assert(contains(key, stage_mark(3)) <==> stage == 3);
    assert(contains(key, stage_mark(4)) <==> stage == 4);
    if key == "east$1"@ {
        assert(x1.easts =~= n.easts.insert(1, item_num(item)));
        assert(x1 == y);
    }
    assert(x4 == y);
}

/// A staged line of a place's description (`<direction>$<n>=N` or `look$<n>=<file>`, for a
/// stage `n` from 1 to 4) sets that direction's exit, or the view, for stage `n` alone and
/// leaves everything else as it was.
pub proof fn law_map_staged_line(n: NodeView, line: Seq<char>, dir: Seq<char>, stage: u32, v: u32)
    requires
        1 <= stage <= 4,
        line_key(line) == dir + seq!['$', digit_char(stage as int)],
        dir == "look"@ || parse_u32(line_item(line)) == Some(v as int),
    ensures
        dir == "east"@ ==> apply_node_line(n, line) == (NodeView { easts: n.easts.insert(stage, v), ..n }),
        dir == "west"@ ==> apply_node_line(n, line) == (NodeView { wests: n.wests.insert(stage, v), ..n }),
        dir == "south"@ ==> apply_node_line(n, line) == (NodeView { souths: n.souths.insert(stage, v), ..n }),
        dir == "north"@ ==> apply_node_line(n, line) == (NodeView { norths: n.norths.insert(stage, v), ..n }),
        dir == "southeast"@ ==> apply_node_line(n, line) == (NodeView { southeasts: n.southeasts.insert(stage, v), ..n }),
        dir == "southwest"@ ==> apply_node_line(n, line) == (NodeView { southwests: n.southwests.insert(stage, v), ..n }),
        dir == "northeast"@ ==> apply_node_line(n, line) == (NodeView { northeasts: n.northeasts.insert(stage, v), ..n }),
        dir == "northwest"@ ==> apply_node_line(n, line) == (NodeView { northwests: n.northwests.insert(stage, v), ..n }),
        dir == "look"@ ==> apply_node_line(n, line) == (NodeView {
            looks: n.looks.insert(stage, line_item(line)),
            ..n
        }),
{
    lemma_map_key_letters();
    reveal_strlit("look");
    reveal_strlit("east");
    reveal_strlit("west");
    reveal_strlit("south");
    reveal_strlit("north");
    reveal_strlit("southeast");
    reveal_strlit("southwest");
    reveal_strlit("northeast");
    reveal_strlit("northwest");
    if dir == "look"@ || dir == "east"@ || dir == "west"@ || dir == "south"@ || dir == "north"@ || dir
        == "southeast"@ || dir == "southwest"@ || dir == "northeast"@ || dir == "northwest"@ {
        lemma_staged_line_is_its_stage(n, line, dir, stage);
        let key = line_key(line);
        let item = line_item(line);
        assert(dir_index(dir) == (if dir == "east"@ {
            0
        } else if dir == "west"@ {
            1
        } else if dir == "south"@ {
            2
        } else if dir == "north"@ {
            3
        } else if dir == "southeast"@ {
            4
        } else if dir == "southwest"@ {
            5
        } else if dir == "northeast"@ {
            6
        } else if dir == "northwest"@ {
            7
        } else {
            -1
        }));
        assert(split(key, seq!['$'])[0] == dir);
        assert(contains(key, stage_mark(stage)));
    }
}

}
