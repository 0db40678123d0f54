use std::collections::HashMap;

use rustmud::action::Action;
use rustmud::channel::{wrap_message, Message};
use rustmud::player::{Player, PlayerTable};
use rustmud::process::{PostProcess, ProcessNone};
use rustmud::process_climb::ProcessClimb;
use rustmud::process_fight::ProcessFight;
use rustmud::process_quest::ProcessQuest;
use rustmud::process_walk::ProcessWalk;
use rustmud::quest::Quest;
use rustmud::service::LoginInfo;

fn player(name: &str, pos: u32) -> Player {
    let mut p = Player::new();
    p.name = name.to_string();
    p.pos = pos;
    p
}

fn table() -> PlayerTable {
    let mut alice = player("alice", 14);
    alice.hp = 100;
    alice.timer_id = 3;
    let mut bob = player("bob", 14);
    bob.hp = 50;
    PlayerTable { entries: vec![(1, alice), (2, bob)] }
}

fn logged_in(name: &str) -> LoginInfo {
    let mut li = LoginInfo::new();
    li.login.login_name = name.to_string();
    li.b_login = true;
    li
}

fn msg(addr: u64, content: &str) -> Message {
    wrap_message(addr, content.to_string())
}

fn quest(id: u32, name: &str, parent: u32, node: u32) -> Quest {
    let mut q = Quest::new();
    q.id = id;
    q.name = name.to_string();
    q.parent = parent;
    q.node = node;
    q
}

#[test]
fn walk_step_moves_the_walker() {
    let mut t = table();
    let li = logged_in("alice");
    let m = msg(1, "e");
    {
        let mut p = ProcessWalk::new("e@15".to_string(), &mut t, &li, &m);
        assert_eq!(p.execute(), "");
    }
    assert_eq!(t.entries[0].1.pos, 15);
    assert_eq!(t.entries[0].1.timer_id, 0);
    assert_eq!(t.entries[1].1.pos, 14);
}

#[test]
fn walk_step_ignores_other_answers() {
    let mut t = table();
    let li = logged_in("alice");
    let m = msg(1, "hp");
    {
        let mut p = ProcessWalk::new("hp".to_string(), &mut t, &li, &m);
        p.execute();
    }
    assert_eq!(t.entries[0].1.pos, 14);
    assert_eq!(t.entries[0].1.timer_id, 3);
}

#[test]
fn fight_step_keeps_both_healths() {
    let mut t = table();
    let li = logged_in("alice");
    let m = msg(1, "fight bob");
    {
        let mut p = ProcessFight::new("fight bob 97 43 5".to_string(), &mut t, &li, &m);
        assert_eq!(p.execute(), "");
    }
    assert_eq!(t.entries[0].1.hp, 97);
    assert_eq!(t.entries[0].1.timer_id, 5);
    assert_eq!(t.entries[1].1.hp, 43);
}

#[test]
fn fight_step_with_short_answers() {
    let mut t = table();
    let li = logged_in("alice");
    let m = msg(1, "fight");
    {
        let mut p = ProcessFight::new("fight".to_string(), &mut t, &li, &m);
        assert_eq!(p.execute(), "");
    }
    {
        let mut p = ProcessFight::new("fight bob 1".to_string(), &mut t, &li, &m);
        assert_eq!(p.execute(), "0");
    }
    assert_eq!(t.entries[0].1.hp, 100);
}

#[test]
fn lasting_steps_keep_states() {
    let mut t = table();
    let li = logged_in("alice");
    let m = msg(1, "climb up");
    {
        let mut p = ProcessClimb::new("climbing 1 x 20".to_string(), &mut t, &li, &m);
        p.execute();
    }
    assert_eq!(t.entries[0].1.climbing, 1);
    assert_eq!(t.entries[0].1.pos, 20);
    {
        let mut p = ProcessClimb::new("knocked 1".to_string(), &mut t, &li, &m);
        p.execute();
    }
    assert_eq!(t.entries[0].1.knocked, 1);
    {
        let mut p = ProcessClimb::new("sleep 1".to_string(), &mut t, &li, &m);
        p.execute();
    }
    assert_eq!(t.entries[0].1.sleep, 1);
    assert_eq!(t.entries[1].1.sleep, 0);
}

#[test]
fn quest_step_rewards_a_top_quest_once() {
    let mut t = table();
    let li = logged_in("alice");
    let m = msg(1, "e");
    let mut quests = HashMap::new();
    let mut q = quest(1, "q_east", 0, 15);
    q.xp = 10;
    q.sp = 2;
    q.next = 2;
    q.award = "奖励".to_string();
    q.after = "继续".to_string();
    quests.insert(1, q);
    let out;
    {
        let mut p = ProcessQuest::new("e@15".to_string(), &quests, &mut t, &li, &m);
        assert_eq!(p.execute(), "");
        out = p.out.len();
    }
    assert_eq!(out, 2);
    let a = &t.entries[0].1;
    assert_eq!(a.newbie_quest.get(&1), Some(&true));
    assert_eq!(a.newbie_next, 2);
    assert_eq!(a.xp, 10);
    assert_eq!(a.sp, 2);
    {
        let mut p = ProcessQuest::new("e@15".to_string(), &quests, &mut t, &li, &m);
        p.execute();
        assert!(p.out.is_empty());
    }
    assert_eq!(t.entries[0].1.xp, 10);
}

#[test]
fn quest_step_completes_a_parent() {
    let mut t = table();
    let li = logged_in("alice");
    let m = msg(1, "look river");
    let mut quests = HashMap::new();
    quests.insert(2, quest(2, "q_look_river", 3, 0));
    let mut parent = quest(3, "q_parent", 0, 0);
    parent.subquest.insert(2, false);
    parent.xp = 100;
    parent.next = 4;
    parent.award = "大奖".to_string();
    parent.after = "下一步".to_string();
    quests.insert(3, parent);
    let texts: Vec<String>;
    {
        let mut p = ProcessQuest::new("look_river".to_string(), &quests, &mut t, &li, &m);
        p.execute();
        texts = p.out.iter().map(|a| match a {
            Action::Send(m) => m.content.clone(),
            _ => String::new(),
        }).collect();
    }
    assert_eq!(texts, vec!["大奖", "下一步"]);
    let a = &t.entries[0].1;
    assert_eq!(a.newbie_quest.get(&2), Some(&true));
    assert_eq!(a.newbie_quest.get(&3), Some(&true));
    assert_eq!(a.newbie_next, 4);
    assert_eq!(a.xp, 100);
}

#[test]
fn quest_step_with_unknown_parent_marks_only_the_quest() {
    let mut t = table();
    t.entries.push((3, player("alice", 1)));
    let li = logged_in("alice");
    let m = msg(1, "x");
    let mut quests = HashMap::new();
    quests.insert(4, quest(4, "q_x", 9, 0));
    {
        let mut p = ProcessQuest::new("x".to_string(), &quests, &mut t, &li, &m);
        assert_eq!(p.execute(), "");
    }
    assert_eq!(t.entries[0].1.newbie_quest.get(&4), Some(&true));
    assert_eq!(t.entries[2].1.newbie_quest.get(&4), None);
}

#[test]
fn quest_step_without_player_answers_99() {
    let mut t = table();
    let li = logged_in("alice");
    let m = msg(9, "e");
    let quests = HashMap::new();
    let mut p = ProcessQuest::new("e@15".to_string(), &quests, &mut t, &li, &m);
    assert_eq!(p.execute(), "99");
}

#[test]
fn none_step_reports_unknown_commands() {
    let m = msg(1, "xyz");
    let mut p = ProcessNone::new("none".to_string(), &m);
    assert_eq!(p.execute(), "");
    assert!(matches!(&p.out[0], Action::Send(m) if m.content == "There is no match command."));
    let mut p = ProcessNone::new("ok".to_string(), &m);
    p.execute();
    assert!(p.out.is_empty());
}
