use std::collections::HashMap;

use rustmud::channel::wrap_message;
use rustmud::command::Command;
use rustmud::command_fight::FightCommand;
use rustmud::command_walk::WalkCommand;
use rustmud::log::{error, init_log, Level, LoggerSlot};
use rustmud::login::LoginService;
use rustmud::map::init_map;
use rustmud::player::{Player, PlayerTable};
use rustmud::process::PostProcess;
use rustmud::process_fight::ProcessFight;
use rustmud::process_walk::ProcessWalk;
use rustmud::service::{Login, LoginInfo};
use rustmud::text::{split_str, u64_text};
use rustmud::text_map::TextMap;
use rustmud::utils::get_id;

fn player(name: &str, pos: u32, hp: i32) -> Player {
    let mut p = Player::new();
    p.name = name.to_string();
    p.pos = pos;
    p.hp = hp;
    p
}

fn logged_in(name: &str) -> LoginInfo {
    let mut li = LoginInfo::new();
    li.login.login_name = name.to_string();
    li.b_login = true;
    li
}

#[test]
fn fight_report_is_read_back() {
    let t = PlayerTable { entries: vec![(1, player("alice", 14, -5)), (2, player("bob", 14, 3))] };
    let m = wrap_message(1, "fight bob".to_string());
    let mut c = FightCommand::new(&t, &m, 42);
    let ret = c.execute();
    assert_eq!(ret, "fight bob -8 -4 42");
    assert_eq!(split_str(&ret, " "), vec!["fight", "bob", "-8", "-4", "42"]);
    let mut t2 = PlayerTable { entries: vec![(1, player("alice", 14, -5)), (2, player("bob", 14, 3))] };
    let li = logged_in("alice");
    {
        let mut p = ProcessFight::new(ret, &mut t2, &li, &m);
        p.execute();
    }
    assert_eq!(t2.entries[0].1.hp, -8);
    assert_eq!(t2.entries[0].1.timer_id, 42);
    assert_eq!(t2.entries[1].1.hp, -4);
}

#[test]
fn walk_report_is_read_back() {
    let nodes = init_map("[node]\nid=14\nname=A\nlook=a.txt\nnorth=1007\n[node]\nid=1007\nname=B\nlook=b.txt\n");
    let t = PlayerTable { entries: vec![(1, player("alice", 14, 0))] };
    let m = wrap_message(1, "n".to_string());
    let mut c = WalkCommand::new(&t, &m, &nodes);
    let ret = c.execute();
    assert_eq!(ret, "n@1007");
    let mut t2 = PlayerTable { entries: vec![(1, player("alice", 14, 0))] };
    let li = logged_in("alice");
    {
        let mut p = ProcessWalk::new(ret, &mut t2, &li, &m);
        p.execute();
    }
    assert_eq!(t2.entries[0].1.pos, 1007);
}

#[test]
fn no_login_without_the_right_password() {
    let logins = vec![Login { login_name: "alice".to_string(), password: "secret".to_string() }];
    let mut li = LoginInfo::new();
    li.login.login_name = "alice".to_string();
    let mut t = PlayerTable::new();
    let quests = HashMap::new();
    for attempt in ["", "Secret", "secrets"] {
        let m = wrap_message(5, attempt.to_string());
        let mut ls = LoginService::new(&mut li, &m, &mut t, &quests, &logins, vec![player("alice", 14, 0)]);
        assert_eq!(ls.do_login(), 4);
        assert!(!li.b_login);
    }
}

#[test]
fn steps_keep_seats() {
    let mut t = PlayerTable { entries: vec![(1, player("alice", 14, 10)), (2, player("bob", 14, 10))] };
    let li = logged_in("alice");
    let m = wrap_message(1, "e".to_string());
    {
        let mut p = ProcessWalk::new("e@15".to_string(), &mut t, &li, &m);
        p.execute();
    }
    let seats: Vec<(u64, String)> = t.entries.iter().map(|e| (e.0, e.1.name.clone())).collect();
    assert_eq!(seats, vec![(1, "alice".to_string()), (2, "bob".to_string())]);
}

#[test]
fn next_ids_differ() {
    let mut c: usize = 41;
    let a = get_id(&mut c);
    let b = get_id(&mut c);
    assert_ne!(a, b);
    assert_eq!(u64_text(b as u64), "42");
}

#[test]
fn errors_are_always_written() {
    for level in [Level::Error, Level::Warn, Level::Info] {
        let mut slot = LoggerSlot::new();
        init_log(&mut slot, level);
        assert!(error(&slot, "x").is_some());
    }
}

#[test]
fn text_map_read_after_write() {
    let mut m = TextMap::new();
    m.insert("river", "河");
    m.insert("path", "路");
    m.insert("river", "江");
    assert_eq!(m.get("river").map(|s| s.as_str()), Some("江"));
    assert_eq!(m.get("path").map(|s| s.as_str()), Some("路"));
    assert_eq!(m.get("sky"), None);
    assert!(!m.is_empty());
}
