use std::collections::HashMap;

use rustmud::action::Action;
use rustmud::channel::{wrap_message, Message};
use rustmud::login::LoginService;
use rustmud::player::{Player, PlayerTable};
use rustmud::quest::Quest;
use rustmud::service::{Login, LoginInfo};

fn login(name: &str, password: &str) -> Login {
    Login { login_name: name.to_string(), password: password.to_string() }
}

fn logins() -> Vec<Login> {
    vec![login("alice", "1"), login("bob", "1")]
}

fn user(name: &str) -> Player {
    let mut p = Player::new();
    p.name = name.to_string();
    p.pos = 14;
    p
}

fn users() -> Vec<Player> {
    vec![user("alice"), user("bob")]
}

fn msg(addr: u64, content: &str) -> Message {
    wrap_message(addr, content.to_string())
}

fn texts(out: &[Action]) -> Vec<String> {
    out.iter()
        .map(|a| match a {
            Action::Send(m) => m.content.clone(),
            Action::Disconnect(a) => format!("disconnect:{}", a),
            _ => String::new(),
        })
        .collect()
}

fn step(li: &mut LoginInfo, t: &mut PlayerTable, quests: &HashMap<u32, Quest>, addr: u64, text: &str) -> (u32, Vec<String>) {
    let ls_logins = logins();
    let m = msg(addr, text);
    let mut ls = LoginService::new(li, &m, t, quests, &ls_logins, users());
    let code = ls.do_login();
    let out = texts(&ls.out);
    (code, out)
}

#[test]
fn known_name_asks_for_password() {
    let mut li = LoginInfo::new();
    let mut t = PlayerTable::new();
    let quests = HashMap::new();
    let (code, out) = step(&mut li, &mut t, &quests, 5, "alice");
    assert_eq!(code, 1);
    assert_eq!(out, vec!["此ID档案已存在,请输入密码:"]);
    assert_eq!(li.login.login_name, "alice");
    assert_eq!(t.entries.len(), 1);
    assert_eq!(t.entries[0].0, 5);
    assert_eq!(t.entries[0].1.name, "成王败寇");
}

#[test]
fn unknown_name_is_refused() {
    let mut li = LoginInfo::new();
    let mut t = PlayerTable::new();
    let quests = HashMap::new();
    let (code, out) = step(&mut li, &mut t, &quests, 5, "zed");
    assert_eq!(code, 2);
    assert_eq!(out, vec!["用户不存在"]);
    assert_eq!(li.login.login_name, "");
}

#[test]
fn wrong_password_is_refused() {
    let mut li = LoginInfo::new();
    li.login.login_name = "alice".to_string();
    let mut t = PlayerTable::new();
    let quests = HashMap::new();
    let (code, out) = step(&mut li, &mut t, &quests, 5, "2");
    assert_eq!(code, 4);
    assert_eq!(out, vec!["密码错误！"]);
    assert!(!li.b_login);
    assert_eq!(li.login.password, "2");
}

#[test]
fn right_password_logs_in_and_shows_the_guide() {
    let mut li = LoginInfo::new();
    li.login.login_name = "alice".to_string();
    let mut t = PlayerTable::new();
    let mut quests = HashMap::new();
    let mut q = Quest::new();
    q.id = 1;
    q.job = "任务一".to_string();
    quests.insert(1, q);
    let (code, out) = step(&mut li, &mut t, &quests, 5, "1");
    assert_eq!(code, 0);
    assert_eq!(out, vec!["重新连线完毕。", "任务一"]);
    assert!(li.b_login);
    assert_eq!(t.entries.len(), 1);
    assert_eq!(t.entries[0].1.name, "alice");
    assert_eq!(t.entries[0].1.pos, 14);
}

#[test]
fn right_password_without_guide_quest_answers_99() {
    let mut li = LoginInfo::new();
    li.login.login_name = "alice".to_string();
    let mut t = PlayerTable::new();
    let quests = HashMap::new();
    let (code, out) = step(&mut li, &mut t, &quests, 5, "1");
    assert_eq!(code, 99);
    assert_eq!(out, vec!["重新连线完毕。"]);
    assert!(li.b_login);
}

#[test]
fn second_login_drops_the_first() {
    let mut li = LoginInfo::new();
    li.login.login_name = "alice".to_string();
    let mut t = PlayerTable { entries: vec![(7, user("alice")), (8, user("bob"))] };
    let quests = HashMap::new();
    let (code, out) = step(&mut li, &mut t, &quests, 9, "1");
    assert_eq!(code, 99);
    assert_eq!(out, vec!["重新连线完毕。", "此用户已在服务器上登录过，其将被强制退出。", "disconnect:7"]);
    let addrs: Vec<u64> = t.entries.iter().map(|e| e.0).collect();
    assert_eq!(addrs, vec![8, 9]);
}
