use std::collections::HashMap;

use rustmud::action::Action;
use rustmud::channel::{wrap_message, Message, MessageType};
use rustmud::factory_mapfiles::MapFiles;
use rustmud::map::init_map;
use rustmud::player::{Group, Player};
use rustmud::quest::Quest;
use rustmud::service::{command_word, CommandWord, Login, Service, ServiceFault};

const MAP: &str = "[node]\nid=14\nname=山庄大门\nlook=look14.txt\neast=15\n[node]\nid=15\nname=票号\nlook=look15.txt\nwest=14\n";

fn logins() -> Vec<Login> {
    vec![
        Login { login_name: "alice".to_string(), password: "1".to_string() },
        Login { login_name: "bob".to_string(), password: "1".to_string() },
        Login { login_name: "eve".to_string(), password: "1".to_string() },
    ]
}

fn user(name: &str, hp: i32) -> Player {
    let mut p = Player::new();
    p.name = name.to_string();
    p.fullname = name.to_uppercase();
    p.group_name = "oak".to_string();
    p.pos = 14;
    p.hp = hp;
    p.xp = 1;
    p
}

fn users() -> Vec<Player> {
    vec![user("alice", 100), user("bob", 50)]
}

fn groups() -> Vec<Group> {
    vec![Group { name: "oak".to_string(), members: vec!["alice".to_string(), "bob".to_string()] }]
}

fn msg(addr: u64, content: &str) -> Message {
    wrap_message(addr, content.to_string())
}

fn serve(s: &mut Service, addr: u64, text: &str) -> Result<u32, ServiceFault> {
    s.on_service(&msg(addr, text), &logins(), users(), groups())
}

fn last_text(s: &Service) -> String {
    match s.out.last() {
        Some(Action::Send(m)) => m.content.clone(),
        _ => String::new(),
    }
}

fn service_with(quests: HashMap<u32, Quest>) -> Service {
    Service::new(init_map(MAP), quests, MapFiles::new())
}

fn logged_in(s: &mut Service, addr: u64, name: &str) {
    assert_eq!(serve(s, addr, name), Ok(1));
    assert_eq!(serve(s, addr, "1"), Ok(99));
}

fn player_at(s: &Service, addr: u64) -> &Player {
    &s.players.entries.iter().find(|e| e.0 == addr).unwrap().1
}

#[test]
fn command_words() {
    assert_eq!(command_word("who"), Some(CommandWord::Hp));
    assert_eq!(command_word("jobquery"), Some(CommandWord::Quest));
    assert_eq!(command_word("xgmcp"), Some(CommandWord::Look));
    assert_eq!(command_word("nw"), Some(CommandWord::Walk));
    assert_eq!(command_word("bath"), Some(CommandWord::Climb));
    assert_eq!(command_word("`"), Some(CommandWord::Chat));
    assert_eq!(command_word("group"), Some(CommandWord::Friend));
    assert_eq!(command_word("gmcp.localmap"), Some(CommandWord::Gmcp));
    assert_eq!(command_word("HP"), None);
}

#[test]
fn timer_messages_change_nothing() {
    let mut s = service_with(HashMap::new());
    let mut m = Message::new();
    m.msg_type = MessageType::Timer;
    assert_eq!(s.on_service(&m, &logins(), users(), groups()), Ok(0));
    assert!(s.login_infos.is_empty());
    assert!(s.out.is_empty());
}

#[test]
fn login_then_walk() {
    let mut s = service_with(HashMap::new());
    logged_in(&mut s, 5, "alice");
    assert!(s.login_infos[0].1.b_login);
    assert_eq!(player_at(&s, 5).name, "alice");
    assert_eq!(serve(&mut s, 5, "e"), Ok(0));
    assert_eq!(player_at(&s, 5).pos, 15);
    assert_eq!(player_at(&s, 5).timer_id, 0);
}

#[test]
fn unknown_words_get_a_question() {
    let mut s = service_with(HashMap::new());
    logged_in(&mut s, 5, "alice");
    assert_eq!(serve(&mut s, 5, "dance"), Ok(0));
    assert_eq!(last_text(&s), "要做什么?");
}

#[test]
fn fight_through_the_service() {
    let mut s = service_with(HashMap::new());
    logged_in(&mut s, 5, "alice");
    logged_in(&mut s, 6, "bob");
    assert_eq!(serve(&mut s, 5, "fight bob"), Ok(0));
    assert_eq!(player_at(&s, 5).hp, 97);
    assert_eq!(player_at(&s, 5).timer_id, 1);
    assert_eq!(player_at(&s, 6).hp, 43);
    assert_eq!(s.next_id, 2);
}

#[test]
fn a_dropped_connection_cannot_command() {
    let mut s = service_with(HashMap::new());
    logged_in(&mut s, 5, "alice");
    assert_eq!(serve(&mut s, 6, "alice"), Ok(1));
    assert_eq!(serve(&mut s, 6, "1"), Ok(99));
    assert!(matches!(s.out.last(), Some(Action::Disconnect(5))));
    assert_eq!(serve(&mut s, 5, "hp"), Err(ServiceFault::Command));
}

#[test]
fn login_fault_for_unregistered_player() {
    let mut s = service_with(HashMap::new());
    assert_eq!(serve(&mut s, 5, "eve"), Ok(1));
    assert_eq!(serve(&mut s, 5, "1"), Err(ServiceFault::Login));
}

#[test]
fn quest_fault_when_reward_overflows() {
    let mut quests = HashMap::new();
    let mut q = Quest::new();
    q.id = 1;
    q.name = "q_east".to_string();
    q.node = 15;
    q.xp = u32::MAX;
    quests.insert(1, q);
    let mut s = service_with(quests);
    assert_eq!(serve(&mut s, 5, "alice"), Ok(1));
    assert_eq!(serve(&mut s, 5, "1"), Ok(0));
    assert_eq!(serve(&mut s, 5, "e"), Err(ServiceFault::QuestStep));
}

#[test]
fn unreadable_answers_are_faults() {
    let mut s = service_with(HashMap::new());
    logged_in(&mut s, 5, "alice");
    logged_in(&mut s, 6, "bob");
    assert_eq!(serve(&mut s, 5, "chat bob e@x"), Err(ServiceFault::WalkReport));
    assert_eq!(serve(&mut s, 5, "chat bob fight a b c"), Err(ServiceFault::FightReport));
    assert_eq!(serve(&mut s, 5, "chat bob sleep well"), Err(ServiceFault::LastingReport));
}

fn addrs_distinct(s: &Service) -> bool {
    let es = &s.players.entries;
    (0..es.len()).all(|i| (i + 1..es.len()).all(|j| es[i].0 != es[j].0))
}

#[test]
fn each_connection_has_one_seat() {
    let mut s = service_with(HashMap::new());
    assert_eq!(serve(&mut s, 5, "nobody"), Ok(2));
    assert_eq!(serve(&mut s, 5, "alice"), Ok(1));
    assert_eq!(serve(&mut s, 5, "2"), Ok(4));
    assert_eq!(serve(&mut s, 5, "1"), Ok(99));
    assert_eq!(serve(&mut s, 6, "bob"), Ok(1));
    assert_eq!(serve(&mut s, 6, "1"), Ok(99));
    assert_eq!(serve(&mut s, 5, "e"), Ok(0));
    assert_eq!(serve(&mut s, 7, "alice"), Ok(1));
    assert_eq!(serve(&mut s, 7, "1"), Ok(99));
    assert!(addrs_distinct(&s));
    assert_eq!(s.players.entries.len(), 2);
    assert!(s.players.entries.iter().all(|e| e.0 != 5));
}

#[test]
fn timer_ids_from_the_service_start_at_one() {
    let mut s = service_with(HashMap::new());
    logged_in(&mut s, 5, "alice");
    logged_in(&mut s, 6, "bob");
    assert_eq!(serve(&mut s, 5, "fight bob"), Ok(0));
    assert_eq!(player_at(&s, 5).timer_id, 1);
    assert_eq!(serve(&mut s, 6, "fight alice"), Ok(0));
    assert_eq!(player_at(&s, 6).timer_id, 2);
    assert_eq!(s.next_id, 3);
}
