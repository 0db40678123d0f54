use std::collections::HashMap;

use rustmud::action::Action;
use rustmud::channel::{wrap_message, Message, MessageType};
use rustmud::command::{Command, Commands, EmptyCommand, Invoker};
use rustmud::command_chat::ChatCommand;
use rustmud::command_fight::FightCommand;
use rustmud::command_friend::FriendCommand;
use rustmud::command_hp::HpCommand;
use rustmud::command_look::LookCommand;
use rustmud::command_map::MapCommand;
use rustmud::command_quest::QuestCommand;
use rustmud::command_walk::WalkCommand;
use rustmud::command_x::XCommand;
use rustmud::factory_mapfiles::{MapFile, MapFiles};
use rustmud::map::init_map;
use rustmud::player::{Group, Player, PlayerTable};
use rustmud::quest::Quest;

fn player(name: &str, fullname: &str, group: &str, pos: u32) -> Player {
    let mut p = Player::new();
    p.name = name.to_string();
    p.fullname = fullname.to_string();
    p.group_name = group.to_string();
    p.pos = pos;
    p
}

fn table() -> PlayerTable {
    let mut alice = player("alice", "西门吹雪", "oak", 14);
    alice.hp = 100;
    alice.friends = vec!["bob".to_string(), "charlie".to_string()];
    let mut bob = player("bob", "小茶茶", "oak", 14);
    bob.hp = 50;
    let carol = player("carol", "卡罗", "pine", 15);
    PlayerTable { entries: vec![(1, alice), (2, bob), (3, carol)] }
}

fn msg(addr: u64, content: &str) -> Message {
    wrap_message(addr, content.to_string())
}

fn texts(out: &[Action]) -> Vec<String> {
    out.iter()
        .map(|a| match a {
            Action::Send(m) => m.content.clone(),
            Action::Combat(m) => format!("combat:{}", m.content),
            Action::SendFile(f) => format!("file:{}", f.path),
            Action::Disconnect(a) => format!("disconnect:{}", a),
        })
        .collect()
}

const MAP: &str = "[node]\nid=14\nname=山庄大门\nlook=look14.txt\nlocalmaps=liuxiu.txt\neast=15\nlook@river=河水清清\n[node]\nid=15\nname=票号\nlook=look15.txt\nwest=14\n";

#[test]
fn hp_and_who() {
    let t = table();
    let m = msg(1, "HP");
    let mut c = HpCommand::new(&t, &m);
    assert_eq!(c.execute(), "hp");
    assert_eq!(c.out.len(), 2);
    let m = msg(1, "who");
    let mut c = HpCommand::new(&t, &m);
    assert_eq!(c.execute(), "who");
    assert_eq!(
        texts(&c.out),
        vec!["\u{1b}[1;32malice\u{1b}[0;00m \u{1b}[1;32mbob\u{1b}[0;00m\n\u{1b}[1;32mcarol\u{1b}[0;00m"]
    );
}

#[test]
fn chat_needs_something_to_say() {
    let t = table();
    let m = msg(1, "chat");
    let mut c = ChatCommand::new(&t, &m, Vec::new());
    assert_eq!(c.execute(), "no content");
    assert_eq!(texts(&c.out), vec!["要chat什么？"]);
}

#[test]
fn chat_not_with_yourself() {
    let t = table();
    let m = msg(1, "chat alice hi");
    let mut c = ChatCommand::new(&t, &m, Vec::new());
    assert_eq!(c.execute(), "no content");
    assert_eq!(texts(&c.out), vec!["自己不能和自己聊天"]);
}

#[test]
fn chat_to_the_world() {
    let t = table();
    let m = msg(1, "chat hello world");
    let mut c = ChatCommand::new(&t, &m, Vec::new());
    assert_eq!(c.execute(), "world");
    assert_eq!(c.msg_type, "world");
    let out = texts(&c.out);
    assert_eq!(out.len(), 6);
    assert_eq!(out[0], "【世界】西门吹雪(alice): hello world");
    assert!(out[1].contains("\"channel\": \"world\""));
    assert!(matches!(&c.out[4], Action::Send(m) if m.addr == 3 && m.msg_type == MessageType::NoPrompt));
}

#[test]
fn chat_to_a_group() {
    let t = table();
    let users = vec![player("alice", "", "oak", 1), player("bob", "", "oak", 1), player("carol", "", "pine", 1)];
    let m = msg(1, "chat oak see you at noon");
    let mut c = ChatCommand::new(&t, &m, users);
    assert_eq!(c.execute(), "group");
    assert_eq!(c.ps.len(), 2);
    let out = texts(&c.out);
    assert_eq!(out.len(), 4);
    assert_eq!(out[0], "【同盟】西门吹雪(alice): see you at noon");
    assert!(matches!(&c.out[2], Action::Send(m) if m.addr == 2));
}

#[test]
fn chat_to_a_friend() {
    let t = table();
    let users = vec![player("bob", "", "oak", 1)];
    let m = msg(1, "chat bob see you");
    let mut c = ChatCommand::new(&t, &m, users);
    assert_eq!(c.execute(), "chat bob see you");
    assert_eq!(c.msg_type, "friend");
    let out = texts(&c.out);
    assert_eq!(out.len(), 4);
    assert_eq!(out[0], "【私聊】来自西门吹雪(alice)的消息: see you");
    assert_eq!(out[2], "【私聊】发送给bob的消息: see you");
    assert!(matches!(&c.out[0], Action::Send(m) if m.addr == 2));
    assert!(matches!(&c.out[2], Action::Send(m) if m.addr == 1));
}

#[test]
fn chat_to_someone_away_or_without_words() {
    let t = table();
    let users = vec![player("dave", "", "elm", 1), player("bob", "", "oak", 1)];
    let m = msg(1, "chat dave hi");
    let mut c = ChatCommand::new(&t, &m, Vec::new());
    // dave is not registered here, so the line goes to the world.
    assert_eq!(c.execute(), "world");
    let m = msg(1, "chat dave hi");
    let mut c = ChatCommand::new(&t, &m, vec![player("dave", "", "elm", 1)]);
    assert_eq!(c.execute(), "no content");
    assert_eq!(texts(&c.out), vec!["dave现在未上线"]);
    let m = msg(1, "chat bob");
    let mut c = ChatCommand::new(&t, &m, users);
    assert_eq!(c.execute(), "no content");
    assert_eq!(texts(&c.out), vec!["要对bob说什么？"]);
}

#[test]
fn friend_and_group_lists() {
    let t = table();
    let groups = vec![Group { name: "oak".to_string(), members: vec!["alice".to_string(), "bob".to_string()] }];
    let m = msg(1, "Friend");
    let mut c = FriendCommand::new(&t, &m, Vec::new());
    assert_eq!(c.execute(), "Friend");
    assert_eq!(c.msg_type, "friend");
    assert_eq!(texts(&c.out), vec!["Friend [{\"name\" : \"bob\",},{\"name\" : \"charlie\"}]"]);
    let m = msg(1, "group");
    let mut c = FriendCommand::new(&t, &m, groups);
    assert_eq!(c.execute(), "group");
    assert_eq!(texts(&c.out), vec!["Group [{\"name\" : \"alice\"},{\"name\" : \"bob\"}]"]);
    let m = msg(3, "group");
    let mut c = FriendCommand::new(&t, &m, Vec::new());
    c.msg_type = "group".to_string();
    assert_eq!(c.send_msg(3, ""), "no group");
    assert!(c.out.is_empty());
}

#[test]
fn fight_rounds() {
    let t = table();
    let m = msg(1, "fight bob");
    let mut c = FightCommand::new(&t, &m, 7);
    assert_eq!(c.execute(), "fight bob 97 43 7");
    assert_eq!(c.next_id, 8);
    let out = texts(&c.out);
    assert_eq!(out.len(), 3);
    assert_eq!(out[2], "combat:fight bob");
    let mut m = msg(1, "fight bob hit");
    m.timer_id = "12".to_string();
    let mut c = FightCommand::new(&t, &m, 7);
    assert_eq!(c.execute(), "fight bob 97 43 12");
    assert_eq!(c.next_id, 7);
}

#[test]
fn fight_refusals() {
    let t = table();
    let cases = [(1, "fight", "no"), (1, "fight alice", "deny fight yourself"), (1, "fight carol", "fight who?"), (9, "fight bob", "none")];
    for (addr, text, answer) in cases {
        let m = msg(addr, text);
        let mut c = FightCommand::new(&t, &m, 1);
        assert_eq!(c.execute(), answer);
        assert_eq!(c.next_id, 1);
    }
}

#[test]
fn walking() {
    let t = table();
    let nodes = init_map(MAP);
    let m = msg(1, "e");
    let mut c = WalkCommand::new(&t, &m, &nodes);
    assert_eq!(c.execute(), "e@15");
    assert_eq!(c.new_pos, 15);
    let m = msg(1, "w");
    let mut c = WalkCommand::new(&t, &m, &nodes);
    assert_eq!(c.execute(), "no map!");
    assert_eq!(c.new_pos, 0);
    assert!(texts(&c.out).contains(&"这里没有路".to_string()));
    let mut tired = table();
    tired.entries[0].1.sleep = 1;
    let m = msg(1, "e");
    let mut c = WalkCommand::new(&tired, &m, &nodes);
    c.new_pos = 7;
    assert_eq!(c.execute(), "");
    assert_eq!(c.new_pos, 7);
    assert_eq!(texts(&c.out), vec!["你的动作还没有完成，不能移动。"]);
}

#[test]
fn looking() {
    let t = table();
    let nodes = init_map(MAP);
    let m = msg(1, "look");
    let mut c = LookCommand::new(&t, &m, &nodes);
    assert_eq!(c.execute(), "look_");
    assert_eq!(texts(&c.out), vec!["file:look14.txt"]);
    let m = msg(1, "look river");
    let mut c = LookCommand::new(&t, &m, &nodes);
    assert_eq!(c.execute(), "look_river");
    assert_eq!(texts(&c.out), vec!["河水清清"]);
    let m = msg(1, "l sky");
    let mut c = LookCommand::new(&t, &m, &nodes);
    assert_eq!(c.execute(), "");
    assert_eq!(texts(&c.out), vec!["要看什么?"]);
    let m = msg(1, "LM");
    let mut c = LookCommand::new(&t, &m, &nodes);
    assert_eq!(c.execute(), "ok");
    assert_eq!(texts(&c.out), vec!["file:liuxiu.txt"]);
    let far = PlayerTable { entries: vec![(1, player("zed", "", "", 99))] };
    let m = msg(1, "look");
    let mut c = LookCommand::new(&far, &m, &nodes);
    assert_eq!(c.execute(), "no map!");
}

#[test]
fn quest_query() {
    let t = table();
    let mut quests = HashMap::new();
    let mut q = Quest::new();
    q.id = 1;
    q.job = "去山庄大门".to_string();
    quests.insert(1, q);
    let m = msg(1, "jq");
    let mut c = QuestCommand::new(&t, &m, &quests);
    assert_eq!(c.execute(), "jobquery");
    assert_eq!(texts(&c.out), vec!["去山庄大门"]);
    let empty = HashMap::new();
    let mut c = QuestCommand::new(&t, &m, &empty);
    assert_eq!(c.execute(), "jobquery");
    assert_eq!(texts(&c.out), vec!["当前没有任务"]);
}

#[test]
fn map_pane() {
    let t = table();
    let mut nodes = init_map(MAP);
    nodes.get_mut(&14).unwrap().localmaps_gmcp = "liuxiu.txt".to_string();
    let mut files = MapFiles::new();
    files.insert("liuxiu.txt", MapFile::new("长廊17 山庄大门14 票号15", "maps/liuxiu.txt"));
    let m = msg(1, "gmcp.localmap");
    let mut c = MapCommand::new(&t, &m, &nodes, &files);
    assert_eq!(c.execute(), "gmcp.localmap");
    assert_eq!(
        texts(&c.out),
        vec!["Map {\"content\" : \"长廊17 <span style='color: yellow'>山庄大门</span>14 票号15\"}"]
    );
    let none = MapFiles::new();
    let mut c = MapCommand::new(&t, &m, &nodes, &none);
    c.execute();
    assert!(c.out.is_empty());
}

#[test]
fn invoker_runs_what_it_holds() {
    let t = table();
    let m = msg(1, "who");
    let mut inv = Invoker::new();
    assert_eq!(inv.execute(), "");
    inv.set(Commands::Hp(HpCommand::new(&t, &m)));
    assert_eq!(inv.execute(), "who");
    let mut e = EmptyCommand::new();
    assert_eq!(e.execute(), "");
    let mut x = XCommand::new();
    assert_eq!(x.execute(), "no");
    x.set_players(table());
    x.msg.addr = 2;
    assert_eq!(x.execute(), "");
}

#[test]
fn invoker_runs_the_last_command_set() {
    let t = table();
    let m = msg(1, "who");
    let mut inv = Invoker::new();
    inv.set(Commands::X(XCommand::new()));
    inv.set(Commands::Hp(HpCommand::new(&t, &m)));
    assert_eq!(inv.execute(), "who");
    let mut inv2 = Invoker::new();
    inv2.set(Commands::Hp(HpCommand::new(&t, &m)));
    inv2.set(Commands::X(XCommand::new()));
    assert_eq!(inv2.execute(), "no");
}
