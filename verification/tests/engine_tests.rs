use rustmud::factory_mapfiles::{is_map_path, MapFile, MapFiles};
use rustmud::log::{level_label, level_of_debug, Level};
use rustmud::map::{init_map, map_text_ok_exec, Node};
use rustmud::quest::{init_quest, quest_text_ok_exec, Quest};
use rustmud::setting_engine::{
    combat_setting, round_method, stats_text_ok_exec, xp_text_ok_exec, Classes, CombatSetting,
    DamageType, PrimaryStat, PrimaryStats, RoundMethod, XpTable,
};

const XP: &str = "# experience\nlevel=1,0\nlevel=2,100\n\nlevel=3,300 # third\n";

#[test]
fn xp_table_reads_second_fields() {
    assert!(xp_text_ok_exec(XP));
    let mut t = XpTable::new();
    assert_eq!(t.get_max_level(), 0);
    assert_eq!(t.get_level_xp(5), 0);
    t.load(XP);
    assert_eq!(t.xp_table, vec![0, 0, 100, 300]);
    assert_eq!(t.get_max_level(), 4);
    assert_eq!(t.get_level_xp(0), 0);
    assert_eq!(t.get_level_xp(1), 0);
    assert_eq!(t.get_level_xp(3), 100);
    assert_eq!(t.get_level_xp(4), 300);
    assert_eq!(t.get_level_xp(40), 300);
}

#[test]
fn xp_text_with_negative_value_is_refused() {
    assert!(!xp_text_ok_exec("level=1,-5\n"));
    assert!(!xp_text_ok_exec("level=1,x\n"));
    assert!(xp_text_ok_exec("other=1,x\n"));
}

#[test]
fn primary_stats_pair_ids_with_names() {
    let text = "id=str\nname=Strength\nid=dex\n# none\nname=Dexterity\nid=int\n";
    assert!(stats_text_ok_exec(text));
    let mut s = PrimaryStats::new();
    s.load(text);
    assert_eq!(s.list.len(), 3);
    assert_eq!(s.list[0].id, "str");
    assert_eq!(s.list[0].name, "Strength");
    assert_eq!(s.list[1].id, "dex");
    assert_eq!(s.list[1].name, "Dexterity");
    assert_eq!(s.list[2].id, "int");
    assert_eq!(s.list[2].name, "");
    assert_eq!(s.get_index_by_id("dex"), 1);
    assert_eq!(s.get_index_by_id("luck"), 3);
}

#[test]
fn primary_stats_name_before_id_is_refused() {
    assert!(!stats_text_ok_exec("name=Strength\nid=str\n"));
}

#[test]
fn blank_settings_records() {
    let p = PrimaryStat::new();
    assert_eq!(p.id, "");
    assert_eq!(p.name, "");
    let c = Classes::new();
    assert_eq!(c.name, "");
    assert!(c.equipment.is_empty());
    assert_eq!(c.powers, 0);
    assert_eq!(c.default_power_tab, 0);
    let d = DamageType::new();
    assert_eq!(d.id, "");
    assert_eq!(d.max, "");
}

#[test]
fn combat_settings_lines() {
    match combat_setting("avoidance_percent=5,95") {
        CombatSetting::Avoidance(a, b) => {
            assert_eq!(a, "5");
            assert_eq!(b, "95");
        }
        _ => panic!("expected an avoidance range"),
    }
    match combat_setting("crit_damage_percent = 150,200 # crits") {
        CombatSetting::CritDamage(a, b) => {
            assert_eq!(a, "150");
            assert_eq!(b, "200");
        }
        _ => panic!("expected a critical damage range"),
    }
    // a `;` splits fields only when a `,` follows it
    match combat_setting("resist_percent=1;2") {
        CombatSetting::Resist(a, b) => {
            assert_eq!(a, "1;2");
            assert_eq!(b, "");
        }
        _ => panic!("expected a resist range"),
    }
    assert!(matches!(combat_setting("resource_round_method=floor"), CombatSetting::Rounding(RoundMethod::FLOOR)));
    // the value is taken as written: a leading space makes it unknown, which rounds
    assert!(matches!(combat_setting("resource_round_method= floor"), CombatSetting::Rounding(RoundMethod::ROUND)));
    assert!(matches!(combat_setting("# avoidance_percent=1,2"), CombatSetting::Other));
    assert!(matches!(combat_setting("speed=3"), CombatSetting::Other));
    assert!(matches!(combat_setting("avoidance_percent="), CombatSetting::Other));
}

#[test]
fn round_methods() {
    assert_eq!(round_method("round"), RoundMethod::ROUND);
    assert_eq!(round_method("floor"), RoundMethod::FLOOR);
    assert_eq!(round_method("ceil"), RoundMethod::CEIL);
    assert_eq!(round_method("up"), RoundMethod::ROUND);
}

#[test]
fn log_levels() {
    assert_eq!(level_label(&Level::Error), "\u{1b}[1;31mError\u{1b}[0;00m");
    assert_eq!(level_label(&Level::Warn), "\u{1b}[1;36mWarning\u{1b}[0;00m");
    assert_eq!(level_label(&Level::Info), "Info");
    assert!(matches!(level_of_debug(2), Level::Info));
    assert!(matches!(level_of_debug(1), Level::Warn));
    assert!(matches!(level_of_debug(0), Level::Error));
    assert!(matches!(level_of_debug(7), Level::Error));
}

#[test]
fn map_file_names() {
    assert!(is_map_path("maps/liuxiu.txt"));
    assert!(is_map_path("a.txt.bak"));
    assert!(!is_map_path("maps/readme.md"));
    let mut files = MapFiles::new();
    assert!(files.get("liuxiu.txt").is_none());
    files.insert("liuxiu.txt", MapFile::new("old", "maps/liuxiu.txt"));
    files.insert("liuxiu.txt", MapFile::new("new", "maps/liuxiu.txt"));
    assert_eq!(files.get("liuxiu.txt").map(|f| f.content.clone()), Some("new".to_string()));
    assert_eq!(files.get("liuxiu.txt").map(|f| f.fullpath.clone()), Some("maps/liuxiu.txt".to_string()));
    files.insert("other.txt", MapFile::new("x", "maps/other.txt"));
    assert_eq!(files.get("liuxiu.txt").map(|f| f.content.clone()), Some("new".to_string()));
    assert_eq!(files.get("other.txt").map(|f| f.content.clone()), Some("x".to_string()));
}

const MAP_TEXT: &str = "[node]\nid=14\nname=河边\nlook=look14.txt\nlook@river=河水清清\nclimb@up=爬上去\nknock@gate=咚咚\ndestpos=15\nlocalmaps=liuxiu.txt\neast=15\nlook$2=远处\nnorth$1=20\n[node]\nid=15\nname=小路\nwest=14\n";

#[test]
fn map_nodes_from_text() {
    assert!(map_text_ok_exec(MAP_TEXT));
    let nodes = init_map(MAP_TEXT);
    assert_eq!(nodes.len(), 2);
    let n = &nodes[&14];
    assert_eq!(n.name, "河边");
    assert_eq!(n.look, "look14.txt");
    assert_eq!(n.lookat.get("river"), Some(&"河水清清".to_string()));
    assert_eq!(n.climbat.get("up"), Some(&"爬上去".to_string()));
    assert_eq!(n.knockat.get("gate"), Some(&"咚咚".to_string()));
    assert_eq!(n.destpos, 15);
    assert_eq!(n.localmaps, "liuxiu.txt");
    assert_eq!(n.east_id, 15);
    assert_eq!(n.looks.get(&2), Some(&"远处".to_string()));
    assert_eq!(n.norths.get(&1), Some(&20));
    assert_eq!(nodes[&15].west_id, 14);
    assert_eq!(nodes[&15].east_id, 0);
}

#[test]
fn map_text_with_bad_number_is_refused() {
    assert!(!map_text_ok_exec("[node]\nid=x\n"));
    assert!(map_text_ok_exec("no nodes here"));
    assert_eq!(init_map("no nodes here").len(), 0);
}

#[test]
fn blank_node() {
    let n = Node::new();
    assert_eq!(n.id, 0);
    assert_eq!(n.name, "");
    assert!(n.lookat.is_empty());
    assert!(n.easts.is_empty());
}

const QUEST_TEXT: &str = "[quest]\nid=1\nname=q_look_river\njob=看看河\naward=奖励\nafter=之后\nxp=10\nsp=2\nnode=14\nnext=2\n[quest]\nid=2\nname=q_walk\nsubquest=3|4\nparent=0\n";

#[test]
fn quests_from_text() {
    assert!(quest_text_ok_exec(QUEST_TEXT));
    let quests = init_quest(QUEST_TEXT);
    assert_eq!(quests.len(), 2);
    let q = &quests[&1];
    assert_eq!(q.name, "q_look_river");
    assert_eq!(q.job, "看看河");
    assert_eq!(q.award, "奖励");
    assert_eq!(q.after, "之后");
    assert_eq!(q.xp, 10);
    assert_eq!(q.sp, 2);
    assert_eq!(q.node, 14);
    assert_eq!(q.next, 2);
    assert!(!q.completed);
    let p = &quests[&2];
    assert_eq!(p.subquest.len(), 2);
    assert_eq!(p.subquest.get(&3), Some(&false));
    assert_eq!(p.subquest.get(&4), Some(&false));
}

#[test]
fn quest_text_with_bad_subquest_is_refused() {
    assert!(!quest_text_ok_exec("[quest]\nid=1\nsubquest=3|x\n"));
    assert!(!quest_text_ok_exec("[quest]\nxp=-1\n"));
}

#[test]
fn blank_quest() {
    let q = Quest::new();
    assert_eq!(q.id, 0);
    assert_eq!(q.name, "");
    assert!(q.subquest.is_empty());
    assert!(!q.completed);
}
