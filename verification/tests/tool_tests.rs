use rustmud::tool::{create_groups, create_login, create_user, Groups, MapName, Player, Role};

#[test]
fn tool_logins() {
    let logins = create_login();
    let names: Vec<&str> = logins.iter().map(|l| l.login_name.as_str()).collect();
    assert_eq!(names, vec!["alice", "bob", "charlie", "david"]);
    assert!(logins.iter().all(|l| l.password == "1"));
}

#[test]
fn tool_users() {
    let users = create_user();
    assert_eq!(users.len(), 4);
    assert_eq!(users[0].name, "alice");
    assert_eq!(users[0].fullname, "西门吹雪");
    assert_eq!(users[0].friends, vec!["bob", "charlie"]);
    assert_eq!(users[1].hp, 10000);
    assert_eq!(users[3].level, 57);
    assert!(users.iter().all(|u| u.group_name == "oak" && u.pos == 14 && u.max_xp == 3000));
}

#[test]
fn tool_groups() {
    let groups = create_groups();
    assert_eq!(groups.len(), 1);
    assert_eq!(groups[0].name, "oak");
    assert_eq!(groups[0].members, vec!["alice", "bob", "david", "charlie"]);
    assert!(Groups::new().group.is_empty());
}

#[test]
fn tool_new_player() {
    let p = Player::new();
    assert_eq!(p.name, "");
    assert_eq!(p.max_mp, 150);
    assert_eq!(p.max_fp, 200);
    assert!(p.map == MapName::Liuxiu);
    assert!(p.role == Role::Magician);
    assert_eq!(p.newbie_next, 1);
}
