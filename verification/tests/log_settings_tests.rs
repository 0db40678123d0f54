use rustmud::log::{error, info, init_log, set_boxed_logger, warn, Level, LoggerSlot, SimpleLogger, Log};
use rustmud::settings::{init_settings, load_settings, set_name, Settings, SettingsSlot};

#[test]
fn nothing_is_written_before_a_logger_is_installed() {
    let slot = LoggerSlot::new();
    assert_eq!(error(&slot, "boom"), None);
    assert_eq!(info(&slot, "hello"), None);
}

#[test]
fn installed_logger_writes_up_to_its_level() {
    let mut slot = LoggerSlot::new();
    init_log(&mut slot, Level::Warn);
    assert_eq!(error(&slot, "boom"), Some(String::from("[\u{1b}[1;31mError\u{1b}[0;00m] boom")));
    assert_eq!(warn(&slot, "careful"), Some(String::from("[\u{1b}[1;36mWarning\u{1b}[0;00m] careful")));
    assert_eq!(info(&slot, "hello"), None);
}

#[test]
fn a_second_logger_is_refused() {
    let mut slot = LoggerSlot::new();
    assert!(set_boxed_logger(&mut slot, SimpleLogger { max_level: Level::Error }).is_ok());
    assert!(set_boxed_logger(&mut slot, SimpleLogger { max_level: Level::Info }).is_err());
    // The first logger stays: informative messages are still not written.
    assert_eq!(info(&slot, "hello"), None);
    assert!(error(&slot, "boom").is_some());
}

#[test]
fn simple_logger_levels() {
    let l = SimpleLogger { max_level: Level::Info };
    assert!(l.enabled(&Level::Error));
    assert!(l.enabled(&Level::Info));
    let e = SimpleLogger { max_level: Level::Error };
    assert!(!e.enabled(&Level::Warn));
    assert_eq!(l.log(&Level::Info, "m"), "[Info] m");
}

#[test]
fn settings_are_made_once_and_loaded() {
    let mut slot = SettingsSlot::new();
    init_settings(&mut slot);
    set_name(&mut slot, "first");
    init_settings(&mut slot);
    assert_eq!(slot.settings.as_ref().unwrap().game, "first");
    load_settings(
        &mut slot,
        "# settings\ngame = RustMud # comment\ndescription = A mud, in Rust\nversion=0.01\nlanguage = zh\nunknown = x\n",
    );
    let s = slot.settings.as_ref().unwrap();
    assert_eq!(s.game, "RustMud");
    assert_eq!(s.description, "A mud");
    assert_eq!(s.version, "0.01");
    assert_eq!(s.language, "zh");
}

#[test]
fn settings_set_game_changes_only_the_name() {
    let mut s = Settings::new();
    s.set_game("x");
    assert_eq!(s.game, "x");
    assert_eq!(s.version, "");
}
