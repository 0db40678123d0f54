use rustmud::text::{i64_text, parse_i32_exec, parse_u32_exec, replace_exec, split_str, to_lower, trim_ws_str, u64_text};
use rustmud::utils::{get_id, insert_line, show_color, substring_range, substring_start, Color};

#[test]
fn show_color_wraps_in_escapes() {
    assert_eq!(show_color("hi", Color::RED), "\u{1b}[1;31mhi\u{1b}[0;00m");
    assert_eq!(show_color("", Color::WHITEBGRED), "\u{1b}[1;41m\u{1b}[0;00m");
}

#[test]
fn get_id_counts_up_and_wraps() {
    let mut counter: usize = 1;
    assert_eq!(get_id(&mut counter), 1);
    assert_eq!(get_id(&mut counter), 2);
    assert_eq!(counter, 3);
    let mut last = usize::MAX;
    assert_eq!(get_id(&mut last), usize::MAX);
    assert_eq!(last, 0);
}

#[test]
fn insert_line_breaks_every_n_characters() {
    assert_eq!(insert_line("abcdef", 4), "abcd\\nef\\n");
    assert_eq!(insert_line("abcd", 4), "abcd\\n");
    assert_eq!(insert_line("", 4), "");
    assert_eq!(insert_line("中文字符", 3), "中文字\\n符\\n");
}

#[test]
fn substrings_count_characters() {
    assert_eq!(substring_range("柳秀山庄", 1, 3), "秀山");
    assert_eq!(substring_range("abc", 1, 10), "bc");
    assert_eq!(substring_start("abcdef", 4), "ef");
}

#[test]
fn number_texts_round_trip() {
    assert_eq!(u64_text(0), "0");
    assert_eq!(u64_text(1234567), "1234567");
    assert_eq!(i64_text(-42), "-42");
    assert_eq!(parse_i32_exec("-42"), Some(-42));
    assert_eq!(parse_i32_exec("2147483648"), None);
    assert_eq!(parse_u32_exec("-1"), None);
    assert_eq!(parse_u32_exec("+15"), Some(15));
    assert_eq!(parse_u32_exec(""), None);
    assert_eq!(parse_u32_exec("1x"), None);
}

#[test]
fn text_helpers_behave_like_std() {
    let pieces = split_str("chat bob  hi", " ");
    assert_eq!(pieces, vec!["chat", "bob", "", "hi"]);
    assert_eq!(trim_ws_str("  a b \t\n"), "a b");
    assert_eq!(to_lower("HeLLo 中"), "hello 中");
    assert_eq!(replace_exec("a-b-c", "-", "+"), "a+b+c");
    assert_eq!(replace_exec("ab", "", "."), ".a.b.");
}

#[test]
fn ids_never_repeat_in_a_run() {
    let mut counter: usize = 1;
    let mut seen = std::collections::HashSet::new();
    for k in 0..1000 {
        let id = get_id(&mut counter);
        assert_eq!(id, 1 + k);
        assert!(seen.insert(id));
    }
    let mut near_end = usize::MAX - 1;
    let ids: Vec<usize> = (0..4).map(|_| get_id(&mut near_end)).collect();
    assert_eq!(ids, vec![usize::MAX - 1, usize::MAX, 0, 1]);
}
