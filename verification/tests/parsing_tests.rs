use rustmud::utils_parsing::{
    get_key_pair, get_section_title, isize_to_usize, pop_first_int, pop_first_string,
    skip_line, strip_carriage_return, to_int, trim,
};

#[test]
fn trim_cuts_at_delimiter() {
    assert_eq!(trim("abc#comment", "#"), "abc");
    assert_eq!(trim("abc", "#"), "abc");
    // A delimiter at the very start is treated as absent.
    assert_eq!(trim("#abc", "#"), "#abc");
}

#[test]
fn key_pair_of_setting_line() {
    let mut key = String::from("x");
    let mut val = String::from("y");
    get_key_pair("  game = Rust Mud # the name", &mut key, &mut val);
    assert_eq!(key, "game");
    assert_eq!(val, " Rust Mud ");
}

#[test]
fn key_pair_without_equals_is_empty() {
    let mut key = String::from("x");
    let mut val = String::from("y");
    get_key_pair("no pair here", &mut key, &mut val);
    assert_eq!(key, "");
    assert_eq!(val, "");
    get_key_pair("=starts with equals", &mut key, &mut val);
    assert_eq!(key, "");
    assert_eq!(val, "");
}

#[test]
fn section_title_between_brackets() {
    assert_eq!(get_section_title("[node]"), "node");
    assert_eq!(get_section_title("no bracket"), "");
    assert_eq!(get_section_title("]x"), "");
}

#[test]
fn to_int_reads_signed_numbers() {
    assert_eq!(to_int("42"), 42);
    assert_eq!(to_int("-7"), -7);
    assert_eq!(to_int("+5"), 5);
}

#[test]
fn strip_line_ends() {
    assert_eq!(strip_carriage_return("line\r"), "line");
    assert_eq!(strip_carriage_return("line\n"), "line");
    assert_eq!(strip_carriage_return("line\r\r"), "line");
    // Trailing carriage returns go first, then line feeds: `\r` before `\n` stays.
    assert_eq!(strip_carriage_return("a\r\n"), "a\r");
}

#[test]
fn pop_first_string_takes_fields_in_order() {
    let (first, rest) = pop_first_string(" alpha, beta, gamma ");
    assert_eq!(first, "alpha");
    assert_eq!(rest, " beta, gamma");
    let (first, rest) = pop_first_string("a;b,c");
    assert_eq!(first, "a");
    assert_eq!(rest, "b,c");
    let (first, rest) = pop_first_string("single # comment");
    assert_eq!(first, "single ");
    assert_eq!(rest, "");
}

#[test]
fn pop_first_int_reads_number() {
    let (n, rest) = pop_first_int("12,34");
    assert_eq!(n, 12);
    assert_eq!(rest, "34");
}

#[test]
fn skip_empty_and_comment_lines() {
    assert!(skip_line(""));
    assert!(skip_line("   # comment"));
    assert!(!skip_line("key = value"));
}

#[test]
fn isize_to_usize_refuses_negatives() {
    assert_eq!(isize_to_usize(5), Some(5));
    assert_eq!(isize_to_usize(-1), None);
}

#[test]
fn first_field_and_rest_rebuild_the_list() {
    for (text, sep) in [("a,b;c", ","), ("x;y,z", ";"), (" 10, 20 #c", ",")] {
        let (first, rest) = pop_first_string(text);
        assert!(!first.contains(',') && !first.contains(';'));
        let cleaned = text.trim().split('#').next().unwrap().to_string();
        assert_eq!(format!("{}{}{}", first, sep, rest), cleaned);
    }
    let (first, rest) = pop_first_string("no separators");
    assert_eq!(first, "no separators");
    assert_eq!(rest, "");
    let (first, rest) = pop_first_string("only;semicolons");
    assert_eq!(first, "only;semicolons");
    assert_eq!(rest, "");
}
