use cycle_orc::help::{format_help_menu, web_shell_help, SHELL_HELP_MENU, WEB_SHELL_HELP};
use cycle_orc::text::{decimal_chars, push_padded_decimal};
use cycle_orc::words::{join_chars_from, split_whitespace_chars};

#[test]
fn help_texts() {
    let menu = format_help_menu();
    assert_eq!(menu, SHELL_HELP_MENU);
    assert!(menu.contains("=== CYCLE ORCHESTRATOR UNIFIED SHELL COMMAND GUIDE ==="));
    assert!(menu.contains("exportjson <id> [file]"));
    assert_eq!(web_shell_help(), WEB_SHELL_HELP);
}

#[test]
fn decimal_text() {
    assert_eq!(decimal_chars(0).iter().collect::<String>(), "0");
    assert_eq!(decimal_chars(907).iter().collect::<String>(), "907");
    let mut v = Vec::new();
    push_padded_decimal(&mut v, 7, 3);
    push_padded_decimal(&mut v, 1234, 2);
    assert_eq!(v.iter().collect::<String>(), "0071234");
}

#[test]
fn words_split_and_join() {
    let chars: Vec<char> = "  a bc\td  ".chars().collect();
    let words = split_whitespace_chars(&chars);
    let as_strings: Vec<String> = words.iter().map(|w| w.iter().collect()).collect();
    assert_eq!(as_strings, vec!["a", "bc", "d"]);
    assert_eq!(join_chars_from(&words, 0, '/').iter().collect::<String>(), "a/bc/d");
    assert_eq!(join_chars_from(&words, 1, ' ').iter().collect::<String>(), "bc d");
    assert!(join_chars_from(&words, 3, ' ').is_empty());
}
