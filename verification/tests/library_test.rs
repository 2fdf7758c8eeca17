use cycle_orc::library::{
    library_extension, library_file_name, library_prefix, orchestrator_plugin_name, shell_plugin_name,
    sorted_unique_names, text_less, text_starts_with, Platform,
};

#[test]
fn library_file_names_per_platform() {
    assert_eq!(library_file_name("plugin_rsi", Platform::Unix), "libplugin_rsi.so");
    assert_eq!(library_file_name("libplugin_rsi", Platform::Unix), "libplugin_rsi.so");
    assert_eq!(library_file_name("plugin_rsi", Platform::Windows), "plugin_rsi.dll");
    assert_eq!(library_file_name("libplugin_rsi", Platform::Windows), "plugin_rsi.dll");
    assert_eq!(library_file_name("plugin_rsi", Platform::MacOs), "libplugin_rsi.dylib");
    assert_eq!(library_prefix(Platform::Windows), "");
    assert_eq!(library_extension(Platform::MacOs), "dylib");
}

#[test]
fn shell_scan_names() {
    let p = Platform::Unix;
    assert_eq!(shell_plugin_name("libplugin_rsi.so", p), Some("plugin_rsi".to_string()));
    assert_eq!(shell_plugin_name("plugin_x.so", p), Some("plugin_x".to_string()));
    assert_eq!(shell_plugin_name("libfoo.d.so", p), None);
    assert_eq!(shell_plugin_name("libplugin_x.dylib", p), None);
    assert_eq!(shell_plugin_name("lib.so", p), None);
    assert_eq!(shell_plugin_name("readme.txt", p), None);
    assert_eq!(shell_plugin_name("plugin_x.dll", Platform::Windows), None);
}

#[test]
fn orchestrator_scan_names() {
    assert_eq!(orchestrator_plugin_name("libplugin_rsi.so", Platform::Unix), Some("plugin_rsi".to_string()));
    assert_eq!(orchestrator_plugin_name("libfoo.so", Platform::Unix), None);
    assert_eq!(orchestrator_plugin_name("libplugin_rsi.rlib", Platform::Unix), None);
    assert_eq!(orchestrator_plugin_name("plugin_a.dll", Platform::Windows), Some("plugin_a".to_string()));
    assert_eq!(orchestrator_plugin_name("libplugin_a.dylib", Platform::MacOs), Some("plugin_a".to_string()));
}

#[test]
fn dictionary_order_matches_str() {
    let words = ["", "a", "ab", "b", "B", "é", "z", "abc", "abd"];
    for x in words {
        for y in words {
            assert_eq!(text_less(x, y), x < y, "{} {}", x, y);
        }
    }
}

#[test]
fn names_are_sorted_and_deduplicated() {
    let names: Vec<String> = ["plugin_b", "plugin_a", "plugin_b", "plugin_c", "plugin_a"]
        .iter()
        .map(|s| s.to_string())
        .collect();
    let mut expected = names.clone();
    expected.sort();
    expected.dedup();
    assert_eq!(sorted_unique_names(&names), expected);
    assert!(sorted_unique_names(&Vec::new()).is_empty());
}

#[test]
fn prefix_test() {
    assert!(text_starts_with("libx", "lib"));
    assert!(text_starts_with("x", ""));
    assert!(!text_starts_with("li", "lib"));
}
