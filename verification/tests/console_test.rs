use cycle_orc::console::{
    count_running, monitor_after_delete, plugin_ram_kb, resolve_config_path, select_default_monitor,
    shell_config_path, startup_decision, sys_refresh_due, web_toggle, StartupDecision, WebToggle, LOG_LIMIT,
};
use cycle_orc::history::push_capped_vec;

#[test]
fn config_path_resolution() {
    assert_eq!(resolve_config_path([true, true, true, true]), "config/config.json");
    assert_eq!(resolve_config_path([false, true, false, true]), "../config/config.json");
    assert_eq!(resolve_config_path([false, false, true, true]), "../../config/config.json");
    assert_eq!(resolve_config_path([false, false, false, true]), "flow_config.json");
    assert_eq!(resolve_config_path([false, false, false, false]), "config/config.json");
    assert_eq!(shell_config_path(false, false), "flow_config.json");
    assert_eq!(shell_config_path(false, true), "../config/config.json");
}

#[test]
fn ram_is_at_least_sixteen_kib() {
    assert_eq!(plugin_ram_kb(0), 16);
    assert_eq!(plugin_ram_kb(17 * 1024), 17);
    assert_eq!(plugin_ram_kb(16 * 1024 + 1023), 16);
}

#[test]
fn web_toggle_decisions() {
    assert_eq!(web_toggle(false, false), WebToggle::Start);
    assert_eq!(web_toggle(true, false), WebToggle::Start);
    assert_eq!(web_toggle(true, true), WebToggle::Stop);
    assert!(sys_refresh_due(2));
    assert!(!sys_refresh_due(1));
}

#[test]
fn startup_follows_the_first_matching_entry() {
    let names: Vec<String> = vec!["a".to_string(), "b".to_string(), "a".to_string()];
    let enabled = vec![false, true, true];
    assert_eq!(startup_decision("b", &names, &enabled), StartupDecision::Start { index: 1 });
    assert_eq!(startup_decision("a", &names, &enabled), StartupDecision::Disabled);
    assert_eq!(startup_decision("c", &names, &enabled), StartupDecision::NotConfigured);
}

#[test]
fn monitor_selection() {
    assert_eq!(select_default_monitor(None, Some("p1".to_string())), Some("p1".to_string()));
    assert_eq!(select_default_monitor(Some("p2".to_string()), Some("p1".to_string())), Some("p2".to_string()));
    assert_eq!(select_default_monitor(None, None), None);
    assert_eq!(monitor_after_delete(Some("p1".to_string()), "p1"), None);
    assert_eq!(monitor_after_delete(Some("p1".to_string()), "p2"), Some("p1".to_string()));
    assert_eq!(monitor_after_delete(None, "p2"), None);
}

#[test]
fn running_count() {
    assert_eq!(count_running(&vec![true, false, true]), 2);
    assert_eq!(count_running(&Vec::new()), 0);
}

#[test]
fn console_log_keeps_the_last_hundred_lines() {
    let mut logs: Vec<String> = Vec::new();
    for i in 0..105 {
        push_capped_vec(&mut logs, format!("line {}", i), LOG_LIMIT);
    }
    assert_eq!(logs.len(), 100);
    assert_eq!(logs[0], "line 5");
    assert_eq!(logs[99], "line 104");
}
