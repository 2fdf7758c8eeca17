use vstd::prelude::*;
use crate::gateway::string_views;
use crate::text::str_chars;
use crate::words::chars_equal_str;

verus! {

/// The screen the terminal console shows.
#[derive(PartialEq)]
pub enum ViewMode {
    Main,
    PluginSelection,
    ConfirmDelete(String),
    ContextMenu(String, u16, u16),
    Shell,
    ConfigEditor,
}

/// The console panel that has the focus.
#[derive(PartialEq, Clone, Copy, Debug, Structural, Eq)]
pub enum ActivePanel {
    Systems,
    Hex,
    LiveFeed,
    Shell,
    Logs,
}

/// A request sent by the web console over its socket.
#[derive(Debug, Clone, PartialEq, Eq)]
pub enum WebCommand {
    Start { id: String },
    Stop { id: String },
    Monitor { id: String },
    Delete { id: String },
    Load { name: String },
    ShellInput { command: String },
    Ping,
}

/// The places the flow configuration is looked for, in order.
pub open spec fn config_candidates() -> Seq<Seq<char>> {
    seq![
        "config/config.json"@,
        "../config/config.json"@,
        "../../config/config.json"@,
        "flow_config.json"@,
    ]
}

/// The first candidate that exists, or "config/config.json" when none does.
pub open spec fn config_path_spec(exists: Seq<bool>) -> Seq<char> {
    if exists[0] {
        config_candidates()[0]
    } else if exists[1] {
        config_candidates()[1]
    } else if exists[2] {
        config_candidates()[2]
    } else if exists[3] {
        config_candidates()[3]
    } else {
        "config/config.json"@
    }
}

/// Chooses the configuration file, given which of the candidate paths
/// ("config/config.json", "../config/config.json",
/// "../../config/config.json", "flow_config.json") exist.
pub fn resolve_config_path(exists: [bool; 4]) -> (p: &'static str)
    ensures
        p@ == config_path_spec(exists@),
{
    if exists[0] {
        "config/config.json"
    } else if exists[1] {
        "../config/config.json"
    } else if exists[2] {
        "../../config/config.json"
    } else if exists[3] {
        "flow_config.json"
    } else {
        "config/config.json"
    }
}

/// The configuration file the interactive shell's `start` and `config`
/// commands read, given whether "config/config.json" and
/// "../config/config.json" exist: the first that does, else
/// "flow_config.json".
pub fn shell_config_path(local: bool, parent: bool) -> (p: &'static str)
    ensures
        p@ == (if local {
            "config/config.json"@
        } else if parent {
            "../config/config.json"@
        } else {
            "flow_config.json"@
        }),
{
    if local {
        "config/config.json"
    } else if parent {
        "../config/config.json"
    } else {
        "flow_config.json"
    }
}

/// The memory a plugin is shown to use: its monitor buffer in KiB, at
/// least 16.
pub fn plugin_ram_kb(bytes_len: usize) -> (kb: usize)
    ensures
        kb == (if bytes_len / 1024 > 16 { bytes_len / 1024 } else { 16 }),
{
    let kb = bytes_len / 1024;
    if kb > 16 {
        kb
    } else {
        16
    }
}

/// What toggling the web console server does.
#[derive(Debug, Clone, Copy, PartialEq, Eq, Structural)]
pub enum WebToggle {
    /// Open a shutdown channel and start the server.
    Start,
    /// Send the shutdown signal and mark the server stopped.
    Stop,
}

/// Decides the web server toggle: it starts unless it is marked started and
/// still holds its shutdown handle.
pub fn web_toggle(started: bool, has_shutdown_handle: bool) -> (t: WebToggle)
    ensures
        t == (if !started || !has_shutdown_handle {
            WebToggle::Start
        } else {
            WebToggle::Stop
        }),
{
    if !started || !has_shutdown_handle {
        WebToggle::Start
    } else {
        WebToggle::Stop
    }
}

/// Seconds between two refreshes of the process table.
pub const SYS_REFRESH_SECS: u64 = 2;

/// Whether the process table is due for a refresh after `elapsed_secs`
/// whole seconds.
pub fn sys_refresh_due(elapsed_secs: u64) -> (due: bool)
    ensures
        due == (elapsed_secs >= SYS_REFRESH_SECS),
{
    elapsed_secs >= SYS_REFRESH_SECS
}

/// How many log lines the console keeps.
pub const LOG_LIMIT: usize = 100;

/// What happens to a loaded plugin at startup, by its flow configuration.
#[derive(Debug, Clone, Copy, PartialEq, Eq, Structural)]
pub enum StartupDecision {
    /// Configured and enabled: call its start endpoint with its settings
    /// (those of configuration entry `index`).
    Start { index: usize },
    /// Configured but disabled: leave it stopped.
    Disabled,
    /// Not in the configuration: leave it stopped.
    NotConfigured,
}

/// The startup decision for plugin `id`: the first configuration entry
/// named `id` decides.
pub open spec fn startup_decision_spec(id: Seq<char>, names: Seq<Seq<char>>, enabled: Seq<bool>) -> StartupDecision {
    if exists|i: int| 0 <= i < names.len() && names[i] == id {
        let i = choose|i: int|
            0 <= i < names.len() && names[i] == id && forall|j: int| 0 <= j < i ==> names[j] != id;
        if enabled[i] {
            StartupDecision::Start { index: i as usize }
        } else {
            StartupDecision::Disabled
        }
    } else {
        StartupDecision::NotConfigured
    }
}

/// Decides whether a loaded plugin is started, given the plugin names and
/// enabled flags of the flow configuration's entries.
pub fn startup_decision(id: &str, names: &Vec<String>, enabled: &Vec<bool>) -> (d: StartupDecision)
    requires
        names.len() == enabled.len(),
    ensures
        d == startup_decision_spec(id@, string_views(names@), enabled@),
{
    let ghost v = string_views(names@);
    let mut i: usize = 0;
    while i < names.len()
        invariant
            i <= names.len() == enabled.len(),
            v == string_views(names@),
            forall|j: int| 0 <= j < i ==> v[j] != id@,
        decreases names.len() - i,
    {
        let name = str_chars(names[i].as_str());
        if chars_equal_str(&name, id) {
            proof {
                assert(v[i as int] == id@);
                let k = choose|k: int|
                    0 <= k < v.len() && v[k] == id@ && forall|j: int| 0 <= j < k ==> v[j] != id@;
                if k < i {
                } else if k > i {
                    assert(v[i as int] != id@);
                }
                assert(k == i);
            }
            if enabled[i] {
                return StartupDecision::Start { index: i };
            } else {
                return StartupDecision::Disabled;
            }
        }
        assert(v[i as int] == names@[i as int]@);
        i = i + 1;
    }
    StartupDecision::NotConfigured
}

/// The plugin the web console monitors after a telemetry tick: the one
/// chosen before, or else the first listed plugin, if any.
pub fn select_default_monitor(selected: Option<String>, first_system: Option<String>) -> (r: Option<String>)
    ensures
        r == (if selected is None {
            first_system
        } else {
            selected
        }),
{
    match selected {
        Some(s) => Some(s),
        None => first_system,
    }
}

/// The monitored plugin after plugin `deleted` is removed: cleared when it
/// was the one monitored, else unchanged.
pub fn monitor_after_delete(selected: Option<String>, deleted: &str) -> (r: Option<String>)
    ensures
        r == (if selected matches Some(s) && s@ == deleted@ {
            None
        } else {
            selected
        }),
{
    match selected {
        Some(s) => {
            let c = str_chars(s.as_str());
            if chars_equal_str(&c, deleted) {
                None
            } else {
                Some(s)
            }
        },
        None => None,
    }
}

/// How many of the flags are set.
pub open spec fn count_set(flags: Seq<bool>) -> nat
    decreases flags.len(),
{
    if flags.len() == 0 {
        0
    } else {
        count_set(flags.drop_last()) + if flags.last() {
            1nat
        } else {
            0nat
        }
    }
}

/// The number of running plugins, given each plugin's running flag.
pub fn count_running(flags: &Vec<bool>) -> (n: usize)
    ensures
        n == count_set(flags@),
{
    let mut n: usize = 0;
    let mut i: usize = 0;
    while i < flags.len()
        invariant
            i <= flags.len(),
            n == count_set(flags@.take(i as int)),
            n <= i,
        decreases flags.len() - i,
    {
        assert(flags@.take(i + 1).drop_last() =~= flags@.take(i as int));
        if flags[i] {
            n = n + 1;
        }
        i = i + 1;
    }
    assert(flags@.take(flags.len() as int) =~= flags@);
    n
}

/// At startup a plugin follows the first configuration entry that names
/// it: started with that entry's settings when it is enabled, left stopped
/// when it is disabled, and left stopped when no entry names it.
pub proof fn lemma_startup_follows_first_entry(id: Seq<char>, names: Seq<Seq<char>>, enabled: Seq<bool>, i: int)
    ensures
        (forall|j: int| 0 <= j < names.len() ==> names[j] != id) ==> startup_decision_spec(id, names, enabled)
            == StartupDecision::NotConfigured,
        0 <= i < names.len() && names[i] == id && (forall|j: int| 0 <= j < i ==> names[j] != id)
            ==> startup_decision_spec(id, names, enabled) == (if enabled[i] {
            StartupDecision::Start { index: i as usize }
        } else {
            StartupDecision::Disabled
        }),
{
    if 0 <= i < names.len() && names[i] == id && (forall|j: int| 0 <= j < i ==> names[j] != id) {
        let k = choose|k: int| 0 <= k < names.len() && names[k] == id && forall|j: int| 0 <= j < k ==> names[j] != id;
        assert(0 <= k < names.len() && names[k] == id && forall|j: int| 0 <= j < k ==> names[j] != id);
        if k < i {
            assert(names[k] != id);
        } else if k > i {
            assert(names[i] != id);
        }
    }
}

/// The configuration file is the first of "config/config.json",
/// "../config/config.json", "../../config/config.json" and
/// "flow_config.json" that exists, and "config/config.json" when none does.
pub proof fn lemma_config_path_order(exists: Seq<bool>)
    requires
        exists.len() == 4,
    ensures
        exists[0] ==> config_path_spec(exists) == "config/config.json"@,
        !exists[0] && exists[1] ==> config_path_spec(exists) == "../config/config.json"@,
        !exists[0] && !exists[1] && exists[2] ==> config_path_spec(exists) == "../../config/config.json"@,
        !exists[0] && !exists[1] && !exists[2] && exists[3] ==> config_path_spec(exists) == "flow_config.json"@,
        !exists[0] && !exists[1] && !exists[2] && !exists[3] ==> config_path_spec(exists) == "config/config.json"@,
{
}

} // verus!
