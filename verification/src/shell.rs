use vstd::prelude::*;
use crate::text::{
    lowercase_str, lowercased, parse_uint_chars, parse_uint_spec, str_chars, string_from_chars,
    trim_str, trimmed, uppercase_str, uppercased,
};
use crate::words::{chars_equal_str, join_words, join_words_from, split_whitespace_chars, split_words, views};

verus! {

/// The command word of a shell line, once lower-cased.
#[derive(Debug, Clone, Copy, PartialEq, Eq, Structural)]
pub enum ShellVerb {
    Help,
    Clear,
    List,
    Available,
    Start,
    Stop,
    Delete,
    Load,
    Status,
    Dump,
    ExportJson,
    Peek,
    Fetch,
    Web,
    Buy,
    Sell,
    Positions,
    Close,
    Cancel,
    CancelAll,
    Deposit,
    SetBalance,
    CloseAll,
    Orders,
    History,
    Sql,
    Tables,
    Schema,
    Bench,
    Graph,
    Cd,
    Pwd,
    SysInfo,
    Calc,
    Time,
    Ping,
    Tree,
    Config,
    Exit,
    /// Any other word: the line goes to the operating system shell.
    Other,
}

/// The verb a lower-cased command word names.
pub open spec fn verb_of(v: Seq<char>) -> ShellVerb {
    if v == "help"@ {
        ShellVerb::Help
    } else if v == "clear"@ || v == "cls"@ {
        ShellVerb::Clear
    } else if v == "list"@ {
        ShellVerb::List
    } else if v == "available"@ {
        ShellVerb::Available
    } else if v == "start"@ {
        ShellVerb::Start
    } else if v == "stop"@ {
        ShellVerb::Stop
    } else if v == "del"@ || v == "delete"@ {
        ShellVerb::Delete
    } else if v == "load"@ {
        ShellVerb::Load
    } else if v == "status"@ || v == "metrics"@ {
        ShellVerb::Status
    } else if v == "dump"@ || v == "memdump"@ || v == "memory"@ {
        ShellVerb::Dump
    } else if v == "exportjson"@ || v == "dumpjson"@ || v == "savejson"@ || v == "export_json"@ {
        ShellVerb::ExportJson
    } else if v == "peek"@ {
        ShellVerb::Peek
    } else if v == "fetch"@ {
        ShellVerb::Fetch
    } else if v == "web"@ {
        ShellVerb::Web
    } else if v == "buy"@ {
        ShellVerb::Buy
    } else if v == "sell"@ {
        ShellVerb::Sell
    } else if v == "positions"@ {
        ShellVerb::Positions
    } else if v == "close"@ {
        ShellVerb::Close
    } else if v == "cancel"@ {
        ShellVerb::Cancel
    } else if v == "cancelall"@ {
        ShellVerb::CancelAll
    } else if v == "deposit"@ {
        ShellVerb::Deposit
    } else if v == "setbalance"@ {
        ShellVerb::SetBalance
    } else if v == "closeall"@ {
        ShellVerb::CloseAll
    } else if v == "orders"@ {
        ShellVerb::Orders
    } else if v == "history"@ {
        ShellVerb::History
    } else if v == "sql"@ {
        ShellVerb::Sql
    } else if v == "tables"@ {
        ShellVerb::Tables
    } else if v == "schema"@ {
        ShellVerb::Schema
    } else if v == "bench"@ {
        ShellVerb::Bench
    } else if v == "graph"@ || v == "routes"@ {
        ShellVerb::Graph
    } else if v == "cd"@ {
        ShellVerb::Cd
    } else if v == "pwd"@ {
        ShellVerb::Pwd
    } else if v == "sysinfo"@ || v == "pc"@ || v == "hostinfo"@ {
        ShellVerb::SysInfo
    } else if v == "calc"@ {
        ShellVerb::Calc
    } else if v == "time"@ || v == "clock"@ {
        ShellVerb::Time
    } else if v == "ping"@ {
        ShellVerb::Ping
    } else if v == "tree"@ {
        ShellVerb::Tree
    } else if v == "config"@ {
        ShellVerb::Config
    } else if v == "exit"@ || v == "quit"@ {
        ShellVerb::Exit
    } else {
        ShellVerb::Other
    }
}

/// Classifies a lower-cased command word.
pub fn classify_verb(v: &Vec<char>) -> (r: ShellVerb)
    ensures
        r == verb_of(v@),
{
    if chars_equal_str(v, "help") {
        ShellVerb::Help
    } else if chars_equal_str(v, "clear") || chars_equal_str(v, "cls") {
        ShellVerb::Clear
    } else if chars_equal_str(v, "list") {
        ShellVerb::List
    } else if chars_equal_str(v, "available") {
        ShellVerb::Available
    } else if chars_equal_str(v, "start") {
        ShellVerb::Start
    } else if chars_equal_str(v, "stop") {
        ShellVerb::Stop
    } else if chars_equal_str(v, "del") || chars_equal_str(v, "delete") {
        ShellVerb::Delete
    } else if chars_equal_str(v, "load") {
        ShellVerb::Load
    } else if chars_equal_str(v, "status") || chars_equal_str(v, "metrics") {
        ShellVerb::Status
    } else if chars_equal_str(v, "dump") || chars_equal_str(v, "memdump") || chars_equal_str(v, "memory") {
        ShellVerb::Dump
    } else if chars_equal_str(v, "exportjson") || chars_equal_str(v, "dumpjson") || chars_equal_str(v, "savejson") || chars_equal_str(v, "export_json") {
        ShellVerb::ExportJson
    } else if chars_equal_str(v, "peek") {
        ShellVerb::Peek
    } else if chars_equal_str(v, "fetch") {
        ShellVerb::Fetch
    } else if chars_equal_str(v, "web") {
        ShellVerb::Web
    } else if chars_equal_str(v, "buy") {
        ShellVerb::Buy
    } else if chars_equal_str(v, "sell") {
        ShellVerb::Sell
    } else if chars_equal_str(v, "positions") {
        ShellVerb::Positions
    } else if chars_equal_str(v, "close") {
        ShellVerb::Close
    } else if chars_equal_str(v, "cancel") {
        ShellVerb::Cancel
    } else if chars_equal_str(v, "cancelall") {
        ShellVerb::CancelAll
    } else if chars_equal_str(v, "deposit") {
        ShellVerb::Deposit
    } else if chars_equal_str(v, "setbalance") {
        ShellVerb::SetBalance
    } else if chars_equal_str(v, "closeall") {
        ShellVerb::CloseAll
    } else if chars_equal_str(v, "orders") {
        ShellVerb::Orders
    } else if chars_equal_str(v, "history") {
        ShellVerb::History
    } else if chars_equal_str(v, "sql") {
        ShellVerb::Sql
    } else if chars_equal_str(v, "tables") {
        ShellVerb::Tables
    } else if chars_equal_str(v, "schema") {
        ShellVerb::Schema
    } else if chars_equal_str(v, "bench") {
        ShellVerb::Bench
    } else if chars_equal_str(v, "graph") || chars_equal_str(v, "routes") {
        ShellVerb::Graph
    } else if chars_equal_str(v, "cd") {
        ShellVerb::Cd
    } else if chars_equal_str(v, "pwd") {
        ShellVerb::Pwd
    } else if chars_equal_str(v, "sysinfo") || chars_equal_str(v, "pc") || chars_equal_str(v, "hostinfo") {
        ShellVerb::SysInfo
    } else if chars_equal_str(v, "calc") {
        ShellVerb::Calc
    } else if chars_equal_str(v, "time") || chars_equal_str(v, "clock") {
        ShellVerb::Time
    } else if chars_equal_str(v, "ping") {
        ShellVerb::Ping
    } else if chars_equal_str(v, "tree") {
        ShellVerb::Tree
    } else if chars_equal_str(v, "config") {
        ShellVerb::Config
    } else if chars_equal_str(v, "exit") || chars_equal_str(v, "quit") {
        ShellVerb::Exit
    } else {
        ShellVerb::Other
    }
}


/// What the `web` command asks of the web server.
#[derive(Debug, Clone, Copy, PartialEq, Eq, Structural)]
pub enum WebAction {
    /// No argument: report whether the server runs.
    Status,
    Start,
    Stop,
    /// Any other argument: nothing is done.
    Ignore,
}

/// A decoded line of the interactive shell.
#[derive(Debug, Clone, PartialEq, Eq)]
pub enum ShellCommand {
    /// A blank line.
    Empty,
    /// The command lacks a required argument; the usage of `verb` is shown.
    Usage { verb: String },
    Help,
    Clear,
    List,
    Available,
    Start { target: String },
    Stop { target: String },
    Delete { id: String },
    Load { name: String },
    Status,
    Dump { id: String, max_bytes: usize },
    ExportJson { id: String, path: String },
    Peek { id: String, len: usize },
    Fetch { plugin: String },
    Web { action: WebAction },
    Order {
        buy: bool,
        symbol: String,
        quantity: String,
        price: Option<String>,
        leverage: Option<String>,
    },
    Positions,
    Close { symbol: String },
    Cancel { order_id: String },
    CancelAll { symbol: Option<String> },
    Deposit { amount: String, user_id: String },
    SetBalance { amount: String, user_id: String },
    CloseAll { user_id: String },
    Orders { symbol: Option<String> },
    History { limit: u64 },
    SqlTables,
    SqlSchema { table: String },
    SqlQuery { sql: String },
    Bench { iterations: usize },
    Graph,
    Cd { path: String },
    Pwd,
    SysInfo,
    Calc { expr: String },
    Time,
    Ping { target: String },
    Tree,
    Config,
    Exit,
    /// Not a shell command: the trimmed line is run by the operating system.
    System { line: String },
}

/// Word `k` of `t`, or `default` when there are not that many words.
pub open spec fn word_or(t: Seq<Seq<char>>, k: int, default: Seq<char>) -> Seq<char> {
    if t.len() > k {
        t[k]
    } else {
        default
    }
}

/// Word `k` of `t` read as a number of at most `max`; `default` when the
/// word is missing or does not parse.
pub open spec fn number_or(t: Seq<Seq<char>>, k: int, max: u64, default: u64) -> u64 {
    if t.len() > k {
        match parse_uint_spec(t[k], max) {
            Some(v) => v,
            None => default,
        }
    } else {
        default
    }
}

/// Word `k` of `t` upper-cased, if there is one.
pub open spec fn upper_word(t: Seq<Seq<char>>, k: int) -> Option<Seq<char>> {
    if t.len() > k {
        Some(uppercased(t[k]))
    } else {
        None
    }
}

/// An optional string holds the optional text.
pub open spec fn opt_text(o: Option<String>, t: Option<Seq<char>>) -> bool {
    match (o, t) {
        (Some(s), Some(x)) => s@ == x,
        (None, None) => true,
        _ => false,
    }
}

/// The plugin that serves a `fetch` sub-command (lower-cased).
pub open spec fn fetch_plugin(sub: Seq<char>) -> Seq<char> {
    if sub == "ticker"@ || sub == "depth"@ {
        "plugin_binance_gateway"@
    } else if sub == "oi"@ {
        "plugin_oi_fetcher"@
    } else if sub == "ohlcv"@ {
        "plugin_ohlcv_fetcher"@
    } else if sub == "amihud"@ {
        "plugin_amihud"@
    } else if sub == "price_impact"@ || sub == "impact"@ {
        "plugin_price_impact"@
    } else {
        "plugin_binance_gateway"@
    }
}

/// The command a line of the interactive shell stands for.  The line is cut
/// into white-space separated words; the first word, lower-cased, chooses the
/// command and the following words are its arguments.
pub open spec fn shell_command_spec(cmd: ShellCommand, line: Seq<char>) -> bool {
    let t = split_words(line);
    if t.len() == 0 {
        cmd is Empty
    } else {
        let v = lowercased(t[0]);
        let usage = cmd matches ShellCommand::Usage { verb } && verb@ == v;
        match verb_of(v) {
            ShellVerb::Help => cmd is Help,
            ShellVerb::Clear => cmd is Clear,
            ShellVerb::List => cmd is List,
            ShellVerb::Available => cmd is Available,
            ShellVerb::Start => if t.len() < 2 {
                usage
            } else {
                cmd matches ShellCommand::Start { target } && target@ == t[1]
            },
            ShellVerb::Stop => if t.len() < 2 {
                usage
            } else {
                cmd matches ShellCommand::Stop { target } && target@ == t[1]
            },
            ShellVerb::Delete => if t.len() < 2 {
                usage
            } else {
                cmd matches ShellCommand::Delete { id } && id@ == t[1]
            },
            ShellVerb::Load => if t.len() < 2 {
                usage
            } else {
                cmd matches ShellCommand::Load { name } && name@ == t[1]
            },
            ShellVerb::Status => cmd is Status,
            ShellVerb::Dump => if t.len() < 2 {
                usage
            } else {
                cmd matches ShellCommand::Dump { id, max_bytes } && id@ == t[1] && max_bytes
                    == number_or(t, 2, usize::MAX as u64, 1048576)
            },
            ShellVerb::ExportJson => if t.len() < 2 {
                usage
            } else {
                cmd matches ShellCommand::ExportJson { id, path } && id@ == t[1] && path@ == word_or(
                    t,
                    2,
                    t[1] + "_output.json"@,
                )
            },
            ShellVerb::Peek => if t.len() < 2 {
                usage
            } else {
                cmd matches ShellCommand::Peek { id, len } && id@ == t[1] && len == number_or(
                    t,
                    2,
                    usize::MAX as u64,
                    64,
                )
            },
            ShellVerb::Fetch => if t.len() < 2 {
                usage
            } else {
                cmd matches ShellCommand::Fetch { plugin } && plugin@ == fetch_plugin(lowercased(t[1]))
            },
            ShellVerb::Web => cmd matches ShellCommand::Web { action } && action == (if t.len() < 2 {
                WebAction::Status
            } else if lowercased(t[1]) == "start"@ {
                WebAction::Start
            } else if lowercased(t[1]) == "stop"@ {
                WebAction::Stop
            } else {
                WebAction::Ignore
            }),
            ShellVerb::Buy | ShellVerb::Sell => if t.len() < 3 {
                usage
            } else {
                cmd matches ShellCommand::Order { buy, symbol, quantity, price, leverage } && buy
                    == (verb_of(v) == ShellVerb::Buy) && symbol@ == uppercased(t[1]) && quantity@
                    == t[2] && opt_text(price, if t.len() > 3 { Some(t[3]) } else { None })
                    && opt_text(leverage, if t.len() > 4 { Some(t[4]) } else { None })
            },
            ShellVerb::Positions => cmd is Positions,
            ShellVerb::Close => cmd matches ShellCommand::Close { symbol } && symbol@ == uppercased(
                word_or(t, 1, "BTCUSDT"@),
            ),
            ShellVerb::Cancel => if t.len() < 2 {
                usage
            } else {
                cmd matches ShellCommand::Cancel { order_id } && order_id@ == t[1]
            },
            ShellVerb::CancelAll => cmd matches ShellCommand::CancelAll { symbol } && opt_text(
                symbol,
                upper_word(t, 1),
            ),
            ShellVerb::Deposit => if t.len() < 2 {
                usage
            } else {
                cmd matches ShellCommand::Deposit { amount, user_id } && amount@ == t[1] && user_id@
                    == word_or(t, 2, "admin"@)
            },
            ShellVerb::SetBalance => if t.len() < 2 {
                usage
            } else {
                cmd matches ShellCommand::SetBalance { amount, user_id } && amount@ == t[1]
                    && user_id@ == word_or(t, 2, "admin"@)
            },
            ShellVerb::CloseAll => cmd matches ShellCommand::CloseAll { user_id } && user_id@
                == word_or(t, 1, "admin"@),
            ShellVerb::Orders => cmd matches ShellCommand::Orders { symbol } && opt_text(
                symbol,
                upper_word(t, 1),
            ),
            ShellVerb::History => cmd matches ShellCommand::History { limit } && limit == number_or(
                t,
                1,
                u64::MAX,
                10,
            ),
            ShellVerb::Tables => cmd is SqlTables,
            ShellVerb::Schema => cmd matches ShellCommand::SqlSchema { table } && table@ == word_or(
                t,
                1,
                "mark_prices"@,
            ),
            ShellVerb::Sql => cmd matches ShellCommand::SqlQuery { sql } && sql@ == join_words(
                t.skip(1),
            ),
            ShellVerb::Bench => cmd matches ShellCommand::Bench { iterations } && iterations
                == number_or(t, 1, usize::MAX as u64, 1000000),
            ShellVerb::Graph => cmd is Graph,
            ShellVerb::Cd => cmd matches ShellCommand::Cd { path } && path@ == word_or(t, 1, ".."@),
            ShellVerb::Pwd => cmd is Pwd,
            ShellVerb::SysInfo => cmd is SysInfo,
            ShellVerb::Calc => if t.len() < 2 {
                usage
            } else {
                cmd matches ShellCommand::Calc { expr } && expr@ == join_words(t.skip(1))
            },
            ShellVerb::Time => cmd is Time,
            ShellVerb::Ping => cmd matches ShellCommand::Ping { target } && target@ == word_or(
                t,
                1,
                "fapi.binance.com"@,
            ),
            ShellVerb::Tree => cmd is Tree,
            ShellVerb::Config => cmd is Config,
            ShellVerb::Exit => cmd is Exit,
            ShellVerb::Other => cmd matches ShellCommand::System { line: l } && l@ == trimmed(line),
        }
    }
}

/// The verb each command word names.
#[verifier::spinoff_prover]
#[verifier::rlimit(100)]
proof fn lemma_verb_table(v: Seq<char>)
    ensures
        v == "help"@ ==> verb_of(v) == ShellVerb::Help,
        v == "clear"@ ==> verb_of(v) == ShellVerb::Clear,
        v == "cls"@ ==> verb_of(v) == ShellVerb::Clear,
        v == "list"@ ==> verb_of(v) == ShellVerb::List,
        v == "available"@ ==> verb_of(v) == ShellVerb::Available,
        v == "start"@ ==> verb_of(v) == ShellVerb::Start,
        v == "stop"@ ==> verb_of(v) == ShellVerb::Stop,
        v == "del"@ ==> verb_of(v) == ShellVerb::Delete,
        v == "delete"@ ==> verb_of(v) == ShellVerb::Delete,
        v == "load"@ ==> verb_of(v) == ShellVerb::Load,
        v == "status"@ ==> verb_of(v) == ShellVerb::Status,
        v == "metrics"@ ==> verb_of(v) == ShellVerb::Status,
        v == "dump"@ ==> verb_of(v) == ShellVerb::Dump,
        v == "memdump"@ ==> verb_of(v) == ShellVerb::Dump,
        v == "memory"@ ==> verb_of(v) == ShellVerb::Dump,
        v == "exportjson"@ ==> verb_of(v) == ShellVerb::ExportJson,
        v == "dumpjson"@ ==> verb_of(v) == ShellVerb::ExportJson,
        v == "savejson"@ ==> verb_of(v) == ShellVerb::ExportJson,
        v == "export_json"@ ==> verb_of(v) == ShellVerb::ExportJson,
        v == "peek"@ ==> verb_of(v) == ShellVerb::Peek,
        v == "fetch"@ ==> verb_of(v) == ShellVerb::Fetch,
        v == "web"@ ==> verb_of(v) == ShellVerb::Web,
        v == "buy"@ ==> verb_of(v) == ShellVerb::Buy,
        v == "sell"@ ==> verb_of(v) == ShellVerb::Sell,
        v == "positions"@ ==> verb_of(v) == ShellVerb::Positions,
        v == "close"@ ==> verb_of(v) == ShellVerb::Close,
        v == "cancel"@ ==> verb_of(v) == ShellVerb::Cancel,
        v == "cancelall"@ ==> verb_of(v) == ShellVerb::CancelAll,
        v == "deposit"@ ==> verb_of(v) == ShellVerb::Deposit,
        v == "setbalance"@ ==> verb_of(v) == ShellVerb::SetBalance,
        v == "closeall"@ ==> verb_of(v) == ShellVerb::CloseAll,
        v == "orders"@ ==> verb_of(v) == ShellVerb::Orders,
        v == "history"@ ==> verb_of(v) == ShellVerb::History,
        v == "sql"@ ==> verb_of(v) == ShellVerb::Sql,
        v == "tables"@ ==> verb_of(v) == ShellVerb::Tables,
        v == "schema"@ ==> verb_of(v) == ShellVerb::Schema,
        v == "bench"@ ==> verb_of(v) == ShellVerb::Bench,
        v == "graph"@ ==> verb_of(v) == ShellVerb::Graph,
        v == "routes"@ ==> verb_of(v) == ShellVerb::Graph,
        v == "cd"@ ==> verb_of(v) == ShellVerb::Cd,
        v == "pwd"@ ==> verb_of(v) == ShellVerb::Pwd,
        v == "sysinfo"@ ==> verb_of(v) == ShellVerb::SysInfo,
        v == "pc"@ ==> verb_of(v) == ShellVerb::SysInfo,
        v == "hostinfo"@ ==> verb_of(v) == ShellVerb::SysInfo,
        v == "calc"@ ==> verb_of(v) == ShellVerb::Calc,
        v == "time"@ ==> verb_of(v) == ShellVerb::Time,
        v == "clock"@ ==> verb_of(v) == ShellVerb::Time,
        v == "ping"@ ==> verb_of(v) == ShellVerb::Ping,
        v == "tree"@ ==> verb_of(v) == ShellVerb::Tree,
        v == "config"@ ==> verb_of(v) == ShellVerb::Config,
        v == "exit"@ ==> verb_of(v) == ShellVerb::Exit,
        v == "quit"@ ==> verb_of(v) == ShellVerb::Exit,
{
    reveal_strlit("help");
    reveal_strlit("clear");
    reveal_strlit("cls");
    reveal_strlit("list");
    reveal_strlit("available");
    reveal_strlit("start");
    reveal_strlit("stop");
    reveal_strlit("del");
    reveal_strlit("delete");
    reveal_strlit("load");
    reveal_strlit("status");
    reveal_strlit("metrics");
    reveal_strlit("dump");
    reveal_strlit("memdump");
    reveal_strlit("memory");
    reveal_strlit("exportjson");
    reveal_strlit("dumpjson");
    reveal_strlit("savejson");
    reveal_strlit("export_json");
    reveal_strlit("peek");
    reveal_strlit("fetch");
    reveal_strlit("web");
    reveal_strlit("buy");
    reveal_strlit("sell");
    reveal_strlit("positions");
    reveal_strlit("close");
    reveal_strlit("cancel");
    reveal_strlit("cancelall");
    reveal_strlit("deposit");
    reveal_strlit("setbalance");
    reveal_strlit("closeall");
    reveal_strlit("orders");
    reveal_strlit("history");
    reveal_strlit("sql");
    reveal_strlit("tables");
    reveal_strlit("schema");
    reveal_strlit("bench");
    reveal_strlit("graph");
    reveal_strlit("routes");
    reveal_strlit("cd");
    reveal_strlit("pwd");
    reveal_strlit("sysinfo");
    reveal_strlit("pc");
    reveal_strlit("hostinfo");
    reveal_strlit("calc");
    reveal_strlit("time");
    reveal_strlit("clock");
    reveal_strlit("ping");
    reveal_strlit("tree");
    reveal_strlit("config");
    reveal_strlit("exit");
    reveal_strlit("quit");
    if v == "help"@ {
        assert(v.len() == 4);
        assert(v[0] == 'h');
        assert(v[1] == 'e');
        assert(v[2] == 'l');
        assert(v[3] == 'p');
    }
    if v == "clear"@ {
        assert(v.len() == 5);
        assert(v[0] == 'c');
        assert(v[1] == 'l');
        assert(v[2] == 'e');
        assert(v[3] == 'a');
        assert(v[4] == 'r');
    }
    if v == "cls"@ {
        assert(v.len() == 3);
        assert(v[0] == 'c');
        assert(v[1] == 'l');
        assert(v[2] == 's');
    }
    if v == "list"@ {
        assert(v.len() == 4);
        assert(v[0] == 'l');
        assert(v[1] == 'i');
        assert(v[2] == 's');
        assert(v[3] == 't');
    }
    if v == "available"@ {
        assert(v.len() == 9);
        assert(v[0] == 'a');
        assert(v[1] == 'v');
        assert(v[2] == 'a');
        assert(v[3] == 'i');
        assert(v[4] == 'l');
        assert(v[5] == 'a');
        assert(v[6] == 'b');
        assert(v[7] == 'l');
        assert(v[8] == 'e');
    }
    if v == "start"@ {
        assert(v.len() == 5);
        assert(v[0] == 's');
        assert(v[1] == 't');
        assert(v[2] == 'a');
        assert(v[3] == 'r');
        assert(v[4] == 't');
    }
    if v == "stop"@ {
        assert(v.len() == 4);
        assert(v[0] == 's');
        assert(v[1] == 't');
        assert(v[2] == 'o');
        assert(v[3] == 'p');
    }
    if v == "del"@ {
        assert(v.len() == 3);
        assert(v[0] == 'd');
        assert(v[1] == 'e');
        assert(v[2] == 'l');
    }
    if v == "delete"@ {
        assert(v.len() == 6);
        assert(v[0] == 'd');
        assert(v[1] == 'e');
        assert(v[2] == 'l');
        assert(v[3] == 'e');
        assert(v[4] == 't');
        assert(v[5] == 'e');
    }
    if v == "load"@ {
        assert(v.len() == 4);
        assert(v[0] == 'l');
        assert(v[1] == 'o');
        assert(v[2] == 'a');
        assert(v[3] == 'd');
    }
    if v == "status"@ {
        assert(v.len() == 6);
        assert(v[0] == 's');
        assert(v[1] == 't');
        assert(v[2] == 'a');
        assert(v[3] == 't');
        assert(v[4] == 'u');
        assert(v[5] == 's');
    }
    if v == "metrics"@ {
        assert(v.len() == 7);
        assert(v[0] == 'm');
        assert(v[1] == 'e');
        assert(v[2] == 't');
        assert(v[3] == 'r');
        assert(v[4] == 'i');
        assert(v[5] == 'c');
        assert(v[6] == 's');
    }
    if v == "dump"@ {
        assert(v.len() == 4);
        assert(v[0] == 'd');
        assert(v[1] == 'u');
        assert(v[2] == 'm');
        assert(v[3] == 'p');
    }
    if v == "memdump"@ {
        assert(v.len() == 7);
        assert(v[0] == 'm');
        assert(v[1] == 'e');
        assert(v[2] == 'm');
        assert(v[3] == 'd');
        assert(v[4] == 'u');
        assert(v[5] == 'm');
        assert(v[6] == 'p');
    }
    if v == "memory"@ {
        assert(v.len() == 6);
        assert(v[0] == 'm');
        assert(v[1] == 'e');
        assert(v[2] == 'm');
        assert(v[3] == 'o');
        assert(v[4] == 'r');
        assert(v[5] == 'y');
    }
    if v == "exportjson"@ {
        assert(v.len() == 10);
        assert(v[0] == 'e');
        assert(v[1] == 'x');
        assert(v[2] == 'p');
        assert(v[3] == 'o');
        assert(v[4] == 'r');
        assert(v[5] == 't');
        assert(v[6] == 'j');
        assert(v[7] == 's');
        assert(v[8] == 'o');
        assert(v[9] == 'n');
    }
    if v == "dumpjson"@ {
        assert(v.len() == 8);
        assert(v[0] == 'd');
        assert(v[1] == 'u');
        assert(v[2] == 'm');
        assert(v[3] == 'p');
        assert(v[4] == 'j');
        assert(v[5] == 's');
        assert(v[6] == 'o');
        assert(v[7] == 'n');
    }
    if v == "savejson"@ {
        assert(v.len() == 8);
        assert(v[0] == 's');
        assert(v[1] == 'a');
        assert(v[2] == 'v');
        assert(v[3] == 'e');
        assert(v[4] == 'j');
        assert(v[5] == 's');
        assert(v[6] == 'o');
        assert(v[7] == 'n');
    }
    if v == "export_json"@ {
        assert(v.len() == 11);
        assert(v[0] == 'e');
        assert(v[1] == 'x');
        assert(v[2] == 'p');
        assert(v[3] == 'o');
        assert(v[4] == 'r');
        assert(v[5] == 't');
        assert(v[6] == '_');
        assert(v[7] == 'j');
        assert(v[8] == 's');
        assert(v[9] == 'o');
        assert(v[10] == 'n');
    }
    if v == "peek"@ {
        assert(v.len() == 4);
        assert(v[0] == 'p');
        assert(v[1] == 'e');
        assert(v[2] == 'e');
        assert(v[3] == 'k');
    }
    if v == "fetch"@ {
        assert(v.len() == 5);
        assert(v[0] == 'f');
        assert(v[1] == 'e');
        assert(v[2] == 't');
        assert(v[3] == 'c');
        assert(v[4] == 'h');
    }
    if v == "web"@ {
        assert(v.len() == 3);
        assert(v[0] == 'w');
        assert(v[1] == 'e');
        assert(v[2] == 'b');
    }
    if v == "buy"@ {
        assert(v.len() == 3);
        assert(v[0] == 'b');
        assert(v[1] == 'u');
        assert(v[2] == 'y');
    }
    if v == "sell"@ {
        assert(v.len() == 4);
        assert(v[0] == 's');
        assert(v[1] == 'e');
        assert(v[2] == 'l');
        assert(v[3] == 'l');
    }
    if v == "positions"@ {
        assert(v.len() == 9);
        assert(v[0] == 'p');
        assert(v[1] == 'o');
        assert(v[2] == 's');
        assert(v[3] == 'i');
        assert(v[4] == 't');
        assert(v[5] == 'i');
        assert(v[6] == 'o');
        assert(v[7] == 'n');
        assert(v[8] == 's');
    }
    if v == "close"@ {
        assert(v.len() == 5);
        assert(v[0] == 'c');
        assert(v[1] == 'l');
        assert(v[2] == 'o');
        assert(v[3] == 's');
        assert(v[4] == 'e');
    }
    if v == "cancel"@ {
        assert(v.len() == 6);
        assert(v[0] == 'c');
        assert(v[1] == 'a');
        assert(v[2] == 'n');
        assert(v[3] == 'c');
        assert(v[4] == 'e');
        assert(v[5] == 'l');
    }
    if v == "cancelall"@ {
        assert(v.len() == 9);
        assert(v[0] == 'c');
        assert(v[1] == 'a');
        assert(v[2] == 'n');
        assert(v[3] == 'c');
        assert(v[4] == 'e');
        assert(v[5] == 'l');
        assert(v[6] == 'a');
        assert(v[7] == 'l');
        assert(v[8] == 'l');
    }
    if v == "deposit"@ {
        assert(v.len() == 7);
        assert(v[0] == 'd');
        assert(v[1] == 'e');
        assert(v[2] == 'p');
        assert(v[3] == 'o');
        assert(v[4] == 's');
        assert(v[5] == 'i');
        assert(v[6] == 't');
    }
    if v == "setbalance"@ {
        assert(v.len() == 10);
        assert(v[0] == 's');
        assert(v[1] == 'e');
        assert(v[2] == 't');
        assert(v[3] == 'b');
        assert(v[4] == 'a');
        assert(v[5] == 'l');
        assert(v[6] == 'a');
        assert(v[7] == 'n');
        assert(v[8] == 'c');
        assert(v[9] == 'e');
    }
    if v == "closeall"@ {
        assert(v.len() == 8);
        assert(v[0] == 'c');
        assert(v[1] == 'l');
        assert(v[2] == 'o');
        assert(v[3] == 's');
        assert(v[4] == 'e');
        assert(v[5] == 'a');
        assert(v[6] == 'l');
        assert(v[7] == 'l');
    }
    if v == "orders"@ {
        assert(v.len() == 6);
        assert(v[0] == 'o');
        assert(v[1] == 'r');
        assert(v[2] == 'd');
        assert(v[3] == 'e');
        assert(v[4] == 'r');
        assert(v[5] == 's');
    }
    if v == "history"@ {
        assert(v.len() == 7);
        assert(v[0] == 'h');
        assert(v[1] == 'i');
        assert(v[2] == 's');
        assert(v[3] == 't');
        assert(v[4] == 'o');
        assert(v[5] == 'r');
        assert(v[6] == 'y');
    }
    if v == "sql"@ {
        assert(v.len() == 3);
        assert(v[0] == 's');
        assert(v[1] == 'q');
        assert(v[2] == 'l');
    }
    if v == "tables"@ {
        assert(v.len() == 6);
        assert(v[0] == 't');
        assert(v[1] == 'a');
        assert(v[2] == 'b');
        assert(v[3] == 'l');
        assert(v[4] == 'e');
        assert(v[5] == 's');
    }
    if v == "schema"@ {
        assert(v.len() == 6);
        assert(v[0] == 's');
        assert(v[1] == 'c');
        assert(v[2] == 'h');
        assert(v[3] == 'e');
        assert(v[4] == 'm');
        assert(v[5] == 'a');
    }
    if v == "bench"@ {
        assert(v.len() == 5);
        assert(v[0] == 'b');
        assert(v[1] == 'e');
        assert(v[2] == 'n');
        assert(v[3] == 'c');
        assert(v[4] == 'h');
    }
    if v == "graph"@ {
        assert(v.len() == 5);
        assert(v[0] == 'g');
        assert(v[1] == 'r');
        assert(v[2] == 'a');
        assert(v[3] == 'p');
        assert(v[4] == 'h');
    }
    if v == "routes"@ {
        assert(v.len() == 6);
        assert(v[0] == 'r');
        assert(v[1] == 'o');
        assert(v[2] == 'u');
        assert(v[3] == 't');
        assert(v[4] == 'e');
        assert(v[5] == 's');
    }
    if v == "cd"@ {
        assert(v.len() == 2);
        assert(v[0] == 'c');
        assert(v[1] == 'd');
    }
    if v == "pwd"@ {
        assert(v.len() == 3);
        assert(v[0] == 'p');
        assert(v[1] == 'w');
        assert(v[2] == 'd');
    }
    if v == "sysinfo"@ {
        assert(v.len() == 7);
        assert(v[0] == 's');
        assert(v[1] == 'y');
        assert(v[2] == 's');
        assert(v[3] == 'i');
        assert(v[4] == 'n');
        assert(v[5] == 'f');
        assert(v[6] == 'o');
    }
    if v == "pc"@ {
        assert(v.len() == 2);
        assert(v[0] == 'p');
        assert(v[1] == 'c');
    }
    if v == "hostinfo"@ {
        assert(v.len() == 8);
        assert(v[0] == 'h');
        assert(v[1] == 'o');
        assert(v[2] == 's');
        assert(v[3] == 't');
        assert(v[4] == 'i');
        assert(v[5] == 'n');
        assert(v[6] == 'f');
        assert(v[7] == 'o');
    }
    if v == "calc"@ {
        assert(v.len() == 4);
        assert(v[0] == 'c');
        assert(v[1] == 'a');
        assert(v[2] == 'l');
        assert(v[3] == 'c');
    }
    if v == "time"@ {
        assert(v.len() == 4);
        assert(v[0] == 't');
        assert(v[1] == 'i');
        assert(v[2] == 'm');
        assert(v[3] == 'e');
    }
    if v == "clock"@ {
        assert(v.len() == 5);
        assert(v[0] == 'c');
        assert(v[1] == 'l');
        assert(v[2] == 'o');
        assert(v[3] == 'c');
        assert(v[4] == 'k');
    }
    if v == "ping"@ {
        assert(v.len() == 4);
        assert(v[0] == 'p');
        assert(v[1] == 'i');
        assert(v[2] == 'n');
        assert(v[3] == 'g');
    }
    if v == "tree"@ {
        assert(v.len() == 4);
        assert(v[0] == 't');
        assert(v[1] == 'r');
        assert(v[2] == 'e');
        assert(v[3] == 'e');
    }
    if v == "config"@ {
        assert(v.len() == 6);
        assert(v[0] == 'c');
        assert(v[1] == 'o');
        assert(v[2] == 'n');
        assert(v[3] == 'f');
        assert(v[4] == 'i');
        assert(v[5] == 'g');
    }
    if v == "exit"@ {
        assert(v.len() == 4);
        assert(v[0] == 'e');
        assert(v[1] == 'x');
        assert(v[2] == 'i');
        assert(v[3] == 't');
    }
    if v == "quit"@ {
        assert(v.len() == 4);
        assert(v[0] == 'q');
        assert(v[1] == 'u');
        assert(v[2] == 'i');
        assert(v[3] == 't');
    }
}

/// The command words of the interactive shell, in any letter case: each
/// names its own command, and a command that needs an argument takes it
/// from the next word (its usage is shown when the word is missing).
pub proof fn lemma_shell_keywords(cmd: ShellCommand, line: Seq<char>)
    requires
        shell_command_spec(cmd, line),
    ensures
        split_words(line).len() == 0 ==> cmd is Empty,
        split_words(line).len() > 0 && (lowercased(split_words(line)[0]) == "help"@) ==> cmd is Help,
        split_words(line).len() > 0 && (lowercased(split_words(line)[0]) == "clear"@ || lowercased(split_words(line)[0]) == "cls"@) ==> cmd is Clear,
        split_words(line).len() > 0 && (lowercased(split_words(line)[0]) == "list"@) ==> cmd is List,
        split_words(line).len() > 0 && (lowercased(split_words(line)[0]) == "available"@) ==> cmd is Available,
        split_words(line).len() > 0 && (lowercased(split_words(line)[0]) == "status"@ || lowercased(split_words(line)[0]) == "metrics"@) ==> cmd is Status,
        split_words(line).len() > 0 && (lowercased(split_words(line)[0]) == "positions"@) ==> cmd is Positions,
        split_words(line).len() > 0 && (lowercased(split_words(line)[0]) == "close"@) ==> cmd is Close,
        split_words(line).len() > 0 && (lowercased(split_words(line)[0]) == "cancelall"@) ==> cmd is CancelAll,
        split_words(line).len() > 0 && (lowercased(split_words(line)[0]) == "closeall"@) ==> cmd is CloseAll,
        split_words(line).len() > 0 && (lowercased(split_words(line)[0]) == "orders"@) ==> cmd is Orders,
        split_words(line).len() > 0 && (lowercased(split_words(line)[0]) == "history"@) ==> cmd is History,
        split_words(line).len() > 0 && (lowercased(split_words(line)[0]) == "sql"@) ==> cmd is SqlQuery,
        split_words(line).len() > 0 && (lowercased(split_words(line)[0]) == "tables"@) ==> cmd is SqlTables,
        split_words(line).len() > 0 && (lowercased(split_words(line)[0]) == "schema"@) ==> cmd is SqlSchema,
        split_words(line).len() > 0 && (lowercased(split_words(line)[0]) == "bench"@) ==> cmd is Bench,
        split_words(line).len() > 0 && (lowercased(split_words(line)[0]) == "graph"@ || lowercased(split_words(line)[0]) == "routes"@) ==> cmd is Graph,
        split_words(line).len() > 0 && (lowercased(split_words(line)[0]) == "cd"@) ==> cmd is Cd,
        split_words(line).len() > 0 && (lowercased(split_words(line)[0]) == "pwd"@) ==> cmd is Pwd,
        split_words(line).len() > 0 && (lowercased(split_words(line)[0]) == "sysinfo"@ || lowercased(split_words(line)[0]) == "pc"@ || lowercased(split_words(line)[0]) == "hostinfo"@) ==> cmd is SysInfo,
        split_words(line).len() > 0 && (lowercased(split_words(line)[0]) == "time"@ || lowercased(split_words(line)[0]) == "clock"@) ==> cmd is Time,
        split_words(line).len() > 0 && (lowercased(split_words(line)[0]) == "ping"@) ==> cmd is Ping,
        split_words(line).len() > 0 && (lowercased(split_words(line)[0]) == "tree"@) ==> cmd is Tree,
        split_words(line).len() > 0 && (lowercased(split_words(line)[0]) == "config"@) ==> cmd is Config,
        split_words(line).len() > 0 && (lowercased(split_words(line)[0]) == "exit"@ || lowercased(split_words(line)[0]) == "quit"@) ==> cmd is Exit,
        split_words(line).len() > 0 && (lowercased(split_words(line)[0]) == "web"@) ==> cmd is Web,
        split_words(line).len() >= 2 && (lowercased(split_words(line)[0]) == "start"@) ==> (cmd matches ShellCommand::Start { target, .. } && target@ == split_words(line)[1]),
        split_words(line).len() == 1 && (lowercased(split_words(line)[0]) == "start"@) ==> cmd is Usage,
        split_words(line).len() >= 2 && (lowercased(split_words(line)[0]) == "stop"@) ==> (cmd matches ShellCommand::Stop { target, .. } && target@ == split_words(line)[1]),
        split_words(line).len() == 1 && (lowercased(split_words(line)[0]) == "stop"@) ==> cmd is Usage,
        split_words(line).len() >= 2 && (lowercased(split_words(line)[0]) == "del"@ || lowercased(split_words(line)[0]) == "delete"@) ==> (cmd matches ShellCommand::Delete { id, .. } && id@ == split_words(line)[1]),
        split_words(line).len() == 1 && (lowercased(split_words(line)[0]) == "del"@ || lowercased(split_words(line)[0]) == "delete"@) ==> cmd is Usage,
        split_words(line).len() >= 2 && (lowercased(split_words(line)[0]) == "load"@) ==> (cmd matches ShellCommand::Load { name, .. } && name@ == split_words(line)[1]),
        split_words(line).len() == 1 && (lowercased(split_words(line)[0]) == "load"@) ==> cmd is Usage,
        split_words(line).len() >= 2 && (lowercased(split_words(line)[0]) == "dump"@ || lowercased(split_words(line)[0]) == "memdump"@ || lowercased(split_words(line)[0]) == "memory"@) ==> (cmd matches ShellCommand::Dump { id, .. } && id@ == split_words(line)[1]),
        split_words(line).len() == 1 && (lowercased(split_words(line)[0]) == "dump"@ || lowercased(split_words(line)[0]) == "memdump"@ || lowercased(split_words(line)[0]) == "memory"@) ==> cmd is Usage,
        split_words(line).len() >= 2 && (lowercased(split_words(line)[0]) == "exportjson"@ || lowercased(split_words(line)[0]) == "dumpjson"@ || lowercased(split_words(line)[0]) == "savejson"@ || lowercased(split_words(line)[0]) == "export_json"@) ==> (cmd matches ShellCommand::ExportJson { id, .. } && id@ == split_words(line)[1]),
        split_words(line).len() == 1 && (lowercased(split_words(line)[0]) == "exportjson"@ || lowercased(split_words(line)[0]) == "dumpjson"@ || lowercased(split_words(line)[0]) == "savejson"@ || lowercased(split_words(line)[0]) == "export_json"@) ==> cmd is Usage,
        split_words(line).len() >= 2 && (lowercased(split_words(line)[0]) == "peek"@) ==> (cmd matches ShellCommand::Peek { id, .. } && id@ == split_words(line)[1]),
        split_words(line).len() == 1 && (lowercased(split_words(line)[0]) == "peek"@) ==> cmd is Usage,
        split_words(line).len() >= 2 && (lowercased(split_words(line)[0]) == "cancel"@) ==> (cmd matches ShellCommand::Cancel { order_id, .. } && order_id@ == split_words(line)[1]),
        split_words(line).len() == 1 && (lowercased(split_words(line)[0]) == "cancel"@) ==> cmd is Usage,
        split_words(line).len() >= 2 && (lowercased(split_words(line)[0]) == "deposit"@) ==> (cmd matches ShellCommand::Deposit { amount, .. } && amount@ == split_words(line)[1]),
        split_words(line).len() == 1 && (lowercased(split_words(line)[0]) == "deposit"@) ==> cmd is Usage,
        split_words(line).len() >= 2 && (lowercased(split_words(line)[0]) == "setbalance"@) ==> (cmd matches ShellCommand::SetBalance { amount, .. } && amount@ == split_words(line)[1]),
        split_words(line).len() == 1 && (lowercased(split_words(line)[0]) == "setbalance"@) ==> cmd is Usage,
        split_words(line).len() >= 3 && lowercased(split_words(line)[0]) == "buy"@ ==> (cmd matches ShellCommand::Order { buy, quantity, .. } && buy == true && quantity@ == split_words(line)[2]),
        split_words(line).len() >= 3 && lowercased(split_words(line)[0]) == "sell"@ ==> (cmd matches ShellCommand::Order { buy, quantity, .. } && buy == false && quantity@ == split_words(line)[2]),
        split_words(line).len() >= 2 && lowercased(split_words(line)[0]) == "calc"@ ==> cmd is Calc,
        split_words(line).len() >= 2 && lowercased(split_words(line)[0]) == "fetch"@ ==> cmd is Fetch,
{
    if split_words(line).len() > 0 {
        lemma_verb_table(lowercased(split_words(line)[0]));
    }
}

/// Word `k` as a `String`.
fn word_string(words: &Vec<Vec<char>>, k: usize) -> (s: String)
    requires
        k < words.len(),
    ensures
        s@ == views(words@)[k as int],
{
    string_from_chars(&words[k])
}

/// Word `k`, or the default text when there are not that many words.
fn word_or_default(words: &Vec<Vec<char>>, k: usize, default: &str) -> (s: String)
    ensures
        s@ == word_or(views(words@), k as int, default@),
{
    if k < words.len() {
        word_string(words, k)
    } else {
        default.to_string()
    }
}

/// Word `k` read as a number of at most `max`, or the default.
fn number_or_default(words: &Vec<Vec<char>>, k: usize, max: u64, default: u64) -> (r: u64)
    ensures
        r == number_or(views(words@), k as int, max, default),
{
    if k < words.len() {
        let w = &words[k];
        assert(w@.subrange(0, w.len() as int) =~= w@);
        match parse_uint_chars(w, 0, w.len(), max) {
            Some(v) => v,
            None => default,
        }
    } else {
        default
    }
}

/// Word `k` lower-cased, as characters.
fn lower_word(words: &Vec<Vec<char>>, k: usize) -> (r: Vec<char>)
    requires
        k < words.len(),
    ensures
        r@ == lowercased(views(words@)[k as int]),
{
    let s = word_string(words, k);
    let l = lowercase_str(s.as_str());
    str_chars(l.as_str())
}

/// Word `k` upper-cased.
fn upper_word_string(words: &Vec<Vec<char>>, k: usize) -> (r: String)
    requires
        k < words.len(),
    ensures
        r@ == uppercased(views(words@)[k as int]),
{
    let s = word_string(words, k);
    uppercase_str(s.as_str())
}

/// Word `k` upper-cased, if there is one.
fn optional_upper_word(words: &Vec<Vec<char>>, k: usize) -> (r: Option<String>)
    ensures
        opt_text(r, upper_word(views(words@), k as int)),
{
    if k < words.len() {
        Some(upper_word_string(words, k))
    } else {
        None
    }
}

/// Word `k`, if there is one.
fn optional_word(words: &Vec<Vec<char>>, k: usize) -> (r: Option<String>)
    ensures
        opt_text(
            r,
            if views(words@).len() > k {
                Some(views(words@)[k as int])
            } else {
                None
            },
        ),
{
    if k < words.len() {
        Some(word_string(words, k))
    } else {
        None
    }
}

/// The plugin that serves a lower-cased `fetch` sub-command.
fn fetch_plugin_name(sub: &Vec<char>) -> (r: String)
    ensures
        r@ == fetch_plugin(sub@),
{
    if chars_equal_str(sub, "ticker") || chars_equal_str(sub, "depth") {
        "plugin_binance_gateway".to_string()
    } else if chars_equal_str(sub, "oi") {
        "plugin_oi_fetcher".to_string()
    } else if chars_equal_str(sub, "ohlcv") {
        "plugin_ohlcv_fetcher".to_string()
    } else if chars_equal_str(sub, "amihud") {
        "plugin_amihud".to_string()
    } else if chars_equal_str(sub, "price_impact") || chars_equal_str(sub, "impact") {
        "plugin_price_impact".to_string()
    } else {
        "plugin_binance_gateway".to_string()
    }
}

/// Decodes a line of the interactive shell into the command it stands for.
pub fn parse_shell_line(line: &str) -> (cmd: ShellCommand)
    ensures
        shell_command_spec(cmd, line@),
{
    let chars = str_chars(line);
    let t = split_whitespace_chars(&chars);
    let ghost tv = views(t@);
    if t.len() == 0 {
        return ShellCommand::Empty;
    }
    let v = lower_word(&t, 0);
    let verb = classify_verb(&v);
    let n = t.len();
    let usage = ShellCommand::Usage { verb: string_from_chars(&v) };
    match verb {
        ShellVerb::Help => ShellCommand::Help,
        ShellVerb::Clear => ShellCommand::Clear,
        ShellVerb::List => ShellCommand::List,
        ShellVerb::Available => ShellCommand::Available,
        ShellVerb::Start => if n < 2 {
            usage
        } else {
            ShellCommand::Start { target: word_string(&t, 1) }
        },
        ShellVerb::Stop => if n < 2 {
            usage
        } else {
            ShellCommand::Stop { target: word_string(&t, 1) }
        },
        ShellVerb::Delete => if n < 2 {
            usage
        } else {
            ShellCommand::Delete { id: word_string(&t, 1) }
        },
        ShellVerb::Load => if n < 2 {
            usage
        } else {
            ShellCommand::Load { name: word_string(&t, 1) }
        },
        ShellVerb::Status => ShellCommand::Status,
        ShellVerb::Dump => if n < 2 {
            usage
        } else {
            let max = number_or_default(&t, 2, usize::MAX as u64, 1048576);
            ShellCommand::Dump { id: word_string(&t, 1), max_bytes: max as usize }
        },
        ShellVerb::ExportJson => if n < 2 {
            usage
        } else {
            let id = word_string(&t, 1);
            let path = if n > 2 {
                word_string(&t, 2)
            } else {
                default_export_path(&t)
            };
            ShellCommand::ExportJson { id, path }
        },
        ShellVerb::Peek => if n < 2 {
            usage
        } else {
            let len = number_or_default(&t, 2, usize::MAX as u64, 64);
            ShellCommand::Peek { id: word_string(&t, 1), len: len as usize }
        },
        ShellVerb::Fetch => if n < 2 {
            usage
        } else {
            let sub = lower_word(&t, 1);
            ShellCommand::Fetch { plugin: fetch_plugin_name(&sub) }
        },
        ShellVerb::Web => {
            let action = if n < 2 {
                WebAction::Status
            } else {
                let a = lower_word(&t, 1);
                if chars_equal_str(&a, "start") {
                    WebAction::Start
                } else if chars_equal_str(&a, "stop") {
                    WebAction::Stop
                } else {
                    WebAction::Ignore
                }
            };
            ShellCommand::Web { action }
        },
        ShellVerb::Buy | ShellVerb::Sell => if n < 3 {
            usage
        } else {
            ShellCommand::Order {
                buy: verb == ShellVerb::Buy,
                symbol: upper_word_string(&t, 1),
                quantity: word_string(&t, 2),
                price: optional_word(&t, 3),
                leverage: optional_word(&t, 4),
            }
        },
        ShellVerb::Positions => ShellCommand::Positions,
        ShellVerb::Close => {
            let s = word_or_default(&t, 1, "BTCUSDT");
            ShellCommand::Close { symbol: uppercase_str(s.as_str()) }
        },
        ShellVerb::Cancel => if n < 2 {
            usage
        } else {
            ShellCommand::Cancel { order_id: word_string(&t, 1) }
        },
        ShellVerb::CancelAll => ShellCommand::CancelAll { symbol: optional_upper_word(&t, 1) },
        ShellVerb::Deposit => if n < 2 {
            usage
        } else {
            ShellCommand::Deposit {
                amount: word_string(&t, 1),
                user_id: word_or_default(&t, 2, "admin"),
            }
        },
        ShellVerb::SetBalance => if n < 2 {
            usage
        } else {
            ShellCommand::SetBalance {
                amount: word_string(&t, 1),
                user_id: word_or_default(&t, 2, "admin"),
            }
        },
        ShellVerb::CloseAll => ShellCommand::CloseAll { user_id: word_or_default(&t, 1, "admin") },
        ShellVerb::Orders => ShellCommand::Orders { symbol: optional_upper_word(&t, 1) },
        ShellVerb::History => ShellCommand::History { limit: number_or_default(&t, 1, u64::MAX, 10) },
        ShellVerb::Tables => ShellCommand::SqlTables,
        ShellVerb::Schema => ShellCommand::SqlSchema { table: word_or_default(&t, 1, "mark_prices") },
        ShellVerb::Sql => ShellCommand::SqlQuery { sql: join_words_from(&t, 1) },
        ShellVerb::Bench => {
            let it = number_or_default(&t, 1, usize::MAX as u64, 1000000);
            ShellCommand::Bench { iterations: it as usize }
        },
        ShellVerb::Graph => ShellCommand::Graph,
        ShellVerb::Cd => ShellCommand::Cd { path: word_or_default(&t, 1, "..") },
        ShellVerb::Pwd => ShellCommand::Pwd,
        ShellVerb::SysInfo => ShellCommand::SysInfo,
        ShellVerb::Calc => if n < 2 {
            usage
        } else {
            ShellCommand::Calc { expr: join_words_from(&t, 1) }
        },
        ShellVerb::Time => ShellCommand::Time,
        ShellVerb::Ping => ShellCommand::Ping { target: word_or_default(&t, 1, "fapi.binance.com") },
        ShellVerb::Tree => ShellCommand::Tree,
        ShellVerb::Config => ShellCommand::Config,
        ShellVerb::Exit => ShellCommand::Exit,
        ShellVerb::Other => ShellCommand::System { line: trim_str(line).to_string() },
    }
}


/// A decoded command of the web console's shell.
#[derive(Debug, Clone, PartialEq, Eq)]
pub enum WebShellCommand {
    /// A blank line: the answer is empty.
    Empty,
    /// The command lacks its argument; the usage of `verb` is answered.
    Usage { verb: String },
    Help,
    List,
    Available,
    Start { id: String },
    Stop { id: String },
    Delete { id: String },
    Load { name: String },
    Status,
    ExportJson { id: String, path: String },
    /// Not a command of the web shell.
    Unknown,
}

/// The command a line of the web console's shell stands for.
pub open spec fn web_shell_command_spec(cmd: WebShellCommand, line: Seq<char>) -> bool {
    let t = split_words(line);
    if t.len() == 0 {
        cmd is Empty
    } else {
        let v = lowercased(t[0]);
        let usage = cmd matches WebShellCommand::Usage { verb } && verb@ == v;
        if v == "help"@ {
            cmd is Help
        } else if v == "list"@ {
            cmd is List
        } else if v == "available"@ {
            cmd is Available
        } else if v == "start"@ {
            if t.len() < 2 {
                usage
            } else {
                cmd matches WebShellCommand::Start { id } && id@ == t[1]
            }
        } else if v == "stop"@ {
            if t.len() < 2 {
                usage
            } else {
                cmd matches WebShellCommand::Stop { id } && id@ == t[1]
            }
        } else if v == "del"@ || v == "delete"@ || v == "remove"@ {
            if t.len() < 2 {
                usage
            } else {
                cmd matches WebShellCommand::Delete { id } && id@ == t[1]
            }
        } else if v == "load"@ {
            if t.len() < 2 {
                usage
            } else {
                cmd matches WebShellCommand::Load { name } && name@ == t[1]
            }
        } else if v == "status"@ {
            cmd is Status
        } else if v == "exportjson"@ || v == "dumpjson"@ || v == "savejson"@ || v == "export_json"@ {
            if t.len() < 2 {
                usage
            } else {
                cmd matches WebShellCommand::ExportJson { id, path } && id@ == t[1] && path@
                    == word_or(t, 2, t[1] + "_output.json"@)
            }
        } else {
            cmd is Unknown
        }
    }
}

/// The command words of the web console's shell, in any letter case: each
/// names its own command, and a command that needs an argument takes it
/// from the next word (its usage is answered when the word is missing).
#[verifier::spinoff_prover]
#[verifier::rlimit(100)]
pub proof fn lemma_web_shell_keywords(cmd: WebShellCommand, line: Seq<char>)
    requires
        web_shell_command_spec(cmd, line),
    ensures
        split_words(line).len() == 0 ==> cmd is Empty,
        split_words(line).len() > 0 && (lowercased(split_words(line)[0]) == "help"@) ==> cmd is Help,
        split_words(line).len() > 0 && (lowercased(split_words(line)[0]) == "list"@) ==> cmd is List,
        split_words(line).len() > 0 && (lowercased(split_words(line)[0]) == "available"@) ==> cmd is Available,
        split_words(line).len() > 0 && (lowercased(split_words(line)[0]) == "status"@) ==> cmd is Status,
        split_words(line).len() >= 2 && (lowercased(split_words(line)[0]) == "start"@) ==> (cmd matches WebShellCommand::Start { id, .. } && id@ == split_words(line)[1]),
        split_words(line).len() == 1 && (lowercased(split_words(line)[0]) == "start"@) ==> cmd is Usage,
        split_words(line).len() >= 2 && (lowercased(split_words(line)[0]) == "stop"@) ==> (cmd matches WebShellCommand::Stop { id, .. } && id@ == split_words(line)[1]),
        split_words(line).len() == 1 && (lowercased(split_words(line)[0]) == "stop"@) ==> cmd is Usage,
        split_words(line).len() >= 2 && (lowercased(split_words(line)[0]) == "del"@ || lowercased(split_words(line)[0]) == "delete"@ || lowercased(split_words(line)[0]) == "remove"@) ==> (cmd matches WebShellCommand::Delete { id, .. } && id@ == split_words(line)[1]),
        split_words(line).len() == 1 && (lowercased(split_words(line)[0]) == "del"@ || lowercased(split_words(line)[0]) == "delete"@ || lowercased(split_words(line)[0]) == "remove"@) ==> cmd is Usage,
        split_words(line).len() >= 2 && (lowercased(split_words(line)[0]) == "load"@) ==> (cmd matches WebShellCommand::Load { name, .. } && name@ == split_words(line)[1]),
        split_words(line).len() == 1 && (lowercased(split_words(line)[0]) == "load"@) ==> cmd is Usage,
        split_words(line).len() >= 2 && (lowercased(split_words(line)[0]) == "exportjson"@ || lowercased(split_words(line)[0]) == "dumpjson"@ || lowercased(split_words(line)[0]) == "savejson"@ || lowercased(split_words(line)[0]) == "export_json"@) ==> (cmd matches WebShellCommand::ExportJson { id, .. } && id@ == split_words(line)[1]),
        split_words(line).len() == 1 && (lowercased(split_words(line)[0]) == "exportjson"@ || lowercased(split_words(line)[0]) == "dumpjson"@ || lowercased(split_words(line)[0]) == "savejson"@ || lowercased(split_words(line)[0]) == "export_json"@) ==> cmd is Usage,
{
    if split_words(line).len() > 0 {
        let v = lowercased(split_words(line)[0]);
        reveal_strlit("help");
        reveal_strlit("list");
        reveal_strlit("available");
        reveal_strlit("status");
        reveal_strlit("start");
        reveal_strlit("stop");
        reveal_strlit("del");
        reveal_strlit("delete");
        reveal_strlit("remove");
        reveal_strlit("load");
        reveal_strlit("exportjson");
        reveal_strlit("dumpjson");
        reveal_strlit("savejson");
        reveal_strlit("export_json");
        if v == "help"@ {
            assert(v.len() == 4);
            assert(v[0] == 'h');
            assert(v[1] == 'e');
            assert(v[2] == 'l');
            assert(v[3] == 'p');
        }
        if v == "list"@ {
            assert(v.len() == 4);
            assert(v[0] == 'l');
            assert(v[1] == 'i');
            assert(v[2] == 's');
            assert(v[3] == 't');
        }
        if v == "available"@ {
            assert(v.len() == 9);
            assert(v[0] == 'a');
            assert(v[1] == 'v');
            assert(v[2] == 'a');
            assert(v[3] == 'i');
            assert(v[4] == 'l');
            assert(v[5] == 'a');
            assert(v[6] == 'b');
            assert(v[7] == 'l');
            assert(v[8] == 'e');
        }
        if v == "status"@ {
            assert(v.len() == 6);
            assert(v[0] == 's');
            assert(v[1] == 't');
            assert(v[2] == 'a');
            assert(v[3] == 't');
            assert(v[4] == 'u');
            assert(v[5] == 's');
        }
        if v == "start"@ {
            assert(v.len() == 5);
            assert(v[0] == 's');
            assert(v[1] == 't');
            assert(v[2] == 'a');
            assert(v[3] == 'r');
            assert(v[4] == 't');
        }
        if v == "stop"@ {
            assert(v.len() == 4);
            assert(v[0] == 's');
            assert(v[1] == 't');
            assert(v[2] == 'o');
            assert(v[3] == 'p');
        }
        if v == "del"@ {
            assert(v.len() == 3);
            assert(v[0] == 'd');
            assert(v[1] == 'e');
            assert(v[2] == 'l');
        }
        if v == "delete"@ {
            assert(v.len() == 6);
            assert(v[0] == 'd');
            assert(v[1] == 'e');
            assert(v[2] == 'l');
            assert(v[3] == 'e');
            assert(v[4] == 't');
            assert(v[5] == 'e');
        }
        if v == "remove"@ {
            assert(v.len() == 6);
            assert(v[0] == 'r');
            assert(v[1] == 'e');
            assert(v[2] == 'm');
            assert(v[3] == 'o');
            assert(v[4] == 'v');
            assert(v[5] == 'e');
        }
        if v == "load"@ {
            assert(v.len() == 4);
            assert(v[0] == 'l');
            assert(v[1] == 'o');
            assert(v[2] == 'a');
            assert(v[3] == 'd');
        }
        if v == "exportjson"@ {
            assert(v.len() == 10);
            assert(v[0] == 'e');
            assert(v[1] == 'x');
            assert(v[2] == 'p');
            assert(v[3] == 'o');
            assert(v[4] == 'r');
            assert(v[5] == 't');
            assert(v[6] == 'j');
            assert(v[7] == 's');
            assert(v[8] == 'o');
            assert(v[9] == 'n');
        }
        if v == "dumpjson"@ {
            assert(v.len() == 8);
            assert(v[0] == 'd');
            assert(v[1] == 'u');
            assert(v[2] == 'm');
            assert(v[3] == 'p');
            assert(v[4] == 'j');
            assert(v[5] == 's');
            assert(v[6] == 'o');
            assert(v[7] == 'n');
        }
        if v == "savejson"@ {
            assert(v.len() == 8);
            assert(v[0] == 's');
            assert(v[1] == 'a');
            assert(v[2] == 'v');
            assert(v[3] == 'e');
            assert(v[4] == 'j');
            assert(v[5] == 's');
            assert(v[6] == 'o');
            assert(v[7] == 'n');
        }
        if v == "export_json"@ {
            assert(v.len() == 11);
            assert(v[0] == 'e');
            assert(v[1] == 'x');
            assert(v[2] == 'p');
            assert(v[3] == 'o');
            assert(v[4] == 'r');
            assert(v[5] == 't');
            assert(v[6] == '_');
            assert(v[7] == 'j');
            assert(v[8] == 's');
            assert(v[9] == 'o');
            assert(v[10] == 'n');
        }
    }
}

/// `words[1]` followed by "_output.json", the default export file name.
fn default_export_path(words: &Vec<Vec<char>>) -> (p: String)
    requires
        words.len() > 1,
    ensures
        p@ == views(words@)[1] + "_output.json"@,
{
    let mut p = words[1].clone();
    let suffix = str_chars("_output.json");
    let mut i: usize = 0;
    let ghost base = p@;
    while i < suffix.len()
        invariant
            i <= suffix.len(),
            p@ == base + suffix@.take(i as int),
        decreases suffix.len() - i,
    {
        p.push(suffix[i]);
        i = i + 1;
        assert(p@ =~= base + suffix@.take(i as int));
    }
    assert(suffix@.take(suffix.len() as int) =~= suffix@);
    string_from_chars(&p)
}

/// Decodes a line of the web console's shell.
pub fn parse_web_shell_line(line: &str) -> (cmd: WebShellCommand)
    ensures
        web_shell_command_spec(cmd, line@),
{
    let chars = str_chars(line);
    let t = split_whitespace_chars(&chars);
    if t.len() == 0 {
        return WebShellCommand::Empty;
    }
    let v = lower_word(&t, 0);
    let n = t.len();
    let usage = WebShellCommand::Usage { verb: string_from_chars(&v) };
    if chars_equal_str(&v, "help") {
        WebShellCommand::Help
    } else if chars_equal_str(&v, "list") {
        WebShellCommand::List
    } else if chars_equal_str(&v, "available") {
        WebShellCommand::Available
    } else if chars_equal_str(&v, "start") {
        if n < 2 {
            usage
        } else {
            WebShellCommand::Start { id: word_string(&t, 1) }
        }
    } else if chars_equal_str(&v, "stop") {
        if n < 2 {
            usage
        } else {
            WebShellCommand::Stop { id: word_string(&t, 1) }
        }
    } else if chars_equal_str(&v, "del") || chars_equal_str(&v, "delete") || chars_equal_str(
        &v,
        "remove",
    ) {
        if n < 2 {
            usage
        } else {
            WebShellCommand::Delete { id: word_string(&t, 1) }
        }
    } else if chars_equal_str(&v, "load") {
        if n < 2 {
            usage
        } else {
            WebShellCommand::Load { name: word_string(&t, 1) }
        }
    } else if chars_equal_str(&v, "status") {
        WebShellCommand::Status
    } else if chars_equal_str(&v, "exportjson") || chars_equal_str(&v, "dumpjson")
        || chars_equal_str(&v, "savejson") || chars_equal_str(&v, "export_json") {
        if n < 2 {
            usage
        } else {
            let id = word_string(&t, 1);
            let path = if n > 2 {
                word_string(&t, 2)
            } else {
                default_export_path(&t)
            };
            WebShellCommand::ExportJson { id, path }
        }
    } else {
        WebShellCommand::Unknown
    }
}

/// Each `fetch` sub-command is served by its own plugin.
pub proof fn lemma_fetch_plugins(sub: Seq<char>)
    ensures
        sub == "ticker"@ ==> fetch_plugin(sub) == "plugin_binance_gateway"@,
        sub == "depth"@ ==> fetch_plugin(sub) == "plugin_binance_gateway"@,
        sub == "oi"@ ==> fetch_plugin(sub) == "plugin_oi_fetcher"@,
        sub == "ohlcv"@ ==> fetch_plugin(sub) == "plugin_ohlcv_fetcher"@,
        sub == "amihud"@ ==> fetch_plugin(sub) == "plugin_amihud"@,
        sub == "price_impact"@ ==> fetch_plugin(sub) == "plugin_price_impact"@,
        sub == "impact"@ ==> fetch_plugin(sub) == "plugin_price_impact"@,
{
    reveal_strlit("ticker");
    reveal_strlit("depth");
    reveal_strlit("oi");
    reveal_strlit("ohlcv");
    reveal_strlit("amihud");
    reveal_strlit("price_impact");
    reveal_strlit("impact");
    if sub == "ticker"@ {
        assert(sub.len() == 6);
        assert(sub[0] == 't');
        assert(sub[1] == 'i');
        assert(sub[2] == 'c');
        assert(sub[3] == 'k');
        assert(sub[4] == 'e');
        assert(sub[5] == 'r');
    }
    if sub == "depth"@ {
        assert(sub.len() == 5);
        assert(sub[0] == 'd');
        assert(sub[1] == 'e');
        assert(sub[2] == 'p');
        assert(sub[3] == 't');
        assert(sub[4] == 'h');
    }
    if sub == "oi"@ {
        assert(sub.len() == 2);
        assert(sub[0] == 'o');
        assert(sub[1] == 'i');
    }
    if sub == "ohlcv"@ {
        assert(sub.len() == 5);
        assert(sub[0] == 'o');
        assert(sub[1] == 'h');
        assert(sub[2] == 'l');
        assert(sub[3] == 'c');
        assert(sub[4] == 'v');
    }
    if sub == "amihud"@ {
        assert(sub.len() == 6);
        assert(sub[0] == 'a');
        assert(sub[1] == 'm');
        assert(sub[2] == 'i');
        assert(sub[3] == 'h');
        assert(sub[4] == 'u');
        assert(sub[5] == 'd');
    }
    if sub == "price_impact"@ {
        assert(sub.len() == 12);
        assert(sub[0] == 'p');
        assert(sub[1] == 'r');
        assert(sub[2] == 'i');
        assert(sub[3] == 'c');
        assert(sub[4] == 'e');
        assert(sub[5] == '_');
        assert(sub[6] == 'i');
        assert(sub[7] == 'm');
        assert(sub[8] == 'p');
        assert(sub[9] == 'a');
        assert(sub[10] == 'c');
        assert(sub[11] == 't');
    }
    if sub == "impact"@ {
        assert(sub.len() == 6);
        assert(sub[0] == 'i');
        assert(sub[1] == 'm');
        assert(sub[2] == 'p');
        assert(sub[3] == 'a');
        assert(sub[4] == 'c');
        assert(sub[5] == 't');
    }
}

} // verus!
