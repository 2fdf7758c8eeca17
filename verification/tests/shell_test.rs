use cycle_orc::shell::{parse_shell_line, parse_web_shell_line, ShellCommand, WebAction, WebShellCommand};

fn s(x: &str) -> String {
    x.to_string()
}

#[test]
fn blank_lines_are_empty() {
    assert_eq!(parse_shell_line(""), ShellCommand::Empty);
    assert_eq!(parse_shell_line("   \t "), ShellCommand::Empty);
}

#[test]
fn verbs_are_case_insensitive() {
    assert_eq!(parse_shell_line("HELP"), ShellCommand::Help);
    assert_eq!(parse_shell_line("cls"), ShellCommand::Clear);
    assert_eq!(parse_shell_line("Metrics"), ShellCommand::Status);
    assert_eq!(parse_shell_line("routes"), ShellCommand::Graph);
    assert_eq!(parse_shell_line("pc"), ShellCommand::SysInfo);
    assert_eq!(parse_shell_line("clock"), ShellCommand::Time);
    assert_eq!(parse_shell_line("quit"), ShellCommand::Exit);
}

#[test]
fn missing_arguments_ask_for_usage() {
    assert_eq!(parse_shell_line("START"), ShellCommand::Usage { verb: s("start") });
    assert_eq!(parse_shell_line("del"), ShellCommand::Usage { verb: s("del") });
    assert_eq!(parse_shell_line("buy btcusdt"), ShellCommand::Usage { verb: s("buy") });
    assert_eq!(parse_shell_line("calc"), ShellCommand::Usage { verb: s("calc") });
}

#[test]
fn plugin_commands_take_their_argument() {
    assert_eq!(parse_shell_line("start plugin_x"), ShellCommand::Start { target: s("plugin_x") });
    assert_eq!(parse_shell_line("stop all"), ShellCommand::Stop { target: s("all") });
    assert_eq!(parse_shell_line("delete p1"), ShellCommand::Delete { id: s("p1") });
    assert_eq!(parse_shell_line("load plugin_rsi"), ShellCommand::Load { name: s("plugin_rsi") });
}

#[test]
fn memory_commands_default_their_sizes() {
    assert_eq!(parse_shell_line("dump p1"), ShellCommand::Dump { id: s("p1"), max_bytes: 1048576 });
    assert_eq!(parse_shell_line("memdump p1 256"), ShellCommand::Dump { id: s("p1"), max_bytes: 256 });
    assert_eq!(parse_shell_line("dump p1 lots"), ShellCommand::Dump { id: s("p1"), max_bytes: 1048576 });
    assert_eq!(parse_shell_line("peek p1"), ShellCommand::Peek { id: s("p1"), len: 64 });
    assert_eq!(parse_shell_line("peek p1 16"), ShellCommand::Peek { id: s("p1"), len: 16 });
    assert_eq!(
        parse_shell_line("exportjson p1"),
        ShellCommand::ExportJson { id: s("p1"), path: s("p1_output.json") }
    );
    assert_eq!(
        parse_shell_line("savejson p1 out.json"),
        ShellCommand::ExportJson { id: s("p1"), path: s("out.json") }
    );
}

#[test]
fn fetch_picks_the_serving_plugin() {
    assert_eq!(parse_shell_line("fetch TICKER BTCUSDT"), ShellCommand::Fetch { plugin: s("plugin_binance_gateway") });
    assert_eq!(parse_shell_line("fetch oi"), ShellCommand::Fetch { plugin: s("plugin_oi_fetcher") });
    assert_eq!(parse_shell_line("fetch ohlcv"), ShellCommand::Fetch { plugin: s("plugin_ohlcv_fetcher") });
    assert_eq!(parse_shell_line("fetch amihud"), ShellCommand::Fetch { plugin: s("plugin_amihud") });
    assert_eq!(parse_shell_line("fetch impact"), ShellCommand::Fetch { plugin: s("plugin_price_impact") });
    assert_eq!(parse_shell_line("fetch other"), ShellCommand::Fetch { plugin: s("plugin_binance_gateway") });
}

#[test]
fn web_sub_commands() {
    assert_eq!(parse_shell_line("web"), ShellCommand::Web { action: WebAction::Status });
    assert_eq!(parse_shell_line("web START"), ShellCommand::Web { action: WebAction::Start });
    assert_eq!(parse_shell_line("web stop"), ShellCommand::Web { action: WebAction::Stop });
    assert_eq!(parse_shell_line("web status"), ShellCommand::Web { action: WebAction::Ignore });
}

#[test]
fn paper_orders_upper_case_the_symbol() {
    assert_eq!(
        parse_shell_line("buy btcusdt 0.1 60000 20"),
        ShellCommand::Order {
            buy: true,
            symbol: s("BTCUSDT"),
            quantity: s("0.1"),
            price: Some(s("60000")),
            leverage: Some(s("20")),
        }
    );
    assert_eq!(
        parse_shell_line("sell ethusdt 1.5"),
        ShellCommand::Order { buy: false, symbol: s("ETHUSDT"), quantity: s("1.5"), price: None, leverage: None }
    );
}

#[test]
fn account_commands_default_to_admin_and_btc() {
    assert_eq!(parse_shell_line("close"), ShellCommand::Close { symbol: s("BTCUSDT") });
    assert_eq!(parse_shell_line("close ethusdt"), ShellCommand::Close { symbol: s("ETHUSDT") });
    assert_eq!(parse_shell_line("cancel 42"), ShellCommand::Cancel { order_id: s("42") });
    assert_eq!(parse_shell_line("cancelall"), ShellCommand::CancelAll { symbol: None });
    assert_eq!(parse_shell_line("cancelall solusdt"), ShellCommand::CancelAll { symbol: Some(s("SOLUSDT")) });
    assert_eq!(parse_shell_line("deposit 5000"), ShellCommand::Deposit { amount: s("5000"), user_id: s("admin") });
    assert_eq!(parse_shell_line("setbalance 10000 bob"), ShellCommand::SetBalance { amount: s("10000"), user_id: s("bob") });
    assert_eq!(parse_shell_line("closeall"), ShellCommand::CloseAll { user_id: s("admin") });
    assert_eq!(parse_shell_line("orders btcusdt"), ShellCommand::Orders { symbol: Some(s("BTCUSDT")) });
    assert_eq!(parse_shell_line("positions"), ShellCommand::Positions);
}

#[test]
fn numeric_arguments_fall_back_to_defaults() {
    assert_eq!(parse_shell_line("history"), ShellCommand::History { limit: 10 });
    assert_eq!(parse_shell_line("history 25"), ShellCommand::History { limit: 25 });
    assert_eq!(parse_shell_line("history -3"), ShellCommand::History { limit: 10 });
    assert_eq!(parse_shell_line("bench"), ShellCommand::Bench { iterations: 1000000 });
    assert_eq!(parse_shell_line("bench 500"), ShellCommand::Bench { iterations: 500 });
}

#[test]
fn database_and_utility_commands() {
    assert_eq!(parse_shell_line("tables"), ShellCommand::SqlTables);
    assert_eq!(parse_shell_line("schema"), ShellCommand::SqlSchema { table: s("mark_prices") });
    assert_eq!(parse_shell_line("sql SELECT *   FROM t"), ShellCommand::SqlQuery { sql: s("SELECT * FROM t") });
    assert_eq!(parse_shell_line("cd"), ShellCommand::Cd { path: s("..") });
    assert_eq!(parse_shell_line("cd /home"), ShellCommand::Cd { path: s("/home") });
    assert_eq!(parse_shell_line("calc 1 +  2"), ShellCommand::Calc { expr: s("1 + 2") });
    assert_eq!(parse_shell_line("ping"), ShellCommand::Ping { target: s("fapi.binance.com") });
    assert_eq!(parse_shell_line("config reload"), ShellCommand::Config);
}

#[test]
fn unknown_words_go_to_the_system_shell() {
    assert_eq!(parse_shell_line("  ls -la  "), ShellCommand::System { line: s("ls -la") });
    assert_eq!(parse_shell_line("git status"), ShellCommand::System { line: s("git status") });
}

#[test]
fn web_shell_lines() {
    assert_eq!(parse_web_shell_line(""), WebShellCommand::Empty);
    assert_eq!(parse_web_shell_line("HELP"), WebShellCommand::Help);
    assert_eq!(parse_web_shell_line("start"), WebShellCommand::Usage { verb: s("start") });
    assert_eq!(parse_web_shell_line("start p1"), WebShellCommand::Start { id: s("p1") });
    assert_eq!(parse_web_shell_line("remove p1"), WebShellCommand::Delete { id: s("p1") });
    assert_eq!(
        parse_web_shell_line("dumpjson p1"),
        WebShellCommand::ExportJson { id: s("p1"), path: s("p1_output.json") }
    );
    assert_eq!(parse_web_shell_line("ls"), WebShellCommand::Unknown);
    assert_eq!(parse_web_shell_line("status"), WebShellCommand::Status);
}
