use vstd::prelude::*;

verus! {

/// Terminal escape sequence reset.
pub const RESET: &'static str = "\x1b[0m";
/// Terminal escape sequence bold.
pub const BOLD: &'static str = "\x1b[1m";
/// Terminal escape sequence red.
pub const RED: &'static str = "\x1b[31m";
/// Terminal escape sequence green.
pub const GREEN: &'static str = "\x1b[32m";
/// Terminal escape sequence yellow.
pub const YELLOW: &'static str = "\x1b[33m";
/// Terminal escape sequence blue.
pub const BLUE: &'static str = "\x1b[34m";
/// Terminal escape sequence magenta.
pub const MAGENTA: &'static str = "\x1b[35m";
/// Terminal escape sequence cyan.
pub const CYAN: &'static str = "\x1b[36m";
/// Terminal escape sequence white.
pub const WHITE: &'static str = "\x1b[37m";
/// Terminal escape sequence gray.
pub const GRAY: &'static str = "\x1b[90m";
/// Terminal escape sequence bright green.
pub const BRIGHT_GREEN: &'static str = "\x1b[92m";
/// Terminal escape sequence bright cyan.
pub const BRIGHT_CYAN: &'static str = "\x1b[96m";
/// Terminal escape sequence bright yellow.
pub const BRIGHT_YELLOW: &'static str = "\x1b[93m";

/// The guide printed by the interactive shell's `help` command.
pub const SHELL_HELP_MENU: &'static str = "\x1b[96m\x1b[1m=== CYCLE ORCHESTRATOR UNIFIED SHELL COMMAND GUIDE ===\x1b[0m\n\n\x1b[93m\x1b[1m⚙️ SYSTEM AND PLUGIN MANAGEMENT:\x1b[0m\n  \x1b[32mhelp\x1b[0m                   : Displays this help menu\n  \x1b[32mlist\x1b[0m                   : Displays all loaded plugins, status, RAM (KB) and CPU (%) usage\n  \x1b[32mavailable\x1b[0m              : Lists compiled plugin (.so) libraries ready for loading on disk\n  \x1b[32mstatus [plugin_id]\x1b[0m     : Shows general system metrics or specific plugin details\n  \x1b[32mmetrics\x1b[0m                : Displays detailed CPU, RAM memory and isolated core statistics\n  \x1b[32mstart <id|all>\x1b[0m         : Starts specified plugin or the entire system\n  \x1b[32mstop <id|all>\x1b[0m          : Stops specified plugin or the entire system\n  \x1b[32mload <plugin_name>\x1b[0m     : Dynamically loads C-ABI dynamic library (.so) instantly\n  \x1b[32mdel <plugin_id>\x1b[0m        : Completely unloads plugin from memory\n\n\x1b[93m\x1b[1m📈 LIVE MARKET TELEMETRY QUERIES:\x1b[0m\n  \x1b[32mfetch ticker <symbol>\x1b[0m   : Queries live Best Bid/Ask and spread data for symbol\n  \x1b[32mfetch depth <symbol>\x1b[0m    : Shows live Orderbook depth snapshot data\n  \x1b[32mfetch oi <symbol>\x1b[0m       : Fetches and displays Open Interest data\n  \x1b[32mfetch ohlcv <symbol>\x1b[0m    : Lists live candlestick (Open, High, Low, Close, Volume) data\n  \x1b[32mfetch amihud <symbol>\x1b[0m   : Displays Amihud Illiquidity Ratio (liquidity/volume sensitivity) analysis\n\n\x1b[93m\x1b[1m💾 DATABASE AND PAPER TRADING:\x1b[0m\n  \x1b[32mtables\x1b[0m                 : Displays all tables and record counts in SQLite database\n  \x1b[32mschema <table>\x1b[0m          : Displays table structure and column types\n  \x1b[32msql <query>\x1b[0m            : Executes raw SQL query (e.g. sql SELECT * FROM mark_prices LIMIT 5)\n  \x1b[32mbuy <sym> <qty> <price> [lev]\x1b[0m: Enters paper buy (Long) order (e.g. buy BTCUSDT 0.1 60000 20)\n  \x1b[32msell <sym> <qty> <price> [lev]\x1b[0m: Enters paper sell (Short) order (e.g. sell ETHUSDT 1.5 3000 50)\n  \x1b[32mcancel <order_id>\x1b[0m       : Cancels pending order\n  \x1b[32mcancelall [symbol]\x1b[0m     : Cancels all pending orders or symbol-specific orders\n  \x1b[32mdeposit <amount>\x1b[0m       : Deposits virtual balance (e.g. deposit 5000)\n  \x1b[32msetbalance <amount>\x1b[0m    : Directly sets paper wallet balance (e.g. setbalance 10000)\n  \x1b[32mpositions\x1b[0m              : Lists open paper trading positions and PnL status\n  \x1b[32morders [symbol]\x1b[0m        : Lists active pending orders\n  \x1b[32mhistory [limit]\x1b[0m         : Lists closed trade history with PnL and entry/exit prices\n  \x1b[32mclose <symbol>\x1b[0m          : Closes open symbol position\n  \x1b[32mcloseall\x1b[0m               : Instantly closes all open positions via market order\n\n\x1b[93m\x1b[1m⚡ HFT BENCHMARK AND TOPOLOGY:\x1b[0m\n  \x1b[32mbench [iterations]\x1b[0m     : Measures Zero-copy C-ABI endpoint latency in nanoseconds (ns)\n  \x1b[32mgraph\x1b[0m / \x1b[32mroutes\x1b[0m         : Visualizes Flow Engine Directed Acyclic Graph (DAG)\n\n\x1b[93m\x1b[1m🖥️ OPERATING SYSTEM AND PC SHELL COMMANDS:\x1b[0m\n  \x1b[32mcd <path>\x1b[0m              : Changes working directory (e.g. cd /home)\n  \x1b[32mpwd\x1b[0m                    : Displays current working directory\n  \x1b[32msysinfo\x1b[0m / \x1b[32mpc\x1b[0m           : Shows OS, kernel, CPU model, RAM and disk usage\n  \x1b[32m<local commands>\x1b[0m         : Directly executes Linux/OS commands (e.g. ls, free -h, df -h, git status, ping)\n\n\x1b[93m\x1b[1m🧮 CALCULATION AND FINANCIAL UTILITIES:\x1b[0m\n  \x1b[32mcalc <expression>\x1b[0m        : Performs mathematical/financial calculations (e.g. calc 65000 * 0.1 * 20)\n  \x1b[32mtime\x1b[0m / \x1b[32mclock\x1b[0m           : Displays nanosecond-precision live system clock (HH.MM.SS.mmm.uuu.nnn)\n  \x1b[32mping [target]\x1b[0m           : Measures Binance HFT API network latency (RTT ms)\n  \x1b[32mtree\x1b[0m                    : Visualizes project plugin and module directory tree\n\n\x1b[93m\x1b[1m🛠️ CONTROL AND API LEVEL:\x1b[0m\n  \x1b[32mdump <plugin_id> [max_bytes]\x1b[0m: Dumps plugin's FULL RAM buffer (Full Memory Hex Dump & ASCII)\n  \x1b[32mexportjson <id> [file]\x1b[0m  : Saves plugin's memory JSON output as a .json file (Aliases: dumpjson, savejson)\n  \x1b[32mpeek <plugin_id> [len]\x1b[0m  : Inspects plugin's initial RAM memory summary\n  \x1b[32mweb <start|stop|status>\x1b[0m : Starts, stops or returns status of Port 8080 Web server\n  \x1b[32mconfig [show|reload]\x1b[0m   : Reads flow_config.json content or triggers hot-reload\n  \x1b[32mclear\x1b[0m                  : Clears screen\n  \x1b[31mexit\x1b[0m / \x1b[31mquit\x1b[0m            : Stops orchestrator and exits shell\n";

/// The guide answered by the web console shell's `help` command.
pub const WEB_SHELL_HELP: &'static str = "=== CYCLE-ORC INTERACTIVE HFT SHELL HELP ===\n  help                   : Bu yardım menüsünü gösterir\n  list                   : Yüklü tüm eklentileri ve durumlarını listeler\n  available              : Diskte derlenmiş tüm eklenti (.so/.dll) dosyalarını gösterir\n  start <id>             : Belirtilen eklentiyi başlatır\n  stop <id>              : Belirtilen eklentiyi durdurur\n  del <id>               : Belirtilen eklentiyi hafızadan kaldırır\n  load <plugin_name>     : C-ABI ile kütüphaneyi anında dinamik yükler\n  status                 : Sistem kaynak ve çalışma istatistiklerini gösterir\n  clear                  : Ekranı temizler\n";

/// The interactive shell's command guide, with its terminal colours.
pub fn format_help_menu() -> (s: String)
    ensures
        s@ == SHELL_HELP_MENU@,
{
    SHELL_HELP_MENU.to_string()
}

/// The web console shell's command guide.
pub fn web_shell_help() -> (s: String)
    ensures
        s@ == WEB_SHELL_HELP@,
{
    WEB_SHELL_HELP.to_string()
}

} // verus!
