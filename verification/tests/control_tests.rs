use ferrum::config::{AlpacaConfig, AlpacaCredentials, AlpacaLiveCredentials, Mode};
use ferrum::error::FerrumError;
use ferrum::ipc::{
    broker_position, broker_position_at, last_or_zero, loop_step, pnl_today, signal_step,
    toggle_mode_in_config, ControlReply, ControlState, LoopStep, SignalStep,
};
use ferrum::strategy::OpenPositionMeta;
use ferrum::tui::{is_gain, pdt_level, App, KeyAction, KeyCode, PdtLevel, LOG_RING_SIZE};
use ferrum::types::{BotStatus, LogEvent, LogLevel};
use ferrum::web::{EquityQuery, LogsQuery, ModeBody};

#[test]
fn start_stop_protocol() {
    let mut s = ControlState::new();
    assert_eq!(s.status, BotStatus::Idle);
    assert_eq!(s.stop(), ControlReply::Refused("not running".to_string()));
    assert_eq!(s.start(), ControlReply::Accepted);
    assert_eq!(s.status, BotStatus::Running);
    assert_eq!(s.start(), ControlReply::Refused("already running".to_string()));
    s.loop_entered();
    s.loop_entered();
    assert_eq!(s.active_loops, 2);
    assert_eq!(s.stop(), ControlReply::Accepted);
    assert_eq!(s.status, BotStatus::Stopping);
    assert_eq!(s.loop_exited(), 1);
    assert_eq!(s.status, BotStatus::Stopping);
    assert_eq!(s.loop_exited(), 0);
    assert_eq!(s.status, BotStatus::Idle);
}

#[test]
fn stopping_refuses_another_stop() {
    let mut s = ControlState { status: BotStatus::Stopping, active_loops: 1 };
    assert_eq!(s.stop(), ControlReply::Refused("not running".to_string()));
    assert_eq!(s.status, BotStatus::Stopping);
}

#[test]
fn loop_steps() {
    assert_eq!(loop_step(BotStatus::Stopping, true, true), LoopStep::Exit);
    assert_eq!(loop_step(BotStatus::Running, false, true), LoopStep::Sleep);
    assert_eq!(loop_step(BotStatus::Running, true, false), LoopStep::Sleep);
    assert_eq!(loop_step(BotStatus::Running, true, true), LoopStep::Scan);
    assert_eq!(loop_step(BotStatus::Idle, true, true), LoopStep::Scan);
}

#[test]
fn signal_steps() {
    let blocked: Result<(), FerrumError> = Err(FerrumError::RiskViolation("sector cap".to_string()));
    assert_eq!(signal_step(&blocked, BotStatus::Running), SignalStep::Blocked);
    assert_eq!(signal_step(&Ok(()), BotStatus::Running), SignalStep::Submit);
    assert_eq!(signal_step(&Ok(()), BotStatus::Stopping), SignalStep::NotRunning);
    assert_eq!(signal_step(&Ok(()), BotStatus::Idle), SignalStep::NotRunning);
}

#[test]
fn pnl_figures() {
    assert_eq!(pnl_today(&vec![Some(100_000_000), Some(101_500_000)]), 1_500_000);
    assert_eq!(pnl_today(&vec![Some(100_000_000)]), 0);
    assert_eq!(pnl_today(&vec![None, Some(101_500_000)]), 0);
    assert_eq!(last_or_zero(&vec![Some(5), Some(-7)]), -7);
    assert_eq!(last_or_zero(&vec![Some(5), None]), 0);
    assert_eq!(last_or_zero(&Vec::new()), 0);
}

#[test]
fn toggle_mode_rewrites_mode_lines() {
    let text = "[alpaca]\nmode = \"paper\"\nkey = \"x\"\n";
    assert_eq!(toggle_mode_in_config(text, "live"), "[alpaca]\nmode = \"live\"\nkey = \"x\"\n");
    // Indented lines count; lines without '=' do not.
    assert_eq!(toggle_mode_in_config("  mode=paper\nmode\n", "live"), "mode = \"live\"\nmode\n");
    // CRLF input comes back with LF, and a final newline is added.
    assert_eq!(toggle_mode_in_config("a = 1\r\nmode = \"live\"", "paper"), "a = 1\nmode = \"paper\"\n");
    assert_eq!(toggle_mode_in_config("", "paper"), "\n");
}

#[test]
fn toggle_mode_twice_is_stable() {
    let text = "[alpaca]\nmode = \"paper\"\n";
    let once = toggle_mode_in_config(text, "live");
    assert_eq!(toggle_mode_in_config(&once, "live"), once);
}

fn event(ts: i64, msg: &str) -> LogEvent {
    LogEvent { timestamp: ts, level: LogLevel::Info, message: msg.to_string() }
}

#[test]
fn app_starts_clean() {
    let app = App::new();
    assert!(app.daemon_online);
    assert!(!app.daemon_managed);
    assert_eq!(app.bot_status, BotStatus::Idle);
    assert_eq!(app.mode, "PAPER");
    assert!(app.tail_follow);
    assert!(app.log_events.is_empty());
}

#[test]
fn log_ring_keeps_last_events() {
    let mut app = App::new();
    for i in 0..(LOG_RING_SIZE as i64 + 3) {
        app.push_log(event(i, "x"));
    }
    assert_eq!(app.log_events.len(), LOG_RING_SIZE);
    assert_eq!(app.log_events.front().unwrap().timestamp, 3);
    assert_eq!(app.log_events.back().unwrap().timestamp, LOG_RING_SIZE as i64 + 2);
    assert_eq!(app.log_scroll, LOG_RING_SIZE - 1);
}

#[test]
fn ingest_skips_already_seen_events() {
    let mut app = App::new();
    app.ingest_logs(&vec![event(1, "a"), event(2, "b")]);
    assert_eq!(app.log_events.len(), 2);
    assert_eq!(app.last_log_ts, Some(2));
    app.ingest_logs(&vec![event(1, "a"), event(2, "b"), event(3, "c")]);
    assert_eq!(app.log_events.len(), 3);
    assert_eq!(app.log_events.back().unwrap().message, "c");
    assert_eq!(app.last_log_ts, Some(3));
    app.ingest_logs(&Vec::new());
    assert_eq!(app.log_events.len(), 3);
}

#[test]
fn key_handling() {
    let mut app = App::new();
    assert_eq!(app.handle_key(KeyCode::Char('q'), false), KeyAction::Quit);
    assert_eq!(app.handle_key(KeyCode::Char('c'), true), KeyAction::Quit);
    assert_eq!(app.handle_key(KeyCode::Char('c'), false), KeyAction::Nothing);
    assert_eq!(app.handle_key(KeyCode::Char('S'), false), KeyAction::StartStrategy);
    assert_eq!(app.handle_key(KeyCode::Char('x'), false), KeyAction::StopStrategy);
    assert_eq!(app.handle_key(KeyCode::Char('d'), false), KeyAction::ToggleDaemon);
    assert_eq!(app.handle_key(KeyCode::Char('?'), false), KeyAction::Nothing);
    assert!(app.show_help);
    assert_eq!(app.handle_key(KeyCode::Down, false), KeyAction::Nothing);
    assert_eq!(app.log_scroll, 1);
    assert!(!app.tail_follow);
    app.handle_key(KeyCode::Up, false);
    app.handle_key(KeyCode::Up, false);
    assert_eq!(app.log_scroll, 0);
    app.handle_key(KeyCode::Char('f'), false);
    assert!(app.tail_follow);
    app.handle_key(KeyCode::Up, false);
    app.handle_key(KeyCode::End, false);
    assert!(app.tail_follow);
}

#[test]
fn pdt_levels_and_gains() {
    assert_eq!(pdt_level(0, 0), PdtLevel::Unset);
    assert_eq!(pdt_level(3, 3), PdtLevel::Spent);
    assert_eq!(pdt_level(2, 3), PdtLevel::Open);
    assert_eq!(pdt_level(67, 100), PdtLevel::Warning);
    assert_eq!(pdt_level(1, 3), PdtLevel::Open);
    assert!(is_gain(0));
    assert!(!is_gain(-1));
}

#[test]
fn web_queries() {
    assert_eq!(LogsQuery { limit: None }.effective_limit(), 200);
    assert_eq!(LogsQuery { limit: Some(50) }.effective_limit(), 50);
    assert_eq!(LogsQuery { limit: Some(5_000) }.effective_limit(), 500);
    assert_eq!(EquityQuery { period: None }.effective_period(), "1M");
    assert_eq!(EquityQuery { period: Some("1A".to_string()) }.effective_period(), "1A");
    assert!(ModeBody { mode: "paper".to_string() }.validate().is_ok());
    assert!(ModeBody { mode: "live".to_string() }.validate().is_ok());
    assert_eq!(
        ModeBody { mode: "LIVE".to_string() }.validate(),
        Err("mode must be 'paper' or 'live'".to_string())
    );
}

#[test]
fn status_and_level_labels() {
    assert_eq!(BotStatus::Idle.label(), "IDLE");
    assert_eq!(BotStatus::Running.label(), "RUNNING");
    assert_eq!(BotStatus::Stopping.label(), "STOPPING");
    for l in [LogLevel::Info, LogLevel::Signal, LogLevel::Order, LogLevel::Risk, LogLevel::Error, LogLevel::Warn] {
        assert_eq!(LogLevel::from_label(l.label()), l);
    }
    assert_eq!(LogLevel::from_label("bogus"), LogLevel::Info);
}

#[test]
fn log_events_are_stamped_now() {
    // 2024-01-01 in microseconds: the clock is read, not left at zero.
    let e = LogEvent::warn("careful");
    assert!(e.timestamp > 1_704_067_200_000_000);
    assert_eq!(e.level, LogLevel::Warn);
    assert_eq!(e.message, "careful");
    assert_eq!(LogEvent::info("i").level, LogLevel::Info);
    assert_eq!(LogEvent::signal("s").level, LogLevel::Signal);
    assert_eq!(LogEvent::order("o").level, LogLevel::Order);
    assert_eq!(LogEvent::risk("r").level, LogLevel::Risk);
    assert_eq!(LogEvent::error("e").level, LogLevel::Error);
    let d = e.duplicate();
    assert_eq!(d.timestamp, e.timestamp);
    assert_eq!(d.message, e.message);
}

#[test]
fn broker_positions_for_clients() {
    // 2 contracts, cost basis $410, price 2.30.
    let p = broker_position_at("QQQ260619C00400000", 20_000, 500_000, 1_219, 23_000, 4_100_000, None, 77);
    assert_eq!(p.entry_price, 20_500);
    assert_eq!(p.market_value, 4_600_000);
    assert_eq!(p.underlying, "QQQ260619C00400000");
    assert_eq!(p.direction, "call");
    assert_eq!(p.opened_at, 77);
    let meta = OpenPositionMeta::submitted("QQQ260619P00400000", "QQQ", "put", 5, 20_500, 2, "o".to_string());
    let q = broker_position_at("QQQ260619P00400000", -20_000, 0, 0, 23_000, -4_100_000, Some(&meta), 77);
    assert_eq!(q.underlying, "QQQ");
    assert_eq!(q.direction, "put");
    assert_eq!(q.opened_at, 5);
    assert_eq!(q.entry_price, 20_500);
    assert_eq!(q.market_value, -4_600_000);
    let z = broker_position_at("X", 0, 0, 0, 23_000, 4_100_000, None, 0);
    assert_eq!(z.entry_price, 0);
    assert_eq!(z.market_value, 0);
    assert!(broker_position("X", 0, 0, 0, 0, 0, None).opened_at > 1_704_067_200_000_000);
}

fn alpaca(mode: Mode, enabled: bool) -> AlpacaConfig {
    AlpacaConfig {
        mode,
        paper: AlpacaCredentials { key: "k".to_string(), secret: "s".to_string(), base_url: "u".to_string() },
        live: AlpacaLiveCredentials { key: "k".to_string(), secret: "s".to_string(), base_url: "u".to_string(), enabled },
    }
}

#[test]
fn live_mode_never_starts() {
    assert!(alpaca(Mode::Paper, false).check_live_gate().is_ok());
    assert!(matches!(alpaca(Mode::Live, false).check_live_gate(), Err(FerrumError::LiveTradingDisabled)));
    assert!(matches!(alpaca(Mode::Live, true).check_live_gate(), Err(FerrumError::LiveTradingDisabled)));
}
