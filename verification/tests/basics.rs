use phira_monitor::args::{arg_flag, arg_value, build_conf, parse_bool_arg};
use phira_monitor::config::Config;
use phira_monitor::dir::{chart_path, chart_url, charts, downloaded_charts, info_path};
use phira_monitor::fps::FpsMeter;
use phira_monitor::labels::{chart_label, chat_line, score_label, status_label};
use phira_monitor::layout::{cells, grid, Cell};
use phira_monitor::scores::{Score, ScoreBoard};
use phira_monitor::text::{comes_before, decimal_text, same, signed_decimal_text, strip_prefix};
use phira_monitor::time::{add_time, exceeds, sub_time};

fn args(list: &[&str]) -> Vec<String> {
    list.iter().map(|s| s.to_string()).collect()
}

#[test]
fn times_add_up_and_saturate() {
    assert_eq!(add_time(1, 2), 3);
    assert_eq!(add_time(i64::MAX, 2), i64::MAX);
    assert_eq!(add_time(i64::MIN, -2), i64::MIN);
    assert_eq!(sub_time(5, 7), -2);
    assert_eq!(sub_time(i64::MIN, 2), i64::MIN);
    assert_eq!(sub_time(i64::MAX, -2), i64::MAX);
}

#[test]
fn exceeding_is_strict() {
    assert!(!exceeds(10, 7, 3));
    assert!(exceeds(11, 7, 3));
    assert!(!exceeds(i64::MAX, i64::MAX, 1));
}

#[test]
fn flags_are_found_anywhere() {
    let a = args(&["prog", "--replay", "--vsync=1"]);
    assert!(arg_flag(&a, "--replay"));
    assert!(!arg_flag(&a, "--vsync"));
    assert!(!arg_flag(&args(&[]), "--replay"));
}

#[test]
fn the_first_value_wins() {
    let a = args(&["prog", "--vsyncx=3", "--vsync=a=b", "--vsync=no"]);
    assert_eq!(arg_value(&a, "--vsync"), Some("a=b".to_string()));
    assert_eq!(arg_value(&a, "--other"), None);
    assert_eq!(arg_value(&args(&["--vsync="]), "--vsync"), Some(String::new()));
}

#[test]
fn truth_values_and_defaults() {
    for v in ["true", "1", "yes"] {
        assert!(parse_bool_arg(&args(&[&format!("--x={v}")]), "--x", false));
    }
    for v in ["false", "0", "no"] {
        assert!(!parse_bool_arg(&args(&[&format!("--x={v}")]), "--x", true));
    }
    assert!(parse_bool_arg(&args(&["--x=maybe"]), "--x", true));
    assert!(!parse_bool_arg(&args(&["--x=maybe"]), "--x", false));
    assert!(parse_bool_arg(&args(&["--x"]), "--x", true));
}

#[test]
fn window_follows_vsync() {
    let off = build_conf(&args(&["prog"]));
    assert_eq!(off.window_title, "prpr-monitor");
    assert_eq!((off.window_width, off.window_height), (1080, 608));
    assert_eq!(off.swap_interval, Some(0));
    let on = build_conf(&args(&["prog", "--vsync=yes"]));
    assert_eq!(on.swap_interval, Some(1));
}

#[test]
fn replay_uses_the_password_as_token() {
    let config = Config {
        server: "s".into(),
        email: "e".into(),
        password: "p".into(),
        room_id: "r".into(),
    };
    assert_eq!(config.initial_token(true), Some("p".to_string()));
    assert_eq!(config.initial_token(false), None);
    let copy = config.duplicate();
    assert_eq!((copy.server, copy.email, copy.password, copy.room_id),
        (config.server, config.email, config.password, config.room_id));
}

#[test]
fn paths_and_addresses() {
    assert_eq!(charts(), "data/charts");
    assert_eq!(downloaded_charts(), "data/charts/download");
    assert_eq!(chart_path(12), "download/12");
    assert_eq!(info_path(-7), "data/charts/download/-7/info.yml");
    assert_eq!(chart_url(3450), "https://phira.5wyxi.com/chart/3450");
}

#[test]
fn numbers_in_decimal() {
    for n in [0, 9, 10, 99, 100, 4_294_967_295] {
        assert_eq!(decimal_text(n), n.to_string());
    }
    for n in [0, -1, i32::MIN, i32::MAX, -10] {
        assert_eq!(signed_decimal_text(n), n.to_string());
    }
}

#[test]
fn prefixes_are_stripped() {
    assert_eq!(strip_prefix("全连 ok", "全连"), Some(" ok".to_string()));
    assert_eq!(strip_prefix("ab", "abc"), None);
    assert_eq!(strip_prefix("abc", ""), Some("abc".to_string()));
    assert_eq!(strip_prefix("abc", "b"), None);
    assert!(same("全", "全") && !same("a", "b"));
}

#[test]
fn texts_are_ordered_by_bytes() {
    let list = ["", "A", "Ab", "B", "a", "é", "全", "😀"];
    for a in list {
        for b in list {
            assert_eq!(comes_before(a, b), a < b, "{a:?} {b:?}");
        }
    }
}

#[test]
fn chat_shows_time_and_sender() {
    assert_eq!(chat_line(7, 5, 9, "Ann", "hi"), "[07:05:09] [Ann] hi");
    assert_eq!(chat_line(23, 59, 58, "", ""), "[23:59:58] [] ");
}

#[test]
fn labels_read_as_shown() {
    assert_eq!(chart_label(42, "Song"), "Song (#42)");
    assert_eq!(score_label(1_000_000, "99.12", true), "1000000 (99.12%) 全连");
    assert_eq!(score_label(0, "0.00", false), "0 (0.00%)");
    assert_eq!(status_label("Ann", true), "Ann: 就绪");
    assert_eq!(status_label("Ann", false), "Ann: 等待中…");
}

#[test]
fn frame_rate_is_reported_once_per_second() {
    let mut meter = FpsMeter::new();
    assert_eq!(meter.observe(0, 20_000_000), Some(50));
    assert_eq!(meter.observe(500_000_000, 516_000_000), None);
    assert_eq!(meter.observe(999_000_000, 1_002_000_000), Some(333));
    assert_eq!(meter.observe(2_000_000_000, 2_000_000_000), Some(u32::MAX));
    assert_eq!(meter.observe(5_000_000_000, 4_000_000_000), Some(0));
    assert_eq!(meter.observe(0, -1_500_000_000), Some(0));
    assert_eq!(meter.last_second, -1);
}

#[test]
fn grid_has_one_row_for_two() {
    assert_eq!(grid(0), (1, 0));
    assert_eq!(grid(1), (1, 1));
    assert_eq!(grid(2), (1, 2));
    assert_eq!(grid(3), (2, 2));
    assert_eq!(grid(4), (2, 2));
    assert_eq!(grid(5), (2, 3));
}

#[test]
fn every_player_has_one_place() {
    assert!(cells(0).is_empty());
    let five = cells(5);
    assert_eq!(five.len(), 5);
    assert_eq!(five[2], Cell { player: 2, row: 0, column: 2 });
    assert_eq!(five[3], Cell { player: 3, row: 1, column: 0 });
    assert_eq!(five[4], Cell { player: 4, row: 1, column: 1 });
    for n in 0..20 {
        let all = cells(n);
        let (rows, columns) = grid(n);
        for (i, a) in all.iter().enumerate() {
            assert_eq!(a.player, i);
            assert!(a.row < rows && a.column < columns);
            for b in &all[..i] {
                assert!((a.row, a.column) != (b.row, b.column));
            }
        }
    }
}

#[test]
fn a_new_result_replaces_the_old() {
    let mut board = ScoreBoard::new();
    let first = Score { score: 1, accuracy: 2, full_combo: false };
    let second = Score { score: 3, accuracy: 4, full_combo: true };
    board.insert("a".into(), first);
    board.insert("b".into(), first);
    board.insert("a".into(), second);
    assert_eq!(board.entries.len(), 2);
    assert_eq!(board.entries[0].user, "a");
    assert_eq!(board.entries[0].score, second);
    assert_eq!(board.entries[1].score, first);
    let copy = board.duplicate();
    assert_eq!(copy, board);
    assert_eq!(copy.entries[0].line("4.00"), "3 (4.00%) 全连");
    board.clear();
    assert!(board.entries.is_empty());
    assert_eq!(copy.entries.len(), 2);
}
