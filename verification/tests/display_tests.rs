use std::time::{Duration, Instant};
use tmonitor::cells::{CellKey, CellTable};
use tmonitor::check::{CheckResult, IoError, IoErrorKind};
use tmonitor::display::{
    compute_layout, draw_line, format_duration, format_secs, format_uptime, run_display, top_bar,
    truncated_hostname, App, Area, CellSnapshot, DisplayError, KeyPress, COLOR_DIM, COLOR_DOWN,
    COLOR_TEXT, COLOR_UP,
};
use tmonitor::engine::HostState;
use tmonitor::text::first_word;

#[test]
fn test_format_duration_zero() {
    assert_eq!(format_duration(Duration::from_secs(0)), "0d 0h 0m");
}

#[test]
fn test_format_duration_seconds() {
    assert_eq!(format_duration(Duration::from_secs(3661)), "0d 1h 1m");
}

#[test]
fn test_format_duration_days() {
    assert_eq!(format_duration(Duration::from_secs(90061)), "1d 1h 1m");
}

#[test]
fn test_format_duration_exact_hours() {
    assert_eq!(format_duration(Duration::from_secs(7200)), "0d 2h 0m");
}

#[test]
fn parts_of_a_second_are_cut_off() {
    assert_eq!(format_duration(Duration::from_millis(59_999)), "0d 0h 0m");
    assert_eq!(format_secs(12 * 86400 + 3 * 3600 + 5 * 60 + 59), "12d 3h 5m");
    assert_eq!(format_secs(u64::MAX), "213503982334601d 7h 0m");
}

#[test]
fn test_compute_layout_normal() {
    let (cols, rows, width) = compute_layout((120, 40), 40);
    assert_eq!(cols, 3);
    assert_eq!(rows, 19);
    assert_eq!(width, 40);
}

#[test]
fn test_compute_layout_single_row() {
    let (cols, rows, width) = compute_layout((80, 24), 5);
    assert_eq!(cols, 1);
    assert_eq!(rows, 11);
    assert_eq!(width, 80);
}

#[test]
fn test_compute_layout_zero_hosts() {
    let (cols, _rows, width) = compute_layout((80, 24), 0);
    assert_eq!(cols, 1);
    assert_eq!(width, 80);
}

#[test]
fn test_compute_layout_tiny_terminal() {
    let (cols, _rows, width) = compute_layout((80, 1), 5);
    assert_eq!(cols, 1);
    assert_eq!(width, 80);
}

#[test]
fn narrow_terminal_shows_fewer_columns() {
    assert_eq!(compute_layout((80, 24), 40), (4, 11, 20));
    assert_eq!(compute_layout((200, 24), 40), (5, 11, 40));
    assert_eq!(compute_layout((80, 24), 5), (1, 11, 80));
    assert_eq!(compute_layout((81, 24), 5), (2, 11, 40));
    assert_eq!(compute_layout((200, 24), 5), (5, 11, 40));
    assert_eq!(compute_layout((200, 24), 3), (3, 11, 66));
    assert_eq!(compute_layout((200, 24), 1), (1, 11, 200));
    assert_eq!(compute_layout((200, 24), 100), (10, 11, 20));
}

#[test]
fn layout_has_room_for_all_and_grows_with_the_width() {
    for height in 4..60u16 {
        for count in 1..200usize {
            let mut last = 0;
            for width in (0..400u16).step_by(7) {
                let (cols, rows, cell_width) = compute_layout((width, height), count);
                assert!(cols * rows >= count);
                assert!(cols <= count);
                assert!(cols * cell_width <= width as usize);
                assert!((cols - 1) * rows < count || cell_width >= 40);
                assert!(cols >= last);
                last = cols;
            }
        }
    }
}

#[test]
fn columns_hold_as_many_cells_as_others() {
    let (app, snapshot) = app_of(13);
    let screen = app.render(Area { x: 0, y: 0, width: 200, height: 24 }, &snapshot, "");
    let held: Vec<usize> = (0..5u16)
        .map(|column| screen.cells.iter().filter(|c| c.area.x == column * 40).count())
        .collect();
    assert_eq!(held, vec![3, 3, 3, 2, 2]);
}

fn parse_uptime(content: &str) -> String {
    let uptime_secs =
        first_word(content).and_then(|s| s.parse::<f64>().ok()).unwrap_or(0.0) as u64;
    format_uptime(uptime_secs)
}

#[test]
fn test_read_pi_uptime_linux_format() {
    let input = "123456.78 98765.43";
    let result = parse_uptime(input);
    assert_eq!(result, "up 1d 10h 17m");
}

#[test]
fn test_read_pi_uptime_zero() {
    let input = "0.0 0.0";
    let result = parse_uptime(input);
    assert_eq!(result, "up 0d 0h 0m");
}

#[test]
fn test_read_pi_uptime_exact_day() {
    let input = "86400.0 0.0";
    let result = parse_uptime(input);
    assert_eq!(result, "up 1d 0h 0m");
}

#[test]
fn test_truncated_hostname_short() {
    assert_eq!(truncated_hostname("hello", 10), "hello");
}

#[test]
fn test_truncated_hostname_exact() {
    assert_eq!(truncated_hostname("1234567890", 10), "1234567890");
}

#[test]
fn test_truncated_hostname_long() {
    let result = truncated_hostname("this-is-a-long-hostname", 10);
    assert_eq!(result.chars().count(), 10);
    assert!(result.ends_with('…'));
    assert_eq!(result, "this-is-a…");
    assert_eq!(truncated_hostname("ab", 0), "…");
    assert_eq!(truncated_hostname("ab", 1), "…");
}

#[test]
fn top_bar_fills_the_width() {
    let bar = top_bar(40, "up 1d 10h 17m");
    assert_eq!(bar, format!("tmonitor{}up 1d 10h 17m", " ".repeat(17)));
    assert_eq!(bar.len(), 38);
    assert_eq!(top_bar(5, "up 0d 0h 0m"), "tmonitorup 0d 0h 0m");
}

fn snap(status: CheckResult, secs: u64) -> CellSnapshot {
    CellSnapshot { status, duration: Duration::from_secs(secs) }
}

#[test]
fn line_says_what_there_is_room_for() {
    let up = snap(CheckResult::Up, 83_640);
    let wide = draw_line("router", &up, 22);
    assert_eq!(wide.len(), 2);
    assert_eq!(format!("{}{}", wide[0].text, wide[1].text), "router  Up  0d 23h 14m");
    assert_eq!((wide[0].color, wide[1].color), (COLOR_UP, COLOR_TEXT));
    let down = snap(CheckResult::Down, 720);
    let middle = draw_line("router", &down, 21);
    assert_eq!(middle.len(), 1);
    assert_eq!((middle[0].text.as_str(), middle[0].color), ("router  Down", COLOR_DOWN));
    let narrow = draw_line("a-rather-long-label", &down, 14);
    assert_eq!((narrow[0].text.as_str(), narrow[0].color), ("a-rather-long…", COLOR_DOWN));
}

fn app_of(count: usize) -> (App, Vec<CellSnapshot>) {
    let keys = (0..count).map(|i| CellKey::Host(format!("h{}", i))).collect();
    let snapshot = (0..count).map(|_| snap(CheckResult::Up, 60)).collect();
    (App::new(keys), snapshot)
}

#[test]
fn cells_fill_rows_from_left_to_right() {
    let (app, snapshot) = app_of(5);
    let area = Area { x: 0, y: 0, width: 90, height: 6 };
    let screen = app.render(area, &snapshot, "up 0d 0h 0m");
    assert_eq!(screen.bar_area, Area { x: 0, y: 0, width: 90, height: 1 });
    assert_eq!(screen.bar.color, COLOR_DIM);
    let places: Vec<(u16, u16, u16, u16)> = screen
        .cells
        .iter()
        .map(|c| (c.area.x, c.area.y, c.area.width, c.area.height))
        .collect();
    assert_eq!(
        places,
        vec![(0, 2, 30, 1), (30, 2, 30, 1), (60, 2, 30, 1), (0, 4, 30, 1), (30, 4, 30, 1)]
    );
    assert_eq!(screen.cells[3].spans[0].text, "h3  Up");
}

#[test]
fn every_cell_is_in_sight_and_none_overlap() {
    for height in 4..30u16 {
        for count in [1usize, 2, 7, 23, 60] {
            let (app, snapshot) = app_of(count);
            let area = Area { x: 3, y: 5, width: 77, height };
            let screen = app.render(area, &snapshot, "");
            assert_eq!(screen.cells.len(), count);
            for (i, cell) in screen.cells.iter().enumerate() {
                assert!(cell.area.x >= 3 && cell.area.x + cell.area.width <= 80);
                assert!(cell.area.y >= 7 && cell.area.y < 5 + height);
                for other in &screen.cells[..i] {
                    assert!(
                        other.area.y < cell.area.y
                            || (other.area.y == cell.area.y
                                && other.area.x + other.area.width <= cell.area.x)
                    );
                }
            }
        }
    }
}

#[test]
fn bar_stands_on_top_at_every_height() {
    let (app, snapshot) = app_of(1);
    for height in 2..2000u16 {
        for (x, y) in [(0u16, 0u16), (7, 11)] {
            let area = Area { x, y, width: 40, height };
            let screen = app.render(area, &snapshot, "");
            assert_eq!(screen.bar_area, Area { x, y, width: 40, height: 1 });
            assert_eq!(screen.cells[0].area, Area { x, y: y + 2, width: 40, height: 1 });
        }
    }
}

#[test]
fn tiny_terminal_shows_the_first_cell() {
    let (app, snapshot) = app_of(3);
    for height in 0..4u16 {
        let screen = app.render(Area { x: 0, y: 0, width: 30, height }, &snapshot, "");
        assert_eq!(screen.cells.len(), 1);
        assert_eq!(screen.cells[0].area.width, 30);
    }
}

#[test]
fn nothing_is_drawn_without_a_snapshot() {
    let (app, _) = app_of(3);
    let screen = app.render(Area { x: 0, y: 0, width: 30, height: 10 }, &Vec::new(), "");
    assert!(screen.cells.is_empty());
    let (none, snapshot) = app_of(0);
    let screen = none.render(Area { x: 0, y: 0, width: 30, height: 10 }, &snapshot, "");
    assert!(screen.cells.is_empty());
}

#[test]
fn snapshot_tells_status_and_time() {
    let now = Instant::now();
    let mut state = CellTable::new();
    let (a, b, c) = (
        CellKey::Host("a".to_string()),
        CellKey::Host("b".to_string()),
        CellKey::Host("c".to_string()),
    );
    let earlier = now - Duration::from_secs(90);
    let up = HostState { status: CheckResult::Up, up_since: Some(earlier), down_since: None };
    let down = HostState { status: CheckResult::Down, up_since: None, down_since: Some(now) };
    state.insert(a.clone(), up);
    state.insert(b.clone(), down);
    let app = App::new(vec![b, a, c]);
    let snapshot = app.snapshot(&state, now);
    let seen: Vec<(CheckResult, u64)> =
        snapshot.iter().map(|s| (s.status, s.duration.as_secs())).collect();
    assert_eq!(
        seen,
        vec![(CheckResult::Down, 0), (CheckResult::Up, 90), (CheckResult::Up, 0)]
    );
}

#[test]
fn shown_counter_counts_up() {
    let start = Instant::now();
    let key = CellKey::Host("a".to_string());
    let mut state = CellTable::new();
    state.insert(
        key.clone(),
        HostState { status: CheckResult::Down, up_since: None, down_since: Some(start) },
    );
    let app = App::new(vec![key]);
    let shown: Vec<String> = [0u64, 59, 60, 3600, 90061]
        .iter()
        .map(|secs| app.snapshot(&state, start + Duration::from_secs(*secs)))
        .map(|snapshot| format_duration(snapshot[0].duration))
        .collect();
    assert_eq!(shown, vec!["0d 0h 0m", "0d 0h 0m", "0d 0h 1m", "0d 1h 0m", "1d 1h 1m"]);
}

#[test]
fn control_c_or_a_signal_ends_the_display() {
    let press = |c: char, control: bool| Some(KeyPress { character: Some(c), control });
    assert!(run_display(press('c', true), false));
    assert!(!run_display(press('c', false), false));
    assert!(!run_display(press('x', true), false));
    assert!(!run_display(Some(KeyPress { character: None, control: true }), false));
    assert!(!run_display(None, false));
    assert!(run_display(None, true));
    assert!(run_display(press('x', false), true));
}

#[test]
fn message_of_a_terminal_error() {
    let error = IoError { kind: IoErrorKind::Other, message: "gone".to_string() };
    assert_eq!(DisplayError::Io(error).message(), "terminal I/O error: gone");
}
