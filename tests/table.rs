use system_monitor::table::{
    compute_display_rows, display_order, disk_cell, format_row, matches_query, memory_cell,
    memory_usage, percent_cell, DisplayRow, ProcessRecord, Snapshot, SystemTotals,
};
use system_monitor::text::{decimal_text, text_contains, text_less};
use system_monitor::view::{Application, NavItem};

fn record(pid: u64, name: &str, cpu_tenths: u64, memory: u64, disk: u64) -> ProcessRecord {
    ProcessRecord {
        pid,
        name: name.to_string(),
        cpu_usage_tenths: cpu_tenths,
        memory_bytes: memory,
        disk_write_bytes_per_sec: disk,
    }
}

fn totals() -> SystemTotals {
    SystemTotals {
        global_cpu_usage_tenths: 123,
        used_memory_bytes: 1,
        total_memory_bytes: 3,
    }
}

fn two_processes() -> Snapshot {
    Snapshot {
        processes: vec![
            record(10, "bash", 12, 5_000_000, 0),
            record(20, "Chrome", 450, 800_000_000, 1200),
        ],
        totals: totals(),
    }
}

fn names(rows: &[DisplayRow]) -> Vec<String> {
    rows.iter().map(|r| r.name.clone()).collect()
}

#[test]
fn query_ch_keeps_only_chrome() {
    let rows = compute_display_rows(&two_processes(), "ch");
    assert_eq!(rows.len(), 1);
    assert_eq!(rows[0].name, "Chrome");
    assert_eq!(rows[0].pid, "20");
    assert_eq!(rows[0].cpu, "45.0%");
    assert_eq!(rows[0].memory, "800.0 MB");
    assert_eq!(rows[0].disk, "1200/s");
}

#[test]
fn query_without_match_gives_no_rows() {
    let rows = compute_display_rows(&two_processes(), "99");
    assert!(rows.is_empty());
}

#[test]
fn equal_lowercase_names_stay_adjacent_in_snapshot_order() {
    let snapshot = Snapshot {
        processes: vec![
            record(7, "zsh", 0, 0, 0),
            record(1, "init", 0, 0, 0),
            record(3, "bash", 0, 0, 0),
            record(2, "Init", 0, 0, 0),
        ],
        totals: totals(),
    };
    let rows = compute_display_rows(&snapshot, "init");
    assert_eq!(names(&rows), vec!["init", "Init"]);
    assert_eq!(rows[0].pid, "1");
    assert_eq!(rows[1].pid, "2");
    let all = compute_display_rows(&snapshot, "");
    assert_eq!(names(&all), vec!["bash", "init", "Init", "zsh"]);
}

#[test]
fn stable_order_follows_snapshot_when_names_fold_equal() {
    let snapshot = Snapshot {
        processes: vec![
            record(5, "INIT", 0, 0, 0),
            record(4, "init", 0, 0, 0),
            record(9, "Init", 0, 0, 0),
        ],
        totals: totals(),
    };
    assert_eq!(display_order(&snapshot.processes, "INI"), vec![0, 1, 2]);
}

#[test]
fn empty_query_keeps_every_record_sorted_by_lowercase_name() {
    let rows = compute_display_rows(&two_processes(), "");
    assert_eq!(names(&rows), vec!["bash", "Chrome"]);
}

#[test]
fn empty_snapshot_gives_no_rows() {
    let snapshot = Snapshot { processes: vec![], totals: totals() };
    assert!(compute_display_rows(&snapshot, "").is_empty());
}

#[test]
fn pid_text_matches_query() {
    let rows = compute_display_rows(&two_processes(), "1");
    assert_eq!(names(&rows), vec!["bash"]);
    let rows = compute_display_rows(&two_processes(), "0");
    assert_eq!(names(&rows), vec!["bash", "Chrome"]);
}

#[test]
fn uppercase_query_matches_lowercase_name() {
    let rows = compute_display_rows(&two_processes(), "BASH");
    assert_eq!(names(&rows), vec!["bash"]);
}

#[test]
fn matches_query_uses_folded_arguments() {
    assert!(matches_query("20", "chrome", "CH", "ch"));
    assert!(!matches_query("20", "chrome", "CH", "CH"));
    assert!(matches_query("20", "chrome", "2", "2"));
    assert!(!matches_query("20", "chrome", "99", "99"));
}

#[test]
fn cells_have_one_decimal_and_units() {
    assert_eq!(percent_cell(12), "1.2%");
    assert_eq!(percent_cell(0), "0.0%");
    assert_eq!(percent_cell(1005), "100.5%");
    assert_eq!(disk_cell(0), "0/s");
    assert_eq!(disk_cell(1200), "1200/s");
}

#[test]
fn memory_is_truncated_to_whole_megabytes() {
    assert_eq!(memory_cell(5_000_000), "5.0 MB");
    assert_eq!(memory_cell(1_999_999), "1.0 MB");
    assert_eq!(memory_cell(999_999), "0.0 MB");
    assert_eq!(memory_cell(u64::MAX), "18446744073709.0 MB");
}

#[test]
fn formatting_twice_gives_identical_text() {
    let p = record(20, "Chrome", 450, 800_000_000, 1200);
    let a = format_row(&p);
    let b = format_row(&p);
    assert_eq!(a.name, b.name);
    assert_eq!(a.pid, b.pid);
    assert_eq!(a.cpu, b.cpu);
    assert_eq!(a.memory, b.memory);
    assert_eq!(a.disk, b.disk);
    assert_eq!(a.cpu, "45.0%");
}

#[test]
fn memory_usage_is_rounded_tenths_of_a_percent() {
    assert_eq!(memory_usage(&totals()), 333);
    let half = SystemTotals { global_cpu_usage_tenths: 0, used_memory_bytes: 1, total_memory_bytes: 2 };
    assert_eq!(memory_usage(&half), 500);
    let two_thirds = SystemTotals { global_cpu_usage_tenths: 0, used_memory_bytes: 2, total_memory_bytes: 3 };
    assert_eq!(memory_usage(&two_thirds), 667);
    let none = SystemTotals { global_cpu_usage_tenths: 0, used_memory_bytes: 5, total_memory_bytes: 0 };
    assert_eq!(memory_usage(&none), 0);
}

#[test]
fn decimal_text_of_numbers() {
    assert_eq!(decimal_text(0), "0");
    assert_eq!(decimal_text(7), "7");
    assert_eq!(decimal_text(10), "10");
    assert_eq!(decimal_text(1234567890), "1234567890");
    assert_eq!(decimal_text(u128::MAX), "340282366920938463463374607431768211455");
}

#[test]
fn substring_search() {
    assert!(text_contains("chrome", "ch"));
    assert!(text_contains("chrome", "ome"));
    assert!(text_contains("chrome", ""));
    assert!(text_contains("", ""));
    assert!(!text_contains("ch", "chrome"));
    assert!(!text_contains("chrome", "cm"));
    assert!(text_contains("grüße", "üß"));
}

#[test]
fn text_order_by_code_point() {
    assert!(text_less("bash", "chrome"));
    assert!(!text_less("chrome", "bash"));
    assert!(text_less("init", "initd"));
    assert!(!text_less("init", "init"));
    assert!(text_less("Z", "a"));
}

#[test]
fn processes_view_holds_totals_and_rows() {
    let mut app = Application::new();
    assert_eq!(app.current_nav_item(), NavItem::Processes);
    app.replace_snapshot(two_processes());
    app.search = "ch".to_string();
    let view = app.processes_view();
    assert_eq!(view.cpu_total, "12.3%");
    assert_eq!(view.memory_total, "33.3%");
    assert_eq!(names(&view.rows), vec!["Chrome"]);
}

#[test]
fn navigation_lists_processes() {
    assert_eq!(NavItem::all(), vec![NavItem::Processes]);
    assert_eq!(NavItem::Processes.label(), "Processes");
    let mut app = Application::default();
    app.select(NavItem::Processes);
    assert_eq!(app.current_nav_item, NavItem::Processes);
    assert!(app.search.is_empty());
}
