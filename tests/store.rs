use timer_repl::report::Report;
use timer_repl::store::TimerStore;

const MS: u64 = 1_000_000;
const SEC: u64 = 1_000_000_000;

fn names(ws: &[&str]) -> Vec<String> {
    ws.iter().map(|w| w.to_string()).collect()
}

#[test]
fn create_then_show_reports_running() {
    let mut store = TimerStore::new();
    let t0 = 42 * SEC;
    assert!(store.create(&names(&["a"]), t0).is_empty());
    let reports = store.show(&names(&["a"]), t0 + 5 * MS);
    assert_eq!(reports.len(), 1);
    match &reports[0] {
        Report::Status { name, running, elapsed } => {
            assert_eq!(name, "a");
            assert!(*running);
            assert!(*elapsed < SEC);
            assert_eq!(*elapsed, 5 * MS);
        }
        other => panic!("unexpected report {:?}", other),
    }
    assert_eq!(reports[0].text(), "(RUNNING) a: 00:00:00.005");
    assert_eq!(reports[0].status(), Some(true));
}

#[test]
fn create_twice_keeps_one_timer() {
    let mut store = TimerStore::new();
    assert!(store.create(&names(&["a"]), 10).is_empty());
    let reports = store.create(&names(&["a"]), 20);
    assert_eq!(reports, vec![Report::AlreadyCreated { name: "a".to_string() }]);
    assert_eq!(reports[0].text(), "timer a is already created");
    assert_eq!(store.len(), 1);
    assert_eq!(store.get(0).name, "a");
    assert_eq!(store.get(0).start, 10);
}

#[test]
fn create_batch_goes_on_after_a_taken_name() {
    let mut store = TimerStore::new();
    let reports = store.create(&names(&["a", "b", "a", "c"]), 7);
    assert_eq!(reports, vec![Report::AlreadyCreated { name: "a".to_string() }]);
    assert_eq!(store.len(), 3);
    assert_eq!(store.get(0).name, "a");
    assert_eq!(store.get(1).name, "b");
    assert_eq!(store.get(2).name, "c");
}

#[test]
fn stop_missing_timer_reports_not_found() {
    let mut store = TimerStore::new();
    store.create(&names(&["a"]), 0);
    let reports = store.stop(&names(&["z"]), 3 * SEC);
    assert_eq!(reports, vec![Report::NotFound { name: "z".to_string() }]);
    assert_eq!(reports[0].text(), "Timer z not found");
    assert_eq!(store.len(), 1);
    assert_eq!(store.get(0).stop, None);
    assert!(store.get(0).is_running());
}

#[test]
fn stop_twice_keeps_first_stop() {
    let mut store = TimerStore::new();
    store.create(&names(&["a"]), SEC);
    let first = store.stop(&names(&["a"]), 3 * SEC + 250 * MS);
    assert_eq!(
        first,
        vec![Report::Status { name: "a".to_string(), running: false, elapsed: 2 * SEC + 250 * MS }]
    );
    assert_eq!(first[0].text(), "(STOPPED) a: 00:00:02.250");
    assert_eq!(first[0].status(), Some(false));
    let second = store.stop(&names(&["a"]), 9 * SEC);
    assert_eq!(second, vec![Report::AlreadyStopped { name: "a".to_string() }]);
    assert_eq!(second[0].text(), "a is already stopped");
    assert_eq!(store.get(0).stop, Some(3 * SEC + 250 * MS));
    assert_eq!(store.get(0).elapsed(100 * SEC), 2 * SEC + 250 * MS);
}

#[test]
fn show_wildcard_lists_every_timer_in_order() {
    let mut store = TimerStore::new();
    store.create(&names(&["x"]), 0);
    store.create(&names(&["y"]), SEC);
    store.create(&names(&["z"]), 2 * SEC);
    let reports = store.show(&names(&["*"]), 3 * SEC);
    let lines: Vec<String> = reports.iter().map(|r| r.text()).collect();
    assert_eq!(
        lines,
        vec![
            "(RUNNING) x: 00:00:03.000".to_string(),
            "(RUNNING) y: 00:00:02.000".to_string(),
            "(RUNNING) z: 00:00:01.000".to_string(),
        ]
    );
}

#[test]
fn show_without_names_lists_every_timer() {
    let mut store = TimerStore::new();
    store.create(&names(&["p", "q"]), 0);
    store.stop(&names(&["q"]), SEC);
    let reports = store.show(&Vec::new(), 5 * SEC);
    assert_eq!(
        reports,
        vec![
            Report::Status { name: "p".to_string(), running: true, elapsed: 5 * SEC },
            Report::Status { name: "q".to_string(), running: false, elapsed: SEC },
        ]
    );
}

#[test]
fn show_named_reports_each_name() {
    let mut store = TimerStore::new();
    store.create(&names(&["a"]), 0);
    let reports = store.show(&names(&["b", "a"]), MS);
    assert_eq!(
        reports,
        vec![
            Report::NotFound { name: "b".to_string() },
            Report::Status { name: "a".to_string(), running: true, elapsed: MS },
        ]
    );
}

#[test]
fn new_without_names_changes_nothing() {
    let mut store = TimerStore::new();
    store.create(&names(&["a"]), 0);
    let reports = store.create(&Vec::new(), SEC);
    assert_eq!(reports, vec![Report::NoNameGiven]);
    assert_eq!(reports[0].text(), "No name given");
    assert_eq!(store.len(), 1);
}

#[test]
fn stop_without_names_changes_nothing() {
    let mut store = TimerStore::new();
    store.create(&names(&["a"]), 0);
    let reports = store.stop(&Vec::new(), SEC);
    assert_eq!(reports, vec![Report::NoNameGiven]);
    assert_eq!(store.get(0).stop, None);
}

#[test]
fn stop_wildcard_stops_every_timer_in_order() {
    let mut store = TimerStore::new();
    store.create(&names(&["a", "b", "c"]), 0);
    store.stop(&names(&["b"]), SEC);
    let reports = store.stop(&names(&["*"]), 2 * SEC);
    assert_eq!(
        reports,
        vec![
            Report::Status { name: "a".to_string(), running: false, elapsed: 2 * SEC },
            Report::AlreadyStopped { name: "b".to_string() },
            Report::Status { name: "c".to_string(), running: false, elapsed: 2 * SEC },
        ]
    );
    assert_eq!(store.get(1).stop, Some(SEC));
}

#[test]
fn stop_same_name_twice_in_one_command() {
    let mut store = TimerStore::new();
    store.create(&names(&["a"]), 0);
    let reports = store.stop(&names(&["a", "a"]), SEC);
    assert_eq!(
        reports,
        vec![
            Report::Status { name: "a".to_string(), running: false, elapsed: SEC },
            Report::AlreadyStopped { name: "a".to_string() },
        ]
    );
}

#[test]
fn clock_before_start_counts_zero() {
    let mut store = TimerStore::new();
    store.create(&names(&["a"]), 10 * SEC);
    let reports = store.show(&names(&["a"]), 4 * SEC);
    assert_eq!(reports, vec![Report::Status { name: "a".to_string(), running: true, elapsed: 0 }]);
}

#[test]
fn find_and_position() {
    let mut store = TimerStore::new();
    store.create(&names(&["a", "b"]), 3);
    assert_eq!(store.position(&"b".to_string()), Some(1));
    assert_eq!(store.position(&"c".to_string()), None);
    assert_eq!(store.find(&"a".to_string()).map(|t| t.start), Some(3));
    assert!(store.find(&"c".to_string()).is_none());
}
