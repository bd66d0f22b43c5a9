use agent_office::tailer::TailerState;

#[test]
fn complete_lines_are_returned() {
    let mut t = TailerState::new();
    assert_eq!(t.start_offset(0), 0);
    let lines = t.record_read(8, "one\ntwo\n", 8);
    assert_eq!(lines, vec!["one".to_string(), "two".to_string()]);
    assert_eq!(t.offset(), 8);
    assert_eq!(t.partial(), "");
}

#[test]
fn reading_again_without_writes_is_idle() {
    let mut t = TailerState::new();
    t.record_read(4, "abc\n", 4);
    assert_eq!(t.start_offset(4), 4);
    let lines = t.record_read(4, "", 4);
    assert!(lines.is_empty());
    assert_eq!(t.offset(), 4);
    assert_eq!(t.partial(), "");
}

#[test]
fn fragment_is_carried_and_joined() {
    let mut t = TailerState::new();
    let lines = t.record_read(3, "abc", 3);
    assert!(lines.is_empty());
    assert_eq!(t.partial(), "abc");
    assert_eq!(t.offset(), 3);
    assert_eq!(t.start_offset(7), 3);
    let lines = t.record_read(7, "def\n", 7);
    assert_eq!(lines, vec!["abcdef".to_string()]);
    assert_eq!(t.partial(), "");
}

#[test]
fn truncation_restarts_and_drops_fragment() {
    let mut t = TailerState::new();
    t.record_read(10, "line\nxy", 10);
    assert_eq!(t.partial(), "xy");
    assert_eq!(t.start_offset(5), 0);
    let lines = t.record_read(5, "hello", 5);
    assert!(lines.is_empty());
    assert_eq!(t.partial(), "hello");
    let lines = t.record_read(6, "\n", 6);
    assert_eq!(lines, vec!["hello".to_string()]);
}

#[test]
fn carriage_returns_are_dropped() {
    let mut t = TailerState::new();
    let lines = t.record_read(9, "a\r\nb\r\r\n\n", 9);
    assert_eq!(lines, vec!["a".to_string(), "b".to_string(), String::new()]);
}

#[test]
fn empty_file_yields_nothing() {
    let mut t = TailerState::new();
    assert!(t.record_read(0, "", 0).is_empty());
    assert_eq!(t.offset(), 0);
}

#[test]
fn carried_carriage_return_is_kept() {
    let mut t = TailerState::new();
    assert!(t.record_read(2, "a\r", 2).is_empty());
    assert_eq!(t.partial(), "a\r");
    let lines = t.record_read(3, "\n", 3);
    assert_eq!(lines, vec!["a\r".to_string()]);
    let lines = t.record_read(7, "x\r\r\n", 7);
    assert_eq!(lines, vec!["x".to_string()]);
}

#[test]
fn truncation_reads_lines_from_start() {
    let mut t = TailerState::new();
    t.record_read(11, "0123456789\n0", 11);
    assert_eq!(t.partial(), "0");
    assert_eq!(t.start_offset(5), 0);
    let lines = t.record_read(5, "ab\ncd", 5);
    assert_eq!(lines, vec!["ab".to_string()]);
    assert_eq!(t.partial(), "cd");
    assert_eq!(t.offset(), 5);
}
