//! Bounded output logs and their cursors.

use running_process::output_log::{CursorRead, OutputLog, SharedOutputLog};
use running_process::StreamKind;

#[test]
fn bounded_retention_reports_gaps_to_lagging_cursors() {
    let mut log = OutputLog::new(4);
    let mut cursor = log.cursor();
    assert_eq!(log.append(StreamKind::Stdout, b"aa"), 0);
    assert!(matches!(cursor.read_next(&log), CursorRead::Record(record) if record.sequence == 0));
    log.append(StreamKind::Stderr, b"bb");
    log.append(StreamKind::Stdout, b"cc");
    log.append(StreamKind::Stderr, b"dd");
    assert_eq!(cursor.read_next(&log), CursorRead::Gap { from: 1, to: 1 });
    assert!(matches!(cursor.read_next(&log), CursorRead::Record(record) if record.sequence == 2));
}

#[test]
fn cursors_are_independent_and_oversized_records_are_explicitly_lost() {
    let mut log = OutputLog::new(3);
    log.append(StreamKind::Stdout, b"1234");
    let mut first = log.cursor_from(0);
    let mut second = log.cursor_from(0);
    log.append(StreamKind::Stderr, b"ok");
    assert!(matches!(
        first.read_next(&log),
        CursorRead::Gap { from: 0, to: 0 }
    ));
    assert!(matches!(
        second.read_next(&log),
        CursorRead::Gap { from: 0, to: 0 }
    ));
    assert!(matches!(first.read_next(&log), CursorRead::Record(record) if record.bytes == b"ok"));
    assert!(matches!(second.read_next(&log), CursorRead::Record(record) if record.bytes == b"ok"));
    assert_eq!(log.retained_bytes(), 2);
}

#[test]
fn shared_log_keeps_cursor_positions_independent() {
    let mut log = SharedOutputLog::new(8);
    let mut first = log.cursor();
    let mut second = log.cursor();
    log.append(StreamKind::Stdout, b"one");
    assert!(matches!(first.read_next(&log), CursorRead::Record(_)));
    assert!(matches!(second.read_next(&log), CursorRead::Record(_)));
    assert_eq!(first.position(), second.position());
    assert_eq!(log.retained_bytes(), 3);
}

#[test]
fn a_cursor_that_has_read_everything_sees_the_end() {
    let mut log = OutputLog::new(10);
    assert!(log.is_empty());
    log.append(StreamKind::Stdout, b"a");
    log.append(StreamKind::Stderr, b"bc");
    let mut cursor = log.cursor_from(0);
    let CursorRead::Record(first) = cursor.read_next(&log) else {
        panic!("record")
    };
    assert_eq!((first.sequence, first.stream), (0, StreamKind::Stdout));
    let CursorRead::Record(second) = cursor.read_next(&log) else {
        panic!("record")
    };
    assert_eq!((second.sequence, second.stream), (1, StreamKind::Stderr));
    assert_eq!(cursor.read_next(&log), CursorRead::Eof);
    assert_eq!(cursor.position(), 2);
    assert_eq!((log.first_sequence(), log.next_sequence(), log.len()), (0, 2, 2));
}
