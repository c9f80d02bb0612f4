use dockless::log_buffer::{LogBuffer, LogEntry};

fn entry(i: usize) -> LogEntry {
    LogEntry { timestamp: "2024-01-01T00:00:00+00:00".to_string(), level: "info".to_string(), message: format!("line {}", i) }
}

#[test]
fn recent_holds_everything_below_bound() {
    let mut b = LogBuffer::new("svc/logs/service.log".to_string());
    for i in 0..10 {
        b.push_entry(entry(i));
    }
    let r = b.get_recent();
    assert_eq!(r.len(), 10);
    for (i, e) in r.iter().enumerate() {
        assert_eq!(e.message, format!("line {}", i));
    }
}

#[test]
fn recent_keeps_last_hundred_in_order() {
    let mut b = LogBuffer::new("svc/logs/service.log".to_string());
    for i in 0..250 {
        b.push_entry(entry(i));
    }
    let r = b.get_recent();
    assert_eq!(r.len(), 100);
    for (k, e) in r.iter().enumerate() {
        assert_eq!(e.message, format!("line {}", 150 + k));
    }
}

#[test]
fn recent_with_exactly_hundred() {
    let mut b = LogBuffer::new("p".to_string());
    for i in 0..100 {
        b.push_entry(entry(i));
    }
    assert_eq!(b.get_recent().len(), 100);
    b.push_entry(entry(100));
    let r = b.get_recent();
    assert_eq!(r.len(), 100);
    assert_eq!(r[0].message, "line 1");
    assert_eq!(r[99].message, "line 100");
}

#[test]
fn push_stamps_entry_with_time() {
    let mut b = LogBuffer::new("p".to_string());
    let e = b.push("error".to_string(), "boom".to_string());
    assert_eq!(e.level, "error");
    assert_eq!(e.message, "boom");
    assert!(e.timestamp.len() >= 25);
    assert!(e.timestamp.ends_with("+00:00"));
    assert_eq!(&e.timestamp[10..11], "T");
    assert_eq!(&e.timestamp[13..14], ":");
    let r = b.get_recent();
    assert_eq!(r.len(), 1);
    assert_eq!(r[0].timestamp, e.timestamp);
}

#[test]
fn clear_empties_ring() {
    let mut b = LogBuffer::new("svc/logs/service.log".to_string());
    b.push_entry(entry(1));
    b.clear();
    assert!(b.get_recent().is_empty());
    assert_eq!(b.log_file_path(), "svc/logs/service.log");
}

#[test]
fn duplicate_copies_fields() {
    let e = entry(7);
    let d = e.duplicate();
    assert_eq!(d.message, "line 7");
    assert_eq!(d.level, e.level);
    assert_eq!(d.timestamp, e.timestamp);
}
