use mm2_rtui::logger::{create_logger, LogLevel, Logger};

#[test]
fn levels_have_labels() {
    assert_eq!(LogLevel::Debug.as_str(), "DEBUG");
    assert_eq!(LogLevel::Info.as_str(), "INFO");
    assert_eq!(LogLevel::Warn.as_str(), "WARN");
    assert_eq!(LogLevel::Error.as_str(), "ERROR");
}

#[test]
fn logger_keeps_the_newest_entries() {
    let mut log = Logger::new(3);
    log.info("one".to_string());
    log.warn("two".to_string());
    assert_eq!(log.get_entries().len(), 2);
    log.error("three".to_string());
    log.debug("four".to_string());
    let entries = log.get_entries();
    assert_eq!(entries.len(), 3);
    let messages: Vec<&str> = entries.iter().map(|e| e.message.as_str()).collect();
    assert_eq!(messages, vec!["two", "three", "four"]);
    assert_eq!(entries[0].level, LogLevel::Warn);
    assert_eq!(entries[2].level, LogLevel::Debug);
    // local time stamps look like 2024-01-31 12:34:56
    assert_eq!(entries[2].timestamp.len(), 19);
    for (i, c) in entries[2].timestamp.chars().enumerate() {
        match i {
            4 | 7 => assert_eq!(c, '-'),
            10 => assert_eq!(c, ' '),
            13 | 16 => assert_eq!(c, ':'),
            _ => assert!(c.is_ascii_digit()),
        }
    }
}

#[test]
fn logger_of_capacity_zero_keeps_nothing() {
    let mut log = Logger::new(0);
    log.info("dropped".to_string());
    assert!(log.get_entries().is_empty());
}

#[test]
fn shared_logger_is_usable_from_a_lock() {
    let shared = create_logger(2);
    shared.write().unwrap().info("hello".to_string());
    assert_eq!(shared.read().unwrap().get_entries()[0].message, "hello");
}
