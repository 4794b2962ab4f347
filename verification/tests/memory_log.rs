use togo_vr::log::memory::MemoryLog;
use togo_vr::log::{Log, LogError};

#[test]
pub fn get_retrieves_correct_element() {
    let mut log = MemoryLog::new();

    log.push(347).unwrap();
    log.push(11).unwrap();
    log.push(45).unwrap();
    log.push(125).unwrap();

    assert_eq!(log.get(0).unwrap(), &347);
    assert_eq!(log.get(2).unwrap(), &45);
    assert_eq!(log.get(log.current_size_with_offset() - 1).unwrap(), &125);

    log.trim_front(2).unwrap();

    assert_eq!(log.get(log.current_size_with_offset() - 1).unwrap(), &125);

    log.push(2233).unwrap();
    log.push(111).unwrap();

    assert_eq!(log.get(4).unwrap(), &2233);
    assert_eq!(log.get(log.current_size_with_offset() - 1).unwrap(), &111);

    log.trim_end(4).unwrap();

    assert_eq!(log.get(log.current_size_with_offset() - 1).unwrap(), &125);
}

#[test]
pub fn size_is_correct_when_pushed_and_trimmed() {
    let mut log = MemoryLog::new();

    log.push(12).unwrap();
    log.push(12).unwrap();

    assert_eq!(log.current_size(), 2);
    assert_eq!(log.current_size_with_offset(), 2);

    log.push(12).unwrap();
    log.push(12).unwrap();

    assert_eq!(log.current_size(), 4);
    assert_eq!(log.current_size_with_offset(), 4);

    log.trim_front(2).unwrap();

    assert_eq!(log.current_size(), 2);
    assert_eq!(log.current_size_with_offset(), 4);

    log.push(12).unwrap();

    assert_eq!(log.current_size(), 3);
    assert_eq!(log.current_size_with_offset(), 5);

    log.trim_end(3).unwrap();

    assert_eq!(log.current_size(), 1);
    assert_eq!(log.current_size_with_offset(), 3);
}

#[test]
fn get_outside_the_retained_range_is_an_invalid_index() {
    let mut log = MemoryLog::new();
    assert_eq!(log.get(0), Err(LogError::InvalidIndex));
    log.push(7u32).unwrap();
    log.push(8u32).unwrap();
    log.push(9u32).unwrap();
    assert_eq!(log.get(3), Err(LogError::InvalidIndex));
    log.trim_front(1).unwrap();
    assert_eq!(log.get(0), Err(LogError::InvalidIndex));
    assert_eq!(log.get(1), Ok(&8));
    assert_eq!(log.get(2), Ok(&9));
    assert_eq!(log.get(u64::MAX), Err(LogError::InvalidIndex));
}

#[test]
fn pushes_take_the_indices_from_the_end_on() {
    let mut log = MemoryLog::new();
    for value in 0u64..5 {
        log.push(value * 10).unwrap();
    }
    log.trim_front(3).unwrap();
    assert_eq!(log.current_offset(), 3);
    for value in 5u64..8 {
        let index = log.current_size_with_offset();
        log.push(value * 10).unwrap();
        assert_eq!(index, value);
        assert_eq!(log.get(index), Ok(&(value * 10)));
    }
    assert_eq!(log.current_offset(), 3);
    assert_eq!(log.current_size(), 5);
    for index in 3u64..8 {
        assert_eq!(log.get(index), Ok(&(index * 10)));
    }
}

#[test]
fn trimming_the_front_at_the_offset_changes_nothing() {
    let mut log = MemoryLog::new();
    log.push('a').unwrap();
    log.push('b').unwrap();
    log.push('c').unwrap();
    assert_eq!(log.trim_front(0), Ok(()));
    assert_eq!(log.current_offset(), 0);
    assert_eq!(log.current_size(), 3);
    log.trim_front(1).unwrap();
    assert_eq!(log.trim_front(1), Ok(()));
    assert_eq!(log.current_offset(), 1);
    assert_eq!(log.current_size(), 2);
    assert_eq!(log.get(1), Ok(&'b'));
}

#[test]
fn trimming_outside_the_log_is_an_invalid_index() {
    let mut empty: MemoryLog<u8> = MemoryLog::default();
    assert_eq!(empty.trim_front(0), Err(LogError::InvalidIndex));
    assert_eq!(empty.trim_end(0), Err(LogError::InvalidIndex));
    assert_eq!(empty.current_size_with_offset(), 0);

    let mut log = MemoryLog::new();
    for value in 0u8..4 {
        log.push(value).unwrap();
    }
    log.trim_front(2).unwrap();
    assert_eq!(log.trim_front(1), Err(LogError::InvalidIndex));
    assert_eq!(log.trim_front(4), Err(LogError::InvalidIndex));
    assert_eq!(log.trim_end(1), Err(LogError::InvalidIndex));
    assert_eq!(log.trim_end(4), Err(LogError::InvalidIndex));
    assert_eq!(log.current_offset(), 2);
    assert_eq!(log.current_size(), 2);
    assert_eq!(log.trim_front(3), Ok(()));
    assert_eq!(log.current_offset(), 3);
    assert_eq!(log.get(2), Err(LogError::InvalidIndex));
    assert_eq!(log.get(3), Ok(&3));
    // trimming the end at the offset empties the log and keeps the offset
    assert_eq!(log.trim_end(3), Ok(()));
    assert_eq!(log.current_size(), 0);
    assert_eq!(log.current_offset(), 3);
    assert_eq!(log.current_size_with_offset(), 3);
}
