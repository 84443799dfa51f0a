use mqtt2influxdb::linebuffer::{LineBuffer, BASE_DELAY_MILLIS, MAX_DELAY_MILLIS};

fn lines(n: usize) -> Vec<String> {
    (0..n).map(|i| format!("line {i}")).collect()
}

#[test]
fn full_batch_is_written_at_once() {
    let mut buffer = LineBuffer::new(60_000, 3, 1_000);
    for line in lines(3) {
        assert!(!buffer.should_write(1_000));
        buffer.push(line);
    }
    assert!(buffer.should_write(1_000));
    assert_eq!(buffer.pending(), &lines(3));
    buffer.write_succeeded(1_000);
    assert!(buffer.pending().is_empty());
    assert!(!buffer.should_write(1_000_000));
}

#[test]
fn old_lines_are_written_after_max_age() {
    let mut buffer = LineBuffer::new(500, 100, 0);
    buffer.push("a".to_string());
    assert!(!buffer.should_write(500));
    assert!(buffer.should_write(501));
    // a clock reading earlier than the last write counts as no time passed
    let mut late = LineBuffer::new(0, 100, 10);
    late.push("b".to_string());
    assert!(!late.should_write(5));
    assert!(late.should_write(11));
}

#[test]
fn empty_buffer_is_never_due() {
    let buffer = LineBuffer::new(0, 0, 0);
    assert!(!buffer.should_write(u64::MAX));
}

#[test]
fn append_keeps_order() {
    let mut buffer = LineBuffer::new(1, 10, 0);
    buffer.push("first".to_string());
    buffer.append(vec!["second".to_string(), "third".to_string()]);
    assert_eq!(buffer.pending(), &vec!["first".to_string(), "second".to_string(), "third".to_string()]);
}

#[test]
fn backoff_doubles_to_the_cap_and_resets() {
    let mut buffer = LineBuffer::new(0, 1, 0);
    buffer.push("x".to_string());
    let delays: Vec<u64> = (0..15).map(|_| buffer.write_failed()).collect();
    assert_eq!(
        delays,
        vec![8, 16, 32, 64, 128, 256, 512, 1024, 2048, 4096, 8192, 16384, 30000, 30000, 30000]
    );
    assert!(delays.windows(2).all(|w| w[0] <= w[1]));
    assert!(delays.iter().all(|d| *d <= MAX_DELAY_MILLIS));
    assert_eq!(buffer.pending(), &vec!["x".to_string()]);
    buffer.write_succeeded(7);
    assert_eq!(buffer.write_failed(), BASE_DELAY_MILLIS);
}

#[test]
fn failed_drain_reports_and_keeps_lines() {
    let mut buffer = LineBuffer::new(0, 10, 0);
    buffer.append(lines(2));
    let err = buffer.finish(false, 3).unwrap_err();
    assert_eq!(err.unsent, 2);
    assert_eq!(buffer.pending(), &lines(2));
    assert!(buffer.finish(true, 4).is_ok());
    assert!(buffer.pending().is_empty());
}
