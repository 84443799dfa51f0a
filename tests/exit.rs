use mqtt2influxdb::exit_handler::ExitHandler;

#[test]
fn exit_requests_are_shared() {
    let handler = ExitHandler::new();
    let other = handler.share();
    assert!(!handler.is_exiting());
    assert!(!other.is_exiting());
    assert!(!other.request_exit());
    assert!(handler.is_exiting());
    assert!(handler.request_exit());
}

#[test]
fn separate_tokens_are_independent() {
    let first = ExitHandler::new();
    let second = ExitHandler::new();
    first.request_exit();
    assert!(!second.is_exiting());
}
