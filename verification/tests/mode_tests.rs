use kvstore::mode::Mode;

#[test]
fn test_mode_from_str_http() {
    assert_eq!("http".parse::<Mode>().unwrap(), Mode::Http);
}

#[test]
fn test_mode_from_str_grpc() {
    assert_eq!("grpc".parse::<Mode>().unwrap(), Mode::Grpc);
}

#[test]
fn test_mode_from_str_dual() {
    assert_eq!("dual".parse::<Mode>().unwrap(), Mode::Dual);
}

#[test]
fn test_mode_from_str_invalid() {
    assert!("invalid".parse::<Mode>().is_err());
}

#[test]
fn test_mode_invalid_message() {
    let err = Mode::parse("tcp").unwrap_err();
    assert_eq!(err, "Invalid mode: tcp. Must be one of: http, grpc, dual");
}
