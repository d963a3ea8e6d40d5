use robot_link::error::GatewayError;
use robot_link::link::Connection;

#[test]
fn port_before_open_is_not_initialized() {
    let mut c: Connection<Vec<u8>> = Connection::new();
    assert!(!c.is_open());
    assert_eq!(c.port().err(), Some(GatewayError::NotInitialized));
}

#[test]
fn port_after_open_reaches_handle() {
    let mut c: Connection<Vec<u8>> = Connection::new();
    c.open(Vec::new());
    assert!(c.is_open());
    c.port().unwrap().extend_from_slice(&[1, 2, 3]);
    assert_eq!(c.port().unwrap().clone(), vec![1, 2, 3]);
}

#[test]
fn reopen_replaces_handle() {
    let mut c: Connection<Vec<u8>> = Connection::new();
    c.open(vec![1]);
    c.open(vec![2]);
    assert_eq!(c.port().unwrap().clone(), vec![2]);
}
