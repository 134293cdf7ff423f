use jormungandr::rest::{
    display_internal_server_error, handle_rejection, ErrorKind, BAD_REQUEST, INTERNAL_SERVER_ERROR,
};

#[test]
fn error_without_cause() {
    assert_eq!(
        display_internal_server_error("storage is gone", &vec![]),
        "Internal server error: storage is gone\n"
    );
}

#[test]
fn error_with_causes() {
    let causes = vec![String::from("cannot read block"), String::from("disk failure")];
    assert_eq!(
        display_internal_server_error("storage is gone", &causes),
        "Internal server error: storage is gone\n-> cannot read block\n-> disk failure\n"
    );
}

#[test]
fn unreadable_request_is_a_bad_request() {
    let causes = vec![String::from("odd length")];
    for kind in [ErrorKind::PublicKey, ErrorKind::Hash, ErrorKind::Hex] {
        assert_eq!(
            handle_rejection(kind, "invalid hex", &causes),
            (String::from("invalid hex"), 400)
        );
    }
    assert_eq!(BAD_REQUEST, 400);
}

#[test]
fn other_failure_is_an_internal_error() {
    let causes = vec![String::from("queue closed")];
    assert_eq!(
        handle_rejection(ErrorKind::Other, "cannot send", &causes),
        (String::from("Internal server error: cannot send\n-> queue closed\n"), 500)
    );
    assert_eq!(INTERNAL_SERVER_ERROR, 500);
}
