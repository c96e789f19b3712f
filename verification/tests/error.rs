use common::rpc::Error;

#[test]
fn kinds_without_content_describe_as_their_name() {
    assert_eq!(Error::UnexpectedEof.to_string(), "UnexpectedEof");
    assert_eq!(Error::InvalidData.to_string(), "InvalidData");
    assert_eq!(Error::OutOfMemory.to_string(), "OutOfMemory");
    assert_eq!(Error::Todo.to_string(), "Todo");
}

#[test]
fn codec_error_describes_its_text_quoted() {
    assert_eq!(Error::custom("bad tag").to_string(), "Serde(\"bad tag\")");
    assert_eq!(Error::custom("a \"b\"\n").to_string(), "Serde(\"a \\\"b\\\"\\n\")");
}

#[test]
fn custom_keeps_the_text() {
    match Error::custom("field missing") {
        Error::Serde(text) => assert_eq!(text, "field missing"),
        _ => panic!("not a codec error"),
    }
}

#[test]
fn transport_error_is_wrapped() {
    let io = std::io::Error::new(std::io::ErrorKind::BrokenPipe, "gone");
    let e = Error::from(io);
    match &e {
        Error::IOError(inner) => assert_eq!(inner.kind(), std::io::ErrorKind::BrokenPipe),
        _ => panic!("not a transport error"),
    }
    let text = e.to_string();
    assert!(text.starts_with("IOError("));
    assert!(text.ends_with(")"));
    assert!(text.contains("BrokenPipe"));
}

#[test]
fn text_error_is_wrapped() {
    let bad = std::str::from_utf8(&[b'a', 0xff]).unwrap_err();
    let e = Error::from(bad);
    match &e {
        Error::Utf8Error(inner) => assert_eq!(inner.valid_up_to(), 1),
        _ => panic!("not a text error"),
    }
    let text = e.to_string();
    assert!(text.starts_with("Utf8Error("));
    assert!(text.contains("valid_up_to: 1"));
}

#[test]
fn database_error_is_wrapped() {
    let failure = "port=none".parse::<tokio_postgres::Config>().unwrap_err();
    let e = Error::from(failure);
    assert!(matches!(e, Error::DbError(_)));
    let text = e.to_string();
    assert!(text.starts_with("DbError("));
    assert!(text.ends_with(")"));
}

#[test]
fn failed_reservation_is_out_of_memory() {
    let mut data: Vec<u64> = Vec::new();
    let failure = data.try_reserve_exact(usize::MAX).unwrap_err();
    assert!(matches!(Error::from(failure), Error::OutOfMemory));
}
