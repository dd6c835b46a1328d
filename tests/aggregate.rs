use file_transfer::aggregate::Aggregator;
use file_transfer::response::ErrorKind;

#[test]
fn chunks_are_joined_in_order() {
    let mut a = Aggregator::new();
    a.push_chunk(b"File ");
    a.push_chunk(b"");
    a.push_chunk(b"contents.");
    assert_eq!(a.finish(), Ok(b"File contents.".to_vec()));
}

#[test]
fn empty_body_gives_empty_payload() {
    let a = Aggregator::new();
    assert_eq!(a.finish(), Ok(Vec::new()));
}

#[test]
fn stream_error_gives_no_partial_payload() {
    let mut a = Aggregator::new();
    a.push_chunk(b"partial");
    a.fail();
    a.push_chunk(b"more");
    assert_eq!(a.finish(), Err(ErrorKind::StreamError));
}
