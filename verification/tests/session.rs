use makebeliv::Chunk;
use makebeliv::ErrorKind;
use makebeliv::classify_response;

#[test]
fn no_response_is_a_connection_error() {
    assert_eq!(classify_response(false, 0), Err(ErrorKind::Connection));
    assert_eq!(classify_response(false, 200), Err(ErrorKind::Connection));
}

#[test]
fn success_statuses_are_ok() {
    assert_eq!(classify_response(true, 200), Ok(()));
    assert_eq!(classify_response(true, 204), Ok(()));
    assert_eq!(classify_response(true, 299), Ok(()));
}

#[test]
fn failure_statuses_are_service_errors() {
    assert_eq!(classify_response(true, 199), Err(ErrorKind::Service));
    assert_eq!(classify_response(true, 300), Err(ErrorKind::Service));
    assert_eq!(classify_response(true, 404), Err(ErrorKind::Service));
    assert_eq!(classify_response(true, 500), Err(ErrorKind::Service));
}

#[test]
fn chunks_carry_their_sequence_number_and_payload() {
    let chunk = Chunk { seq: 7, payload: vec![1, 2, 3, 4] };
    assert_eq!(chunk.seq, 7);
    assert_eq!(chunk.payload, vec![1, 2, 3, 4]);
}
