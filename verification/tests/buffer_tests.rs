use metec_sensor::buffer::DecodeBuffer;

#[test]
fn new_buffer_is_empty() {
    let buffer = DecodeBuffer::new();
    assert_eq!(buffer.len(), 0);
    assert!(buffer.is_empty());
    assert_eq!(buffer.as_slice(), &[] as &[u8]);
}

#[test]
fn extend_appends_behind_what_waits() {
    let mut buffer = DecodeBuffer::new();
    buffer.extend(&[1, 2, 3]);
    buffer.extend(&[]);
    buffer.extend(&[4]);
    assert_eq!(buffer.as_slice(), &[1, 2, 3, 4]);
    assert_eq!(buffer.len(), 4);
    assert!(!buffer.is_empty());
}

#[test]
fn consume_moves_past_the_head() {
    let mut buffer = DecodeBuffer::new();
    buffer.extend(&[1, 2, 3, 4, 5]);
    buffer.consume(2);
    assert_eq!(buffer.as_slice(), &[3, 4, 5]);
    buffer.consume(0);
    assert_eq!(buffer.as_slice(), &[3, 4, 5]);
    buffer.consume(3);
    assert!(buffer.is_empty());
}

#[test]
fn unconsumed_bytes_survive_further_chunks() {
    let mut buffer = DecodeBuffer::new();
    buffer.extend(&[10, 11, 12]);
    buffer.consume(1);
    buffer.extend(&[13, 14]);
    assert_eq!(buffer.as_slice(), &[11, 12, 13, 14]);
    buffer.consume(3);
    buffer.extend(&[15]);
    assert_eq!(buffer.as_slice(), &[14, 15]);
}
