use aur_client::stream::ChunkBuffer;

#[test]
fn new_buffer_is_drained() {
    let buffer = ChunkBuffer::new();
    assert!(buffer.is_drained());
    assert_eq!(buffer.waiting(), 0);
}

#[test]
fn take_from_a_drained_buffer_gives_nothing() {
    let mut buffer = ChunkBuffer::new();
    assert_eq!(buffer.take(16), Vec::<u8>::new());
    assert!(buffer.is_drained());
}

#[test]
fn bytes_come_out_in_order() {
    let mut buffer = ChunkBuffer::new();
    buffer.refill(vec![1, 2, 3, 4, 5]);
    assert_eq!(buffer.waiting(), 5);
    assert_eq!(buffer.take(2), vec![1, 2]);
    assert_eq!(buffer.waiting(), 3);
    assert_eq!(buffer.take(2), vec![3, 4]);
    assert_eq!(buffer.take(2), vec![5]);
    assert!(buffer.is_drained());
    assert_eq!(buffer.take(2), Vec::<u8>::new());
}

#[test]
fn take_of_nothing_takes_nothing() {
    let mut buffer = ChunkBuffer::new();
    buffer.refill(vec![9, 8]);
    assert_eq!(buffer.take(0), Vec::<u8>::new());
    assert_eq!(buffer.waiting(), 2);
}

#[test]
fn chunk_after_chunk() {
    let mut buffer = ChunkBuffer::new();
    buffer.refill(vec![1, 2, 3]);
    assert_eq!(buffer.take(1), vec![1]);
    buffer.refill(vec![4, 5]);
    assert_eq!(buffer.waiting(), 4);
    assert_eq!(buffer.take(10), vec![2, 3, 4, 5]);
    buffer.refill(vec![]);
    assert!(buffer.is_drained());
    buffer.refill(vec![6]);
    assert_eq!(buffer.take(1), vec![6]);
}

#[test]
fn every_byte_comes_out_once() {
    let mut buffer = ChunkBuffer::new();
    let mut sent: Vec<u8> = Vec::new();
    let mut received: Vec<u8> = Vec::new();
    let mut next: u8 = 0;
    for round in 0..20usize {
        let chunk: Vec<u8> = (0..(round % 7)).map(|_| { next = next.wrapping_add(1); next }).collect();
        sent.extend_from_slice(&chunk);
        buffer.refill(chunk);
        received.extend(buffer.take(round % 5));
    }
    while !buffer.is_drained() {
        received.extend(buffer.take(3));
    }
    assert_eq!(received, sent);
}
