use atvvoice::pw::{Chunk, PcmQueue, Shutdown, CHANNELS, MAX_PENDING, SAMPLE_SIZE};

#[test]
fn constants_of_the_format() {
    assert_eq!(CHANNELS, 1);
    assert_eq!(SAMPLE_SIZE, std::mem::size_of::<i16>());
    assert_eq!(MAX_PENDING, 8000);
    assert_eq!(format!("{:?}", Shutdown), "Shutdown");
}

#[test]
fn samples_come_out_as_little_endian_bytes() {
    let mut queue = PcmQueue::new();
    queue.push(&[0x0102, -2, i16::MIN]);
    let mut out = [0xAAu8; 6];
    let chunk = queue.fill(&mut out, 0);
    assert_eq!(out, [0x02, 0x01, 0xFE, 0xFF, 0x00, 0x80]);
    assert_eq!(
        chunk,
        Chunk {
            offset: 0,
            stride: 2,
            size: 6
        }
    );
    assert!(queue.pending.is_empty());
}

#[test]
fn silence_follows_the_last_sample() {
    let mut queue = PcmQueue::new();
    queue.push(&[1]);
    let mut out = [0xAAu8; 8];
    let chunk = queue.fill(&mut out, 3);
    // Three samples were asked for; what lies behind them is untouched.
    assert_eq!(out, [1, 0, 0, 0, 0, 0, 0xAA, 0xAA]);
    assert_eq!(chunk.size, 6);
}

#[test]
fn an_odd_byte_is_left_over() {
    let mut queue = PcmQueue::new();
    queue.push(&[7, 8]);
    let mut out = [0xAAu8; 3];
    let chunk = queue.fill(&mut out, 100);
    assert_eq!(out, [7, 0, 0xAA]);
    assert_eq!(chunk.size, 2);
    assert_eq!(queue.pending, vec![8]);
}

#[test]
fn an_empty_buffer_takes_nothing() {
    let mut queue = PcmQueue::new();
    queue.push(&[7, 8]);
    let chunk = queue.fill(&mut [], 4);
    assert_eq!(chunk.size, 0);
    assert_eq!(queue.pending, vec![7, 8]);
}

#[test]
fn samples_leave_in_the_order_they_came() {
    let mut queue = PcmQueue::new();
    queue.push(&[1, 2, 3]);
    queue.push(&[4, 5]);
    let mut first = [0u8; 4];
    let mut second = [0u8; 6];
    queue.fill(&mut first, 0);
    queue.fill(&mut second, 0);
    assert_eq!(first, [1, 0, 2, 0]);
    assert_eq!(second, [3, 0, 4, 0, 5, 0]);
}

#[test]
fn the_oldest_samples_are_dropped() {
    let mut queue = PcmQueue::new();
    let samples: Vec<i16> = (0..8003).collect();
    queue.push(&samples[..8000]);
    assert_eq!(queue.bound(), 0);
    queue.push(&samples[8000..]);
    assert_eq!(queue.bound(), 3);
    assert_eq!(queue.pending.len(), 8000);
    assert_eq!(queue.pending[0], 3);
    assert_eq!(queue.pending[7999], 8002);
    assert_eq!(queue.bound(), 0);
}
