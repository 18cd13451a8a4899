use audio_flow::RingBuffer;

#[test]
fn test_ring_buffer() {
    let mut buffer = RingBuffer::new(10);

    let input = vec![0.1f32, 0.2, 0.3];
    buffer.write(&input);

    let mut output = vec![0.0f32; 3];
    buffer.read(&mut output);

    assert_eq!(output, vec![0.1, 0.2, 0.3]);
}

#[test]
fn test_ring_buffer_fill_ratio() {
    let mut buffer = RingBuffer::new(100);

    let input = vec![0.5f32; 50];
    buffer.write(&input);

    let (filled, capacity) = buffer.fill_ratio();
    let ratio = filled as f32 / capacity as f32;
    assert!(ratio > 0.4 && ratio < 0.6);
}

#[test]
fn half_fill_is_exactly_one_half() {
    let mut buffer = RingBuffer::new(10);
    buffer.write(&[1.0f32, 2.0, 3.0, 4.0, 5.0]);
    assert_eq!(buffer.fill_ratio(), (5, 10));
}

#[test]
fn write_and_read_report_their_lengths() {
    let mut buffer = RingBuffer::new(8);
    assert_eq!(buffer.write(&[1i32, 2, 3, 4]), 4);
    let mut output = [9i32; 6];
    assert_eq!(buffer.read(&mut output), 6);
    assert_eq!(output, [1, 2, 3, 4, 0, 0]);
}

#[test]
fn round_trip_below_capacity() {
    let mut buffer = RingBuffer::new(8);
    let input = [0.25f32, -0.5, 0.75, 1.0, -1.0, 0.0, 0.125];
    buffer.write(&input);
    let mut output = [0.0f32; 7];
    buffer.read(&mut output);
    assert_eq!(output, input);
    assert_eq!(buffer.fill_ratio(), (0, 8));
    assert_eq!(buffer.overflow_count(), 0);
}

#[test]
fn writing_a_full_capacity_drops_the_oldest() {
    let mut buffer = RingBuffer::new(3);
    buffer.write(&[1.0f32, 2.0, 3.0]);
    assert_eq!(buffer.fill_ratio(), (2, 3));
    let mut output = [7.0f32; 3];
    buffer.read(&mut output);
    assert_eq!(output, [2.0, 3.0, 0.0]);
    assert_eq!(buffer.overflow_count(), 1);
}

#[test]
fn overflow_keeps_the_newest_samples() {
    let mut buffer = RingBuffer::new(4);
    buffer.write(&[1u8, 2, 3, 4, 5]);
    let mut output = [9u8; 5];
    buffer.read(&mut output);
    assert_eq!(output, [3, 4, 5, 0, 0]);
    assert_eq!(buffer.overflow_count(), 2);
}

#[test]
fn overflow_count_survives_clear_and_reads() {
    let mut buffer = RingBuffer::new(2);
    buffer.write(&[1u32, 2, 3, 4]);
    assert_eq!(buffer.overflow_count(), 3);
    let mut output = [0u32; 1];
    buffer.read(&mut output);
    assert_eq!(output, [4]);
    buffer.clear();
    assert_eq!(buffer.overflow_count(), 3);
    buffer.write(&[5u32]);
    assert_eq!(buffer.overflow_count(), 3);
}

#[test]
fn reads_continue_across_the_wrap() {
    let mut buffer = RingBuffer::new(4);
    buffer.write(&[1i16, 2, 3]);
    let mut two = [0i16; 2];
    buffer.read(&mut two);
    assert_eq!(two, [1, 2]);
    buffer.write(&[4i16, 5]);
    let mut three = [0i16; 3];
    buffer.read(&mut three);
    assert_eq!(three, [3, 4, 5]);
}

#[test]
fn empty_buffer_reads_silence() {
    let mut buffer: RingBuffer<f32> = RingBuffer::new(5);
    let mut output = [0.9f32; 4];
    assert_eq!(buffer.read(&mut output), 4);
    assert_eq!(output, [0.0; 4]);
}

#[test]
fn clear_discards_unread_samples() {
    let mut buffer = RingBuffer::new(6);
    buffer.write(&[0.5f32, 0.6, 0.7]);
    buffer.clear();
    assert_eq!(buffer.fill_ratio(), (0, 6));
    let mut output = [1.0f32; 2];
    buffer.read(&mut output);
    assert_eq!(output, [0.0, 0.0]);
}

#[test]
fn zero_capacity_buffer_stays_silent() {
    let mut buffer: RingBuffer<f32> = RingBuffer::new(0);
    assert_eq!(buffer.write(&[]), 0);
    let mut output = [1.0f32; 2];
    buffer.read(&mut output);
    assert_eq!(output, [0.0, 0.0]);
    assert_eq!(buffer.fill_ratio(), (0, 0));
}
