use audio_flow::SamplePool;
use crossbeam::queue::SegQueue;

#[test]
fn acquire_from_an_empty_pool_gives_an_empty_buffer() {
    let pool: SamplePool<f32> = SamplePool::new();
    let buffer = pool.acquire(64);
    assert!(buffer.is_empty());
    assert!(buffer.capacity() >= 64);
}

#[test]
fn released_buffers_come_back_empty() {
    let pool = SamplePool::new();
    pool.release(vec![0.5f32, 0.25, 0.125]);
    let buffer = pool.acquire(1);
    assert!(buffer.is_empty());
    assert!(buffer.capacity() >= 3);
}

#[test]
fn acquire_filled_copies_the_samples() {
    let pool = SamplePool::with_buffers(2, 16);
    let samples = [0.1f32, -0.2, 0.3];
    let buffer = pool.acquire_filled(&samples);
    assert_eq!(buffer, vec![0.1, -0.2, 0.3]);
    pool.release(buffer);
    let again = pool.acquire_filled(&[1.0f32]);
    assert_eq!(again, vec![1.0]);
}

#[test]
fn push_copy_queues_a_copy_of_the_frame() {
    let pool = SamplePool::with_buffers(1, 8);
    let queue = SegQueue::new();
    pool.push_copy(&queue, &[0.5f32, 0.25]);
    pool.push_copy(&queue, &[]);
    assert_eq!(queue.pop(), Some(vec![0.5, 0.25]));
    assert_eq!(queue.pop(), Some(vec![]));
    assert_eq!(queue.pop(), None);
}
