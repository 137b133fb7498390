use wasi_sensor::host::Pool;
use wasi_sensor::pool::{EnqueueError, SimplePool};
use wasi_sensor::types::{
    BufferError, BufferingMode, DataType, Dimension, FrameData, Image, PixelFormat,
};

fn frame(tag: u8) -> FrameData {
    FrameData::ByValue(DataType::Image(Image {
        dimension: Dimension {
            width: 1,
            height: 1,
            stride_bytes: 3,
            pixel_format: PixelFormat::Rgb24,
        },
        payload: vec![tag, tag, tag],
    }))
}

fn tag_of(data: &FrameData) -> u8 {
    match data {
        FrameData::ByValue(DataType::Image(image)) => image.payload[0],
        FrameData::HostMemory(_) => panic!("unexpected host memory"),
    }
}

#[test]
fn only_discard_mode_is_supported() {
    for mode in [
        BufferingMode::BufferingOff,
        BufferingMode::BufferingOverwrite,
        BufferingMode::BufferingUnlimited,
    ] {
        assert!(matches!(SimplePool::new(mode, 0, 4), Err(BufferError::NotSupported)));
    }
    assert!(SimplePool::new(BufferingMode::BufferingDiscard, 0, 4).is_ok());
}

#[test]
fn unsupported_mode_is_refused_before_the_buffer_count_matters() {
    assert!(matches!(
        SimplePool::new(BufferingMode::BufferingOff, 0, 0),
        Err(BufferError::NotSupported)
    ));
}

#[test]
fn new_pool_is_empty_with_zero_statistics() {
    let mut pool = SimplePool::new(BufferingMode::BufferingDiscard, 1024, 2).unwrap();
    let stats = pool.get_statistics();
    assert_eq!((stats.enqueued, stats.dropped, stats.dequeued), (0, 0, 0));
    assert!(pool.try_dequeue().is_none());
}

#[test]
fn frames_come_out_oldest_first_with_sequence_numbers() {
    let mut pool = SimplePool::new(BufferingMode::BufferingDiscard, 0, 3).unwrap();
    pool.enqueue_at(frame(1), 100).unwrap();
    pool.enqueue_at(frame(2), 200).unwrap();
    pool.enqueue_at(frame(3), 300).unwrap();
    let a = pool.try_dequeue().unwrap();
    let b = pool.try_dequeue().unwrap();
    let c = pool.try_dequeue().unwrap();
    assert_eq!((a.sequence_number, a.timestamp, tag_of(&a.data)), (0, 100, 1));
    assert_eq!((b.sequence_number, b.timestamp, tag_of(&b.data)), (1, 200, 2));
    assert_eq!((c.sequence_number, c.timestamp, tag_of(&c.data)), (2, 300, 3));
    assert!(pool.try_dequeue().is_none());
}

#[test]
fn full_pool_discards_the_latest_frame() {
    let mut pool = SimplePool::new(BufferingMode::BufferingDiscard, 0, 2).unwrap();
    assert_eq!(pool.enqueue_at(frame(1), 1), Ok(()));
    assert_eq!(pool.enqueue_at(frame(2), 2), Ok(()));
    assert_eq!(pool.enqueue_at(frame(3), 3), Err(EnqueueError::Full));
    let stats = pool.get_statistics();
    assert_eq!((stats.enqueued, stats.dropped, stats.dequeued), (2, 1, 0));
    assert_eq!(tag_of(&pool.try_dequeue().unwrap().data), 1);
    assert_eq!(tag_of(&pool.try_dequeue().unwrap().data), 2);
    assert!(pool.try_dequeue().is_none());
}

#[test]
fn dropped_frames_leave_gaps_in_sequence_numbers() {
    let mut pool = SimplePool::new(BufferingMode::BufferingDiscard, 0, 1).unwrap();
    pool.enqueue_at(frame(1), 10).unwrap();
    assert!(pool.enqueue_at(frame(2), 20).is_err());
    assert_eq!(pool.try_dequeue().unwrap().sequence_number, 0);
    pool.enqueue_at(frame(3), 30).unwrap();
    let next = pool.try_dequeue().unwrap();
    assert_eq!((next.sequence_number, tag_of(&next.data)), (2, 3));
}

#[test]
fn statistics_balance() {
    let mut pool = SimplePool::new(BufferingMode::BufferingDiscard, 0, 2).unwrap();
    for i in 0..5u8 {
        let _ = pool.enqueue_at(frame(i), i as u64);
    }
    pool.try_dequeue().unwrap();
    let _ = pool.enqueue_at(frame(9), 9);
    let stats = pool.get_statistics();
    assert_eq!((stats.enqueued, stats.dropped, stats.dequeued), (3, 3, 1));
    assert_eq!(stats.enqueued + stats.dropped, 6);
}

#[test]
fn given_timestamp_is_kept() {
    let mut pool = SimplePool::new(BufferingMode::BufferingDiscard, 0, 2).unwrap();
    pool.try_enqueue(frame(1), Some(42)).unwrap();
    let f = pool.try_dequeue().unwrap();
    assert_eq!((f.sequence_number, f.timestamp), (0, 42));
}

#[test]
fn missing_timestamp_is_taken_from_the_clock() {
    let mut pool = SimplePool::new(BufferingMode::BufferingDiscard, 0, 2).unwrap();
    pool.try_enqueue(frame(1), None).unwrap();
    pool.try_enqueue(frame(2), None).unwrap();
    let a = pool.try_dequeue().unwrap();
    let b = pool.try_dequeue().unwrap();
    assert_eq!((a.sequence_number, b.sequence_number), (0, 1));
    assert!(a.timestamp <= b.timestamp);
}

#[test]
fn read_frames_with_zero_max_reads_nothing() {
    let mut pool = SimplePool::new(BufferingMode::BufferingDiscard, 0, 2).unwrap();
    pool.enqueue_at(frame(1), 5).unwrap();
    let mut res = Pool::new("p".to_string());
    assert!(res.read_frames(&mut pool, 0).is_empty());
    assert_eq!(pool.get_statistics().dequeued, 0);
}

#[test]
fn read_frames_returns_one_frame_at_most() {
    let mut pool = SimplePool::new(BufferingMode::BufferingDiscard, 0, 2).unwrap();
    pool.enqueue_at(frame(1), 5).unwrap();
    pool.enqueue_at(frame(2), 6).unwrap();
    let mut res = Pool::new("p".to_string());
    let frames = res.read_frames(&mut pool, 10);
    assert_eq!(frames.len(), 1);
    assert_eq!((frames[0].sequence_number, frames[0].timestamp), (0, 5));
    assert_eq!(frames[0].data.len(), 1);
    assert_eq!(tag_of(&frames[0].data[0]), 1);
}

#[test]
fn read_frames_on_empty_pool_is_empty() {
    let mut pool = SimplePool::new(BufferingMode::BufferingDiscard, 0, 2).unwrap();
    let mut res = Pool::new("p".to_string());
    assert!(res.read_frames(&mut pool, 1).is_empty());
}

#[test]
fn held_frame_is_read_before_pool_frames() {
    let mut pool = SimplePool::new(BufferingMode::BufferingDiscard, 0, 3).unwrap();
    pool.enqueue_at(frame(1), 1).unwrap();
    pool.enqueue_at(frame(2), 2).unwrap();
    let mut res = Pool::new("p".to_string());
    assert!(res.needs_frame());
    assert!(res.try_fetch(&mut pool));
    assert!(!res.needs_frame());
    // a second readiness step keeps the held frame
    assert!(res.try_fetch(&mut pool));
    assert_eq!(pool.get_statistics().dequeued, 1);
    let first = res.read_frames(&mut pool, 1);
    assert_eq!(first[0].sequence_number, 0);
    assert!(res.needs_frame());
    let second = res.read_frames(&mut pool, 1);
    assert_eq!(second[0].sequence_number, 1);
    assert_eq!(res.name, "p");
}

#[test]
fn fetch_on_empty_pool_holds_nothing() {
    let mut pool = SimplePool::new(BufferingMode::BufferingDiscard, 0, 1).unwrap();
    let mut res = Pool::new("p".to_string());
    assert!(!res.try_fetch(&mut pool));
    assert!(res.needs_frame());
}

#[test]
fn successive_reads_see_increasing_sequence_numbers() {
    let mut pool = SimplePool::new(BufferingMode::BufferingDiscard, 0, 1).unwrap();
    let mut res = Pool::new("p".to_string());
    let mut seen = Vec::new();
    for i in 0..6u8 {
        let _ = pool.enqueue_at(frame(i), i as u64);
        if i % 2 == 0 {
            res.try_fetch(&mut pool);
        }
        let _ = pool.enqueue_at(frame(i), i as u64);
        for f in res.read_frames(&mut pool, 1) {
            seen.push(f.sequence_number);
        }
    }
    assert!(!seen.is_empty());
    assert!(seen.windows(2).all(|w| w[0] < w[1]));
}
