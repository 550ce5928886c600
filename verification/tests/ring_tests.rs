use blade_graphics::dirty::{upload_window, DirtyRange};
use blade_graphics::timing::{pass_tick_spans, TimingQueryPool, MAX_TIMING_PASSES, TIMING_RING_SIZE};
use blade_graphics::uniform::{UniformBuffer, UNIFORM_BUFFER_COUNT};
use std::cell::RefCell;

#[test]
fn uniform_ring_grows_to_power_of_two_with_minimum() {
    let created = RefCell::new(Vec::new());
    let mut ring: UniformBuffer<(usize, u64)> = UniformBuffer::new();
    assert_eq!(ring.capacity, 0);
    let (b, slot) = ring.ensure_capacity(100, |i, c| {
        created.borrow_mut().push((i, c));
        (i, c)
    });
    assert_eq!(slot, 1);
    assert_eq!(*b, (1, 256));
    assert_eq!(ring.capacity, 256);
    assert_eq!(*created.borrow(), vec![(0, 256), (1, 256), (2, 256)]);
}

#[test]
fn uniform_ring_rotates_and_reuses_buffers() {
    let mut ring: UniformBuffer<(usize, u64)> = UniformBuffer::new();
    ring.ensure_capacity(300, |i, c| (i, c));
    assert_eq!(ring.capacity, 512);
    let (b, slot) = ring.ensure_capacity(200, |_, _| panic!("no new buffer needed"));
    assert_eq!((slot, *b), (2, (2, 512)));
    let (_, slot) = ring.ensure_capacity(512, |_, _| panic!("no new buffer needed"));
    assert_eq!(slot, 0);
    let (_, slot) = ring.ensure_capacity(1, |_, _| panic!("no new buffer needed"));
    assert_eq!(slot, 1);
    assert_eq!(ring.current_index, 1);
    assert_eq!(UNIFORM_BUFFER_COUNT, 3);
}

#[test]
fn uniform_ring_regrows_all_slots() {
    let mut ring: UniformBuffer<(usize, u64)> = UniformBuffer::new();
    ring.ensure_capacity(256, |i, c| (i, c));
    let (b, slot) = ring.ensure_capacity(1000, |i, c| (i + 10, c));
    assert_eq!(slot, 2);
    assert_eq!(*b, (12, 1024));
    assert_eq!(ring.capacity, 1024);
    assert_eq!(ring.buffers, vec![Some((10, 1024)), Some((11, 1024)), Some((12, 1024))]);
}

#[test]
fn uniform_ring_exact_power_of_two_is_kept() {
    let mut ring: UniformBuffer<u64> = UniformBuffer::new();
    ring.ensure_capacity(4096, |_, c| c);
    assert_eq!(ring.capacity, 4096);
}

#[test]
fn timing_pool_uninitialised_does_nothing() {
    let mut pool: TimingQueryPool<u8> = TimingQueryPool::new();
    assert!(pool.begin_pass("shadow").is_none());
    assert!(pool.resolve().is_none());
    assert!(pool.advance_frame().is_none());
    assert!(pool.results().is_empty());
}

#[test]
fn timing_pool_counts_passes_and_resolves() {
    let mut pool: TimingQueryPool<u8> = TimingQueryPool::new();
    pool.init(|| 7);
    assert!(pool.resolve().is_none());
    let (q0, g) = pool.begin_pass("shadow").expect("slot");
    assert_eq!((q0, *g), (0, 7));
    let (q1, _) = pool.begin_pass("main").expect("slot");
    assert_eq!(q1, 2);
    let (count, _) = pool.resolve().expect("queries");
    assert_eq!(count, 4);
    let frames = pool.frames.as_ref().unwrap();
    assert_eq!(frames[0].pass_names, vec!["shadow".to_string(), "main".to_string()]);
}

#[test]
fn timing_pool_caps_passes_per_frame() {
    let mut pool: TimingQueryPool<u8> = TimingQueryPool::new();
    pool.init(|| 0);
    for i in 0..MAX_TIMING_PASSES {
        let (q, _) = pool.begin_pass("p").expect("slot");
        assert_eq!(q, i * 2);
    }
    assert!(pool.begin_pass("overflow").is_none());
    assert_eq!(pool.frames.as_ref().unwrap()[0].pass_count, 64);
}

#[test]
fn timing_pool_reads_back_two_frames_later() {
    let mut pool: TimingQueryPool<u8> = TimingQueryPool::new();
    pool.init(|| 0);
    pool.begin_pass("frame0");
    // the frame after the new current one (frame 2) timed nothing
    assert_eq!(pool.advance_frame(), None);
    assert_eq!(pool.current_frame, 1);
    pool.begin_pass("frame1");
    // second advance: frame 0 is read back
    assert_eq!(pool.advance_frame(), Some(0));
    assert_eq!(pool.current_frame, 2);
    pool.finish_readback(0, Some(vec![("frame0".to_string(), 1500)]));
    assert_eq!(pool.results(), &vec![("frame0".to_string(), 1500)]);
    assert_eq!(pool.frames.as_ref().unwrap()[0].pass_count, 0);
    // a failed readback keeps the earlier results and still resets the frame
    assert_eq!(pool.advance_frame(), Some(1));
    pool.finish_readback(1, None);
    assert_eq!(pool.results(), &vec![("frame0".to_string(), 1500)]);
    assert_eq!(pool.frames.as_ref().unwrap()[1].pass_count, 0);
    assert_eq!(TIMING_RING_SIZE, 3);
}

#[test]
fn timing_pool_init_twice_keeps_frames() {
    let mut pool: TimingQueryPool<u8> = TimingQueryPool::new();
    pool.init(|| 1);
    pool.begin_pass("a");
    pool.init(|| 2);
    let frames = pool.frames.as_ref().unwrap();
    assert_eq!(frames[0].gpu, 1);
    assert_eq!(frames[0].pass_count, 1);
}

#[test]
fn tick_spans_pair_names_with_differences() {
    let names = vec!["a".to_string(), "b".to_string()];
    let spans = pass_tick_spans(&names, &[100, 250, 300, 310]);
    assert_eq!(spans, vec![("a".to_string(), 150), ("b".to_string(), 10)]);
}

#[test]
fn tick_spans_stop_at_missing_timestamps_and_wrap() {
    let names = vec!["a".to_string(), "b".to_string()];
    assert_eq!(pass_tick_spans(&names, &[10, 5, 7]), vec![("a".to_string(), u64::MAX - 4)]);
    assert!(pass_tick_spans(&names, &[]).is_empty());
}

#[test]
fn dirty_range_merges_marks() {
    let mut d = DirtyRange::new();
    assert_eq!(d.take(), None);
    d.mark(100, 20);
    assert_eq!(d.range, Some((100, 120)));
    d.mark(10, 5);
    assert_eq!(d.range, Some((10, 120)));
    d.mark(50, 200);
    assert_eq!(d.take(), Some((10, 250)));
    assert_eq!(d.range, None);
}

#[test]
fn dirty_range_mark_order_does_not_matter() {
    let mut a = DirtyRange::new();
    a.mark(0, 4);
    a.mark(30, 8);
    a.mark(12, 1);
    let mut b = DirtyRange::new();
    b.mark(12, 1);
    b.mark(0, 4);
    b.mark(30, 8);
    assert_eq!(a.range, b.range);
    assert_eq!(a.range, Some((0, 38)));
}

#[test]
fn upload_window_clamps_to_shadow() {
    assert_eq!(upload_window((4, 20), 64), Some((4, 20)));
    assert_eq!(upload_window((4, 200), 64), Some((4, 64)));
    assert_eq!(upload_window((64, 100), 64), None);
    assert_eq!(upload_window((8, 8), 64), None);
}
