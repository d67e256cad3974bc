use const_chunks::ConstChunks;
use const_chunks::IteratorConstChunks;
use const_chunks::PanicGuard;

fn strings(from: i32, to: i32) -> Vec<String> {
    let mut v: Vec<String> = Vec::new();
    let mut i: i32 = from;
    while i <= to {
        v.push(i.to_string());
        i += 1;
    }
    v
}

fn collect_chunks<T>(producer: &mut ConstChunks<T>) -> Vec<Vec<T>> {
    let mut chunks: Vec<Vec<T>> = Vec::new();
    while let Some(chunk) = producer.next() {
        chunks.push(chunk);
    }
    chunks
}

#[test]
fn test_exhausted() {
    // Five items cannot fit into chunks of length 2!
    let mut v_iter = strings(1, 5).const_chunks(2);
    assert_eq!(v_iter.next(), Some(strings(1, 2)));
    assert_eq!(v_iter.next(), Some(strings(3, 4)));

    // Assert iterator is exhausted.
    assert_eq!(v_iter.next(), None);
}

#[test]
fn test_remainder() {
    let v = vec![1, 2, 3, 4, 5, 6];
    let mut v_iter = v.const_chunks(4);
    let chunks = collect_chunks(&mut v_iter);
    let mut rem = v_iter.into_remainder().unwrap();
    let mut remainder: Vec<i32> = Vec::new();
    while let Some(x) = rem.next() {
        remainder.push(x);
    }
    assert_eq!(chunks, vec![vec![1, 2, 3, 4]]);
    assert_eq!(remainder, vec![5, 6]);
}

#[test]
fn test_remainder_leak() {
    let mut v_iter = strings(1, 6).const_chunks(4);
    // Exhaust iterator.
    let _ = collect_chunks(&mut v_iter);
    // Assert iterator is exhausted.
    assert_eq!(v_iter.next(), None);

    // Get remainder
    let mut remainder = v_iter.into_remainder().unwrap();
    // Fetch the next value out of the remainder
    assert_eq!(remainder.next(), Some(5.to_string()));
    drop(remainder);
}

#[test]
fn zero_chunk_size_rejected() {
    assert!(ConstChunks::new(Vec::<i32>::new(), 0).is_none());
    assert!(ConstChunks::new(vec![1, 2, 3], 0).is_none());
    assert!(ConstChunks::new(Vec::<i32>::new(), 3).is_some());
    assert!(ConstChunks::new(vec![1, 2, 3], 1).is_some());
}

#[test]
fn scenario_pairs_with_leftover() {
    let mut producer = vec![1, 2, 3, 4, 5].const_chunks(2);
    assert_eq!(producer.next(), Some(vec![1, 2]));
    assert_eq!(producer.next(), Some(vec![3, 4]));
    assert_eq!(producer.next(), None);
    let mut rem = producer.into_remainder().unwrap();
    assert_eq!(rem.next(), Some(5));
    assert_eq!(rem.next(), None);
}

#[test]
fn scenario_exact_multiple() {
    let mut producer = vec![1, 2, 3, 4].const_chunks(4);
    assert_eq!(producer.next(), Some(vec![1, 2, 3, 4]));
    assert_eq!(producer.next(), None);
    // The leftover exists, but is empty: exhaustion fell on a chunk boundary.
    let mut rem = producer.into_remainder().unwrap();
    assert_eq!(rem.next(), None);
}

#[test]
fn scenario_empty_input() {
    let mut producer = Vec::<i32>::new().const_chunks(3);
    assert_eq!(producer.next(), None);
    let mut rem = producer.into_remainder().unwrap();
    assert_eq!(rem.next(), None);
}

#[test]
fn remainder_before_exhaustion_is_none() {
    let producer = vec![1, 2, 3].const_chunks(2);
    assert!(producer.into_remainder().is_none());

    let mut producer = vec![1, 2, 3, 4, 5].const_chunks(2);
    let _ = producer.next();
    // One chunk was produced, but the source is not exhausted yet.
    assert!(producer.into_remainder().is_none());
}

#[test]
fn exhaustion_is_permanent() {
    let mut producer = vec![1, 2, 3].const_chunks(2);
    assert_eq!(producer.next(), Some(vec![1, 2]));
    assert_eq!(producer.next(), None);
    assert_eq!(producer.next(), None);
    assert_eq!(producer.next(), None);
    let mut rem = producer.into_remainder().unwrap();
    assert_eq!(rem.next(), Some(3));
    assert_eq!(rem.next(), None);
    assert_eq!(rem.next(), None);
}

#[test]
fn size_hint_and_len() {
    let mut producer = vec![1, 2, 3, 4, 5].const_chunks(2);
    assert_eq!(producer.len(), 2);
    assert_eq!(producer.size_hint(), (2, Some(2)));
    let _ = producer.next();
    assert_eq!(producer.len(), 1);
    assert_eq!(producer.size_hint(), (1, Some(1)));
    let _ = producer.next();
    let _ = producer.next();
    assert_eq!(producer.len(), 0);
    assert_eq!(producer.size_hint(), (0, Some(0)));
}

#[test]
fn round_trip_rebuilds_input() {
    let input = vec![10, 20, 30, 40, 50, 60, 70];
    let mut producer = input.clone().const_chunks(3);
    let chunks = collect_chunks(&mut producer);
    assert_eq!(chunks, vec![vec![10, 20, 30], vec![40, 50, 60]]);
    let mut rebuilt: Vec<i32> = Vec::new();
    for chunk in chunks {
        for x in chunk {
            rebuilt.push(x);
        }
    }
    let mut rem = producer.into_remainder().unwrap();
    while let Some(x) = rem.next() {
        rebuilt.push(x);
    }
    assert_eq!(rebuilt, input);
}

#[test]
fn panic_guard_fills_in_order() {
    let mut guard: PanicGuard<i32> = PanicGuard::new(3);
    guard.init_next_unchecked(7);
    guard.init_next_unchecked(8);
    guard.init_next_unchecked(9);
    assert_eq!(guard.into_chunk(), vec![7, 8, 9]);
}
