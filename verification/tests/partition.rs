use mandelbrot::partition::{chunk_bounds, partition_bounds, stride_indices};

// Marks every index of `len` covered by the given ranges, panicking on any
// duplicate; the caller then checks full coverage.
fn cover_ranges(len: usize, ranges: &[(usize, usize)]) -> Vec<bool> {
    let mut seen = vec![false; len];
    for &(lo, hi) in ranges {
        for i in lo..hi {
            assert!(!seen[i], "index {i} owned by two workers");
            seen[i] = true;
        }
    }
    seen
}

#[test]
fn chunked_partition_of_16_across_2_workers() {
    assert_eq!(chunk_bounds(16, 2, 0), (0, 8));
    assert_eq!(chunk_bounds(16, 2, 1), (8, 16));
    let bounds = partition_bounds(16, 2);
    assert_eq!(bounds, vec![(0, 8), (8, 16)]);
    let seen = cover_ranges(16, &bounds);
    assert!(seen.iter().all(|&s| s), "some index is owned by no worker");
}

#[test]
fn interleaved_partition_of_16_across_2_workers() {
    let w0 = stride_indices(0, 2, 16);
    let w1 = stride_indices(1, 2, 16);
    assert_eq!(w0, vec![0, 2, 4, 6, 8, 10, 12, 14]);
    assert_eq!(w1, vec![1, 3, 5, 7, 9, 11, 13, 15]);

    let mut seen = vec![false; 16];
    for &i in w0.iter().chain(w1.iter()) {
        assert!(!seen[i], "index {i} owned by two workers");
        seen[i] = true;
    }
    assert!(seen.iter().all(|&s| s), "some index is owned by no worker");
}

#[test]
fn uneven_chunks_still_partition() {
    let bounds = partition_bounds(10, 3);
    assert_eq!(bounds, vec![(0, 3), (3, 6), (6, 10)]);
    let seen = cover_ranges(10, &bounds);
    assert!(seen.iter().all(|&s| s));
}

#[test]
fn more_workers_than_indices() {
    let bounds = partition_bounds(3, 5);
    assert_eq!(bounds.len(), 5);
    assert_eq!(bounds[0], (0, 0));
    assert_eq!(*bounds.last().unwrap(), (2, 3));
    let seen = cover_ranges(3, &bounds);
    assert!(seen.iter().all(|&s| s));

    let mut seen = vec![false; 3];
    for k in 0..5 {
        for i in stride_indices(k, 5, 3) {
            assert!(!seen[i]);
            seen[i] = true;
        }
    }
    assert!(seen.iter().all(|&s| s));
}

#[test]
fn single_worker_owns_everything() {
    assert_eq!(partition_bounds(9, 1), vec![(0, 9)]);
    assert_eq!(stride_indices(0, 1, 4), vec![0, 1, 2, 3]);
}

#[test]
fn row_partition_of_a_frame() {
    // One worker per pixel row: the chunks are exactly the rows.
    let (width, height) = (6, 4);
    let bounds = partition_bounds(width * height, height);
    for (k, &(lo, hi)) in bounds.iter().enumerate() {
        assert_eq!((lo, hi), (k * width, (k + 1) * width));
    }
}

#[test]
fn empty_frame_partitions_into_empty_chunks() {
    let bounds = partition_bounds(0, 3);
    assert_eq!(bounds, vec![(0, 0), (0, 0), (0, 0)]);
    assert_eq!(stride_indices(1, 3, 0), Vec::<usize>::new());
}
