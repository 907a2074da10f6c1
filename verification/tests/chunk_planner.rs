use asset_ledger::chunk::{plan_chunks, Chunk, ChunkPlanner};

#[test]
fn empty_window_has_no_chunks() {
    assert_eq!(plan_chunks(10, 9, 499), vec![]);
    let mut planner = ChunkPlanner::new(10, 9, 499);
    assert!(planner.is_finished());
    assert_eq!(planner.next_chunk(), None);
}

#[test]
fn narrow_window_is_one_chunk() {
    assert_eq!(plan_chunks(100, 150, 499), vec![Chunk { start: 100, end: 150 }]);
    assert_eq!(plan_chunks(100, 599, 499), vec![Chunk { start: 100, end: 599 }]);
    assert_eq!(plan_chunks(7, 7, 0), vec![Chunk { start: 7, end: 7 }]);
}

#[test]
fn thousand_block_window_is_two_chunks() {
    let latest: u64 = 20_000;
    let chunks = plan_chunks(latest - 999, latest, 499);
    assert_eq!(
        chunks,
        vec![
            Chunk { start: latest - 999, end: latest - 500 },
            Chunk { start: latest - 499, end: latest },
        ]
    );
}

#[test]
fn thousand_blocks_before_the_latest_are_two_chunks() {
    let latest: u64 = 20_000;
    let chunks = plan_chunks(latest - 1000, latest - 1, 499);
    assert_eq!(
        chunks,
        vec![
            Chunk { start: latest - 1000, end: latest - 1000 + 499 },
            Chunk { start: latest - 500, end: latest - 1 },
        ]
    );
}

#[test]
fn backfill_window_boundaries() {
    let latest: u64 = 20_000;
    let chunks = plan_chunks(latest - 1000, latest, 499);
    assert_eq!(chunks[0], Chunk { start: latest - 1000, end: latest - 1000 + 499 });
    assert_eq!(chunks[1].start, latest - 500);
    assert_eq!(chunks[1], Chunk { start: latest - 500, end: latest - 1 });
    assert_eq!(chunks[2], Chunk { start: latest, end: latest });
    assert_eq!(chunks.len(), 3);
}

#[test]
fn chunks_cover_window_without_gap_or_overlap() {
    for &(from, to, max_range) in &[(0u64, 0u64, 0u64), (0, 10, 0), (5, 1234, 7), (1, 1000, 499), (3, 3, 9)] {
        let chunks = plan_chunks(from, to, max_range);
        assert_eq!(chunks[0].start, from);
        assert_eq!(chunks[chunks.len() - 1].end, to);
        for (i, c) in chunks.iter().enumerate() {
            assert!(c.start <= c.end);
            assert!(c.end - c.start <= max_range);
            if i > 0 {
                assert_eq!(c.start, chunks[i - 1].end + 1);
            }
        }
    }
}

#[test]
fn planner_reaches_the_last_block_of_the_number_line() {
    let chunks = plan_chunks(u64::MAX - 5, u64::MAX, 3);
    assert_eq!(
        chunks,
        vec![
            Chunk { start: u64::MAX - 5, end: u64::MAX - 2 },
            Chunk { start: u64::MAX - 1, end: u64::MAX },
        ]
    );
    assert_eq!(
        plan_chunks(0, u64::MAX, u64::MAX),
        vec![Chunk { start: 0, end: u64::MAX }]
    );
}

#[test]
fn planner_hands_out_the_plan_lazily() {
    let mut planner = ChunkPlanner::new(0, 9, 3);
    assert_eq!(planner.next_chunk(), Some(Chunk { start: 0, end: 3 }));
    let resumed = planner;
    assert_eq!(planner.next_chunk(), Some(Chunk { start: 4, end: 7 }));
    assert_eq!(planner.next_chunk(), Some(Chunk { start: 8, end: 9 }));
    assert_eq!(planner.next_chunk(), None);
    assert_eq!(planner.next_chunk(), None);
    let mut again = resumed;
    assert_eq!(again.next_chunk(), Some(Chunk { start: 4, end: 7 }));
    let mut restarted = ChunkPlanner::new(4, 9, 3);
    assert_eq!(restarted.next_chunk(), Some(Chunk { start: 4, end: 7 }));
}
