use ant::kernel::timetravel::{Instant, MemorySnapshot, SnapshotComparison, SnapshotSummary};

fn snap(secs: i64, nanos: u32, active: usize, done: usize, size: usize) -> SnapshotSummary {
    SnapshotSummary {
        timestamp: Instant { secs, nanos },
        active_goals: active,
        completed_goals: done,
        memory_stats: MemorySnapshot { total_documents: 0, total_size_bytes: size },
    }
}

#[test]
fn comparison_counts_differences() {
    let c = SnapshotComparison::between("s1", "s2", snap(100, 0, 3, 1, 1024), snap(190, 500_000_000, 1, 4, 512));
    assert_eq!(c.snapshot1_id, "s1");
    assert_eq!(c.time_delta_seconds, 90);
    assert_eq!(c.goals_added, -2);
    assert_eq!(c.goals_completed, 3);
    assert_eq!(c.memory_delta_bytes, -512);
}

#[test]
fn seconds_round_toward_zero() {
    let c = SnapshotComparison::between("a", "b", snap(100, 900_000_000, 0, 0, 0), snap(98, 0, 0, 0, 0));
    assert_eq!(c.time_delta_seconds, -2);
    let c = SnapshotComparison::between("a", "b", snap(100, 900_000_000, 0, 0, 0), snap(99, 0, 0, 0, 0));
    assert_eq!(c.time_delta_seconds, -1);
    let c = SnapshotComparison::between("a", "b", snap(100, 900_000_000, 0, 0, 0), snap(100, 0, 0, 0, 0));
    assert_eq!(c.time_delta_seconds, 0);
}
