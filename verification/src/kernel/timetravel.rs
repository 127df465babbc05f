//! Comparing system snapshots: how much time passed between two of them
//! and how the goals and the knowledge base changed. Storing and loading
//! snapshots happens outside.
use vstd::prelude::*;
use crate::text::owned;

verus! {

/// The state of a goal.
#[derive(Debug, Clone, Copy, PartialEq, Eq, Structural)]
pub enum GoalStatus {
    Pending,
    Planning,
    Executing,
    Completed,
    Failed,
}

/// The size of the knowledge base at a snapshot.
#[derive(Debug, Clone, Copy, PartialEq, Eq, Structural)]
pub struct MemorySnapshot {
    pub total_documents: usize,
    pub total_size_bytes: usize,
}

impl Default for MemorySnapshot {
    fn default() -> (m: MemorySnapshot)
        ensures
            m.total_documents == 0 && m.total_size_bytes == 0,
    {
        MemorySnapshot { total_documents: 0, total_size_bytes: 0 }
    }
}

/// A moment: whole seconds since the epoch and the nanoseconds after them
/// (up to two seconds' worth, for leap seconds).
#[derive(Debug, Clone, Copy, PartialEq, Eq, Structural)]
pub struct Instant {
    pub secs: i64,
    pub nanos: u32,
}

/// What a snapshot holds that a comparison reads.
#[derive(Debug, Clone, Copy, PartialEq, Eq, Structural)]
pub struct SnapshotSummary {
    pub timestamp: Instant,
    pub active_goals: usize,
    pub completed_goals: usize,
    pub memory_stats: MemorySnapshot,
}

/// The difference between two snapshots.
#[derive(Debug, Clone)]
pub struct SnapshotComparison {
    pub snapshot1_id: String,
    pub snapshot2_id: String,
    pub time_delta_seconds: i64,
    pub goals_added: i32,
    pub goals_completed: i32,
    pub memory_delta_bytes: i64,
}

/// One second in nanoseconds.
pub const NANOS_PER_SEC: i128 = 1_000_000_000;

/// The whole seconds from `a` to `b`, rounded toward zero.
pub open spec fn whole_seconds_between(a: Instant, b: Instant) -> int {
    let total: int = (b.secs - a.secs) * 1_000_000_000 + (b.nanos - a.nanos);
    if total >= 0 {
        total / 1_000_000_000
    } else {
        -((-total) / 1_000_000_000)
    }
}

/// A snapshot a comparison can take: counts and sizes fit the fields that
/// hold their differences, and the moment lies in the calendar's range.
pub open spec fn comparable(s: SnapshotSummary) -> bool {
    &&& s.active_goals <= i32::MAX
    &&& s.completed_goals <= i32::MAX
    &&& s.memory_stats.total_size_bytes <= i64::MAX
    &&& -0x2000_0000_0000_0000 < s.timestamp.secs < 0x2000_0000_0000_0000
    &&& s.timestamp.nanos < 2_000_000_000
}

impl SnapshotComparison {
    /// How the snapshot `id2` (`second`) differs from `id1` (`first`): the
    /// whole seconds between them, the change in active and completed goals
    /// and in the knowledge base's size.
    pub fn between(id1: &str, id2: &str, first: SnapshotSummary, second: SnapshotSummary) -> (c: SnapshotComparison)
        requires
            comparable(first),
            comparable(second),
        ensures
            c.snapshot1_id@ == id1@,
            c.snapshot2_id@ == id2@,
            c.time_delta_seconds == whole_seconds_between(first.timestamp, second.timestamp),
            c.goals_added == second.active_goals - first.active_goals,
            c.goals_completed == second.completed_goals - first.completed_goals,
            c.memory_delta_bytes == second.memory_stats.total_size_bytes - first.memory_stats.total_size_bytes,
    {
        let ds: i128 = (second.timestamp.secs as i128) - (first.timestamp.secs as i128);
        let dn: i128 = (second.timestamp.nanos as i128) - (first.timestamp.nanos as i128);
        let total: i128 = ds * NANOS_PER_SEC + dn;
        let secs: i128 = if total >= 0 {
            total / NANOS_PER_SEC
        } else {
            let pos: i128 = -total;
            -(pos / NANOS_PER_SEC)
        };
        assert(-0x4000_0000_0000_0000 < ds < 0x4000_0000_0000_0000);
        assert(-0x4000_0000_0000_0003 * 1_000_000_000 < total < 0x4000_0000_0000_0003 * 1_000_000_000) by (nonlinear_arith)
            requires
                -0x4000_0000_0000_0000 < ds < 0x4000_0000_0000_0000,
                -2_000_000_000 < dn < 2_000_000_000,
                total == ds * 1_000_000_000 + dn,
        ;
        assert(-0x4000_0000_0000_0003 <= secs <= 0x4000_0000_0000_0003) by (nonlinear_arith)
            requires
                -0x4000_0000_0000_0003 * 1_000_000_000 < total < 0x4000_0000_0000_0003 * 1_000_000_000,
                total >= 0 ==> secs == total / 1_000_000_000,
                total < 0 ==> secs == -((-total) / 1_000_000_000),
        ;
        let added: i32 = (second.active_goals as i32) - (first.active_goals as i32);
        let completed: i32 = (second.completed_goals as i32) - (first.completed_goals as i32);
        let mem: i64 = (second.memory_stats.total_size_bytes as i64) - (first.memory_stats.total_size_bytes as i64);
        SnapshotComparison {
            snapshot1_id: owned(id1),
            snapshot2_id: owned(id2),
            time_delta_seconds: secs as i64,
            goals_added: added,
            goals_completed: completed,
            memory_delta_bytes: mem,
        }
    }
}

} // verus!
