//! How a knowledge base is opened for an ingest run.

use vstd::prelude::*;

verus! {

/// When the engine forces its write-ahead log to disk.
#[derive(Debug, Clone, Copy, PartialEq, Eq, Structural)]
pub enum WalSyncMode {
    /// On every write.
    Sync,
    /// In the background.
    Async,
}

/// The engine settings that an ingest run departs from the defaults in.
#[derive(Debug)]
pub struct KbSettings {
    /// The directory of the knowledge base.
    pub path: String,
    /// Whether the knowledge base lives in memory alone.
    pub memory_only: bool,
    /// When writes reach the disk.
    pub wal_sync_mode: WalSyncMode,
}

/// The settings to open the knowledge base in `kb_dir` with. The index can be
/// regenerated from the sources, so its log is synced in the background unless
/// durable writes are asked for.
pub fn open_kb_for_ingest(kb_dir: &str, durable: bool) -> (r: KbSettings)
    ensures
        r.path@ == kb_dir@,
        !r.memory_only,
        r.wal_sync_mode == if durable {
            WalSyncMode::Sync
        } else {
            WalSyncMode::Async
        },
{
    KbSettings {
        path: kb_dir.to_owned(),
        memory_only: false,
        wal_sync_mode: if durable {
            WalSyncMode::Sync
        } else {
            WalSyncMode::Async
        },
    }
}

} // verus!
