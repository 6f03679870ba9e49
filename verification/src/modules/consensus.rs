//! The consensus-time module: rolling averages of the block time.

use crate::database::block::{eligible, is_newest, none_eligible};
use crate::database::store::{put, KeyView, Rule, TableView};
use crate::database::table::write_of;
use crate::database::{AverageBlockTime, Block, Database};
use crate::modules::{PeriodicOperation, PeriodicTask};
use vstd::prelude::*;

verus! {

/// Seconds in an hour.
pub const HOUR_SECONDS: i64 = 3600;

/// Seconds in a day.
pub const DAY_SECONDS: i64 = 86400;

/// The window an average is taken over.
#[derive(Clone, Copy, Debug, PartialEq, Eq, Structural)]
pub enum Window {
    Hour,
    Day,
}

impl Window {
    /// The length of the window in seconds.
    pub open spec fn spec_seconds(self) -> int {
        match self {
            Window::Hour => HOUR_SECONDS as int,
            Window::Day => DAY_SECONDS as int,
        }
    }

    /// The length of the window in seconds.
    pub fn seconds(&self) -> (s: i64)
        ensures
            s == self.spec_seconds(),
    {
        match self {
            Window::Hour => HOUR_SECONDS,
            Window::Day => DAY_SECONDS,
        }
    }
}

/// The consensus-time module.
pub struct ConsensusModule {}

/// The average between an older block and the latest one, stamped with the
/// latest height.
pub open spec fn average_between(latest: Block, before: Block) -> AverageBlockTime {
    AverageBlockTime {
        elapsed_seconds: (latest.timestamp - before.timestamp) as i128,
        block_count: (latest.height - before.height) as i128,
        height: latest.height,
    }
}

/// What a refresh of one average over one window does to its table: nothing
/// when no block is stored or none lies at or before the start of the
/// window, else one height-gated write of the average between the highest
/// such block and the highest block.
pub open spec fn refreshed(
    db: Database,
    cutoff: int,
    before: TableView<AverageBlockTime>,
    after: TableView<AverageBlockTime>,
) -> bool {
    if cutoff < i64::MIN || none_eligible(db.blocks@, None) || none_eligible(
        db.blocks@,
        Some(cutoff as i64),
    ) {
        after == before
    } else {
        exists|latest: Block, anchor: Block|
            is_newest(db.blocks@, None, latest) && is_newest(
                db.blocks@,
                Some(cutoff as i64),
                anchor,
            ) && after == put(
                Rule::HeightGated,
                before,
                write_of(#[trigger] average_between(latest, anchor)),
            )
    }
}

impl ConsensusModule {
    /// The module; it holds no state of its own.
    pub fn new() -> (m: Self) {
        ConsensusModule {  }
    }

    /// The average between an older block and the latest one.
    pub fn average_block_time(latest: &Block, before: &Block) -> (a: AverageBlockTime)
        ensures
            a == average_between(*latest, *before),
    {
        AverageBlockTime::new(
            latest.timestamp as i128 - before.timestamp as i128,
            latest.height as i128 - before.height as i128,
            latest.height,
        )
    }

    /// The start of the window that ends at `now` (Unix seconds); none where
    /// no 64-bit number of seconds reaches that far back.
    pub fn cutoff(now: i64, window: Window) -> (start: Option<i64>)
        ensures
            match start {
                Some(c) => c == now - window.spec_seconds(),
                None => now - window.spec_seconds() < i64::MIN,
            },
    {
        let span = window.seconds();
        if now < i64::MIN + span {
            None
        } else {
            Some(now - span)
        }
    }

    /// The average over the window that ends at `now` (Unix seconds), if the
    /// sink holds the two blocks it takes.
    fn window_average(db: &Database, now: i64, window: Window) -> (a: Option<AverageBlockTime>)
        requires
            db.wf(),
        ensures
            ({
                let cutoff = now - window.spec_seconds();
                match a {
                    None => cutoff < i64::MIN || none_eligible(db.blocks@, None) || none_eligible(
                        db.blocks@,
                        Some(cutoff as i64),
                    ),
                    Some(avg) => cutoff >= i64::MIN && exists|latest: Block, anchor: Block|
                        is_newest(db.blocks@, None, latest) && is_newest(
                            db.blocks@,
                            Some(cutoff as i64),
                            anchor,
                        ) && avg == #[trigger] average_between(latest, anchor),
                }
            }),
    {
        let latest = match Block::latest_block(db) {
            Some(block) => block,
            None => {
                return None;
            },
        };
        let start = match Self::cutoff(now, window) {
            Some(start) => start,
            None => {
                return None;
            },
        };
        let anchor = match Block::block_before_time(db, start) {
            Some(block) => block,
            None => {
                return None;
            },
        };
        let avg = Self::average_block_time(&latest, &anchor);
        assert(avg == average_between(latest, anchor));
        Some(avg)
    }

    /// Refreshes the average block time over the hour that ends at `now`
    /// (Unix seconds).
    pub fn update_average_block_time_in_hour(db: &mut Database, now: i64)
        requires
            old(db).wf(),
        ensures
            final(db).wf(),
            refreshed(
                *old(db),
                now - HOUR_SECONDS,
                old(db).average_block_time_per_hour@,
                final(db).average_block_time_per_hour@,
            ),
            *final(db) == (Database {
                average_block_time_per_hour: final(db).average_block_time_per_hour,
                ..*old(db)
            }),
    {
        match Self::window_average(db, now, Window::Hour) {
            Some(avg) => {
                avg.save_average_block_time_per_hour(db);
            },
            None => {},
        }
        proof {
            lemma_newest_excludes_none(*old(db), None);
            if now - HOUR_SECONDS >= i64::MIN {
                lemma_newest_excludes_none(*old(db), Some((now - HOUR_SECONDS) as i64));
            }
        }
    }

    /// Refreshes the average block time over the day that ends at `now`
    /// (Unix seconds).
    pub fn update_average_block_time_in_day(db: &mut Database, now: i64)
        requires
            old(db).wf(),
        ensures
            final(db).wf(),
            refreshed(
                *old(db),
                now - DAY_SECONDS,
                old(db).average_block_time_per_day@,
                final(db).average_block_time_per_day@,
            ),
            *final(db) == (Database {
                average_block_time_per_day: final(db).average_block_time_per_day,
                ..*old(db)
            }),
    {
        match Self::window_average(db, now, Window::Day) {
            Some(avg) => {
                avg.save_average_block_time_per_day(db);
            },
            None => {},
        }
        proof {
            lemma_newest_excludes_none(*old(db), None);
            if now - DAY_SECONDS >= i64::MIN {
                lemma_newest_excludes_none(*old(db), Some((now - DAY_SECONDS) as i64));
            }
        }
    }

    /// The module does nothing at an epoch edge.
    pub fn handle_epoch(db: &mut Database, height: u64, epoch: u64)
        ensures
            *final(db) == *old(db),
    {
    }

    /// Messages are of no concern to the module.
    pub fn handle_message(db: &mut Database, message: &crate::database::Message)
        ensures
            *final(db) == *old(db),
    {
    }

    /// The hourly and the daily refresh.
    pub fn register_periodic_operations() -> (operations: Vec<PeriodicOperation>)
        ensures
            operations@.len() == 2,
            operations@[0].every_seconds == HOUR_SECONDS,
            operations@[0].task == PeriodicTask::AverageBlockTimeInHour,
            operations@[1].every_seconds == DAY_SECONDS,
            operations@[1].task == PeriodicTask::AverageBlockTimeInDay,
    {
        let mut operations: Vec<PeriodicOperation> = Vec::new();
        operations.push(
            PeriodicOperation { every_seconds: 3600, task: PeriodicTask::AverageBlockTimeInHour },
        );
        operations.push(
            PeriodicOperation { every_seconds: 86400, task: PeriodicTask::AverageBlockTimeInDay },
        );
        operations
    }
}

/// Where some block is the newest that counts, not none counts.
proof fn lemma_newest_excludes_none(db: Database, cutoff: Option<i64>)
    ensures
        (exists|b: Block| is_newest(db.blocks@, cutoff, b)) ==> !none_eligible(db.blocks@, cutoff),
{
    if exists|b: Block| is_newest(db.blocks@, cutoff, b) {
        let b = choose|b: Block| is_newest(db.blocks@, cutoff, b);
        let k = choose|k: KeyView| #[trigger]
            db.blocks@.contains_key(k) && db.blocks@[k].row == b;
        assert(eligible(db.blocks@[k].row, cutoff));
    }
}

} // verus!
