//! The rolling block-time averages.

use crate::database::store::{put, KeyView, Rule};
use crate::database::table::{write_of, Key, Record};
use crate::database::Database;
use vstd::prelude::*;

verus! {

/// An average block time over a window, kept exact: the seconds and the
/// heights between the two blocks that bound the window. The average is
/// their quotient, and zero when no height lies between them.
pub struct AverageBlockTime {
    pub elapsed_seconds: i128,
    pub block_count: i128,
    pub height: i64,
}

impl AverageBlockTime {
    /// The record with the given fields.
    pub fn new(elapsed_seconds: i128, block_count: i128, height: i64) -> (a: Self)
        ensures
            a.elapsed_seconds == elapsed_seconds,
            a.block_count == block_count,
            a.height == height,
    {
        AverageBlockTime { elapsed_seconds, block_count, height }
    }

    /// Whether the average is zero by rule: no height lies in the window.
    pub fn is_zero(&self) -> (b: bool)
        ensures
            b == (self.block_count == 0),
    {
        self.block_count == 0
    }

    /// Replaces the hourly average unless a newer one is stored.
    pub fn save_average_block_time_per_hour(&self, db: &mut Database)
        requires
            old(db).wf(),
        ensures
            final(db).wf(),
            final(db).average_block_time_per_hour@ == put(
                Rule::HeightGated,
                old(db).average_block_time_per_hour@,
                write_of(*self),
            ),
            *final(db) == (Database {
                average_block_time_per_hour: final(db).average_block_time_per_hour,
                ..*old(db)
            }),
    {
        db.average_block_time_per_hour.save(self);
    }

    /// Replaces the daily average unless a newer one is stored.
    pub fn save_average_block_time_per_day(&self, db: &mut Database)
        requires
            old(db).wf(),
        ensures
            final(db).wf(),
            final(db).average_block_time_per_day@ == put(
                Rule::HeightGated,
                old(db).average_block_time_per_day@,
                write_of(*self),
            ),
            *final(db) == (Database {
                average_block_time_per_day: final(db).average_block_time_per_day,
                ..*old(db)
            }),
    {
        db.average_block_time_per_day.save(self);
    }
}

impl Record for AverageBlockTime {
    open spec fn key_view(&self) -> KeyView {
        KeyView::Unit
    }

    open spec fn version(&self) -> int {
        self.height as int
    }

    fn key(&self) -> (k: Key) {
        Key::Unit
    }

    fn gate(&self) -> (h: i64) {
        self.height
    }

    fn duplicate(&self) -> (copy: Self) {
        AverageBlockTime {
            elapsed_seconds: self.elapsed_seconds,
            block_count: self.block_count,
            height: self.height,
        }
    }
}

} // verus!
