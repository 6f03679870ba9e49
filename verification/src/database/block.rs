//! The block record.

use crate::chain::{has_date, ExecTxResult, TmBlock};
use crate::database::store::{put, KeyView, Rule, TableView};
use crate::database::table::{write_of, Key, Record};
use crate::database::Database;
use crate::utils::{addr_to_bech32, bech32_encoding, ADDRESS_HRP};
use vstd::prelude::*;

verus! {

/// One block of the chain.
pub struct Block {
    pub height: i64,
    pub hash: String,
    pub num_txs: i32,
    pub total_gas: i64,
    pub proposer_address: String,
    /// Header time, Unix seconds.
    pub timestamp: i64,
}

/// The gas that the transactions of a block used, all together.
pub open spec fn total_gas(tx_results: Seq<ExecTxResult>) -> int
    decreases tx_results.len(),
{
    if tx_results.len() == 0 {
        0
    } else {
        total_gas(tx_results.drop_last()) + tx_results.last().gas_used
    }
}

/// Whether a block counts for a query: every block does when no cutoff is
/// given, else those stamped at or before the cutoff.
pub open spec fn eligible(block: Block, cutoff: Option<i64>) -> bool {
    match cutoff {
        Some(time) => block.timestamp <= time,
        None => true,
    }
}

/// Whether `block` is a stored block that counts and none that counts is
/// higher.
pub open spec fn is_newest(blocks: TableView<Block>, cutoff: Option<i64>, block: Block) -> bool {
    &&& exists|k: KeyView| #[trigger] blocks.contains_key(k) && blocks[k].row == block
    &&& eligible(block, cutoff)
    &&& forall|k: KeyView| #[trigger]
        blocks.contains_key(k) && eligible(blocks[k].row, cutoff) ==> blocks[k].row.height
            <= block.height
}

/// Whether no stored block counts.
pub open spec fn none_eligible(blocks: TableView<Block>, cutoff: Option<i64>) -> bool {
    forall|k: KeyView| #[trigger] blocks.contains_key(k) ==> !eligible(blocks[k].row, cutoff)
}

impl Block {
    /// The record of a block: its header fields, the number of its
    /// transactions and the gas they used all together.
    pub fn from_tm_block(block: &TmBlock, tx_results: &Vec<ExecTxResult>) -> (record: Self)
        requires
            i64::MIN <= total_gas(tx_results@) <= i64::MAX,
        ensures
            record.height == block.height as i64,
            record.hash@ == block.hash@,
            record.num_txs == block.data@.len() as i32,
            record.total_gas == total_gas(tx_results@),
            record.proposer_address@ == bech32_encoding(ADDRESS_HRP@, block.proposer_address@),
            record.timestamp == block.time@,
            has_date(record.timestamp),
    {
        Block {
            height: block.height as i64,
            hash: block.hash.clone(),
            num_txs: block.data.len() as i32,
            total_gas: sum_total_gas(tx_results),
            proposer_address: addr_to_bech32(&block.proposer_address),
            timestamp: block.time.seconds(),
        }
    }

    /// Stores the block unless one of its height is stored already.
    pub fn save(&self, db: &mut Database)
        requires
            old(db).wf(),
        ensures
            final(db).wf(),
            final(db).blocks@ == put(Rule::InsertIfAbsent, old(db).blocks@, write_of(*self)),
            *final(db) == (Database { blocks: final(db).blocks, ..*old(db) }),
    {
        db.blocks.save(self);
    }

    /// The highest block stored.
    pub fn latest_block(db: &Database) -> (found: Option<Self>)
        requires
            db.wf(),
        ensures
            match found {
                Some(block) => is_newest(db.blocks@, None, block),
                None => db.blocks@.dom().len() == 0 && none_eligible(db.blocks@, None),
            },
    {
        newest_block(db, None)
    }

    /// The highest block stored whose time is at or before `time`.
    pub fn block_before_time(db: &Database, time: i64) -> (found: Option<Self>)
        requires
            db.wf(),
        ensures
            match found {
                Some(block) => is_newest(db.blocks@, Some(time), block),
                None => none_eligible(db.blocks@, Some(time)),
            },
    {
        newest_block(db, Some(time))
    }
}

impl Record for Block {
    open spec fn key_view(&self) -> KeyView {
        KeyView::Int(self.height as int)
    }

    open spec fn version(&self) -> int {
        self.height as int
    }

    fn key(&self) -> (k: Key) {
        Key::Int(self.height)
    }

    fn gate(&self) -> (h: i64) {
        self.height
    }

    fn duplicate(&self) -> (copy: Self) {
        Block {
            height: self.height,
            hash: self.hash.clone(),
            num_txs: self.num_txs,
            total_gas: self.total_gas,
            proposer_address: self.proposer_address.clone(),
            timestamp: self.timestamp,
        }
    }
}

/// The highest stored block that counts under the cutoff.
fn newest_block(db: &Database, cutoff: Option<i64>) -> (found: Option<Block>)
    requires
        db.wf(),
    ensures
        match found {
            Some(block) => is_newest(db.blocks@, cutoff, block),
            None => none_eligible(db.blocks@, cutoff) && (cutoff is None ==> db.blocks@.dom().len()
                == 0),
        },
{
    let n = db.blocks.len();
    let ghost entries = db.blocks.entries();
    let mut best: Option<usize> = None;
    let mut i: usize = 0;
    while i < n
        invariant
            i <= n,
            n == entries.len(),
            entries == db.blocks.entries(),
            match best {
                Some(b) => b < i && eligible(entries[b as int].value.row, cutoff) && forall|j: int|
                    0 <= j < i && eligible((#[trigger] entries[j]).value.row, cutoff)
                        ==> entries[j].value.row.height <= entries[b as int].value.row.height,
                None => forall|j: int|
                    0 <= j < i ==> !eligible((#[trigger] entries[j]).value.row, cutoff),
            },
        decreases n - i,
    {
        let (_, row) = db.blocks.row_at(i);
        let counts = match cutoff {
            Some(time) => row.timestamp <= time,
            None => true,
        };
        if counts {
            let higher = match best {
                Some(b) => {
                    let (_, held) = db.blocks.row_at(b);
                    held.height < row.height
                },
                None => true,
            };
            if higher {
                best = Some(i);
            }
        }
        i += 1;
    }
    match best {
        Some(b) => {
            let (_, row) = db.blocks.row_at(b);
            let block = row.duplicate();
            proof {
                let blocks = db.blocks@;
                assert(blocks.contains_key(entries[b as int].key));
                assert forall|k: KeyView| #[trigger]
                    blocks.contains_key(k) && eligible(blocks[k].row, cutoff) implies blocks[k].row.height
                    <= block.height by {
                    let j = choose|j: int| 0 <= j < entries.len() && (#[trigger] entries[j]).key == k;
                    assert(blocks[entries[j].key] == entries[j].value);
                }
            }
            Some(block)
        },
        None => {
            proof {
                let blocks = db.blocks@;
                assert forall|k: KeyView| #[trigger] blocks.contains_key(k) implies !eligible(
                    blocks[k].row,
                    cutoff,
                ) by {
                    let j = choose|j: int| 0 <= j < entries.len() && (#[trigger] entries[j]).key == k;
                    assert(blocks[entries[j].key] == entries[j].value);
                }
                if cutoff is None && n > 0 {
                    assert(eligible(entries[0].value.row, cutoff));
                }
            }
            None
        },
    }
}

/// The gas that the transactions of a block used, all together, in a width
/// that holds any such sum.
fn wide_total_gas(tx_results: &Vec<ExecTxResult>) -> (total: i128)
    ensures
        total == total_gas(tx_results@),
{
    let mut sum: i128 = 0;
    let mut i: usize = 0;
    while i < tx_results.len()
        invariant
            i <= tx_results.len(),
            sum == total_gas(tx_results@.subrange(0, i as int)),
            -(i as int) * 0x8000_0000_0000_0000 <= sum <= (i as int) * 0x7fff_ffff_ffff_ffff,
        decreases tx_results.len() - i,
    {
        proof {
            assert(tx_results@.subrange(0, i + 1).drop_last() =~= tx_results@.subrange(0, i as int));
        }
        sum = sum + tx_results[i].gas_used as i128;
        i += 1;
    }
    assert(tx_results@.subrange(0, i as int) =~= tx_results@);
    sum
}

/// Whether the gas that the transactions of a block used, all together, is
/// a 64-bit number, as the block record wants it.
pub fn total_gas_fits(tx_results: &Vec<ExecTxResult>) -> (fits: bool)
    ensures
        fits == (i64::MIN <= total_gas(tx_results@) <= i64::MAX),
{
    let total = wide_total_gas(tx_results);
    i64::MIN as i128 <= total && total <= i64::MAX as i128
}

/// The gas that the transactions of a block used, all together.
pub fn sum_total_gas(tx_results: &Vec<ExecTxResult>) -> (total: i64)
    requires
        i64::MIN <= total_gas(tx_results@) <= i64::MAX,
    ensures
        total == total_gas(tx_results@),
{
    wide_total_gas(tx_results) as i64
}

} // verus!
