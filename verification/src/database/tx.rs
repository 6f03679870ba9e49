//! The transaction record.

use crate::database::store::{put, KeyView, Rule};
use crate::database::table::{write_of, Key, Record};
use crate::database::Database;
use vstd::prelude::*;

verus! {

/// One raw transaction of a block.
pub struct Tx {
    /// Upper-case hexadecimal hash of the raw bytes.
    pub hash: String,
    pub height: i64,
    pub success: bool,
    /// `raw`, `wrapper`, `decrypted` or `protocol`.
    pub tx_type: String,
    pub memo: String,
    pub gas_wanted: i64,
    pub gas_used: i64,
    pub raw_log: String,
}

impl Tx {
    /// The record with the given fields.
    pub fn new(
        hash: String,
        height: i64,
        success: bool,
        memo: String,
        tx_type: String,
        gas_wanted: i64,
        gas_used: i64,
        raw_log: String,
    ) -> (tx: Self)
        ensures
            tx.hash == hash,
            tx.height == height,
            tx.success == success,
            tx.memo == memo,
            tx.tx_type == tx_type,
            tx.gas_wanted == gas_wanted,
            tx.gas_used == gas_used,
            tx.raw_log == raw_log,
    {
        Tx { hash, height, success, memo, tx_type, gas_wanted, gas_used, raw_log }
    }

    /// Stores the transaction unless one with its hash is stored already.
    pub fn save(&self, db: &mut Database)
        requires
            old(db).wf(),
        ensures
            final(db).wf(),
            final(db).transactions@ == put(
                Rule::InsertIfAbsent,
                old(db).transactions@,
                write_of(*self),
            ),
            *final(db) == (Database { transactions: final(db).transactions, ..*old(db) }),
    {
        db.transactions.save(self);
    }
}

impl Record for Tx {
    open spec fn key_view(&self) -> KeyView {
        KeyView::Text(self.hash@)
    }

    open spec fn version(&self) -> int {
        self.height as int
    }

    fn key(&self) -> (k: Key) {
        Key::Text(self.hash.clone())
    }

    fn gate(&self) -> (h: i64) {
        self.height
    }

    fn duplicate(&self) -> (copy: Self) {
        Tx {
            hash: self.hash.clone(),
            height: self.height,
            success: self.success,
            tx_type: self.tx_type.clone(),
            memo: self.memo.clone(),
            gas_wanted: self.gas_wanted,
            gas_used: self.gas_used,
            raw_log: self.raw_log.clone(),
        }
    }
}

} // verus!
