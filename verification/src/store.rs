//! Durable record store: string-keyed tables of string values, kept in a
//! `redb` database.  Every operation runs as one transaction, so a write
//! either lands completely or leaves the store as it was.
//!
//! The contents of each table are modelled by the uninterpreted function
//! [`store_tbl`]; the trusted operations below say how each call reads or
//! changes that model.  A table that was never written to is the empty map.
use redb::ReadableDatabase;
use redb::ReadableTable;
use redb::TableDefinition;
use redb::TableError;
use vstd::prelude::*;

verus! {

/// Verus-visible declaration of redb's database handle.  The library holds
/// one inside [`Store`] and reaches it only through the trusted operations
/// below.
#[verifier::external_type_specification]
#[verifier::external_body]
pub struct ExDatabase(redb::Database);

/// What can go wrong when touching the store, by the phase that failed.
/// Every phase before `Commit` leaves the store as it was; a failed
/// commit may or may not have applied the transaction's one write.
#[derive(Debug, Clone, PartialEq, Eq)]
pub enum DbError {
    ReadTransaction(String),
    WriteTransaction(String),
    TableOpen(String),
    Query(String),
    Insert(String),
    Delete(String),
    Commit(String),
    Serialization(String),
}

/// The durable record store: one handle, owned by the application context
/// and passed to every component that reads or writes records.
pub struct Store {
    db: redb::Database,
}

/// The contents of the named table: a map from key to stored value.
/// A table that no write ever touched is the empty map.
pub uninterp spec fn store_tbl(s: Store, table: Seq<char>) -> Map<Seq<char>, Seq<char>>;

/// Whether the two stores agree on every key of this table but the named
/// one, and on every other table entirely.
pub open spec fn sp_only_key_differs(s0: Store, s1: Store, table: Seq<char>, key: Seq<char>) -> bool {
    &&& forall|n: Seq<char>| n != table ==> #[trigger] store_tbl(s1, n) == store_tbl(s0, n)
    &&& forall|k: Seq<char>|
        k != key ==> #[trigger] store_tbl(s1, table).contains_key(k) == store_tbl(
            s0,
            table,
        ).contains_key(k)
    &&& forall|k: Seq<char>|
        k != key && store_tbl(s0, table).contains_key(k) ==> #[trigger] store_tbl(
            s1,
            table,
        )[k] == store_tbl(s0, table)[k]
}

impl Store {
    /// Wrap an opened database.  Nothing is assumed about its contents.
    pub fn new(db: redb::Database) -> Store {
        Store { db }
    }

    /// Read one entry.
    ///
    /// Relies on redb's `ReadTransaction::open_table` and
    /// `ReadOnlyTable::get`: a snapshot read returns the last committed
    /// value under the key, and opening a table that was never created
    /// fails with `TableError::TableDoesNotExist`, which here means the
    /// empty table.
    #[verifier::external_body]
    pub fn read_entry(&self, table: &str, key: &str) -> (r: Result<Option<String>, DbError>)
        requires
            table@.len() > 0,
        ensures
            (r matches Ok(o) ==> match o {
                Some(v) => store_tbl(*self, table@).contains_key(key@) && store_tbl(
                    *self,
                    table@,
                )[key@] == v@,
                None => !store_tbl(*self, table@).contains_key(key@),
            }),
            (r matches Err(e) ==> (e is ReadTransaction || e is TableOpen || e is Query)),
    {
        let tx = self.db.begin_read().map_err(|e| DbError::ReadTransaction(e.to_string()))?;
        let tbl = match tx.open_table(TableDefinition::<&str, &str>::new(table)) {
            Ok(t) => t,
            Err(TableError::TableDoesNotExist(_)) => return Ok(None),
            Err(e) => return Err(DbError::TableOpen(e.to_string())),
        };
        let value = tbl.get(key).map_err(|e| DbError::Query(e.to_string()))?;
        Ok(value.map(|v| v.value().to_string()))
    }

    /// Read a whole table as key/value pairs, each stored key exactly once.
    ///
    /// Relies on redb's `ReadOnlyTable::range` over a snapshot: the iterator
    /// yields every committed entry of the table once.
    #[verifier::external_body]
    pub fn read_table(&self, table: &str) -> (r: Result<Vec<(String, String)>, DbError>)
        requires
            table@.len() > 0,
        ensures
            (r matches Ok(v) ==> {
                &&& forall|i: int|
                    0 <= i < v@.len() ==> #[trigger] store_tbl(*self, table@).contains_key(
                        v@[i].0@,
                    ) && store_tbl(*self, table@)[v@[i].0@] == v@[i].1@
                &&& forall|k: Seq<char>|
                    store_tbl(*self, table@).contains_key(k) ==> exists|i: int|
                        0 <= i < v@.len() && #[trigger] v@[i].0@ == k
                &&& forall|i: int, j: int| 0 <= i < j < v@.len() ==> v@[i].0@ != v@[j].0@
            }),
            (r matches Err(e) ==> (e is ReadTransaction || e is TableOpen || e is Query)),
    {
        let tx = self.db.begin_read().map_err(|e| DbError::ReadTransaction(e.to_string()))?;
        let tbl = match tx.open_table(TableDefinition::<&str, &str>::new(table)) {
            Ok(t) => t,
            Err(TableError::TableDoesNotExist(_)) => return Ok(vec![]),
            Err(e) => return Err(DbError::TableOpen(e.to_string())),
        };
        let mut out = vec![];
        for item in tbl.iter().map_err(|e| DbError::Query(e.to_string()))? {
            let (k, v) = item.map_err(|e| DbError::Query(e.to_string()))?;
            out.push((k.value().to_string(), v.value().to_string()));
        }
        Ok(out)
    }

    /// Insert or overwrite one entry, in its own committed transaction.
    ///
    /// Relies on redb's `WriteTransaction`: `Table::insert` followed by
    /// `commit` makes the table map `key` to `value`.  A transaction
    /// dropped before `commit` is aborted and changes nothing; a failed
    /// `commit` applies its changes fully or not at all, but they may
    /// already have become durable, so on `Commit` the table holds either
    /// the old contents or exactly this one write.
    #[verifier::external_body]
    pub fn write_entry(&mut self, table: &str, key: &str, value: &str) -> (r: Result<
        (),
        DbError,
    >)
        requires
            table@.len() > 0,
        ensures
            r is Ok ==> store_tbl(*final(self), table@) == store_tbl(*old(self), table@).insert(
                key@,
                value@,
            ),
            r is Ok ==> forall|t: Seq<char>|
                t != table@ ==> #[trigger] store_tbl(*final(self), t) == store_tbl(*old(self), t),
            r is Err ==> forall|t: Seq<char>|
                t != table@ ==> #[trigger] store_tbl(*final(self), t) == store_tbl(*old(self), t),
            (r matches Err(e) && !(e is Commit)) ==> store_tbl(*final(self), table@) == store_tbl(
                *old(self),
                table@,
            ),
            (r matches Err(e) && e is Commit) ==> (store_tbl(*final(self), table@) == store_tbl(
                *old(self),
                table@,
            ) || store_tbl(*final(self), table@) == store_tbl(*old(self), table@).insert(
                key@,
                value@,
            )),
            (r matches Err(e) ==> (e is WriteTransaction || e is TableOpen || e is Insert
                || e is Commit)),
    {
        let tx = self.db.begin_write().map_err(|e| DbError::WriteTransaction(e.to_string()))?;
        {
            let mut tbl = tx.open_table(TableDefinition::<&str, &str>::new(table)).map_err(
                |e| DbError::TableOpen(e.to_string()),
            )?;
            tbl.insert(key, value).map_err(|e| DbError::Insert(e.to_string()))?;
        }
        tx.commit().map_err(|e| DbError::Commit(e.to_string()))?;
        Ok(())
    }

    /// Remove one entry, in its own committed transaction.  Removing a key
    /// that is not present succeeds and changes nothing.
    ///
    /// Relies on redb's `Table::remove` and `commit`, as for `write_entry`:
    /// on `Commit` the table holds either the old contents or exactly this
    /// one removal.
    #[verifier::external_body]
    pub fn delete_entry(&mut self, table: &str, key: &str) -> (r: Result<(), DbError>)
        requires
            table@.len() > 0,
        ensures
            r is Ok ==> store_tbl(*final(self), table@) == store_tbl(*old(self), table@).remove(key@),
            r is Ok ==> forall|t: Seq<char>|
                t != table@ ==> #[trigger] store_tbl(*final(self), t) == store_tbl(*old(self), t),
            r is Err ==> forall|t: Seq<char>|
                t != table@ ==> #[trigger] store_tbl(*final(self), t) == store_tbl(*old(self), t),
            (r matches Err(e) && !(e is Commit)) ==> store_tbl(*final(self), table@) == store_tbl(
                *old(self),
                table@,
            ),
            (r matches Err(e) && e is Commit) ==> (store_tbl(*final(self), table@) == store_tbl(
                *old(self),
                table@,
            ) || store_tbl(*final(self), table@) == store_tbl(*old(self), table@).remove(key@)),
            (r matches Err(e) ==> (e is WriteTransaction || e is TableOpen || e is Delete
                || e is Commit)),
    {
        let tx = self.db.begin_write().map_err(|e| DbError::WriteTransaction(e.to_string()))?;
        {
            let mut tbl = match tx.open_table(TableDefinition::<&str, &str>::new(table)) {
                Ok(t) => t,
                Err(TableError::TableDoesNotExist(_)) => return Ok(()),
                Err(e) => return Err(DbError::TableOpen(e.to_string())),
            };
            tbl.remove(key).map_err(|e| DbError::Delete(e.to_string()))?;
        }
        tx.commit().map_err(|e| DbError::Commit(e.to_string()))?;
        Ok(())
    }
}

} // verus!
