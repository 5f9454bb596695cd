use vstd::prelude::*;

use crate::errors::{RemoteFailure, TransferError};
use crate::record::{Link, TransferResponse};

verus! {

/// Ids strictly increase along the table: the order of the rows is the order
/// in which they were inserted.
pub open spec fn ids_increasing(rows: Seq<Link>) -> bool {
    forall|i: int, j: int| 0 <= i < j < rows.len() ==> rows[i].id < rows[j].id
}

/// Every id was handed out: it lies between 1 and the last id assigned.
pub open spec fn ids_within(rows: Seq<Link>, last_id: i64) -> bool {
    forall|i: int| 0 <= i < rows.len() ==> 1 <= (#[trigger] rows[i]).id <= last_id
}

pub open spec fn holds_id(rows: Seq<Link>, id: i64) -> bool {
    exists|i: int| 0 <= i < rows.len() && rows[i].id == id
}

/// The position of the row with `id`; meaningful when `holds_id(rows, id)`.
pub open spec fn index_of(rows: Seq<Link>, id: i64) -> int {
    choose|i: int| 0 <= i < rows.len() && rows[i].id == id
}

/// The row with `id`, if the table has one.
pub open spec fn lookup(rows: Seq<Link>, id: i64) -> Option<Link> {
    if holds_id(rows, id) {
        Some(rows[index_of(rows, id)])
    } else {
        None
    }
}

/// A deletion in progress.
#[derive(Debug)]
pub enum Deletion {
    /// The record was found; the user is asked to confirm.
    Confirming { record: Link },
    /// The row is staged for removal at `index` in an open transaction; the
    /// remote revocation is pending.
    Revoking { index: usize, record: Link },
    /// The remote revocation failed; the user is asked whether to remove the
    /// row anyway.
    Forcing { index: usize, record: Link },
}

/// What the remote service answered to a revocation.
#[derive(Debug, PartialEq, Eq)]
pub enum RemoteOutcome {
    Removed,
    /// The object had already expired or been deleted.
    AlreadyGone,
    Failed(RemoteFailure),
}

/// How a deletion ended.
#[derive(Debug, Clone, Copy, PartialEq, Eq, Structural)]
pub enum DeleteOutcome {
    NotFound,
    Cancelled,
    Committed,
    RolledBack,
}

/// What the caller must do next to drive a deletion.
#[derive(Debug, PartialEq, Eq)]
pub enum DeleteStep {
    /// Ask whether to delete the record, remote copy included.
    Confirm,
    /// Revoke the remote object with this credential and report the outcome.
    Revoke(String),
    /// Ask whether to delete the local record although the remote object stays.
    Force,
    /// The deletion is over.
    Done(DeleteOutcome),
}

/// The table as a mathematical value.
pub struct DatabaseView {
    /// The rows as the current transaction sees them.
    pub rows: Seq<Link>,
    /// The last id handed out; the next record gets the one after it.
    pub last_id: i64,
    pub deletion: Option<Deletion>,
}

impl DatabaseView {
    /// The rows as they stand outside an open transaction.
    pub open spec fn committed(self) -> Seq<Link> {
        match self.deletion {
            Some(Deletion::Revoking { index, record }) => self.rows.insert(index as int, record),
            Some(Deletion::Forcing { index, record }) => self.rows.insert(index as int, record),
            _ => self.rows,
        }
    }

    pub open spec fn wf(self) -> bool {
        &&& 0 <= self.last_id
        &&& self.committed().len() <= usize::MAX
        &&& ids_increasing(self.rows)
        &&& ids_within(self.rows, self.last_id)
        &&& ids_increasing(self.committed())
        &&& ids_within(self.committed(), self.last_id)
        &&& match self.deletion {
            Some(Deletion::Confirming { record }) => lookup(self.rows, record.id) == Some(record),
            Some(Deletion::Revoking { index, record }) => index <= self.rows.len(),
            Some(Deletion::Forcing { index, record }) => index <= self.rows.len(),
            None => true,
        }
    }
}

/// The table after `record` is appended and its id recorded as the last one.
pub open spec fn inserted(v: DatabaseView, record: Link) -> DatabaseView {
    DatabaseView { rows: v.rows.push(record), last_id: record.id, ..v }
}

/// Looking up a record that was found asks the user to confirm.
pub open spec fn begin_delete(v: DatabaseView, id: i64) -> (DatabaseView, DeleteStep) {
    match lookup(v.rows, id) {
        None => (v, DeleteStep::Done(DeleteOutcome::NotFound)),
        Some(record) => (
            DatabaseView { deletion: Some(Deletion::Confirming { record }), ..v },
            DeleteStep::Confirm,
        ),
    }
}

/// A confirmed deletion stages the row's removal and asks for the remote
/// revocation; a declined one ends with nothing changed.
pub open spec fn after_confirmation(v: DatabaseView, yes: bool) -> (DatabaseView, DeleteStep)
    recommends
        v.deletion matches Some(Deletion::Confirming { .. }),
{
    match v.deletion {
        Some(Deletion::Confirming { record }) => if yes {
            let index = index_of(v.rows, record.id);
            (
                DatabaseView {
                    rows: v.rows.remove(index),
                    deletion: Some(Deletion::Revoking { index: index as usize, record }),
                    ..v
                },
                DeleteStep::Revoke(record.delete_link),
            )
        } else {
            (DatabaseView { deletion: None, ..v }, DeleteStep::Done(DeleteOutcome::Cancelled))
        },
        _ => (v, DeleteStep::Done(DeleteOutcome::NotFound)),
    }
}

/// A revocation that succeeded, or found the object already gone, commits
/// the staged removal; a failed one asks whether to force it.
pub open spec fn after_revocation(v: DatabaseView, outcome: RemoteOutcome) -> (
    DatabaseView,
    DeleteStep,
)
    recommends
        v.deletion matches Some(Deletion::Revoking { .. }),
{
    match v.deletion {
        Some(Deletion::Revoking { index, record }) => match outcome {
            RemoteOutcome::Failed(_) => (
                DatabaseView { deletion: Some(Deletion::Forcing { index, record }), ..v },
                DeleteStep::Force,
            ),
            _ => (DatabaseView { deletion: None, ..v }, DeleteStep::Done(DeleteOutcome::Committed)),
        },
        _ => (v, DeleteStep::Done(DeleteOutcome::NotFound)),
    }
}

/// Forcing commits the staged removal; declining rolls it back.
pub open spec fn after_force(v: DatabaseView, yes: bool) -> (DatabaseView, DeleteStep)
    recommends
        v.deletion matches Some(Deletion::Forcing { .. }),
{
    match v.deletion {
        Some(Deletion::Forcing { index, record }) => if yes {
            (DatabaseView { deletion: None, ..v }, DeleteStep::Done(DeleteOutcome::Committed))
        } else {
            (
                DatabaseView { rows: v.rows.insert(index as int, record), deletion: None, ..v },
                DeleteStep::Done(DeleteOutcome::RolledBack),
            )
        },
        _ => (v, DeleteStep::Done(DeleteOutcome::NotFound)),
    }
}

/// In a table whose ids increase, looking up the id of the row at `i`
/// finds that row, at that position.
pub proof fn lemma_unique_index(rows: Seq<Link>, i: int)
    requires
        ids_increasing(rows),
        0 <= i < rows.len(),
    ensures
        holds_id(rows, rows[i].id),
        index_of(rows, rows[i].id) == i,
        lookup(rows, rows[i].id) == Some(rows[i]),
{
    let id = rows[i].id;
    assert(0 <= i < rows.len() && rows[i].id == id);
    let j = index_of(rows, id);
    if j < i {
        assert(rows[j].id < rows[i].id);
    } else if i < j {
        assert(rows[i].id < rows[j].id);
    }
}

proof fn lemma_remove_keeps_order(rows: Seq<Link>, index: int, last_id: i64)
    requires
        0 <= index < rows.len(),
        ids_increasing(rows),
        ids_within(rows, last_id),
    ensures
        ids_increasing(rows.remove(index)),
        ids_within(rows.remove(index), last_id),
        rows.remove(index).insert(index, rows[index]) == rows,
{
    let r = rows.remove(index);
    assert forall|a: int| 0 <= a < r.len() implies r[a] == (if a < index {
        rows[a]
    } else {
        rows[a + 1]
    }) by {}
    assert(r.insert(index, rows[index]) =~= rows);
}

proof fn lemma_push_keeps_order(rows: Seq<Link>, last_id: i64, record: Link)
    requires
        ids_increasing(rows),
        ids_within(rows, last_id),
        0 <= last_id,
        record.id == last_id + 1,
    ensures
        ids_increasing(rows.push(record)),
        ids_within(rows.push(record), record.id),
{
    let r = rows.push(record);
    assert forall|i: int, j: int| 0 <= i < j < r.len() implies r[i].id < r[j].id by {
        if j == rows.len() {
            assert(rows[i].id <= last_id);
        } else {
            assert(rows[i].id < rows[j].id);
        }
    }
    assert forall|i: int| 0 <= i < r.len() implies 1 <= (#[trigger] r[i]).id <= record.id by {
        if i < rows.len() {
            assert(r[i] == rows[i]);
        }
    }
}

/// Registering appends the new record after all earlier ones with an id
/// above theirs, so the listing stays in strictly increasing id order, which
/// is the order of insertion.
pub proof fn lemma_insert_keeps_order(v: DatabaseView, record: Link)
    requires
        v.wf(),
        v.deletion is None,
        v.rows.len() < usize::MAX,
        record.id == v.last_id + 1,
    ensures
        inserted(v, record).wf(),
        inserted(v, record).rows == v.rows.push(record),
        ids_increasing(inserted(v, record).rows),
        forall|i: int| 0 <= i < v.rows.len() ==> (#[trigger] v.rows[i]).id < record.id,
{
    lemma_push_keeps_order(v.rows, v.last_id, record);
    assert forall|i: int| 0 <= i < v.rows.len() implies (#[trigger] v.rows[i]).id < record.id by {}
}

/// The table after each of `records` is inserted in turn.
pub open spec fn inserted_all(v: DatabaseView, records: Seq<Link>) -> DatabaseView
    decreases records.len(),
{
    if records.len() == 0 {
        v
    } else {
        inserted(inserted_all(v, records.drop_last()), records.last())
    }
}

/// Ids handed out one after another, following `last_id`.
pub open spec fn fresh_ids(records: Seq<Link>, last_id: i64) -> bool {
    forall|i: int| 0 <= i < records.len() ==> (#[trigger] records[i]).id == last_id + 1 + i
}

/// After any run of successful registrations the listing is the earlier
/// listing followed by the new records in the order they were registered,
/// and its ids strictly increase.
pub proof fn lemma_inserts_keep_order(v: DatabaseView, records: Seq<Link>)
    requires
        v.wf(),
        v.deletion is None,
        fresh_ids(records, v.last_id),
        v.rows.len() + records.len() <= usize::MAX,
    ensures
        inserted_all(v, records).wf(),
        inserted_all(v, records).deletion is None,
        inserted_all(v, records).rows == v.rows + records,
        ids_increasing(inserted_all(v, records).rows),
    decreases records.len(),
{
    if records.len() > 0 {
        let front = records.drop_last();
        assert forall|i: int| 0 <= i < front.len() implies (#[trigger] front[i]).id == v.last_id
            + 1 + i by {
            assert(front[i] == records[i]);
        }
        lemma_inserts_keep_order(v, front);
        let w = inserted_all(v, front);
        if front.len() == 0 {
            assert(w == v);
        } else {
            assert(w.last_id == front.last().id);
            assert(front.last() == records[records.len() - 2]);
        }
        assert(records.last() == records[records.len() - 1]);
        lemma_insert_keeps_order(w, records.last());
        assert(v.rows + records =~= (v.rows + front).push(records.last()));
    }
}

/// Looking up a freshly registered record by its id gives that record back,
/// and every other id finds what it found before.
pub proof fn lemma_find_after_insert(v: DatabaseView, record: Link, other: i64)
    requires
        v.wf(),
        v.deletion is None,
        record.id == v.last_id + 1,
    ensures
        lookup(inserted(v, record).rows, record.id) == Some(record),
        other != record.id ==> lookup(inserted(v, record).rows, other) == lookup(v.rows, other),
{
    let rows = inserted(v, record).rows;
    lemma_push_keeps_order(v.rows, v.last_id, record);
    lemma_unique_index(rows, v.rows.len() as int);
    if other != record.id {
        if holds_id(v.rows, other) {
            let i = index_of(v.rows, other);
            lemma_unique_index(v.rows, i);
            assert(rows[i] == v.rows[i]);
            lemma_unique_index(rows, i);
        } else if holds_id(rows, other) {
            let i = index_of(rows, other);
            assert(rows[i] == v.rows[i]);
        }
    }
}

/// A deletion that the user confirmed, and whose remote revocation
/// succeeded or found the object already gone, commits: the record can no
/// longer be found, every other record stays, and no deletion is pending.
pub proof fn lemma_revoked_delete_removes(
    v: DatabaseView,
    id: i64,
    outcome: RemoteOutcome,
    other: i64,
)
    requires
        v.wf(),
        v.deletion is None,
        lookup(v.rows, id) is Some,
        !(outcome is Failed),
    ensures
        ({
            let (v1, s1) = begin_delete(v, id);
            let (v2, s2) = after_confirmation(v1, true);
            let (v3, s3) = after_revocation(v2, outcome);
            &&& s1 == DeleteStep::Confirm
            &&& s2 == DeleteStep::Revoke(lookup(v.rows, id)->Some_0.delete_link)
            &&& s3 == DeleteStep::Done(DeleteOutcome::Committed)
            &&& v3.deletion is None
            &&& v3.wf()
            &&& lookup(v3.rows, id) is None
            &&& other != id ==> lookup(v3.rows, other) == lookup(v.rows, other)
        }),
{
    let (v1, s1) = begin_delete(v, id);
    let index = index_of(v.rows, id);
    lemma_unique_index(v.rows, index);
    lemma_remove_keeps_order(v.rows, index, v.last_id);
    let rest = v.rows.remove(index);
    assert forall|a: int| 0 <= a < rest.len() implies rest[a] == (if a < index {
        v.rows[a]
    } else {
        v.rows[a + 1]
    }) by {}
    if holds_id(rest, id) {
        let j = index_of(rest, id);
        if j < index {
            assert(v.rows[j].id < v.rows[index].id);
        } else {
            assert(v.rows[index].id < v.rows[j + 1].id);
        }
    }
    if other != id {
        if holds_id(v.rows, other) {
            let i = index_of(v.rows, other);
            lemma_unique_index(v.rows, i);
            let k = if i < index { i } else { i - 1 };
            assert(rest[k] == v.rows[i]);
            lemma_unique_index(rest, k);
        } else if holds_id(rest, other) {
            let k = index_of(rest, other);
            assert(rest[k] == (if k < index { v.rows[k] } else { v.rows[k + 1] }));
        }
    }
}

/// A deletion whose remote revocation failed and whose forcing the user
/// declined rolls back: the table is exactly as it was before.
pub proof fn lemma_declined_force_restores(v: DatabaseView, id: i64, failure: RemoteFailure)
    requires
        v.wf(),
        v.deletion is None,
        lookup(v.rows, id) is Some,
    ensures
        ({
            let (v1, s1) = begin_delete(v, id);
            let (v2, s2) = after_confirmation(v1, true);
            let (v3, s3) = after_revocation(v2, RemoteOutcome::Failed(failure));
            let (v4, s4) = after_force(v3, false);
            &&& s3 == DeleteStep::Force
            &&& s4 == DeleteStep::Done(DeleteOutcome::RolledBack)
            &&& v4 == v
        }),
{
    let index = index_of(v.rows, id);
    lemma_unique_index(v.rows, index);
    lemma_remove_keeps_order(v.rows, index, v.last_id);
}

/// The local table of upload records.
pub struct Database {
    rows: Vec<Link>,
    last_id: i64,
    deletion: Option<Deletion>,
}

impl View for Database {
    type V = DatabaseView;

    closed spec fn view(&self) -> DatabaseView {
        DatabaseView { rows: self.rows@, last_id: self.last_id, deletion: self.deletion }
    }
}

impl Database {
    /// An empty table.
    pub fn new() -> (r: Database)
        ensures
            r@ == (DatabaseView { rows: Seq::empty(), last_id: 0, deletion: None }),
            r@.wf(),
    {
        Database { rows: Vec::new(), last_id: 0, deletion: None }
    }

    /// A table holding `rows`, whose last assigned id is `last_id`, as read
    /// back from durable storage. Rows out of id order, or with an id that
    /// was never handed out, are refused.
    pub fn from_rows(rows: Vec<Link>, last_id: i64) -> (r: Result<Database, TransferError>)
        ensures
            r is Ok <==> (0 <= last_id && ids_increasing(rows@) && ids_within(rows@, last_id)),
            match r {
                Ok(d) => d@ == (DatabaseView { rows: rows@, last_id, deletion: None }) && d@.wf(),
                Err(e) => e is Persistence,
            },
    {
        let mut i: usize = 0;
        let mut ok = 0 <= last_id;
        while i < rows.len()
            invariant
                i <= rows@.len(),
                ok <==> (0 <= last_id && ids_increasing(rows@.take(i as int)) && ids_within(
                    rows@.take(i as int),
                    last_id,
                )),
            decreases rows@.len() - i,
        {
            let id = rows[i].id;
            let fits = 1 <= id && id <= last_id && (i == 0 || rows[i - 1].id < id);
            proof {
                let p = rows@.take(i as int);
                let q = rows@.take(i + 1);
                assert(q =~= p.push(rows@[i as int]));
                if ok && fits {
                    assert forall|a: int, b: int| 0 <= a < b < q.len() implies q[a].id
                        < q[b].id by {
                        if b == i {
                            if a < i - 1 {
                                assert(p[a].id < p[i - 1].id);
                            }
                        } else {
                            assert(p[a].id < p[b].id);
                        }
                    }
                    assert forall|a: int| 0 <= a < q.len() implies 1 <= (#[trigger] q[a]).id
                        <= last_id by {
                        if a < i {
                            assert(q[a] == p[a]);
                        }
                    }
                }
                if !fits && 0 <= last_id && ids_increasing(q) && ids_within(q, last_id) {
                    assert(1 <= q[i as int].id <= last_id);
                    if i > 0 {
                        assert(q[i - 1].id < q[i as int].id);
                    }
                }
                if ok && !ids_increasing(p) {
                    assert(false);
                }
                if !ok && 0 <= last_id && ids_increasing(q) && ids_within(q, last_id) {
                    assert forall|a: int, b: int| 0 <= a < b < p.len() implies p[a].id
                        < p[b].id by {
                        assert(q[a] == p[a] && q[b] == p[b]);
                    }
                    assert forall|a: int| 0 <= a < p.len() implies 1 <= (#[trigger] p[a]).id
                        <= last_id by {
                        assert(q[a] == p[a]);
                    }
                }
            }
            ok = ok && fits;
            i += 1;
        }
        assert(rows@.take(rows@.len() as int) =~= rows@);
        if ok {
            Ok(Database { rows, last_id, deletion: None })
        } else {
            Err(
                TransferError::Persistence {
                    message: String::from_str("stored rows are out of order"),
                    orphan: None,
                },
            )
        }
    }

    /// All records, in increasing id order.
    pub fn get_all_entries(&self) -> (r: Vec<Link>)
        ensures
            r@ == self@.rows,
    {
        let mut result: Vec<Link> = Vec::new();
        let mut i: usize = 0;
        while i < self.rows.len()
            invariant
                i <= self.rows@.len(),
                result@ == self.rows@.take(i as int),
            decreases self.rows@.len() - i,
        {
            result.push(self.rows[i].clone());
            assert(self.rows@.take(i + 1) =~= self.rows@.take(i as int).push(self.rows@[i as int]));
            i += 1;
        }
        assert(self.rows@.take(self.rows@.len() as int) =~= self.rows@);
        result
    }

    /// The record with `entry_id`, or `None` when there is none.
    pub fn get_single_entry(&self, entry_id: i64) -> (r: Option<Link>)
        requires
            self@.wf(),
        ensures
            r == lookup(self@.rows, entry_id),
    {
        match self.position_of(entry_id) {
            Some(i) => Some(self.rows[i].clone()),
            None => None,
        }
    }

    /// Appends a record with the next id, the given fields and the digest
    /// `sha256sum`. Fails, changing nothing, once every id has been used.
    pub fn insert_entry(
        &mut self,
        name: &str,
        link: &str,
        delete_link: &str,
        sha256sum: &str,
        unix_time: u64,
    ) -> (r: Result<Link, TransferError>)
        requires
            old(self)@.wf(),
            old(self)@.deletion is None,
        ensures
            final(self)@.wf(),
            match r {
                Ok(l) => {
                    &&& old(self)@.last_id < i64::MAX
                    &&& l.id == old(self)@.last_id + 1
                    &&& l.name@ == name@
                    &&& l.link@ == link@
                    &&& l.delete_link@ == delete_link@
                    &&& l.unix_time == unix_time
                    &&& l.sha256sum matches Some(h) && h@ == sha256sum@
                    &&& final(self)@ == inserted(old(self)@, l)
                },
                Err(e) => {
                    &&& old(self)@.last_id == i64::MAX
                    &&& e matches TransferError::Persistence { orphan: None, .. }
                    &&& final(self)@ == old(self)@
                },
            },
    {
        if self.last_id == i64::MAX {
            return Err(
                TransferError::Persistence {
                    message: String::from_str("no id is left for a new record"),
                    orphan: None,
                },
            );
        }
        let record = Link {
            id: self.last_id + 1,
            name: String::from_str(name),
            link: String::from_str(link),
            delete_link: String::from_str(delete_link),
            unix_time,
            sha256sum: Some(String::from_str(sha256sum)),
        };
        proof {
            lemma_push_keeps_order(self.rows@, self.last_id, record);
        }
        self.last_id = record.id;
        self.rows.push(record.clone());
        assert(self.rows@.len() == self.rows.len());
        Ok(record)
    }

    /// Records an upload once both the transfer and the digest have finished.
    /// The first failure among them is returned and nothing is stored. When
    /// the upload succeeded but the record cannot be stored, the error
    /// carries the link and the deletion credential.
    pub fn transfer_file(
        &mut self,
        entry_name: &str,
        upload: Result<TransferResponse, TransferError>,
        file_hash: Result<String, TransferError>,
        unix_time: u64,
    ) -> (r: Result<Link, TransferError>)
        requires
            old(self)@.wf(),
            old(self)@.deletion is None,
        ensures
            final(self)@.wf(),
            match (upload, file_hash) {
                (Err(e), _) => r == Err::<Link, TransferError>(e) && final(self)@ == old(self)@,
                (Ok(_), Err(e)) => r == Err::<Link, TransferError>(e) && final(self)@ == old(
                    self,
                )@,
                (Ok(t), Ok(h)) => if old(self)@.last_id < i64::MAX {
                    &&& r matches Ok(l)
                    &&& l.id == old(self)@.last_id + 1
                    &&& l.name@ == entry_name@
                    &&& l.link@ == t.transfer_link@
                    &&& l.delete_link@ == t.delete_link@
                    &&& l.unix_time == unix_time
                    &&& l.sha256sum matches Some(d) && d@ == h@
                    &&& final(self)@ == inserted(old(self)@, l)
                } else {
                    &&& r matches Err(TransferError::Persistence { orphan: Some(o), .. })
                    &&& o == t
                    &&& final(self)@ == old(self)@
                },
            },
    {
        let response = match upload {
            Ok(t) => t,
            Err(e) => {
                return Err(e);
            },
        };
        let hash = match file_hash {
            Ok(h) => h,
            Err(e) => {
                return Err(e);
            },
        };
        match self.insert_entry(
            entry_name,
            response.transfer_link.as_str(),
            response.delete_link.as_str(),
            hash.as_str(),
            unix_time,
        ) {
            Ok(l) => Ok(l),
            Err(_) => Err(
                TransferError::Persistence {
                    message: String::from_str("the upload could not be recorded"),
                    orphan: Some(response),
                },
            ),
        }
    }

    /// The position of the row with `entry_id`, if there is one.
    fn position_of(&self, entry_id: i64) -> (r: Option<usize>)
        requires
            self@.wf(),
        ensures
            match r {
                Some(i) => i < self@.rows.len() && self@.rows[i as int].id == entry_id
                    && index_of(self@.rows, entry_id) == i && lookup(self@.rows, entry_id) == Some(
                    self@.rows[i as int],
                ),
                None => !holds_id(self@.rows, entry_id) && lookup(self@.rows, entry_id) is None,
            },
    {
        let mut i: usize = 0;
        while i < self.rows.len()
            invariant
                self@.wf(),
                i <= self.rows@.len(),
                forall|k: int| 0 <= k < i ==> (#[trigger] self.rows@[k]).id != entry_id,
            decreases self.rows@.len() - i,
        {
            if self.rows[i].id == entry_id {
                proof {
                    lemma_unique_index(self.rows@, i as int);
                }
                return Some(i);
            }
            i += 1;
        }
        None
    }

    /// Starts deleting the record with `entry_id`: asks for confirmation when
    /// it is there, and ends at once with `NotFound` when it is not.
    pub fn delete_entry(&mut self, entry_id: i64) -> (r: DeleteStep)
        requires
            old(self)@.wf(),
            old(self)@.deletion is None,
        ensures
            (final(self)@, r) == begin_delete(old(self)@, entry_id),
            final(self)@.wf(),
    {
        match self.position_of(entry_id) {
            None => DeleteStep::Done(DeleteOutcome::NotFound),
            Some(i) => {
                let record = self.rows[i].clone();
                self.deletion = Some(Deletion::Confirming { record });
                DeleteStep::Confirm
            },
        }
    }

    /// Takes the user's answer to the confirmation. On yes the row's removal
    /// is staged in a transaction and the remote revocation is asked for.
    pub fn answer_confirmation(&mut self, yes: bool) -> (r: DeleteStep)
        requires
            old(self)@.wf(),
            old(self)@.deletion matches Some(Deletion::Confirming { .. }),
        ensures
            (final(self)@, r) == after_confirmation(old(self)@, yes),
            final(self)@.wf(),
    {
        let ghost v = self@;
        match self.deletion.take() {
            Some(Deletion::Confirming { record }) => {
                if !yes {
                    return DeleteStep::Done(DeleteOutcome::Cancelled);
                }
                let index = match self.position_of(record.id) {
                    Some(i) => i,
                    None => {
                        return DeleteStep::Done(DeleteOutcome::NotFound);
                    },
                };
                proof {
                    lemma_remove_keeps_order(v.rows, index as int, v.last_id);
                }
                let credential = record.delete_link.clone();
                self.rows.remove(index);
                self.deletion = Some(Deletion::Revoking { index, record });
                DeleteStep::Revoke(credential)
            },
            _ => DeleteStep::Done(DeleteOutcome::NotFound),
        }
    }

    /// Takes what the remote service answered to the revocation.
    pub fn report_revocation(&mut self, outcome: RemoteOutcome) -> (r: DeleteStep)
        requires
            old(self)@.wf(),
            old(self)@.deletion matches Some(Deletion::Revoking { .. }),
        ensures
            (final(self)@, r) == after_revocation(old(self)@, outcome),
            final(self)@.wf(),
    {
        match self.deletion.take() {
            Some(Deletion::Revoking { index, record }) => match outcome {
                RemoteOutcome::Failed(_) => {
                    self.deletion = Some(Deletion::Forcing { index, record });
                    DeleteStep::Force
                },
                _ => DeleteStep::Done(DeleteOutcome::Committed),
            },
            _ => DeleteStep::Done(DeleteOutcome::NotFound),
        }
    }

    /// Takes the user's answer on removing the local record although the
    /// remote revocation failed: yes commits the staged removal, no rolls it
    /// back.
    pub fn answer_force(&mut self, yes: bool) -> (r: DeleteStep)
        requires
            old(self)@.wf(),
            old(self)@.deletion matches Some(Deletion::Forcing { .. }),
        ensures
            (final(self)@, r) == after_force(old(self)@, yes),
            final(self)@.wf(),
    {
        match self.deletion.take() {
            Some(Deletion::Forcing { index, record }) => {
                if yes {
                    DeleteStep::Done(DeleteOutcome::Committed)
                } else {
                    self.rows.insert(index, record);
                    DeleteStep::Done(DeleteOutcome::RolledBack)
                }
            },
            _ => DeleteStep::Done(DeleteOutcome::NotFound),
        }
    }
}

} // verus!
