//! The log of messages that are waiting to be pushed to clients.
//!
//! The log only grows. Every record gets the next number as its id and is
//! filed by its time of creation, so the log is always in time order and
//! a query for what is newer than some point in time finds its answer in
//! that order.

use crate::clock::{current_time, Timestamp};
use vstd::prelude::*;
use vstd::string::*;

verus! {

/// What a [`Transaction`] holds, as plain text.
pub struct TransactionView {
    pub id: i32,
    pub message: Seq<char>,
    pub time_created: Timestamp,
}

/// One record of the log: a message and the time it was created. The id is
/// 0 until the log assigns one.
pub struct Transaction {
    pub id: i32,
    pub message: String,
    pub time_created: Timestamp,
}

impl View for Transaction {
    type V = TransactionView;

    open spec fn view(&self) -> TransactionView {
        TransactionView { id: self.id, message: self.message@, time_created: self.time_created }
    }
}

impl Transaction {
    /// A record that the log has yet to take in.
    pub fn new(msg: String, created_time: Timestamp) -> (t: Transaction)
        ensures
            t@ == new_record(msg@, created_time),
    {
        Transaction { id: 0, message: msg, time_created: created_time }
    }

    /// A copy of the record.
    pub fn duplicate(&self) -> (t: Transaction)
        ensures
            t@ == self@,
    {
        Transaction {
            id: self.id,
            message: self.message.clone(),
            time_created: self.time_created,
        }
    }
}

/// What each record of a list holds.
pub open spec fn record_views(records: Seq<Transaction>) -> Seq<TransactionView> {
    records.map_values(|t: Transaction| t@)
}

/// No record was created later than one that comes after it.
pub open spec fn in_time_order(records: Seq<TransactionView>) -> bool {
    forall|i: int, j: int|
        0 <= i < j < records.len() ==> !(#[trigger] records[i]).time_created.is_after(
            (#[trigger] records[j]).time_created,
        )
}

/// The records that were created after `since`, in the order of the list.
pub open spec fn newer_than(records: Seq<TransactionView>, since: Timestamp) -> Seq<
    TransactionView,
>
    decreases records.len(),
{
    if records.len() == 0 {
        records
    } else {
        let before = newer_than(records.drop_last(), since);
        if records.last().time_created.is_after(since) {
            before.push(records.last())
        } else {
            before
        }
    }
}

/// The place at which a record created at `at` is filed: behind every
/// record at the end of the list that was created later than it.
pub open spec fn filing_position(records: Seq<TransactionView>, at: Timestamp) -> int
    decreases records.len(),
{
    if records.len() == 0 || !records.last().time_created.is_after(at) {
        records.len() as int
    } else {
        filing_position(records.drop_last(), at)
    }
}

/// The list after a record is filed in it.
pub open spec fn filed(records: Seq<TransactionView>, record: TransactionView) -> Seq<
    TransactionView,
> {
    records.insert(filing_position(records, record.time_created), record)
}

/// A record as it is before the log takes it in: without an id.
pub open spec fn new_record(message: Seq<char>, time_created: Timestamp) -> TransactionView {
    TransactionView { id: 0, message, time_created }
}

/// What a record that was handed back holds, if one was.
pub open spec fn stored_view(stored: Option<Transaction>) -> Option<TransactionView> {
    match stored {
        Some(s) => Some(s@),
        None => None,
    }
}

/// The log after it was asked to take in a record, and the record as it is
/// stored. The record gets the next id, which is the number of records that
/// the log then has, and is filed by its time of creation. A log that has
/// used up the ids of 32 bits takes nothing in and stays as it is.
pub open spec fn taken_in(log: Seq<TransactionView>, record: TransactionView) -> (
    Seq<TransactionView>,
    Option<TransactionView>,
) {
    if log.len() < i32::MAX {
        let stored = TransactionView { id: (log.len() + 1) as i32, ..record };
        (filed(log, stored), Some(stored))
    } else {
        (log, None)
    }
}

/// Every id is one of the numbers from 1 to the length of the list.
pub open spec fn ids_assigned(records: Seq<TransactionView>) -> bool {
    forall|i: int| 0 <= i < records.len() ==> 1 <= (#[trigger] records[i]).id <= records.len()
}

/// A list in time order is still in time order without its last record.
pub proof fn time_order_without_last(records: Seq<TransactionView>)
    requires
        in_time_order(records),
        records.len() > 0,
    ensures
        in_time_order(records.drop_last()),
{
    let shorter = records.drop_last();
    assert forall|i: int, j: int| 0 <= i < j < shorter.len() implies !(
    #[trigger] shorter[i]).time_created.is_after((#[trigger] shorter[j]).time_created) by {
        assert(shorter[i] == records[i] && shorter[j] == records[j]);
    }
}

/// Where a record is filed: nothing from there on was created before it
/// or with it, and everything ahead of that place, in a list in time
/// order, was.
pub proof fn filing_position_facts(records: Seq<TransactionView>, at: Timestamp)
    ensures
        0 <= filing_position(records, at) <= records.len(),
        forall|i: int|
            filing_position(records, at) <= i < records.len() ==> (
            #[trigger] records[i]).time_created.is_after(at),
        in_time_order(records) ==> forall|i: int|
            0 <= i < filing_position(records, at) ==> !(#[trigger] records[i]).time_created.is_after(
                at,
            ),
    decreases records.len(),
{
    if records.len() == 0 || !records.last().time_created.is_after(at) {
        if records.len() > 0 && in_time_order(records) {
            assert forall|i: int| 0 <= i < records.len() implies !(
            #[trigger] records[i]).time_created.is_after(at) by {
                if i < records.len() - 1 {
                    assert(!records[i].time_created.is_after(
                        records[records.len() - 1].time_created,
                    ));
                }
            }
        }
    } else {
        let shorter = records.drop_last();
        filing_position_facts(shorter, at);
        assert forall|i: int| filing_position(records, at) <= i < records.len() implies (
        #[trigger] records[i]).time_created.is_after(at) by {
            if i < shorter.len() {
                assert(shorter[i] == records[i]);
            }
        }
        if in_time_order(records) {
            time_order_without_last(records);
            assert forall|i: int| 0 <= i < filing_position(records, at) implies !(
            #[trigger] records[i]).time_created.is_after(at) by {
                assert(shorter[i] == records[i]);
            }
        }
    }
}

/// Filing a record in a list in time order leaves the list in time order.
pub proof fn filed_keeps_time_order(records: Seq<TransactionView>, record: TransactionView)
    requires
        in_time_order(records),
    ensures
        in_time_order(filed(records, record)),
{
    let p = filing_position(records, record.time_created);
    filing_position_facts(records, record.time_created);
    let after = filed(records, record);
    assert forall|i: int, j: int| 0 <= i < j < after.len() implies !(
    #[trigger] after[i]).time_created.is_after((#[trigger] after[j]).time_created) by {
        if j < p {
            assert(after[i] == records[i] && after[j] == records[j]);
        } else if j == p {
            assert(after[i] == records[i]);
        } else if i < p {
            assert(after[i] == records[i] && after[j] == records[j - 1]);
        } else if i == p {
            assert(after[j] == records[j - 1]);
        } else {
            assert(after[i] == records[i - 1] && after[j] == records[j - 1]);
        }
    }
}

/// A record that was created no earlier than any record of the list is
/// filed at the end: records that arrive in time order stay in the order in
/// which they arrived.
pub proof fn filing_in_time_order_appends(records: Seq<TransactionView>, record: TransactionView)
    requires
        forall|i: int|
            0 <= i < records.len() ==> !(#[trigger] records[i]).time_created.is_after(
                record.time_created,
            ),
    ensures
        filed(records, record) == records.push(record),
{
    if records.len() > 0 {
        assert(!records[records.len() - 1].time_created.is_after(record.time_created));
    }
    assert(records.insert(records.len() as int, record) =~= records.push(record));
}

/// A query for what is newer than record `k` of a log in time order
/// returns the records behind `k`, all of them and in their order, as long
/// as the record that follows `k` was created later than `k` and not at the
/// same time.
pub proof fn query_returns_the_records_that_follow(records: Seq<TransactionView>, k: int)
    requires
        in_time_order(records),
        0 <= k < records.len(),
        k + 1 < records.len() ==> records[k + 1].time_created.is_after(records[k].time_created),
    ensures
        newer_than(records, records[k].time_created) == records.skip(k + 1),
    decreases records.len(),
{
    let since = records[k].time_created;
    let shorter = records.drop_last();
    if k == records.len() - 1 {
        none_newer(records, since);
        assert(records.skip(k + 1) =~= Seq::empty());
    } else {
        time_order_without_last(records);
        assert(shorter[k] == records[k]);
        if k + 1 < shorter.len() {
            assert(shorter[k + 1] == records[k + 1]);
        }
        query_returns_the_records_that_follow(shorter, k);
        let last = records.last();
        assert(last.time_created.is_after(since)) by {
            if k + 1 < records.len() - 1 {
                assert(!records[k + 1].time_created.is_after(
                    records[records.len() - 1].time_created,
                ));
            }
        }
        assert(shorter.skip(k + 1).push(last) =~= records.skip(k + 1));
    }
}

/// The log that holds the given records, filed one after the other.
pub open spec fn log_of(appended: Seq<TransactionView>) -> Seq<TransactionView>
    decreases appended.len(),
{
    if appended.len() == 0 {
        appended
    } else {
        filed(log_of(appended.drop_last()), appended.last())
    }
}

/// The round trip through the log. Records that are appended in the order
/// of their creation are held in the order in which they were appended.
/// A query for what is newer than one of them, record `k`, then returns
/// the records appended after `k`, all of them and in that order, as long
/// as the record appended next was created later than `k` and not at the
/// same time.
pub proof fn round_trip(appended: Seq<TransactionView>, k: int)
    requires
        in_time_order(appended),
        0 <= k < appended.len(),
        k + 1 < appended.len() ==> appended[k + 1].time_created.is_after(
            appended[k].time_created,
        ),
    ensures
        log_of(appended) == appended,
        newer_than(log_of(appended), appended[k].time_created) == appended.skip(k + 1),
{
    appended_in_time_order(appended);
    query_returns_the_records_that_follow(appended, k);
}

proof fn appended_in_time_order(appended: Seq<TransactionView>)
    requires
        in_time_order(appended),
    ensures
        log_of(appended) == appended,
    decreases appended.len(),
{
    if appended.len() > 0 {
        let shorter = appended.drop_last();
        time_order_without_last(appended);
        appended_in_time_order(shorter);
        assert forall|i: int| 0 <= i < shorter.len() implies !(
        #[trigger] shorter[i]).time_created.is_after(appended.last().time_created) by {
            assert(shorter[i] == appended[i]);
            assert(!appended[i].time_created.is_after(
                appended[appended.len() - 1].time_created,
            ));
        }
        filing_in_time_order_appends(shorter, appended.last());
        assert(shorter.push(appended.last()) =~= appended);
    }
}

/// Nothing is newer than a point in time that no record was created after.
pub proof fn none_newer(records: Seq<TransactionView>, since: Timestamp)
    requires
        forall|i: int| 0 <= i < records.len() ==> !(#[trigger] records[i]).time_created.is_after(since),
    ensures
        newer_than(records, since) == Seq::<TransactionView>::empty(),
    decreases records.len(),
{
    if records.len() > 0 {
        let shorter = records.drop_last();
        assert forall|i: int| 0 <= i < shorter.len() implies !(
        #[trigger] shorter[i]).time_created.is_after(since) by {
            assert(shorter[i] == records[i]);
        }
        none_newer(shorter, since);
        assert(!records[records.len() - 1].time_created.is_after(since));
    }
}

/// What a query returns is in time order, and holds nothing but records of
/// the log that are newer than the point in time asked for.
pub proof fn newer_than_facts(records: Seq<TransactionView>, since: Timestamp)
    requires
        in_time_order(records),
    ensures
        in_time_order(newer_than(records, since)),
        forall|i: int|
            0 <= i < newer_than(records, since).len() ==> {
                &&& (#[trigger] newer_than(records, since)[i]).time_created.is_after(since)
                &&& records.contains(newer_than(records, since)[i])
            },
        forall|i: int|
            0 <= i < records.len() && (#[trigger] records[i]).time_created.is_after(since)
                ==> newer_than(records, since).contains(records[i]),
    decreases records.len(),
{
    if records.len() > 0 {
        let shorter = records.drop_last();
        let last = records.last();
        time_order_without_last(records);
        newer_than_facts(shorter, since);
        let before = newer_than(shorter, since);
        let all = newer_than(records, since);
        assert forall|i: int| 0 <= i < all.len() implies {
            &&& (#[trigger] all[i]).time_created.is_after(since)
            &&& records.contains(all[i])
        } by {
            if i < before.len() {
                assert(all[i] == before[i]);
                let w = choose|w: int| 0 <= w < shorter.len() && shorter[w] == before[i];
                assert(records[w] == before[i]);
            } else {
                assert(records[records.len() - 1] == all[i]);
            }
        }
        assert forall|i: int|
            0 <= i < records.len() && (#[trigger] records[i]).time_created.is_after(
                since,
            ) implies all.contains(records[i]) by {
            if i < shorter.len() {
                assert(shorter[i] == records[i]);
                let w = choose|w: int| 0 <= w < before.len() && before[w] == shorter[i];
                assert(all[w] == records[i]);
            } else {
                assert(all[all.len() - 1] == records[i]);
            }
        }
        assert forall|i: int, j: int| 0 <= i < j < all.len() implies !(
        #[trigger] all[i]).time_created.is_after((#[trigger] all[j]).time_created) by {
            if j < before.len() {
                assert(all[i] == before[i] && all[j] == before[j]);
            } else {
                assert(all[i] == before[i]);
                let w = choose|w: int| 0 <= w < shorter.len() && shorter[w] == before[i];
                assert(records[w] == before[i]);
                assert(!records[w].time_created.is_after(
                    records[records.len() - 1].time_created,
                ));
            }
        }
    }
}

/// The log of messages.
pub struct MessageLog {
    records: Vec<Transaction>,
}

impl View for MessageLog {
    type V = Seq<TransactionView>;

    closed spec fn view(&self) -> Seq<TransactionView> {
        record_views(self.records@)
    }
}

impl MessageLog {
    #[verifier::type_invariant]
    spec fn well_formed(&self) -> bool {
        in_time_order(self@) && ids_assigned(self@)
    }

    /// A log without records.
    pub fn new() -> (log: MessageLog)
        ensures
            log@ == Seq::<TransactionView>::empty(),
    {
        let log = MessageLog { records: Vec::new() };
        assert(log@ =~= Seq::<TransactionView>::empty());
        log
    }

    /// Number of records. They are in time order, and their ids are the
    /// numbers from 1 up to their count.
    pub fn len(&self) -> (n: usize)
        ensures
            n == self@.len(),
            in_time_order(self@),
            ids_assigned(self@),
    {
        proof {
            use_type_invariant(self);
        }
        self.records.len()
    }

    /// Files a record under the next id: the number of records that the
    /// log then has. Returns the record as it is stored. Once the ids of
    /// 32 bits are used up the log takes no more records, stays as it is
    /// and returns nothing.
    pub fn insert_record(&mut self, record: Transaction) -> (stored: Option<Transaction>)
        ensures
            (final(self)@, stored_view(stored)) == taken_in(old(self)@, record@),
    {
        proof {
            use_type_invariant(&*self);
        }
        let n: usize = self.records.len();
        if n >= 0x7fff_ffff {
            return None;
        }
        let Transaction { id: _, message, time_created } = record;
        let entry = Transaction { id: (n + 1) as i32, message, time_created };
        let copy = entry.duplicate();
        let mut records: Vec<Transaction> = Vec::new();
        core::mem::swap(&mut records, &mut self.records);
        let ghost before = record_views(records@);
        let mut at: usize = n;
        proof {
            assert(before.take(n as int) =~= before);
        }
        while at > 0 && records[at - 1].time_created.after(&time_created)
            invariant
                at <= n,
                n == records@.len(),
                before == record_views(records@),
                filing_position(before, time_created) == filing_position(
                    before.take(at as int),
                    time_created,
                ),
            decreases at,
        {
            proof {
                assert(before.take(at as int).drop_last() =~= before.take(at - 1));
                assert(before.take(at as int).last() == records@[at - 1]@);
            }
            at -= 1;
        }
        proof {
            assert(before.take(n as int) =~= before);
            if at > 0 {
                assert(before.take(at as int).last() == records@[at - 1]@);
            }
            filed_keeps_time_order(before, entry@);
            let after = filed(before, entry@);
            assert(ids_assigned(after)) by {
                assert forall|i: int| 0 <= i < after.len() implies 1 <= (#[trigger] after[i]).id
                    <= after.len() by {
                    if i < at {
                        assert(after[i] == before[i]);
                    } else if i > at {
                        assert(after[i] == before[i - 1]);
                    }
                }
            }
        }
        records.insert(at, entry);
        assert(record_views(records@) =~= filed(before, copy@));
        self.records = records;
        Some(copy)
    }

    /// Files a new message with the time that the clock shows. Returns the
    /// record as it is stored, or nothing once the log takes no more.
    pub fn append(&mut self, text: String) -> (stored: Option<Transaction>)
        ensures
            exists|now: Timestamp|
                now.is_reading() && (final(self)@, stored_view(stored)) == #[trigger] taken_in(
                    old(self)@,
                    new_record(text@, now),
                ),
    {
        let now: Timestamp = current_time();
        let stored = self.insert_record(Transaction::new(text, now));
        assert(now.is_reading() && (self@, stored_view(stored)) == taken_in(
            old(self)@,
            new_record(text@, now),
        ));
        stored
    }

    /// The records that were created after `since`, oldest first.
    pub fn query(&self, since: Timestamp) -> (found: Vec<Transaction>)
        ensures
            record_views(found@) == newer_than(self@, since),
            in_time_order(record_views(found@)),
    {
        proof {
            use_type_invariant(self);
            newer_than_facts(self@, since);
        }
        let mut found: Vec<Transaction> = Vec::new();
        let n: usize = self.records.len();
        let mut i: usize = 0;
        proof {
            assert(record_views(found@) =~= newer_than(self@.take(0), since));
        }
        while i < n
            invariant
                i <= n,
                n == self@.len(),
                self@ == record_views(self.records@),
                record_views(found@) == newer_than(self@.take(i as int), since),
            decreases n - i,
        {
            proof {
                let next = self@.take(i + 1);
                assert(next.drop_last() =~= self@.take(i as int));
                assert(next.last() == self.records@[i as int]@);
            }
            if self.records[i].time_created.after(&since) {
                let copy = self.records[i].duplicate();
                proof {
                    assert(record_views(found@.push(copy)) =~= record_views(found@).push(copy@));
                }
                found.push(copy);
            }
            i += 1;
        }
        proof {
            assert(self@.take(n as int) =~= self@);
        }
        found
    }
}

} // verus!
