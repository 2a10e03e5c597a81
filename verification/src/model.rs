//! The mathematical model of the store.
//!
//! Each relation is a sequence of row views, ordered by the
//! store-assigned insertion sequence `row_id`. The spec functions here
//! say what each relation looks like after an operation — first-write-
//! wins inserts for processes, assignments and schedulers, duplicate-
//! rejecting appends for messages, in-place updates for schedulers —
//! and what each read returns. The store's executable operations are
//! specified, and the library's laws proved, entirely over these
//! functions.

use vstd::prelude::*;

use crate::domain::{MessageV, ProcessSchedulerV, ProcessV, SchedulerV};
use crate::rows::{
    process_scheduler_of_row, scheduler_of_row, DbMessageV, DbProcessSchedulerV, DbProcessV,
    DbSchedulerV,
};

verus! {

/// The greatest row identity a relation can hold.
pub open spec fn max_row_id() -> int {
    i32::MAX as int
}

// ---------------------------------------------------------------------
// Processes
// ---------------------------------------------------------------------

/// Well-formedness of the process relation: row identities are
/// strictly increasing and in range, the business key is unique, and
/// the key column agrees with the stored record.
pub open spec fn wf_procs(rows: Seq<DbProcessV>) -> bool {
    &&& forall|i: int, j: int|
        0 <= i < j < rows.len() ==> #[trigger] rows[i].row_id < #[trigger] rows[j].row_id
    &&& forall|i: int| 0 <= i < rows.len() ==> 1 <= (#[trigger] rows[i]).row_id <= max_row_id()
    &&& forall|i: int, j: int|
        0 <= i < rows.len() && 0 <= j < rows.len() && #[trigger] rows[i].process_id
            == #[trigger] rows[j].process_id ==> i == j
    &&& forall|i: int|
        0 <= i < rows.len() ==> (#[trigger] rows[i]).process_data.process_id
            == rows[i].process_id
}

/// Whether a process with this key is stored.
pub open spec fn has_process(rows: Seq<DbProcessV>, pid: Seq<char>) -> bool {
    exists|i: int| 0 <= i < rows.len() && (#[trigger] rows[i]).process_id == pid
}

/// The index of the process with this key (unique under `wf_procs`).
pub open spec fn process_index(rows: Seq<DbProcessV>, pid: Seq<char>) -> int {
    choose|i: int| 0 <= i < rows.len() && (#[trigger] rows[i]).process_id == pid
}

/// What a read of this key returns: the stored record, if any.
pub open spec fn process_lookup(rows: Seq<DbProcessV>, pid: Seq<char>) -> Option<ProcessV> {
    if has_process(rows, pid) {
        Some(rows[process_index(rows, pid)].process_data)
    } else {
        None
    }
}

/// The binary payload stored beside this key, if any.
pub open spec fn process_bundle_lookup(rows: Seq<DbProcessV>, pid: Seq<char>) -> Option<Seq<u8>> {
    if has_process(rows, pid) {
        Some(rows[process_index(rows, pid)].bundle)
    } else {
        None
    }
}

/// The insertion sequence value the next fresh row would get.
pub open spec fn next_proc_row_id(rows: Seq<DbProcessV>) -> int {
    if rows.len() == 0 {
        1
    } else {
        rows.last().row_id + 1
    }
}

/// Whether the relation can still take a fresh row.
pub open spec fn proc_insert_fits(rows: Seq<DbProcessV>) -> bool {
    next_proc_row_id(rows) <= max_row_id()
}

/// First-write-wins insert: a conflicting key leaves the relation
/// unchanged; a fresh key appends a row with the next identity.
pub open spec fn proc_insert(rows: Seq<DbProcessV>, p: ProcessV, b: Seq<u8>) -> Seq<DbProcessV> {
    if has_process(rows, p.process_id) {
        rows
    } else {
        rows.push(
            DbProcessV {
                row_id: next_proc_row_id(rows),
                process_id: p.process_id,
                process_data: p,
                bundle: b,
            },
        )
    }
}

// ---------------------------------------------------------------------
// Messages
// ---------------------------------------------------------------------

/// Well-formedness of the message relation: row identities strictly
/// increasing and in range, `message_id` globally unique, and the
/// denormalized columns agree with the stored record.
pub open spec fn wf_msgs(rows: Seq<DbMessageV>) -> bool {
    &&& forall|i: int, j: int|
        0 <= i < j < rows.len() ==> #[trigger] rows[i].row_id < #[trigger] rows[j].row_id
    &&& forall|i: int| 0 <= i < rows.len() ==> 1 <= (#[trigger] rows[i]).row_id <= max_row_id()
    &&& forall|i: int, j: int|
        0 <= i < rows.len() && 0 <= j < rows.len() && #[trigger] rows[i].message_id
            == #[trigger] rows[j].message_id ==> i == j
    &&& forall|i: int|
        0 <= i < rows.len() ==> {
            let r = #[trigger] rows[i];
            r.message_data.process_id == r.process_id && r.message_data.message_id
                == r.message_id && r.message_data.epoch == r.epoch && r.message_data.nonce
                == r.nonce && r.message_data.timestamp == r.timestamp
                && r.message_data.hash_chain == r.hash_chain
        }
}

/// Whether a message with this id is stored, in any process's log.
pub open spec fn has_message(rows: Seq<DbMessageV>, mid: Seq<char>) -> bool {
    exists|i: int| 0 <= i < rows.len() && (#[trigger] rows[i]).message_id == mid
}

/// The index of the message with this id (unique under `wf_msgs`).
pub open spec fn message_index(rows: Seq<DbMessageV>, mid: Seq<char>) -> int {
    choose|i: int| 0 <= i < rows.len() && (#[trigger] rows[i]).message_id == mid
}

/// What a read of this message id returns.
pub open spec fn message_lookup(rows: Seq<DbMessageV>, mid: Seq<char>) -> Option<MessageV> {
    if has_message(rows, mid) {
        Some(rows[message_index(rows, mid)].message_data)
    } else {
        None
    }
}

/// The binary payload stored beside this message id, if any.
pub open spec fn message_bundle_lookup(rows: Seq<DbMessageV>, mid: Seq<char>) -> Option<Seq<u8>> {
    if has_message(rows, mid) {
        Some(rows[message_index(rows, mid)].bundle)
    } else {
        None
    }
}

/// One process's log: the rows carrying its key, in relation order
/// (ascending insertion sequence).
pub open spec fn msgs_for(rows: Seq<DbMessageV>, pid: Seq<char>) -> Seq<DbMessageV>
    decreases rows.len(),
{
    if rows.len() == 0 {
        Seq::empty()
    } else {
        let rest = msgs_for(rows.drop_last(), pid);
        if rows.last().process_id == pid {
            rest.push(rows.last())
        } else {
            rest
        }
    }
}

/// The record of the log entry with the highest insertion sequence, or
/// `None` for an empty log.
pub open spec fn latest_of(rows: Seq<DbMessageV>, pid: Seq<char>) -> Option<MessageV> {
    let log = msgs_for(rows, pid);
    if log.len() == 0 {
        None
    } else {
        Some(log.last().message_data)
    }
}

/// The insertion sequence value the next fresh row would get.
pub open spec fn next_msg_row_id(rows: Seq<DbMessageV>) -> int {
    if rows.len() == 0 {
        1
    } else {
        rows.last().row_id + 1
    }
}

/// Whether the relation can still take a fresh row.
pub open spec fn msg_insert_fits(rows: Seq<DbMessageV>) -> bool {
    next_msg_row_id(rows) <= max_row_id()
}

/// The row a fresh append of this record and payload produces.
pub open spec fn msg_row_of(rows: Seq<DbMessageV>, m: MessageV, b: Seq<u8>) -> DbMessageV {
    DbMessageV {
        row_id: next_msg_row_id(rows),
        process_id: m.process_id,
        message_id: m.message_id,
        message_data: m,
        epoch: m.epoch,
        nonce: m.nonce,
        timestamp: m.timestamp,
        bundle: b,
        hash_chain: m.hash_chain,
    }
}

/// Duplicate-rejecting append: a conflicting `message_id` leaves the
/// relation unchanged (the operation reports the duplicate); a fresh
/// id appends a row with the next identity.
pub open spec fn msg_insert(rows: Seq<DbMessageV>, m: MessageV, b: Seq<u8>) -> Seq<DbMessageV> {
    if has_message(rows, m.message_id) {
        rows
    } else {
        rows.push(msg_row_of(rows, m, b))
    }
}

// ---------------------------------------------------------------------
// Schedulers
// ---------------------------------------------------------------------

/// Well-formedness of the scheduler relation: row identities strictly
/// increasing and in range, and the URL unique.
pub open spec fn wf_scheds(rows: Seq<DbSchedulerV>) -> bool {
    &&& forall|i: int, j: int|
        0 <= i < j < rows.len() ==> #[trigger] rows[i].row_id < #[trigger] rows[j].row_id
    &&& forall|i: int| 0 <= i < rows.len() ==> 1 <= (#[trigger] rows[i]).row_id <= max_row_id()
    &&& forall|i: int, j: int|
        0 <= i < rows.len() && 0 <= j < rows.len() && #[trigger] rows[i].url
            == #[trigger] rows[j].url ==> i == j
}

/// Whether a scheduler with this URL is registered.
pub open spec fn has_sched_url(rows: Seq<DbSchedulerV>, url: Seq<char>) -> bool {
    exists|i: int| 0 <= i < rows.len() && (#[trigger] rows[i]).url == url
}

/// The index of the scheduler with this URL (unique under `wf_scheds`).
pub open spec fn sched_url_index(rows: Seq<DbSchedulerV>, url: Seq<char>) -> int {
    choose|i: int| 0 <= i < rows.len() && (#[trigger] rows[i]).url == url
}

/// Whether a scheduler with this identity is registered.
pub open spec fn has_sched_id(rows: Seq<DbSchedulerV>, rid: int) -> bool {
    exists|i: int| 0 <= i < rows.len() && (#[trigger] rows[i]).row_id == rid
}

/// The index of the scheduler with this identity (unique under
/// `wf_scheds`, the identities being strictly increasing).
pub open spec fn sched_id_index(rows: Seq<DbSchedulerV>, rid: int) -> int {
    choose|i: int| 0 <= i < rows.len() && (#[trigger] rows[i]).row_id == rid
}

/// The insertion sequence value the next fresh row would get.
pub open spec fn next_sched_row_id(rows: Seq<DbSchedulerV>) -> int {
    if rows.len() == 0 {
        1
    } else {
        rows.last().row_id + 1
    }
}

/// Whether the relation can still take a fresh row.
pub open spec fn sched_insert_fits(rows: Seq<DbSchedulerV>) -> bool {
    next_sched_row_id(rows) <= max_row_id()
}

/// First-write-wins insert keyed by URL.
pub open spec fn sched_insert(rows: Seq<DbSchedulerV>, url: Seq<char>, count: int) -> Seq<
    DbSchedulerV,
> {
    if has_sched_url(rows, url) {
        rows
    } else {
        rows.push(DbSchedulerV { row_id: next_sched_row_id(rows), url, process_count: count })
    }
}

/// What a read by identity returns: the stored row in domain shape,
/// its identity populated.
pub open spec fn scheduler_lookup(rows: Seq<DbSchedulerV>, rid: int) -> Option<SchedulerV> {
    if has_sched_id(rows, rid) {
        Some(scheduler_of_row(rows[sched_id_index(rows, rid)]))
    } else {
        None
    }
}

/// What a read by URL returns.
pub open spec fn scheduler_lookup_by_url(rows: Seq<DbSchedulerV>, url: Seq<char>) -> Option<
    SchedulerV,
> {
    if has_sched_url(rows, url) {
        Some(scheduler_of_row(rows[sched_url_index(rows, url)]))
    } else {
        None
    }
}

/// Whether updating the scheduler with identity `rid` to this URL
/// would collide with a different row's unique URL.
pub open spec fn sched_update_conflict(rows: Seq<DbSchedulerV>, rid: int, url: Seq<char>) -> bool {
    has_sched_id(rows, rid) && exists|j: int|
        0 <= j < rows.len() && (#[trigger] rows[j]).url == url && rows[j].row_id != rid
}

/// In-place update by identity: URL and count of the matching row are
/// replaced; an absent identity changes nothing (the statement matches
/// no row).
pub open spec fn sched_update(rows: Seq<DbSchedulerV>, rid: int, url: Seq<char>, count: int) -> Seq<
    DbSchedulerV,
> {
    if has_sched_id(rows, rid) {
        rows.update(
            sched_id_index(rows, rid),
            DbSchedulerV { row_id: rid, url, process_count: count },
        )
    } else {
        rows
    }
}

// ---------------------------------------------------------------------
// Assignments
// ---------------------------------------------------------------------

/// Well-formedness of the assignment relation: row identities strictly
/// increasing and in range, and the process key unique.
pub open spec fn wf_assigns(rows: Seq<DbProcessSchedulerV>) -> bool {
    &&& forall|i: int, j: int|
        0 <= i < j < rows.len() ==> #[trigger] rows[i].row_id < #[trigger] rows[j].row_id
    &&& forall|i: int| 0 <= i < rows.len() ==> 1 <= (#[trigger] rows[i]).row_id <= max_row_id()
    &&& forall|i: int, j: int|
        0 <= i < rows.len() && 0 <= j < rows.len() && #[trigger] rows[i].process_id
            == #[trigger] rows[j].process_id ==> i == j
}

/// Whether this process is assigned to some scheduler.
pub open spec fn has_assignment(rows: Seq<DbProcessSchedulerV>, pid: Seq<char>) -> bool {
    exists|i: int| 0 <= i < rows.len() && (#[trigger] rows[i]).process_id == pid
}

/// The index of this process's assignment (unique under `wf_assigns`).
pub open spec fn assignment_index(rows: Seq<DbProcessSchedulerV>, pid: Seq<char>) -> int {
    choose|i: int| 0 <= i < rows.len() && (#[trigger] rows[i]).process_id == pid
}

/// The identity of the scheduler this process is bound to, if any.
pub open spec fn assignment_lookup(rows: Seq<DbProcessSchedulerV>, pid: Seq<char>) -> Option<int> {
    if has_assignment(rows, pid) {
        Some(rows[assignment_index(rows, pid)].scheduler_row_id)
    } else {
        None
    }
}

/// What a read of this process's assignment returns: the stored row
/// in domain shape, its identity populated.
pub open spec fn process_scheduler_lookup(rows: Seq<DbProcessSchedulerV>, pid: Seq<char>) -> Option<
    ProcessSchedulerV,
> {
    if has_assignment(rows, pid) {
        Some(process_scheduler_of_row(rows[assignment_index(rows, pid)]))
    } else {
        None
    }
}

/// The insertion sequence value the next fresh row would get.
pub open spec fn next_assign_row_id(rows: Seq<DbProcessSchedulerV>) -> int {
    if rows.len() == 0 {
        1
    } else {
        rows.last().row_id + 1
    }
}

/// Whether the relation can still take a fresh row.
pub open spec fn assign_insert_fits(rows: Seq<DbProcessSchedulerV>) -> bool {
    next_assign_row_id(rows) <= max_row_id()
}

/// First-assignment-wins insert keyed by the process id.
pub open spec fn assign_insert(rows: Seq<DbProcessSchedulerV>, pid: Seq<char>, sched_rid: int) -> Seq<
    DbProcessSchedulerV,
> {
    if has_assignment(rows, pid) {
        rows
    } else {
        rows.push(
            DbProcessSchedulerV {
                row_id: next_assign_row_id(rows),
                process_id: pid,
                scheduler_row_id: sched_rid,
            },
        )
    }
}

// ---------------------------------------------------------------------
// Shared helpers
// ---------------------------------------------------------------------

/// The element-wise view of a sequence of rows.
pub open spec fn views_of<T: View>(s: Seq<T>) -> Seq<T::V> {
    Seq::new(s.len(), |i: int| s[i]@)
}

/// Pushing a row and taking views commutes.
pub proof fn lemma_views_of_push<T: View>(s: Seq<T>, x: T)
    ensures
        views_of(s.push(x)) == views_of(s).push(x@),
{
    assert(views_of(s.push(x)) =~= views_of(s).push(x@));
}

/// Updating a row and taking views commutes.
pub proof fn lemma_views_of_update<T: View>(s: Seq<T>, k: int, x: T)
    requires
        0 <= k < s.len(),
    ensures
        views_of(s.update(k, x)) == views_of(s).update(k, x@),
{
    assert(views_of(s.update(k, x)) =~= views_of(s).update(k, x@));
}

/// Row identities are unique in a well-formed scheduler relation:
/// they are strictly increasing along it.
pub proof fn lemma_sched_id_unique(rows: Seq<DbSchedulerV>, a: int, b: int)
    requires
        wf_scheds(rows),
        0 <= a < rows.len(),
        0 <= b < rows.len(),
        rows[a].row_id == rows[b].row_id,
    ensures
        a == b,
{
    if a < b {
        assert(rows[a].row_id < rows[b].row_id);
    }
    if b < a {
        assert(rows[b].row_id < rows[a].row_id);
    }
}

/// One step of walking a message relation from the front: the log of
/// the first `j + 1` rows extends the log of the first `j` rows by the
/// `j`-th row exactly when that row carries the key.
pub proof fn lemma_msgs_for_take_step(rows: Seq<DbMessageV>, pid: Seq<char>, j: int)
    requires
        0 <= j < rows.len(),
    ensures
        msgs_for(rows.take(j + 1), pid) == if rows[j].process_id == pid {
            msgs_for(rows.take(j), pid).push(rows[j])
        } else {
            msgs_for(rows.take(j), pid)
        },
{
    assert(rows.take(j + 1).drop_last() =~= rows.take(j));
    assert(rows.take(j + 1).last() == rows[j]);
}

/// Appending a row extends exactly the log of its own process and
/// leaves every other log unchanged.
pub proof fn lemma_msgs_for_push(rows: Seq<DbMessageV>, x: DbMessageV, pid: Seq<char>)
    ensures
        msgs_for(rows.push(x), pid) == if x.process_id == pid {
            msgs_for(rows, pid).push(x)
        } else {
            msgs_for(rows, pid)
        },
{
    assert(rows.push(x).drop_last() =~= rows);
    assert(rows.push(x).last() == x);
}

} // verus!
