//! The store's consistency laws, proved once and for all over the
//! model in [`crate::model`].
//!
//! Each operation's own contract ties its result and the new state to
//! the model's transition functions, so a law proved here about a
//! transition holds of every call of the operation.

use vstd::prelude::*;

use crate::domain::{MessageV, ProcessSchedulerV, ProcessV, SchedulerV};
use crate::model::{
    assign_insert, assign_insert_fits, assignment_index, assignment_lookup, has_assignment,
    has_message, has_process, has_sched_url, latest_of, lemma_msgs_for_push,
    message_bundle_lookup, message_index, message_lookup, msg_insert, msg_insert_fits,
    msg_row_of, msgs_for, next_assign_row_id, next_sched_row_id, proc_insert, proc_insert_fits,
    process_bundle_lookup, process_index, process_lookup, process_scheduler_lookup,
    sched_insert, sched_insert_fits, sched_url_index, scheduler_lookup_by_url, wf_scheds,
};
use crate::rows::{scheduler_of_row, DbMessageV, DbProcessSchedulerV, DbProcessV, DbSchedulerV};

verus! {

/// Idempotence of process registration: a first save of a fresh key
/// stores exactly one record; a second save under the same key — with
/// whatever record and payload — succeeds as a no-op, so the store
/// still holds exactly one record under the key, equal to the first
/// write.
pub proof fn lemma_process_save_idempotent(
    rows: Seq<DbProcessV>,
    p: ProcessV,
    b: Seq<u8>,
    p2: ProcessV,
    b2: Seq<u8>,
)
    requires
        !has_process(rows, p.process_id),
        proc_insert_fits(rows),
        p2.process_id == p.process_id,
    ensures
        has_process(proc_insert(rows, p, b), p.process_id),
        proc_insert(proc_insert(rows, p, b), p2, b2) == proc_insert(rows, p, b),
        forall|i: int|
            0 <= i < proc_insert(rows, p, b).len() && (#[trigger] proc_insert(rows, p, b)[i]).process_id
                == p.process_id ==> i == rows.len(),
        process_lookup(proc_insert(rows, p, b), p.process_id) == Some(p),
        process_bundle_lookup(proc_insert(rows, p, b), p.process_id) == Some(b),
{
    let rows1 = proc_insert(rows, p, b);
    let n = rows.len() as int;
    assert(rows1[n].process_id == p.process_id);
    assert(has_process(rows1, p.process_id));
    assert forall|i: int|
        0 <= i < rows1.len() && (#[trigger] rows1[i]).process_id == p.process_id implies i
        == n by {
        if i < n {
            assert(rows1[i] == rows[i]);
            assert(has_process(rows, p.process_id));
        }
    }
    let k = process_index(rows1, p.process_id);
    assert(0 <= k < rows1.len() && rows1[k].process_id == p.process_id);
    assert(k == n);
}

/// Duplicate rejection for messages: a first append of a fresh id
/// stores exactly one row; the relation then holds the id, so a second
/// append with the same id — with whatever record and payload — is
/// refused and creates no second row.
pub proof fn lemma_message_duplicate_rejected(
    rows: Seq<DbMessageV>,
    m: MessageV,
    b: Seq<u8>,
    m2: MessageV,
    b2: Seq<u8>,
)
    requires
        !has_message(rows, m.message_id),
        msg_insert_fits(rows),
        m2.message_id == m.message_id,
    ensures
        has_message(msg_insert(rows, m, b), m.message_id),
        msg_insert(rows, m, b).len() == rows.len() + 1,
        msg_insert(msg_insert(rows, m, b), m2, b2) == msg_insert(rows, m, b),
        forall|i: int|
            0 <= i < msg_insert(rows, m, b).len() && (#[trigger] msg_insert(rows, m, b)[i]).message_id
                == m.message_id ==> i == rows.len(),
{
    let rows1 = msg_insert(rows, m, b);
    let n = rows.len() as int;
    assert(rows1[n].message_id == m.message_id);
    assert(has_message(rows1, m.message_id));
    assert forall|i: int|
        0 <= i < rows1.len() && (#[trigger] rows1[i]).message_id == m.message_id implies i
        == n by {
        if i < n {
            assert(rows1[i] == rows[i]);
            assert(has_message(rows, m.message_id));
        }
    }
}

/// Ordering of the log: after a fresh append, the message with the
/// highest insertion sequence in its process's log is the one just
/// appended. Applied append after append, this is the guarantee that
/// `get_latest_message` always returns the most recent entry.
pub proof fn lemma_latest_is_last_appended(rows: Seq<DbMessageV>, m: MessageV, b: Seq<u8>)
    requires
        !has_message(rows, m.message_id),
        msg_insert_fits(rows),
    ensures
        latest_of(msg_insert(rows, m, b), m.process_id) == Some(m),
        forall|other: Seq<char>|
            other != m.process_id ==> latest_of(msg_insert(rows, m, b), other) == latest_of(
                rows,
                other,
            ),
{
    lemma_msgs_for_push(rows, msg_row_of(rows, m, b), m.process_id);
    assert forall|other: Seq<char>| other != m.process_id implies latest_of(
        msg_insert(rows, m, b),
        other,
    ) == latest_of(rows, other) by {
        lemma_msgs_for_push(rows, msg_row_of(rows, m, b), other);
    }
}

/// Round-trip for processes: after a fresh save, a read of the key
/// returns exactly the record that was written, and the stored binary
/// payload is the one that was written.
pub proof fn lemma_process_round_trip(rows: Seq<DbProcessV>, p: ProcessV, b: Seq<u8>)
    requires
        !has_process(rows, p.process_id),
        proc_insert_fits(rows),
    ensures
        process_lookup(proc_insert(rows, p, b), p.process_id) == Some(p),
        process_bundle_lookup(proc_insert(rows, p, b), p.process_id) == Some(b),
{
    lemma_process_save_idempotent(rows, p, b, p, b);
}

/// Round-trip for messages: after a fresh append, a read of the id
/// returns exactly the record that was written, and the stored binary
/// payload is the one that was written.
pub proof fn lemma_message_round_trip(rows: Seq<DbMessageV>, m: MessageV, b: Seq<u8>)
    requires
        !has_message(rows, m.message_id),
        msg_insert_fits(rows),
    ensures
        message_lookup(msg_insert(rows, m, b), m.message_id) == Some(m),
        message_bundle_lookup(msg_insert(rows, m, b), m.message_id) == Some(b),
{
    let rows1 = msg_insert(rows, m, b);
    let n = rows.len() as int;
    assert(rows1[n].message_id == m.message_id);
    assert(has_message(rows1, m.message_id));
    let k = message_index(rows1, m.message_id);
    assert(0 <= k < rows1.len() && rows1[k].message_id == m.message_id);
    if k < n {
        assert(rows1[k] == rows[k]);
        assert(has_message(rows, m.message_id));
    }
}

/// Idempotence of scheduler registration, matching the process
/// store's conflict policy: a first save of a fresh URL stores one
/// row with the next identity; a second save under the same URL —
/// with whatever count — succeeds as a no-op, and a read by URL
/// returns the first write.
pub proof fn lemma_scheduler_save_idempotent(
    rows: Seq<DbSchedulerV>,
    url: Seq<char>,
    c1: int,
    c2: int,
)
    requires
        !has_sched_url(rows, url),
        sched_insert_fits(rows),
    ensures
        has_sched_url(sched_insert(rows, url, c1), url),
        sched_insert(sched_insert(rows, url, c1), url, c2) == sched_insert(rows, url, c1),
        scheduler_lookup_by_url(sched_insert(rows, url, c1), url) == Some(
            SchedulerV {
                row_id: Some(next_sched_row_id(rows)),
                url,
                process_count: c1,
            },
        ),
{
    let rows1 = sched_insert(rows, url, c1);
    let n = rows.len() as int;
    assert(rows1[n].url == url);
    assert(has_sched_url(rows1, url));
    let k = sched_url_index(rows1, url);
    assert(0 <= k < rows1.len() && rows1[k].url == url);
    if k < n {
        assert(rows1[k] == rows[k]);
        assert(has_sched_url(rows, url));
    }
}

/// Assignment exclusivity: binding a fresh process to scheduler `s1`
/// records that binding; a later attempt to bind the same process to
/// any scheduler `s2` changes nothing, and the process stays bound to
/// `s1`.
pub proof fn lemma_assignment_exclusive(
    rows: Seq<DbProcessSchedulerV>,
    pid: Seq<char>,
    s1: int,
    s2: int,
)
    requires
        !has_assignment(rows, pid),
        assign_insert_fits(rows),
    ensures
        has_assignment(assign_insert(rows, pid, s1), pid),
        assignment_lookup(assign_insert(rows, pid, s1), pid) == Some(s1),
        assign_insert(assign_insert(rows, pid, s1), pid, s2) == assign_insert(rows, pid, s1),
        assignment_lookup(assign_insert(assign_insert(rows, pid, s1), pid, s2), pid) == Some(s1),
        process_scheduler_lookup(assign_insert(rows, pid, s1), pid) == Some(
            ProcessSchedulerV {
                row_id: Some(next_assign_row_id(rows)),
                process_id: pid,
                scheduler_row_id: s1,
            },
        ),
{
    let rows1 = assign_insert(rows, pid, s1);
    let n = rows.len() as int;
    assert(rows1[n].process_id == pid);
    assert(has_assignment(rows1, pid));
    let k = assignment_index(rows1, pid);
    assert(0 <= k < rows1.len() && rows1[k].process_id == pid);
    if k < n {
        assert(rows1[k] == rows[k]);
        assert(has_assignment(rows, pid));
    }
}

/// Canonical log order: in a relation whose insertion sequence is
/// strictly ascending, each process's log — what `get_messages`
/// returns — is itself in strictly ascending insertion order, and
/// every entry of it is a row of the relation.
pub proof fn lemma_log_in_insertion_order(rows: Seq<DbMessageV>, pid: Seq<char>)
    requires
        forall|i: int, j: int| 0 <= i < j < rows.len() ==> #[trigger] rows[i].row_id
            < #[trigger] rows[j].row_id,
    ensures
        forall|i: int|
            0 <= i < msgs_for(rows, pid).len() ==> exists|k: int|
                0 <= k < rows.len() && rows[k] == #[trigger] msgs_for(rows, pid)[i],
        forall|i: int, j: int|
            0 <= i < j < msgs_for(rows, pid).len() ==> #[trigger] msgs_for(rows, pid)[i].row_id
                < #[trigger] msgs_for(rows, pid)[j].row_id,
    decreases rows.len(),
{
    if rows.len() > 0 {
        let d = rows.drop_last();
        assert forall|i: int, j: int| 0 <= i < j < d.len() implies #[trigger] d[i].row_id
            < #[trigger] d[j].row_id by {
            assert(d[i] == rows[i]);
            assert(d[j] == rows[j]);
        }
        lemma_log_in_insertion_order(d, pid);
        let logd = msgs_for(d, pid);
        let log = msgs_for(rows, pid);
        if rows.last().process_id == pid {
            assert(log == logd.push(rows.last()));
            assert forall|i: int| 0 <= i < log.len() implies exists|k: int|
                0 <= k < rows.len() && rows[k] == #[trigger] log[i] by {
                if i < logd.len() {
                    assert(log[i] == logd[i]);
                    let k = choose|k: int| 0 <= k < d.len() && d[k] == #[trigger] logd[i];
                    assert(rows[k] == log[i]);
                } else {
                    assert(log[i] == rows[rows.len() - 1]);
                }
            }
            assert forall|i: int, j: int| 0 <= i < j < log.len() implies log[i].row_id
                < log[j].row_id by {
                if j < logd.len() {
                    assert(log[i] == logd[i] && log[j] == logd[j]);
                } else {
                    assert(log[i] == logd[i]);
                    let k = choose|k: int| 0 <= k < d.len() && d[k] == #[trigger] logd[i];
                    assert(rows[k] == logd[i]);
                    assert(rows[k].row_id < rows[rows.len() - 1].row_id);
                    assert(log[j] == rows[rows.len() - 1]);
                }
            }
        } else {
            assert(log == logd);
            assert forall|i: int| 0 <= i < log.len() implies exists|k: int|
                0 <= k < rows.len() && rows[k] == #[trigger] log[i] by {
                let k = choose|k: int| 0 <= k < d.len() && d[k] == #[trigger] logd[i];
                assert(rows[k] == log[i]);
            }
        }
    }
}

/// Deterministic enumeration of schedulers: under the registry
/// invariant — which every operation preserves, however inserts and
/// updates are interleaved — the relation is in strictly ascending
/// identity order, and each enumerated scheduler carries its row's
/// identity. `get_all_schedulers` returns exactly this enumeration.
pub proof fn lemma_schedulers_enumerated_in_identity_order(rows: Seq<DbSchedulerV>)
    requires
        wf_scheds(rows),
    ensures
        forall|i: int, j: int| 0 <= i < j < rows.len() ==> #[trigger] rows[i].row_id
            < #[trigger] rows[j].row_id,
        forall|i: int|
            0 <= i < rows.len() ==> scheduler_of_row(#[trigger] rows[i]).row_id == Some(
                rows[i].row_id,
            ),
{
}

} // verus!
