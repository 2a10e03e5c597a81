//! The storage client: the verified operation surface over the four
//! relations and the connection pool.
//!
//! Every operation leases a connection, performs one unit of work, and
//! releases the lease on every exit path — each contract shows the
//! release by leaving `pool_available` unchanged. The conflict policy
//! is explicit per entity: processes, schedulers and assignments are
//! first-write-wins (a conflicting insert is a silent no-op), while a
//! conflicting message id is reported as an error, so a caller can tell
//! "already logged" from "newly logged".

use vstd::prelude::*;

use crate::domain::{Message, Process, ProcessScheduler, Scheduler};
use crate::error::StoreErrorType;
use crate::model::{
    assign_insert, assign_insert_fits, assignment_index, has_assignment, has_message,
    has_process, has_sched_id, has_sched_url, latest_of, lemma_msgs_for_take_step,
    lemma_sched_id_unique, lemma_views_of_push, lemma_views_of_update, max_row_id,
    message_index, message_lookup, msg_insert, msg_insert_fits, msgs_for, proc_insert,
    proc_insert_fits, process_index, process_lookup, process_scheduler_lookup, sched_id_index,
    sched_insert, sched_insert_fits, sched_update, sched_update_conflict, sched_url_index,
    scheduler_lookup, scheduler_lookup_by_url, views_of, wf_assigns, wf_msgs, wf_procs,
    wf_scheds,
};
use crate::pool::{ConnLease, ConnPool};
use crate::strings::str_eq;
use crate::rows::{
    message_row, new_message, new_process, new_process_scheduler, new_scheduler, process_row,
    process_scheduler_from_row, process_scheduler_row, scheduler_from_row, scheduler_of_row,
    scheduler_row, DbMessage, DbMessageV, DbProcess, DbProcessScheduler, DbProcessSchedulerV,
    DbProcessV, DbScheduler, DbSchedulerV,
};

verus! {

/// The persistence client: a bounded connection pool over the four
/// relations of the store.
pub struct StoreClient {
    pool: ConnPool,
    processes: Vec<DbProcess>,
    messages: Vec<DbMessage>,
    schedulers: Vec<DbScheduler>,
    process_schedulers: Vec<DbProcessScheduler>,
}

impl StoreClient {
    /// The bound of the connection pool.
    pub closed spec fn pool_size(&self) -> int {
        self.pool.size()
    }

    /// How many pooled connections are free.
    pub closed spec fn pool_available(&self) -> int {
        self.pool.available()
    }

    /// The process relation, in insertion order.
    pub closed spec fn procs(&self) -> Seq<DbProcessV> {
        views_of(self.processes@)
    }

    /// The message relation, in insertion order.
    pub closed spec fn msgs(&self) -> Seq<DbMessageV> {
        views_of(self.messages@)
    }

    /// The scheduler relation, in insertion order.
    pub closed spec fn scheds(&self) -> Seq<DbSchedulerV> {
        views_of(self.schedulers@)
    }

    /// The assignment relation, in insertion order.
    pub closed spec fn assigns(&self) -> Seq<DbProcessSchedulerV> {
        views_of(self.process_schedulers@)
    }

    /// The pool's own invariant.
    pub closed spec fn pool_wf(&self) -> bool {
        self.pool.wf()
    }

    /// The client invariant: a well-formed pool and the four relations'
    /// key and ordering constraints.
    pub open spec fn wf(&self) -> bool {
        &&& self.pool_wf()
        &&& wf_procs(self.procs())
        &&& wf_msgs(self.msgs())
        &&& wf_scheds(self.scheds())
        &&& wf_assigns(self.assigns())
    }

    /// The relations are all unchanged.
    pub open spec fn same_tables(&self, other: &StoreClient) -> bool {
        &&& self.procs() == other.procs()
        &&& self.msgs() == other.msgs()
        &&& self.scheds() == other.scheds()
        &&& self.assigns() == other.assigns()
    }

    /// The pool's bound and free count are unchanged: every lease taken
    /// during the operation was released.
    pub open spec fn same_pool(&self, other: &StoreClient) -> bool {
        &&& self.pool_size() == other.pool_size()
        &&& self.pool_available() == other.pool_available()
    }

    /// Creates a client over an empty store with `pool_size`
    /// connections. A pool bound of zero is a misconfiguration and is
    /// reported as a `DatabaseError`, as a pool that cannot be built is.
    pub fn new(pool_size: usize) -> (r: Result<StoreClient, StoreErrorType>)
        ensures
            pool_size == 0 ==> (r matches Err(StoreErrorType::DatabaseError(s)) && s@
                == "Failed to initialize connection pool."@),
            pool_size > 0 ==> (r matches Ok(c) && c.wf() && c.pool_size() == pool_size as int
                && c.pool_available() == pool_size as int && c.procs().len() == 0
                && c.msgs().len() == 0 && c.scheds().len() == 0 && c.assigns().len() == 0),
    {
        if pool_size == 0 {
            Err(
                StoreErrorType::DatabaseError(
                    "Failed to initialize connection pool.".to_owned(),
                ),
            )
        } else {
            Ok(
                StoreClient {
                    pool: ConnPool::new(pool_size),
                    processes: Vec::new(),
                    messages: Vec::new(),
                    schedulers: Vec::new(),
                    process_schedulers: Vec::new(),
                },
            )
        }
    }

    /// Leases a connection out of the pool; the caller must give it
    /// back with [`Self::return_conn`]. Fails with a `DatabaseError` if
    /// and only if the pool is exhausted.
    pub fn get_conn(&mut self) -> (r: Result<ConnLease, StoreErrorType>)
        requires
            old(self).wf(),
        ensures
            final(self).wf(),
            final(self).same_tables(old(self)),
            final(self).pool_size() == old(self).pool_size(),
            old(self).pool_available() == 0 ==> (r matches Err(
                StoreErrorType::DatabaseError(s),
            ) && s@ == "Failed to get connection from pool."@ && final(self).pool_available()
                == 0),
            old(self).pool_available() > 0 ==> (r is Ok && final(self).pool_available() == old(
                self,
            ).pool_available() - 1),
    {
        self.pool.acquire()
    }

    /// Gives a leased connection back to the pool.
    pub fn return_conn(&mut self, lease: ConnLease)
        requires
            old(self).wf(),
            old(self).pool_available() < old(self).pool_size(),
        ensures
            final(self).wf(),
            final(self).same_tables(old(self)),
            final(self).pool_size() == old(self).pool_size(),
            final(self).pool_available() == old(self).pool_available() + 1,
    {
        self.pool.release(lease);
    }

    /// Inserts a process keyed by `process_id`. A conflicting key is a
    /// silent no-op that still reports success (first-write-wins); a
    /// fresh key appends a row with the next insertion sequence value.
    /// Pool or sequence exhaustion is a `DatabaseError` and writes
    /// nothing.
    pub fn save_process(&mut self, process: &Process, bundle_in: &[u8]) -> (r: Result<
        String,
        StoreErrorType,
    >)
        requires
            old(self).wf(),
        ensures
            final(self).wf(),
            final(self).same_pool(old(self)),
            final(self).msgs() == old(self).msgs(),
            final(self).scheds() == old(self).scheds(),
            final(self).assigns() == old(self).assigns(),
            old(self).pool_available() == 0 ==> (r matches Err(StoreErrorType::DatabaseError(_))
                && final(self).procs() == old(self).procs()),
            old(self).pool_available() > 0 && (has_process(old(self).procs(), process@.process_id)
                || proc_insert_fits(old(self).procs())) ==> (r matches Ok(s) && s@ == "saved"@
                && final(self).procs() == proc_insert(old(self).procs(), process@, bundle_in@)),
            old(self).pool_available() > 0 && !has_process(old(self).procs(), process@.process_id)
                && !proc_insert_fits(old(self).procs()) ==> (r matches Err(
                StoreErrorType::DatabaseError(_),
            ) && final(self).procs() == old(self).procs()),
    {
        let lease = match self.pool.acquire() {
            Ok(l) => l,
            Err(e) => {
                return Err(e);
            },
        };
        let found = find_process(&self.processes, process.process_id.as_str());
        match found {
            Some(_) => {
                self.pool.release(lease);
                Ok("saved".to_owned())
            },
            None => {
                let n = self.processes.len();
                let row_id_new: i32;
                if n == 0 {
                    row_id_new = 1;
                } else {
                    let last = self.processes[n - 1].row_id;
                    proof {
                        let rv0 = views_of(self.processes@);
                        assert(1 <= rv0[n as int - 1].row_id <= max_row_id());
                        assert(last as int == rv0[n as int - 1].row_id);
                    }
                    if last == i32::MAX {
                        self.pool.release(lease);
                        return Err(
                            StoreErrorType::DatabaseError(
                                "Insertion sequence exhausted".to_owned(),
                            ),
                        );
                    }
                    row_id_new = last + 1;
                }
                let row = process_row(new_process(process, bundle_in), row_id_new);
                let ghost pre = self.processes@;
                self.processes.push(row);
                proof {
                    lemma_views_of_push(pre, row);
                    let rv0 = views_of(pre);
                    let rv1 = views_of(self.processes@);
                    let m = rv0.len() as int;
                    assert forall|a: int, b: int| 0 <= a < b < rv1.len() implies rv1[a].row_id
                        < rv1[b].row_id by {
                        if b == m && 0 < m && a < m - 1 {
                            assert(rv0[a].row_id < rv0[m - 1].row_id);
                        }
                    }
                    assert forall|i: int| 0 <= i < rv1.len() implies 1 <= (#[trigger] rv1[i]).row_id
                        <= max_row_id() by {
                        if i < m {
                            assert(1 <= rv0[i].row_id <= max_row_id());
                        } else {
                            assert(rv1[i] == row@);
                        }
                    }
                    assert forall|a: int, b: int|
                        0 <= a < rv1.len() && 0 <= b < rv1.len() && rv1[a].process_id
                            == rv1[b].process_id implies a == b by {
                        if a < m && b == m {
                            assert(has_process(rv0, process@.process_id));
                        }
                        if b < m && a == m {
                            assert(has_process(rv0, process@.process_id));
                        }
                    }
                }
                self.pool.release(lease);
                Ok("saved".to_owned())
            },
        }
    }

    /// Reads the process stored under this key: `NotFound` if the key
    /// is absent, the stored record otherwise.
    pub fn get_process(&mut self, process_id_in: &str) -> (r: Result<Process, StoreErrorType>)
        requires
            old(self).wf(),
        ensures
            final(self).wf(),
            final(self).same_pool(old(self)),
            final(self).same_tables(old(self)),
            old(self).pool_available() == 0 ==> r matches Err(StoreErrorType::DatabaseError(_)),
            old(self).pool_available() > 0 ==> match process_lookup(
                old(self).procs(),
                process_id_in@,
            ) {
                Some(p) => r matches Ok(q) && q@ == p,
                None => r matches Err(StoreErrorType::NotFound(s)) && s@ == "Process not found"@,
            },
    {
        let lease = match self.pool.acquire() {
            Ok(l) => l,
            Err(e) => {
                return Err(e);
            },
        };
        let found = find_process(&self.processes, process_id_in);
        let out = match found {
            Some(i) => {
                let p = self.processes[i].process_data.clone();
                proof {
                    let rv = views_of(self.processes@);
                    let k = process_index(rv, process_id_in@);
                    assert(0 <= k < rv.len() && rv[k].process_id == process_id_in@);
                    assert(i as int == k);
                }
                Ok(p)
            },
            None => Err(StoreErrorType::NotFound("Process not found".to_owned())),
        };
        self.pool.release(lease);
        out
    }

    /// Appends a message keyed by `message_id`. Unlike a process
    /// insert, a conflicting id is an explicit error — the exact
    /// `DatabaseError` text below — and writes nothing, so a caller
    /// can tell "already logged" from "newly logged". A fresh id
    /// appends a row with the next insertion sequence value.
    pub fn save_message(&mut self, message: &Message, bundle_in: &[u8]) -> (r: Result<
        String,
        StoreErrorType,
    >)
        requires
            old(self).wf(),
        ensures
            final(self).wf(),
            final(self).same_pool(old(self)),
            final(self).procs() == old(self).procs(),
            final(self).scheds() == old(self).scheds(),
            final(self).assigns() == old(self).assigns(),
            old(self).pool_available() == 0 ==> (r matches Err(StoreErrorType::DatabaseError(_))
                && final(self).msgs() == old(self).msgs()),
            old(self).pool_available() > 0 && has_message(old(self).msgs(), message@.message_id)
                ==> (r matches Err(StoreErrorType::DatabaseError(s)) && s@
                == "Duplicate message id"@ && final(self).msgs() == old(self).msgs()),
            old(self).pool_available() > 0 && !has_message(old(self).msgs(), message@.message_id)
                && msg_insert_fits(old(self).msgs()) ==> (r matches Ok(s) && s@ == "saved"@
                && final(self).msgs() == msg_insert(old(self).msgs(), message@, bundle_in@)),
            old(self).pool_available() > 0 && !has_message(old(self).msgs(), message@.message_id)
                && !msg_insert_fits(old(self).msgs()) ==> (r matches Err(
                StoreErrorType::DatabaseError(s),
            ) && s@ == "Insertion sequence exhausted"@ && final(self).msgs() == old(self).msgs()),
    {
        let lease = match self.pool.acquire() {
            Ok(l) => l,
            Err(e) => {
                return Err(e);
            },
        };
        let found = find_message(&self.messages, message.message_id.as_str());
        match found {
            Some(_) => {
                self.pool.release(lease);
                Err(StoreErrorType::DatabaseError("Duplicate message id".to_owned()))
            },
            None => {
                let n = self.messages.len();
                let row_id_new: i32;
                if n == 0 {
                    row_id_new = 1;
                } else {
                    let last = self.messages[n - 1].row_id;
                    proof {
                        let rv0 = views_of(self.messages@);
                        assert(1 <= rv0[n as int - 1].row_id <= max_row_id());
                        assert(last as int == rv0[n as int - 1].row_id);
                    }
                    if last == i32::MAX {
                        self.pool.release(lease);
                        return Err(
                            StoreErrorType::DatabaseError(
                                "Insertion sequence exhausted".to_owned(),
                            ),
                        );
                    }
                    row_id_new = last + 1;
                }
                let row = message_row(new_message(message, bundle_in), row_id_new);
                let ghost pre = self.messages@;
                self.messages.push(row);
                proof {
                    lemma_views_of_push(pre, row);
                    let rv0 = views_of(pre);
                    let rv1 = views_of(self.messages@);
                    let m = rv0.len() as int;
                    assert forall|a: int, b: int| 0 <= a < b < rv1.len() implies rv1[a].row_id
                        < rv1[b].row_id by {
                        if b == m && 0 < m && a < m - 1 {
                            assert(rv0[a].row_id < rv0[m - 1].row_id);
                        }
                    }
                    assert forall|i: int| 0 <= i < rv1.len() implies 1 <= (#[trigger] rv1[i]).row_id
                        <= max_row_id() by {
                        if i < m {
                            assert(1 <= rv0[i].row_id <= max_row_id());
                        } else {
                            assert(rv1[i] == row@);
                        }
                    }
                    assert forall|a: int, b: int|
                        0 <= a < rv1.len() && 0 <= b < rv1.len() && rv1[a].message_id
                            == rv1[b].message_id implies a == b by {
                        if a < m && b == m {
                            assert(has_message(rv0, message@.message_id));
                        }
                        if b < m && a == m {
                            assert(has_message(rv0, message@.message_id));
                        }
                    }
                }
                self.pool.release(lease);
                Ok("saved".to_owned())
            },
        }
    }

    /// Reads the message stored under this id: `NotFound` if the id is
    /// absent, the stored record otherwise.
    pub fn get_message(&mut self, message_id_in: &str) -> (r: Result<Message, StoreErrorType>)
        requires
            old(self).wf(),
        ensures
            final(self).wf(),
            final(self).same_pool(old(self)),
            final(self).same_tables(old(self)),
            old(self).pool_available() == 0 ==> r matches Err(StoreErrorType::DatabaseError(_)),
            old(self).pool_available() > 0 ==> match message_lookup(
                old(self).msgs(),
                message_id_in@,
            ) {
                Some(m) => r matches Ok(q) && q@ == m,
                None => r matches Err(StoreErrorType::NotFound(s)) && s@ == "Message not found"@,
            },
    {
        let lease = match self.pool.acquire() {
            Ok(l) => l,
            Err(e) => {
                return Err(e);
            },
        };
        let found = find_message(&self.messages, message_id_in);
        let out = match found {
            Some(i) => {
                let m = self.messages[i].message_data.clone();
                proof {
                    let rv = views_of(self.messages@);
                    let k = message_index(rv, message_id_in@);
                    assert(0 <= k < rv.len() && rv[k].message_id == message_id_in@);
                    assert(i as int == k);
                }
                Ok(m)
            },
            None => Err(StoreErrorType::NotFound("Message not found".to_owned())),
        };
        self.pool.release(lease);
        out
    }

    /// Reads one process's whole log, in canonical order: ascending
    /// insertion sequence.
    pub fn get_messages(&mut self, process_id_in: &str) -> (r: Result<Vec<Message>, StoreErrorType>)
        requires
            old(self).wf(),
        ensures
            final(self).wf(),
            final(self).same_pool(old(self)),
            final(self).same_tables(old(self)),
            old(self).pool_available() == 0 ==> r matches Err(StoreErrorType::DatabaseError(_)),
            old(self).pool_available() > 0 ==> (r matches Ok(v) && v@.len() == msgs_for(
                old(self).msgs(),
                process_id_in@,
            ).len() && forall|i: int|
                0 <= i < v@.len() ==> v@[i]@ == msgs_for(old(self).msgs(), process_id_in@)[i].message_data),
    {
        let lease = match self.pool.acquire() {
            Ok(l) => l,
            Err(e) => {
                return Err(e);
            },
        };
        let ghost rows = views_of(self.messages@);
        let mut out: Vec<Message> = Vec::new();
        let n = self.messages.len();
        let mut j: usize = 0;
        while j < n
            invariant
                n == self.messages@.len(),
                rows == views_of(self.messages@),
                j <= n,
                out@.len() == msgs_for(rows.take(j as int), process_id_in@).len(),
                forall|i: int|
                    0 <= i < out@.len() ==> out@[i]@ == msgs_for(
                        rows.take(j as int),
                        process_id_in@,
                    )[i].message_data,
            decreases n - j,
        {
            proof {
                lemma_msgs_for_take_step(rows, process_id_in@, j as int);
            }
            if str_eq(self.messages[j].process_id.as_str(), process_id_in) {
                out.push(self.messages[j].message_data.clone());
            }
            j = j + 1;
        }
        proof {
            assert(rows.take(n as int) =~= rows);
        }
        self.pool.release(lease);
        Ok(out)
    }

    /// Reads the log entry with the highest insertion sequence for a
    /// process, or `None` for a process with no messages.
    pub fn get_latest_message(&mut self, process_id_in: &str) -> (r: Result<
        Option<Message>,
        StoreErrorType,
    >)
        requires
            old(self).wf(),
        ensures
            final(self).wf(),
            final(self).same_pool(old(self)),
            final(self).same_tables(old(self)),
            old(self).pool_available() == 0 ==> r matches Err(StoreErrorType::DatabaseError(_)),
            old(self).pool_available() > 0 ==> (r matches Ok(opt) && (match latest_of(
                old(self).msgs(),
                process_id_in@,
            ) {
                Some(mv) => opt matches Some(m) && m@ == mv,
                None => opt is None,
            })),
    {
        let lease = match self.pool.acquire() {
            Ok(l) => l,
            Err(e) => {
                return Err(e);
            },
        };
        let ghost rows = views_of(self.messages@);
        let n = self.messages.len();
        let mut best: Option<usize> = None;
        let mut j: usize = 0;
        while j < n
            invariant
                n == self.messages@.len(),
                rows == views_of(self.messages@),
                j <= n,
                match best {
                    None => msgs_for(rows.take(j as int), process_id_in@).len() == 0,
                    Some(k) => k < j && msgs_for(rows.take(j as int), process_id_in@).len() > 0
                        && msgs_for(rows.take(j as int), process_id_in@).last() == rows[k as int],
                },
            decreases n - j,
        {
            proof {
                lemma_msgs_for_take_step(rows, process_id_in@, j as int);
            }
            if str_eq(self.messages[j].process_id.as_str(), process_id_in) {
                best = Some(j);
            }
            j = j + 1;
        }
        proof {
            assert(rows.take(n as int) =~= rows);
        }
        let out = match best {
            Some(k) => Ok(Some(self.messages[k].message_data.clone())),
            None => Ok(None),
        };
        self.pool.release(lease);
        out
    }

    /// Binds a process to a scheduler, keyed by the process id. The
    /// first assignment wins: a conflicting key is a silent no-op that
    /// still reports success, and there is no reassignment path.
    pub fn save_process_scheduler(&mut self, process_scheduler: &ProcessScheduler) -> (r: Result<
        String,
        StoreErrorType,
    >)
        requires
            old(self).wf(),
        ensures
            final(self).wf(),
            final(self).same_pool(old(self)),
            final(self).procs() == old(self).procs(),
            final(self).msgs() == old(self).msgs(),
            final(self).scheds() == old(self).scheds(),
            old(self).pool_available() == 0 ==> (r matches Err(StoreErrorType::DatabaseError(_))
                && final(self).assigns() == old(self).assigns()),
            old(self).pool_available() > 0 && (has_assignment(
                old(self).assigns(),
                process_scheduler@.process_id,
            ) || assign_insert_fits(old(self).assigns())) ==> (r matches Ok(s) && s@ == "saved"@
                && final(self).assigns() == assign_insert(
                old(self).assigns(),
                process_scheduler@.process_id,
                process_scheduler@.scheduler_row_id,
            )),
            old(self).pool_available() > 0 && !has_assignment(
                old(self).assigns(),
                process_scheduler@.process_id,
            ) && !assign_insert_fits(old(self).assigns()) ==> (r matches Err(
                StoreErrorType::DatabaseError(_),
            ) && final(self).assigns() == old(self).assigns()),
    {
        let lease = match self.pool.acquire() {
            Ok(l) => l,
            Err(e) => {
                return Err(e);
            },
        };
        let found = find_assignment(&self.process_schedulers, process_scheduler.process_id.as_str());
        match found {
            Some(_) => {
                self.pool.release(lease);
                Ok("saved".to_owned())
            },
            None => {
                let n = self.process_schedulers.len();
                let row_id_new: i32;
                if n == 0 {
                    row_id_new = 1;
                } else {
                    let last = self.process_schedulers[n - 1].row_id;
                    proof {
                        let rv0 = views_of(self.process_schedulers@);
                        assert(1 <= rv0[n as int - 1].row_id <= max_row_id());
                        assert(last as int == rv0[n as int - 1].row_id);
                    }
                    if last == i32::MAX {
                        self.pool.release(lease);
                        return Err(
                            StoreErrorType::DatabaseError(
                                "Insertion sequence exhausted".to_owned(),
                            ),
                        );
                    }
                    row_id_new = last + 1;
                }
                let row = process_scheduler_row(
                    new_process_scheduler(process_scheduler),
                    row_id_new,
                );
                let ghost pre = self.process_schedulers@;
                self.process_schedulers.push(row);
                proof {
                    lemma_views_of_push(pre, row);
                    let rv0 = views_of(pre);
                    let rv1 = views_of(self.process_schedulers@);
                    let m = rv0.len() as int;
                    assert forall|a: int, b: int| 0 <= a < b < rv1.len() implies rv1[a].row_id
                        < rv1[b].row_id by {
                        if b == m && 0 < m && a < m - 1 {
                            assert(rv0[a].row_id < rv0[m - 1].row_id);
                        }
                    }
                    assert forall|i: int| 0 <= i < rv1.len() implies 1 <= (#[trigger] rv1[i]).row_id
                        <= max_row_id() by {
                        if i < m {
                            assert(1 <= rv0[i].row_id <= max_row_id());
                        } else {
                            assert(rv1[i] == row@);
                        }
                    }
                    assert forall|a: int, b: int|
                        0 <= a < rv1.len() && 0 <= b < rv1.len() && rv1[a].process_id
                            == rv1[b].process_id implies a == b by {
                        if a < m && b == m {
                            assert(has_assignment(rv0, process_scheduler@.process_id));
                        }
                        if b < m && a == m {
                            assert(has_assignment(rv0, process_scheduler@.process_id));
                        }
                    }
                }
                self.pool.release(lease);
                Ok("saved".to_owned())
            },
        }
    }

    /// Reads the assignment stored for this process: `NotFound` if the
    /// process is unassigned, the binding (identity populated)
    /// otherwise.
    pub fn get_process_scheduler(&mut self, process_id_in: &str) -> (r: Result<
        ProcessScheduler,
        StoreErrorType,
    >)
        requires
            old(self).wf(),
        ensures
            final(self).wf(),
            final(self).same_pool(old(self)),
            final(self).same_tables(old(self)),
            old(self).pool_available() == 0 ==> r matches Err(StoreErrorType::DatabaseError(_)),
            old(self).pool_available() > 0 ==> match process_scheduler_lookup(
                old(self).assigns(),
                process_id_in@,
            ) {
                Some(a) => r matches Ok(q) && q@ == a,
                None => r matches Err(StoreErrorType::NotFound(s)) && s@
                    == "Process scheduler not found"@,
            },
    {
        let lease = match self.pool.acquire() {
            Ok(l) => l,
            Err(e) => {
                return Err(e);
            },
        };
        let found = find_assignment(&self.process_schedulers, process_id_in);
        let out = match found {
            Some(i) => {
                let a = process_scheduler_from_row(&self.process_schedulers[i]);
                proof {
                    let rv = views_of(self.process_schedulers@);
                    let k = assignment_index(rv, process_id_in@);
                    assert(0 <= k < rv.len() && rv[k].process_id == process_id_in@);
                    assert(i as int == k);
                }
                Ok(a)
            },
            None => Err(StoreErrorType::NotFound("Process scheduler not found".to_owned())),
        };
        self.pool.release(lease);
        out
    }

    /// Registers a scheduler keyed by URL. A conflicting URL is a
    /// silent no-op that still reports success (first-write-wins); the
    /// store assigns the identity.
    pub fn save_scheduler(&mut self, scheduler: &Scheduler) -> (r: Result<String, StoreErrorType>)
        requires
            old(self).wf(),
        ensures
            final(self).wf(),
            final(self).same_pool(old(self)),
            final(self).procs() == old(self).procs(),
            final(self).msgs() == old(self).msgs(),
            final(self).assigns() == old(self).assigns(),
            old(self).pool_available() == 0 ==> (r matches Err(StoreErrorType::DatabaseError(_))
                && final(self).scheds() == old(self).scheds()),
            old(self).pool_available() > 0 && (has_sched_url(old(self).scheds(), scheduler@.url)
                || sched_insert_fits(old(self).scheds())) ==> (r matches Ok(s) && s@ == "saved"@
                && final(self).scheds() == sched_insert(
                old(self).scheds(),
                scheduler@.url,
                scheduler@.process_count,
            )),
            old(self).pool_available() > 0 && !has_sched_url(old(self).scheds(), scheduler@.url)
                && !sched_insert_fits(old(self).scheds()) ==> (r matches Err(
                StoreErrorType::DatabaseError(_),
            ) && final(self).scheds() == old(self).scheds()),
    {
        let lease = match self.pool.acquire() {
            Ok(l) => l,
            Err(e) => {
                return Err(e);
            },
        };
        let found = find_sched_by_url(&self.schedulers, scheduler.url.as_str());
        match found {
            Some(_) => {
                self.pool.release(lease);
                Ok("saved".to_owned())
            },
            None => {
                let n = self.schedulers.len();
                let row_id_new: i32;
                if n == 0 {
                    row_id_new = 1;
                } else {
                    let last = self.schedulers[n - 1].row_id;
                    proof {
                        let rv0 = views_of(self.schedulers@);
                        assert(1 <= rv0[n as int - 1].row_id <= max_row_id());
                        assert(last as int == rv0[n as int - 1].row_id);
                    }
                    if last == i32::MAX {
                        self.pool.release(lease);
                        return Err(
                            StoreErrorType::DatabaseError(
                                "Insertion sequence exhausted".to_owned(),
                            ),
                        );
                    }
                    row_id_new = last + 1;
                }
                let row = scheduler_row(new_scheduler(scheduler), row_id_new);
                let ghost pre = self.schedulers@;
                self.schedulers.push(row);
                proof {
                    lemma_views_of_push(pre, row);
                    let rv0 = views_of(pre);
                    let rv1 = views_of(self.schedulers@);
                    let m = rv0.len() as int;
                    assert forall|a: int, b: int| 0 <= a < b < rv1.len() implies rv1[a].row_id
                        < rv1[b].row_id by {
                        if b == m && 0 < m && a < m - 1 {
                            assert(rv0[a].row_id < rv0[m - 1].row_id);
                        }
                    }
                    assert forall|i: int| 0 <= i < rv1.len() implies 1 <= (#[trigger] rv1[i]).row_id
                        <= max_row_id() by {
                        if i < m {
                            assert(1 <= rv0[i].row_id <= max_row_id());
                        } else {
                            assert(rv1[i] == row@);
                        }
                    }
                    assert forall|a: int, b: int|
                        0 <= a < rv1.len() && 0 <= b < rv1.len() && rv1[a].url == rv1[b].url
                            implies a == b by {
                        if a < m && b == m {
                            assert(has_sched_url(rv0, scheduler@.url));
                        }
                        if b < m && a == m {
                            assert(has_sched_url(rv0, scheduler@.url));
                        }
                    }
                }
                self.pool.release(lease);
                Ok("saved".to_owned())
            },
        }
    }

    /// Updates the URL and process count of the scheduler with the
    /// given identity, in place. An unset identity is a caller error
    /// reported as a typed error, not a crash; an identity matching no
    /// row updates nothing and still reports success, as a statement
    /// that matched no row does; a URL collision with a different row
    /// violates the unique-URL constraint and is a `DatabaseError`.
    pub fn update_scheduler(&mut self, scheduler: &Scheduler) -> (r: Result<String, StoreErrorType>)
        requires
            old(self).wf(),
        ensures
            final(self).wf(),
            final(self).same_pool(old(self)),
            final(self).procs() == old(self).procs(),
            final(self).msgs() == old(self).msgs(),
            final(self).assigns() == old(self).assigns(),
            old(self).pool_available() == 0 ==> (r matches Err(StoreErrorType::DatabaseError(_))
                && final(self).scheds() == old(self).scheds()),
            old(self).pool_available() > 0 && scheduler.row_id is None ==> (r matches Err(
                StoreErrorType::DatabaseError(s),
            ) && s@ == "Scheduler row_id not set"@ && final(self).scheds() == old(self).scheds()),
            scheduler.row_id matches Some(rid) ==> {
                &&& old(self).pool_available() > 0 && sched_update_conflict(
                    old(self).scheds(),
                    rid as int,
                    scheduler@.url,
                ) ==> (r matches Err(StoreErrorType::DatabaseError(s)) && s@
                    == "Duplicate scheduler url"@ && final(self).scheds() == old(self).scheds())
                &&& old(self).pool_available() > 0 && !sched_update_conflict(
                    old(self).scheds(),
                    rid as int,
                    scheduler@.url,
                ) ==> (r matches Ok(s) && s@ == "updated"@ && final(self).scheds()
                    == sched_update(
                    old(self).scheds(),
                    rid as int,
                    scheduler@.url,
                    scheduler@.process_count,
                ))
            },
    {
        let lease = match self.pool.acquire() {
            Ok(l) => l,
            Err(e) => {
                return Err(e);
            },
        };
        let rid = match scheduler.row_id {
            Some(rid) => rid,
            None => {
                self.pool.release(lease);
                return Err(StoreErrorType::DatabaseError("Scheduler row_id not set".to_owned()));
            },
        };
        let target = find_sched_by_id(&self.schedulers, rid);
        let k = match target {
            Some(k) => k,
            None => {
                self.pool.release(lease);
                return Ok("updated".to_owned());
            },
        };
        let same_url = find_sched_by_url(&self.schedulers, scheduler.url.as_str());
        match same_url {
            Some(j) => {
                if self.schedulers[j].row_id != rid {
                    proof {
                        let rv = views_of(self.schedulers@);
                        assert(sched_update_conflict(rv, rid as int, scheduler@.url));
                    }
                    self.pool.release(lease);
                    return Err(
                        StoreErrorType::DatabaseError("Duplicate scheduler url".to_owned()),
                    );
                }
                proof {
                    let rv = views_of(self.schedulers@);
                    if sched_update_conflict(rv, rid as int, scheduler@.url) {
                        let c = choose|c: int|
                            0 <= c < rv.len() && (#[trigger] rv[c]).url == scheduler@.url
                                && rv[c].row_id != rid as int;
                        assert(rv[c].url == rv[j as int].url);
                        assert(c == j as int);
                    }
                }
            },
            None => {
                proof {
                    let rv = views_of(self.schedulers@);
                    if sched_update_conflict(rv, rid as int, scheduler@.url) {
                        let c = choose|c: int|
                            0 <= c < rv.len() && (#[trigger] rv[c]).url == scheduler@.url
                                && rv[c].row_id != rid as int;
                        assert(has_sched_url(rv, scheduler@.url));
                    }
                }
            },
        }
        let row = DbScheduler {
            row_id: rid,
            url: scheduler.url.clone(),
            process_count: scheduler.process_count,
        };
        let ghost pre = self.schedulers@;
        proof {
            let rv0 = views_of(pre);
            let t = sched_id_index(rv0, rid as int);
            assert(0 <= t < rv0.len() && rv0[t].row_id == rid as int);
            lemma_sched_id_unique(rv0, t, k as int);
        }
        self.schedulers[k] = row;
        proof {
            lemma_views_of_update(pre, k as int, row);
            let rv0 = views_of(pre);
            let rv1 = views_of(self.schedulers@);
            assert forall|a: int| 0 <= a < rv1.len() implies rv1[a].row_id == rv0[a].row_id by {}
            assert forall|a: int, b: int| 0 <= a < b < rv1.len() implies rv1[a].row_id
                < rv1[b].row_id by {
                assert(rv0[a].row_id < rv0[b].row_id);
            }
            assert forall|a: int, b: int|
                0 <= a < rv1.len() && 0 <= b < rv1.len() && rv1[a].url == rv1[b].url
                    implies a == b by {
                if a != b {
                    if a == k as int && b != k as int {
                        lemma_sched_id_unique(rv0, b, b);
                        assert(rv0[b].url == scheduler@.url);
                        assert(rv0[b].row_id != rid as int);
                        assert(sched_update_conflict(rv0, rid as int, scheduler@.url));
                    } else if b == k as int && a != k as int {
                        assert(rv0[a].url == scheduler@.url);
                        assert(rv0[a].row_id != rid as int);
                        assert(sched_update_conflict(rv0, rid as int, scheduler@.url));
                    } else {
                        assert(rv0[a].url == rv0[b].url);
                    }
                }
            }
        }
        self.pool.release(lease);
        Ok("updated".to_owned())
    }

    /// Reads the scheduler with this identity: `NotFound` if absent.
    pub fn get_scheduler(&mut self, row_id_in: &i32) -> (r: Result<Scheduler, StoreErrorType>)
        requires
            old(self).wf(),
        ensures
            final(self).wf(),
            final(self).same_pool(old(self)),
            final(self).same_tables(old(self)),
            old(self).pool_available() == 0 ==> r matches Err(StoreErrorType::DatabaseError(_)),
            old(self).pool_available() > 0 ==> match scheduler_lookup(
                old(self).scheds(),
                *row_id_in as int,
            ) {
                Some(s) => r matches Ok(q) && q@ == s,
                None => r matches Err(StoreErrorType::NotFound(t)) && t@
                    == "Scheduler not found"@,
            },
    {
        let lease = match self.pool.acquire() {
            Ok(l) => l,
            Err(e) => {
                return Err(e);
            },
        };
        let found = find_sched_by_id(&self.schedulers, *row_id_in);
        let out = match found {
            Some(i) => {
                let s = scheduler_from_row(&self.schedulers[i]);
                proof {
                    let rv = views_of(self.schedulers@);
                    let k = sched_id_index(rv, *row_id_in as int);
                    assert(0 <= k < rv.len() && rv[k].row_id == *row_id_in as int);
                    lemma_sched_id_unique(rv, k, i as int);
                }
                Ok(s)
            },
            None => Err(StoreErrorType::NotFound("Scheduler not found".to_owned())),
        };
        self.pool.release(lease);
        out
    }

    /// Reads the scheduler registered under this URL: `NotFound` if
    /// absent.
    pub fn get_scheduler_by_url(&mut self, url_in: &String) -> (r: Result<
        Scheduler,
        StoreErrorType,
    >)
        requires
            old(self).wf(),
        ensures
            final(self).wf(),
            final(self).same_pool(old(self)),
            final(self).same_tables(old(self)),
            old(self).pool_available() == 0 ==> r matches Err(StoreErrorType::DatabaseError(_)),
            old(self).pool_available() > 0 ==> match scheduler_lookup_by_url(
                old(self).scheds(),
                url_in@,
            ) {
                Some(s) => r matches Ok(q) && q@ == s,
                None => r matches Err(StoreErrorType::NotFound(t)) && t@
                    == "Scheduler not found"@,
            },
    {
        let lease = match self.pool.acquire() {
            Ok(l) => l,
            Err(e) => {
                return Err(e);
            },
        };
        let found = find_sched_by_url(&self.schedulers, url_in.as_str());
        let out = match found {
            Some(i) => {
                let s = scheduler_from_row(&self.schedulers[i]);
                proof {
                    let rv = views_of(self.schedulers@);
                    let k = sched_url_index(rv, url_in@);
                    assert(0 <= k < rv.len() && rv[k].url == url_in@);
                    assert(i as int == k);
                }
                Ok(s)
            },
            None => Err(StoreErrorType::NotFound("Scheduler not found".to_owned())),
        };
        self.pool.release(lease);
        out
    }

    /// Enumerates every registered scheduler, in ascending identity
    /// order — the relation's own insertion order, which is stable and
    /// deterministic.
    pub fn get_all_schedulers(&mut self) -> (r: Result<Vec<Scheduler>, StoreErrorType>)
        requires
            old(self).wf(),
        ensures
            final(self).wf(),
            final(self).same_pool(old(self)),
            final(self).same_tables(old(self)),
            old(self).pool_available() == 0 ==> r matches Err(StoreErrorType::DatabaseError(_)),
            old(self).pool_available() > 0 ==> (r matches Ok(v) && v@.len() == old(
                self,
            ).scheds().len() && forall|i: int|
                0 <= i < v@.len() ==> v@[i]@ == scheduler_of_row(old(self).scheds()[i])),
    {
        let lease = match self.pool.acquire() {
            Ok(l) => l,
            Err(e) => {
                return Err(e);
            },
        };
        let mut out: Vec<Scheduler> = Vec::new();
        let n = self.schedulers.len();
        let mut j: usize = 0;
        while j < n
            invariant
                n == self.schedulers@.len(),
                j <= n,
                out@.len() == j,
                forall|i: int|
                    0 <= i < j ==> out@[i]@ == scheduler_of_row(views_of(self.schedulers@)[i]),
            decreases n - j,
        {
            out.push(scheduler_from_row(&self.schedulers[j]));
            j = j + 1;
        }
        self.pool.release(lease);
        Ok(out)
    }
}

/// Finds the row holding this scheduler identity, if any.
fn find_sched_by_id(rows: &Vec<DbScheduler>, rid: i32) -> (r: Option<usize>)
    ensures
        match r {
            Some(i) => i < rows@.len() && views_of(rows@)[i as int].row_id == rid as int
                && has_sched_id(views_of(rows@), rid as int),
            None => !has_sched_id(views_of(rows@), rid as int),
        },
{
    let n = rows.len();
    let mut i: usize = 0;
    while i < n
        invariant
            n == rows@.len(),
            i <= n,
            forall|j: int| 0 <= j < i ==> views_of(rows@)[j].row_id != rid as int,
        decreases n - i,
    {
        if rows[i].row_id == rid {
            proof {
                let rv = views_of(rows@);
                assert(rv[i as int] == rows@[i as int]@);
                assert(rv[i as int].row_id == rid as int);
                assert(has_sched_id(rv, rid as int));
            }
            return Some(i);
        }
        i = i + 1;
    }
    proof {
        let rv = views_of(rows@);
        if has_sched_id(rv, rid as int) {
            let k = choose|k: int| 0 <= k < rv.len() && (#[trigger] rv[k]).row_id == rid as int;
            assert(rv[k].row_id != rid as int);
        }
    }
    None
}

/// Finds the row holding this scheduler URL, if any.
fn find_sched_by_url(rows: &Vec<DbScheduler>, url: &str) -> (r: Option<usize>)
    ensures
        match r {
            Some(i) => i < rows@.len() && views_of(rows@)[i as int].url == url@
                && has_sched_url(views_of(rows@), url@),
            None => !has_sched_url(views_of(rows@), url@),
        },
{
    let n = rows.len();
    let mut i: usize = 0;
    while i < n
        invariant
            n == rows@.len(),
            i <= n,
            forall|j: int| 0 <= j < i ==> views_of(rows@)[j].url != url@,
        decreases n - i,
    {
        if str_eq(rows[i].url.as_str(), url) {
            proof {
                let rv = views_of(rows@);
                assert(rv[i as int] == rows@[i as int]@);
                assert(rv[i as int].url == url@);
                assert(has_sched_url(rv, url@));
            }
            return Some(i);
        }
        i = i + 1;
    }
    proof {
        let rv = views_of(rows@);
        if has_sched_url(rv, url@) {
            let k = choose|k: int| 0 <= k < rv.len() && (#[trigger] rv[k]).url == url@;
            assert(rv[k].url != url@);
        }
    }
    None
}

/// Finds the row holding this assignment key, if any.
fn find_assignment(rows: &Vec<DbProcessScheduler>, pid: &str) -> (r: Option<usize>)
    ensures
        match r {
            Some(i) => i < rows@.len() && views_of(rows@)[i as int].process_id == pid@
                && has_assignment(views_of(rows@), pid@),
            None => !has_assignment(views_of(rows@), pid@),
        },
{
    let n = rows.len();
    let mut i: usize = 0;
    while i < n
        invariant
            n == rows@.len(),
            i <= n,
            forall|j: int| 0 <= j < i ==> views_of(rows@)[j].process_id != pid@,
        decreases n - i,
    {
        if str_eq(rows[i].process_id.as_str(), pid) {
            proof {
                let rv = views_of(rows@);
                assert(rv[i as int] == rows@[i as int]@);
                assert(rv[i as int].process_id == pid@);
                assert(has_assignment(rv, pid@));
            }
            return Some(i);
        }
        i = i + 1;
    }
    proof {
        let rv = views_of(rows@);
        if has_assignment(rv, pid@) {
            let k = choose|k: int| 0 <= k < rv.len() && (#[trigger] rv[k]).process_id == pid@;
            assert(rv[k].process_id != pid@);
        }
    }
    None
}

/// Finds the row holding this message id, if any.
fn find_message(rows: &Vec<DbMessage>, mid: &str) -> (r: Option<usize>)
    ensures
        match r {
            Some(i) => i < rows@.len() && views_of(rows@)[i as int].message_id == mid@
                && has_message(views_of(rows@), mid@),
            None => !has_message(views_of(rows@), mid@),
        },
{
    let n = rows.len();
    let mut i: usize = 0;
    while i < n
        invariant
            n == rows@.len(),
            i <= n,
            forall|j: int| 0 <= j < i ==> views_of(rows@)[j].message_id != mid@,
        decreases n - i,
    {
        if str_eq(rows[i].message_id.as_str(), mid) {
            proof {
                let rv = views_of(rows@);
                assert(rv[i as int] == rows@[i as int]@);
                assert(rv[i as int].message_id == mid@);
                assert(has_message(rv, mid@));
            }
            return Some(i);
        }
        i = i + 1;
    }
    proof {
        let rv = views_of(rows@);
        if has_message(rv, mid@) {
            let k = choose|k: int| 0 <= k < rv.len() && (#[trigger] rv[k]).message_id == mid@;
            assert(rv[k].message_id != mid@);
        }
    }
    None
}

/// Finds the row holding this process key, if any.
fn find_process(rows: &Vec<DbProcess>, pid: &str) -> (r: Option<usize>)
    ensures
        match r {
            Some(i) => i < rows@.len() && views_of(rows@)[i as int].process_id == pid@
                && has_process(views_of(rows@), pid@),
            None => !has_process(views_of(rows@), pid@),
        },
{
    let n = rows.len();
    let mut i: usize = 0;
    while i < n
        invariant
            n == rows@.len(),
            i <= n,
            forall|j: int| 0 <= j < i ==> views_of(rows@)[j].process_id != pid@,
        decreases n - i,
    {
        if str_eq(rows[i].process_id.as_str(), pid) {
            proof {
                let rv = views_of(rows@);
                assert(rv[i as int] == rows@[i as int]@);
                assert(rv[i as int].process_id == pid@);
                assert(has_process(rv, pid@));
            }
            return Some(i);
        }
        i = i + 1;
    }
    proof {
        let rv = views_of(rows@);
        if has_process(rv, pid@) {
            let k = choose|k: int| 0 <= k < rv.len() && (#[trigger] rv[k]).process_id == pid@;
            assert(rv[k].process_id != pid@);
        }
    }
    None
}

} // verus!
