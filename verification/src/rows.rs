//! Storage row shapes and the conversion functions between row shape
//! and domain shape.
//!
//! Each relation carries a store-assigned `row_id`, the monotonically
//! increasing insertion sequence that gives the canonical order. The
//! `New*` types are the insert shapes (no `row_id` yet); the `Db*`
//! types are the persisted rows. One conversion function per entity
//! maps between the two, so the storage schema does not leak into the
//! domain types beyond these points.

use vstd::prelude::*;

use crate::domain::{
    Message, MessageV, Process, ProcessScheduler, ProcessSchedulerV, ProcessV, Scheduler,
    SchedulerV,
};

verus! {

/// A persisted process row: the key column, the record mirror, and the
/// opaque binary payload.
pub struct DbProcess {
    pub row_id: i32,
    pub process_id: String,
    pub process_data: Process,
    pub bundle: Vec<u8>,
}

pub struct DbProcessV {
    pub row_id: int,
    pub process_id: Seq<char>,
    pub process_data: ProcessV,
    pub bundle: Seq<u8>,
}

impl View for DbProcess {
    type V = DbProcessV;

    open spec fn view(&self) -> DbProcessV {
        DbProcessV {
            row_id: self.row_id as int,
            process_id: self.process_id@,
            process_data: self.process_data@,
            bundle: self.bundle@,
        }
    }
}

/// The insert shape for a process row.
pub struct NewProcess {
    pub process_id: String,
    pub process_data: Process,
    pub bundle: Vec<u8>,
}

/// A persisted message row: key columns, the record mirror, the
/// caller-supplied sequencing hints denormalized out of the record,
/// the payload, and the hash-chain link.
pub struct DbMessage {
    pub row_id: i32,
    pub process_id: String,
    pub message_id: String,
    pub message_data: Message,
    pub epoch: i32,
    pub nonce: i32,
    pub timestamp: i64,
    pub bundle: Vec<u8>,
    pub hash_chain: String,
}

pub struct DbMessageV {
    pub row_id: int,
    pub process_id: Seq<char>,
    pub message_id: Seq<char>,
    pub message_data: MessageV,
    pub epoch: int,
    pub nonce: int,
    pub timestamp: int,
    pub bundle: Seq<u8>,
    pub hash_chain: Seq<char>,
}

impl View for DbMessage {
    type V = DbMessageV;

    open spec fn view(&self) -> DbMessageV {
        DbMessageV {
            row_id: self.row_id as int,
            process_id: self.process_id@,
            message_id: self.message_id@,
            message_data: self.message_data@,
            epoch: self.epoch as int,
            nonce: self.nonce as int,
            timestamp: self.timestamp as int,
            bundle: self.bundle@,
            hash_chain: self.hash_chain@,
        }
    }
}

/// The insert shape for a message row.
pub struct NewMessage {
    pub process_id: String,
    pub message_id: String,
    pub message_data: Message,
    pub epoch: i32,
    pub nonce: i32,
    pub timestamp: i64,
    pub bundle: Vec<u8>,
    pub hash_chain: String,
}

/// A persisted scheduler row.
pub struct DbScheduler {
    pub row_id: i32,
    pub url: String,
    pub process_count: i32,
}

pub struct DbSchedulerV {
    pub row_id: int,
    pub url: Seq<char>,
    pub process_count: int,
}

impl View for DbScheduler {
    type V = DbSchedulerV;

    open spec fn view(&self) -> DbSchedulerV {
        DbSchedulerV {
            row_id: self.row_id as int,
            url: self.url@,
            process_count: self.process_count as int,
        }
    }
}

/// The insert shape for a scheduler row.
pub struct NewScheduler {
    pub url: String,
    pub process_count: i32,
}

/// A persisted assignment row binding a process to a scheduler.
pub struct DbProcessScheduler {
    pub row_id: i32,
    pub process_id: String,
    pub scheduler_row_id: i32,
}

pub struct DbProcessSchedulerV {
    pub row_id: int,
    pub process_id: Seq<char>,
    pub scheduler_row_id: int,
}

impl View for DbProcessScheduler {
    type V = DbProcessSchedulerV;

    open spec fn view(&self) -> DbProcessSchedulerV {
        DbProcessSchedulerV {
            row_id: self.row_id as int,
            process_id: self.process_id@,
            scheduler_row_id: self.scheduler_row_id as int,
        }
    }
}

/// The insert shape for an assignment row.
pub struct NewProcessScheduler {
    pub process_id: String,
    pub scheduler_row_id: i32,
}

/// Builds the insert shape for a process from the domain value and its
/// payload.
pub fn new_process(process: &Process, bundle_in: &[u8]) -> (r: NewProcess)
    ensures
        r.process_id@ == process.process_id@,
        r.process_data@ == process@,
        r.bundle@ == bundle_in@,
{
    NewProcess {
        process_id: process.process_id.clone(),
        process_data: process.clone(),
        bundle: vstd::slice::slice_to_vec(bundle_in),
    }
}

/// Assigns a row identity to a process insert shape.
pub fn process_row(new: NewProcess, row_id_in: i32) -> (r: DbProcess)
    ensures
        r@ == (DbProcessV {
            row_id: row_id_in as int,
            process_id: new.process_id@,
            process_data: new.process_data@,
            bundle: new.bundle@,
        }),
{
    DbProcess {
        row_id: row_id_in,
        process_id: new.process_id,
        process_data: new.process_data,
        bundle: new.bundle,
    }
}

/// Builds the insert shape for a message from the domain value and its
/// payload, denormalizing the sequencing hints out of the record.
pub fn new_message(message: &Message, bundle_in: &[u8]) -> (r: NewMessage)
    ensures
        r.process_id@ == message.process_id@,
        r.message_id@ == message.message_id@,
        r.message_data@ == message@,
        r.epoch == message.epoch,
        r.nonce == message.nonce,
        r.timestamp == message.timestamp,
        r.bundle@ == bundle_in@,
        r.hash_chain@ == message.hash_chain@,
{
    NewMessage {
        process_id: message.process_id.clone(),
        message_id: message.message_id.clone(),
        message_data: message.clone(),
        epoch: message.epoch,
        nonce: message.nonce,
        timestamp: message.timestamp,
        bundle: vstd::slice::slice_to_vec(bundle_in),
        hash_chain: message.hash_chain.clone(),
    }
}

/// Assigns a row identity to a message insert shape.
pub fn message_row(new: NewMessage, row_id_in: i32) -> (r: DbMessage)
    ensures
        r@ == (DbMessageV {
            row_id: row_id_in as int,
            process_id: new.process_id@,
            message_id: new.message_id@,
            message_data: new.message_data@,
            epoch: new.epoch as int,
            nonce: new.nonce as int,
            timestamp: new.timestamp as int,
            bundle: new.bundle@,
            hash_chain: new.hash_chain@,
        }),
{
    DbMessage {
        row_id: row_id_in,
        process_id: new.process_id,
        message_id: new.message_id,
        message_data: new.message_data,
        epoch: new.epoch,
        nonce: new.nonce,
        timestamp: new.timestamp,
        bundle: new.bundle,
        hash_chain: new.hash_chain,
    }
}

/// Builds the insert shape for a scheduler from the domain value. The
/// store assigns the identity, so `row_id` is not taken over.
pub fn new_scheduler(scheduler: &Scheduler) -> (r: NewScheduler)
    ensures
        r.url@ == scheduler.url@,
        r.process_count == scheduler.process_count,
{
    NewScheduler {
        url: scheduler.url.clone(),
        process_count: scheduler.process_count,
    }
}

/// Assigns a row identity to a scheduler insert shape.
pub fn scheduler_row(new: NewScheduler, row_id_in: i32) -> (r: DbScheduler)
    ensures
        r@ == (DbSchedulerV {
            row_id: row_id_in as int,
            url: new.url@,
            process_count: new.process_count as int,
        }),
{
    DbScheduler {
        row_id: row_id_in,
        url: new.url,
        process_count: new.process_count,
    }
}

/// The spec-level image of a scheduler row in the domain: the identity
/// comes back populated.
pub open spec fn scheduler_of_row(row: DbSchedulerV) -> SchedulerV {
    SchedulerV {
        row_id: Some(row.row_id),
        url: row.url,
        process_count: row.process_count,
    }
}

/// Maps a persisted scheduler row back to the domain shape.
pub fn scheduler_from_row(row: &DbScheduler) -> (r: Scheduler)
    ensures
        r@ == scheduler_of_row(row@),
{
    Scheduler {
        row_id: Some(row.row_id),
        url: row.url.clone(),
        process_count: row.process_count,
    }
}

/// Builds the insert shape for an assignment. The store assigns the
/// identity, so `row_id` is not taken over.
pub fn new_process_scheduler(process_scheduler: &ProcessScheduler) -> (r: NewProcessScheduler)
    ensures
        r.process_id@ == process_scheduler.process_id@,
        r.scheduler_row_id == process_scheduler.scheduler_row_id,
{
    NewProcessScheduler {
        process_id: process_scheduler.process_id.clone(),
        scheduler_row_id: process_scheduler.scheduler_row_id,
    }
}

/// Assigns a row identity to an assignment insert shape.
pub fn process_scheduler_row(new: NewProcessScheduler, row_id_in: i32) -> (r: DbProcessScheduler)
    ensures
        r@ == (DbProcessSchedulerV {
            row_id: row_id_in as int,
            process_id: new.process_id@,
            scheduler_row_id: new.scheduler_row_id as int,
        }),
{
    DbProcessScheduler {
        row_id: row_id_in,
        process_id: new.process_id,
        scheduler_row_id: new.scheduler_row_id,
    }
}

/// The spec-level image of an assignment row in the domain.
pub open spec fn process_scheduler_of_row(row: DbProcessSchedulerV) -> ProcessSchedulerV {
    ProcessSchedulerV {
        row_id: Some(row.row_id),
        process_id: row.process_id,
        scheduler_row_id: row.scheduler_row_id,
    }
}

/// Maps a persisted assignment row back to the domain shape.
pub fn process_scheduler_from_row(row: &DbProcessScheduler) -> (r: ProcessScheduler)
    ensures
        r@ == process_scheduler_of_row(row@),
{
    ProcessScheduler {
        row_id: Some(row.row_id),
        process_id: row.process_id.clone(),
        scheduler_row_id: row.scheduler_row_id,
    }
}

} // verus!
