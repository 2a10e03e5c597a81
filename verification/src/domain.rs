//! The domain shapes the store persists.
//!
//! Each type carries its business key as a plain string, the
//! JSON-equivalent mirror of its record as opaque text, and (for
//! messages) the caller-supplied sequencing hints. Every type has a
//! ghost view over mathematical values, which the store's contracts
//! speak of.

use vstd::prelude::*;

verus! {

/// A registered unit of computation, immutable after its first
/// successful insert.
#[derive(Debug, PartialEq, Eq)]
pub struct Process {
    pub process_id: String,
    pub structured_metadata: String,
}

pub struct ProcessV {
    pub process_id: Seq<char>,
    pub structured_metadata: Seq<char>,
}

impl View for Process {
    type V = ProcessV;

    open spec fn view(&self) -> ProcessV {
        ProcessV {
            process_id: self.process_id@,
            structured_metadata: self.structured_metadata@,
        }
    }
}

impl Clone for Process {
    fn clone(&self) -> (res: Self)
        ensures
            res == *self,
    {
        Process {
            process_id: self.process_id.clone(),
            structured_metadata: self.structured_metadata.clone(),
        }
    }
}

/// One entry of a process's append log. `epoch`, `nonce` and
/// `timestamp` are caller-supplied hints; the store's own insertion
/// sequence is the canonical order.
#[derive(Debug, PartialEq, Eq)]
pub struct Message {
    pub process_id: String,
    pub message_id: String,
    pub structured_metadata: String,
    pub epoch: i32,
    pub nonce: i32,
    pub timestamp: i64,
    pub hash_chain: String,
}

pub struct MessageV {
    pub process_id: Seq<char>,
    pub message_id: Seq<char>,
    pub structured_metadata: Seq<char>,
    pub epoch: int,
    pub nonce: int,
    pub timestamp: int,
    pub hash_chain: Seq<char>,
}

impl View for Message {
    type V = MessageV;

    open spec fn view(&self) -> MessageV {
        MessageV {
            process_id: self.process_id@,
            message_id: self.message_id@,
            structured_metadata: self.structured_metadata@,
            epoch: self.epoch as int,
            nonce: self.nonce as int,
            timestamp: self.timestamp as int,
            hash_chain: self.hash_chain@,
        }
    }
}

impl Clone for Message {
    fn clone(&self) -> (res: Self)
        ensures
            res == *self,
    {
        Message {
            process_id: self.process_id.clone(),
            message_id: self.message_id.clone(),
            structured_metadata: self.structured_metadata.clone(),
            epoch: self.epoch,
            nonce: self.nonce,
            timestamp: self.timestamp,
            hash_chain: self.hash_chain.clone(),
        }
    }
}

/// A routing node. `row_id` is the store-assigned identity: `None`
/// before the scheduler has been read back from the store.
#[derive(Debug, PartialEq, Eq)]
pub struct Scheduler {
    pub row_id: Option<i32>,
    pub url: String,
    pub process_count: i32,
}

pub struct SchedulerV {
    pub row_id: Option<int>,
    pub url: Seq<char>,
    pub process_count: int,
}

impl View for Scheduler {
    type V = SchedulerV;

    open spec fn view(&self) -> SchedulerV {
        SchedulerV {
            row_id: match self.row_id {
                Some(r) => Some(r as int),
                None => None,
            },
            url: self.url@,
            process_count: self.process_count as int,
        }
    }
}

impl Clone for Scheduler {
    fn clone(&self) -> (res: Self)
        ensures
            res == *self,
    {
        Scheduler {
            row_id: self.row_id,
            url: self.url.clone(),
            process_count: self.process_count,
        }
    }
}

/// The one-time binding of a process to the scheduler responsible for
/// it.
#[derive(Debug, PartialEq, Eq)]
pub struct ProcessScheduler {
    pub row_id: Option<i32>,
    pub process_id: String,
    pub scheduler_row_id: i32,
}

pub struct ProcessSchedulerV {
    pub row_id: Option<int>,
    pub process_id: Seq<char>,
    pub scheduler_row_id: int,
}

impl View for ProcessScheduler {
    type V = ProcessSchedulerV;

    open spec fn view(&self) -> ProcessSchedulerV {
        ProcessSchedulerV {
            row_id: match self.row_id {
                Some(r) => Some(r as int),
                None => None,
            },
            process_id: self.process_id@,
            scheduler_row_id: self.scheduler_row_id as int,
        }
    }
}

impl Clone for ProcessScheduler {
    fn clone(&self) -> (res: Self)
        ensures
            res == *self,
    {
        ProcessScheduler {
            row_id: self.row_id,
            process_id: self.process_id.clone(),
            scheduler_row_id: self.scheduler_row_id,
        }
    }
}

} // verus!
