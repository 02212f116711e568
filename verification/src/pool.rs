//! The pool of device buffers: two bounded queues of idle buffers, one for
//! salts and one for results. The pool decides whether a buffer is reused or a
//! new one is to be made, and whether a buffer that comes back is kept.

use std::collections::VecDeque;
use vstd::prelude::*;

verus! {

/// The most idle buffers that the pool keeps of one kind.
pub const POOL_CAPACITY: usize = 16;

/// The bytes that one salt takes in a salts buffer.
pub const SALT_SLOT: usize = 32;

/// What a buffer is for.
#[derive(Clone, Copy, Debug, PartialEq, Eq, Structural)]
pub enum BufferKind {
    /// The padded salts of one batch.
    Salts,
    /// The result records of one batch.
    Results,
}

/// What the pool hands out: an idle buffer, or the order to make a new one.
pub enum Acquired<B> {
    /// An idle buffer of the pool, now lent out.
    Reused(B),
    /// No buffer is idle: one of `byte_len` bytes is to be made, and filled with
    /// zero bytes where `zero_fill` says so.
    Allocate { byte_len: u64, zero_fill: bool },
}

/// The idle buffers of a compute instance, `B` being the device's buffer.
pub struct BufferPool<B> {
    salts_buffers: VecDeque<B>,
    results_buffers: VecDeque<B>,
    buffer_size: usize,
    record_len: usize,
}

impl<B> BufferPool<B> {
    /// The idle buffers of a kind, the one that is handed out next first.
    pub closed spec fn idle(&self, kind: BufferKind) -> Seq<B> {
        match kind {
            BufferKind::Salts => self.salts_buffers@,
            BufferKind::Results => self.results_buffers@,
        }
    }

    /// The number of salts, and of result records, that a buffer holds.
    pub closed spec fn batch_size(&self) -> nat {
        self.buffer_size as nat
    }

    /// The bytes of one result record.
    pub closed spec fn record_bytes(&self) -> nat {
        self.record_len as nat
    }

    /// The bytes of a buffer of a kind: a slot for each salt, or a record for
    /// each result.
    pub open spec fn byte_len(&self, kind: BufferKind) -> nat {
        match kind {
            BufferKind::Salts => 32 * self.batch_size(),
            BufferKind::Results => self.record_bytes() * self.batch_size(),
        }
    }

    /// What always holds of a pool: no queue is over its capacity, and the
    /// size of a buffer of either kind is a number that the device can be
    /// asked for.
    pub open spec fn wf(&self) -> bool {
        &&& self.idle(BufferKind::Salts).len() <= POOL_CAPACITY
        &&& self.idle(BufferKind::Results).len() <= POOL_CAPACITY
        &&& self.byte_len(BufferKind::Salts) <= u64::MAX
        &&& self.byte_len(BufferKind::Results) <= u64::MAX
    }

    /// An empty pool for batches of `batch_size` salts and result records of
    /// `record_len` bytes.
    pub fn new(batch_size: usize, record_len: usize) -> (pool: Self)
        requires
            32 * batch_size <= u64::MAX,
            record_len * batch_size <= u64::MAX,
        ensures
            pool.wf(),
            pool.batch_size() == batch_size,
            pool.record_bytes() == record_len,
            pool.idle(BufferKind::Salts) == Seq::<B>::empty(),
            pool.idle(BufferKind::Results) == Seq::<B>::empty(),
    {
        BufferPool {
            salts_buffers: VecDeque::new(),
            results_buffers: VecDeque::new(),
            buffer_size: batch_size,
            record_len,
        }
    }

    /// Takes the buffer of a kind that has been idle longest. Where none is
    /// idle, the pool stays as it is and orders a new buffer of the kind's
    /// size; only a new results buffer is filled with zero bytes.
    pub fn acquire(&mut self, kind: BufferKind) -> (acquired: Acquired<B>)
        requires
            old(self).wf(),
        ensures
            final(self).wf(),
            final(self).batch_size() == old(self).batch_size(),
            final(self).record_bytes() == old(self).record_bytes(),
            forall|other: BufferKind|
                other != kind ==> final(self).idle(other) == old(self).idle(other),
            old(self).idle(kind).len() > 0 ==> acquired == Acquired::Reused(old(self).idle(kind)[0])
                && final(self).idle(kind) == old(self).idle(kind).drop_first(),
            old(self).idle(kind).len() == 0 ==> final(self).idle(kind) == old(self).idle(kind)
                && acquired == (Acquired::<B>::Allocate {
                byte_len: old(self).byte_len(kind) as u64,
                zero_fill: kind == BufferKind::Results,
            }),
    {
        match kind {
            BufferKind::Salts => match self.salts_buffers.pop_front() {
                Some(buffer) => Acquired::Reused(buffer),
                None => {
                    assert(32 * self.buffer_size <= u64::MAX);
                    Acquired::Allocate { byte_len: 32 * (self.buffer_size as u64), zero_fill: false }
                },
            },
            BufferKind::Results => match self.results_buffers.pop_front() {
                Some(buffer) => Acquired::Reused(buffer),
                None => {
                    assert(self.record_len * self.buffer_size <= u64::MAX);
                    assert(self.record_len <= u64::MAX && self.buffer_size <= u64::MAX);
                    Acquired::Allocate {
                        byte_len: (self.record_len as u64) * (self.buffer_size as u64),
                        zero_fill: true,
                    }
                },
            },
        }
    }

    /// Takes a buffer back. It is put behind the idle buffers of its kind,
    /// unless `POOL_CAPACITY` of them are idle already: then the pool stays as
    /// it is and the buffer is given up.
    pub fn release(&mut self, kind: BufferKind, buffer: B)
        requires
            old(self).wf(),
        ensures
            final(self).wf(),
            final(self).batch_size() == old(self).batch_size(),
            final(self).record_bytes() == old(self).record_bytes(),
            forall|other: BufferKind|
                other != kind ==> final(self).idle(other) == old(self).idle(other),
            final(self).idle(kind) == if old(self).idle(kind).len() < POOL_CAPACITY {
                old(self).idle(kind).push(buffer)
            } else {
                old(self).idle(kind)
            },
    {
        match kind {
            BufferKind::Salts => {
                if self.salts_buffers.len() < POOL_CAPACITY {
                    self.salts_buffers.push_back(buffer);
                }
            },
            BufferKind::Results => {
                if self.results_buffers.len() < POOL_CAPACITY {
                    self.results_buffers.push_back(buffer);
                }
            },
        }
    }
}

} // verus!
