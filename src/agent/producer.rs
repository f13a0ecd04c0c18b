//! Coalescing of encoded reply records into outbound messages of bounded
//! size.
//!
//! Records are appended to the current message while it stays within the
//! size bound. A record that would push it over is carried to the start of
//! the next message, which flushes the current one; a record is never split
//! or dropped.

use crate::wire::append_bytes;
use vstd::prelude::*;

verus! {

/// The bytes of a sequence of records, one after another.
pub open spec fn concat(rs: Seq<Seq<u8>>) -> Seq<u8>
    decreases rs.len(),
{
    if rs.len() == 0 {
        Seq::empty()
    } else {
        concat(rs.drop_last()) + rs.last()
    }
}

/// The records of a sequence of messages, message after message.
pub open spec fn flatten(ms: Seq<Seq<Seq<u8>>>) -> Seq<Seq<u8>>
    decreases ms.len(),
{
    if ms.len() == 0 {
        Seq::empty()
    } else {
        flatten(ms.drop_last()) + ms.last()
    }
}

/// One step of batching: the records of the current message and whether
/// `record` flushes them. It does when the message holds something and
/// appending `record` would take it over `max_bytes`.
pub open spec fn flushes(pending: Seq<Seq<u8>>, record: Seq<u8>, max_bytes: nat) -> bool {
    concat(pending).len() > 0 && concat(pending).len() + record.len() > max_bytes
}

/// The messages flushed by pushing `records` in order, starting from an
/// empty message, and the records of the message still being filled.
pub open spec fn batch_run(records: Seq<Seq<u8>>, max_bytes: nat) -> (Seq<Seq<Seq<u8>>>, Seq<Seq<u8>>)
    decreases records.len(),
{
    if records.len() == 0 {
        (Seq::empty(), Seq::empty())
    } else {
        let (ms, pending) = batch_run(records.drop_last(), max_bytes);
        let r = records.last();
        if flushes(pending, r, max_bytes) {
            (ms.push(pending), seq![r])
        } else {
            (ms, pending.push(r))
        }
    }
}

/// Whether the current batch has waited long enough to be flushed.
pub fn batch_expired(elapsed_ms: u64, wait_time_ms: u64) -> (r: bool)
    ensures
        r == (elapsed_ms > wait_time_ms),
{
    elapsed_ms > wait_time_ms
}

/// The message being filled.
pub struct ReplyBatcher {
    pub max_bytes: usize,
    pub buffer: Vec<u8>,
    pub pending: Ghost<Seq<Seq<u8>>>,
}

impl ReplyBatcher {
    pub open spec fn wf(&self) -> bool {
        self.buffer@ == concat(self.pending@)
    }

    /// A batcher for messages of at most `max_bytes` bytes.
    pub fn new(max_bytes: usize) -> (r: ReplyBatcher)
        ensures
            r.wf(),
            r.max_bytes == max_bytes,
            r.pending@ == Seq::<Seq<u8>>::empty(),
    {
        ReplyBatcher { max_bytes, buffer: Vec::new(), pending: Ghost(Seq::empty()) }
    }

    /// The number of bytes in the message being filled.
    pub fn len(&self) -> (r: usize)
        ensures
            r == self.buffer@.len(),
    {
        self.buffer.len()
    }

    /// Takes one encoded record. Where it does not fit the message being
    /// filled, that message is returned to be published and the record
    /// starts the next one.
    pub fn push(&mut self, record: &[u8]) -> (r: Option<Vec<u8>>)
        requires
            old(self).wf(),
        ensures
            final(self).wf(),
            final(self).max_bytes == old(self).max_bytes,
            flushes(old(self).pending@, record@, old(self).max_bytes as nat) ==> r is Some && r->0@ == concat(
                old(self).pending@,
            ) && final(self).pending@ == seq![record@],
            !flushes(old(self).pending@, record@, old(self).max_bytes as nat) ==> r is None
                && final(self).pending@ == old(self).pending@.push(record@),
    {
        let fits = self.buffer.len() == 0 || record.len() <= self.max_bytes && self.buffer.len() <= self.max_bytes
            - record.len();
        if fits {
            let ghost before = self.pending@;
            append_bytes(&mut self.buffer, record);
            self.pending = Ghost(self.pending@.push(record@));
            assert(self.pending@.drop_last() =~= before);
            None
        } else {
            let mut next: Vec<u8> = Vec::new();
            append_bytes(&mut next, record);
            let ghost old_pending = self.pending@;
            core::mem::swap(&mut self.buffer, &mut next);
            self.pending = Ghost(Seq::empty().push(record@));
            proof {
                assert(self.pending@.drop_last() =~= Seq::<Seq<u8>>::empty());
                assert(concat(self.pending@.drop_last()) == Seq::<u8>::empty());
                assert(self.pending@.last() == record@);
                assert(self.buffer@ =~= concat(self.pending@));
            }
            Some(next)
        }
    }

    /// Ends the message being filled: returns it unless it is empty.
    pub fn flush(&mut self) -> (r: Option<Vec<u8>>)
        requires
            old(self).wf(),
        ensures
            final(self).wf(),
            final(self).max_bytes == old(self).max_bytes,
            final(self).pending@ == Seq::<Seq<u8>>::empty(),
            old(self).buffer@.len() == 0 ==> r is None,
            old(self).buffer@.len() > 0 ==> r is Some && r->0@ == concat(old(self).pending@),
    {
        let mut out: Vec<u8> = Vec::new();
        core::mem::swap(&mut self.buffer, &mut out);
        self.pending = Ghost(Seq::empty());
        if out.len() == 0 {
            None
        } else {
            Some(out)
        }
    }
}

/// Batching keeps every record whole and once: the flushed messages, then
/// the message being filled, hold the records in the order they came. Where
/// no record is longer than `max_bytes`, no message is either.
pub proof fn lemma_batching(records: Seq<Seq<u8>>, max_bytes: nat)
    ensures
        flatten(batch_run(records, max_bytes).0) + batch_run(records, max_bytes).1 == records,
        (forall|i: int| 0 <= i < records.len() ==> (#[trigger] records[i]).len() <= max_bytes) ==> {
            &&& forall|k: int|
                0 <= k < batch_run(records, max_bytes).0.len() ==> concat(
                    #[trigger] batch_run(records, max_bytes).0[k],
                ).len() <= max_bytes
            &&& concat(batch_run(records, max_bytes).1).len() <= max_bytes
        },
    decreases records.len(),
{
    if records.len() == 0 {
        assert(flatten(Seq::<Seq<Seq<u8>>>::empty()) + Seq::<Seq<u8>>::empty() =~= records);
    } else {
        let d = records.drop_last();
        lemma_batching(d, max_bytes);
        let (ms, pending) = batch_run(d, max_bytes);
        let r = records.last();
        assert(flatten(ms) + pending == d);
        assert(records =~= d.push(r));
        assert(concat(Seq::<Seq<u8>>::empty()) == Seq::<u8>::empty());
        if flushes(pending, r, max_bytes) {
            let ms2 = ms.push(pending);
            assert(ms2.drop_last() =~= ms);
            assert(flatten(ms2) == flatten(ms) + pending);
            assert(seq![r].drop_last() =~= Seq::<Seq<u8>>::empty());
            assert(seq![r].last() == r);
            assert(concat(seq![r]) =~= r);
            assert(flatten(ms2) + seq![r] =~= records);
        } else {
            assert(pending.push(r).drop_last() =~= pending);
            assert(flatten(ms) + pending.push(r) =~= records);
        }
        if forall|i: int| 0 <= i < records.len() ==> (#[trigger] records[i]).len() <= max_bytes {
            assert forall|i: int| 0 <= i < d.len() implies (#[trigger] d[i]).len() <= max_bytes by {
                assert(d[i] == records[i]);
            }
            assert(r.len() <= max_bytes) by {
                assert(r == records[records.len() - 1]);
            }
            if flushes(pending, r, max_bytes) {
                assert(seq![r].drop_last() =~= Seq::<Seq<u8>>::empty());
                assert(seq![r].last() == r);
                assert(concat(seq![r]) =~= r);
                let ms2 = ms.push(pending);
                assert forall|k: int| 0 <= k < ms2.len() implies concat(#[trigger] ms2[k]).len() <= max_bytes by {
                    if k < ms.len() {
                        assert(ms2[k] == ms[k]);
                    }
                }
            } else {
                assert(pending.push(r).drop_last() =~= pending);
                assert(concat(pending.push(r)) == concat(pending) + r);
            }
        }
    }
}

} // verus!
