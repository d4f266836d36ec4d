//! Queues: installing and removing them, doorbells, and fetching commands.
use vstd::prelude::*;

use crate::cmd;
use crate::cmd::{Cqe, Sqe};
use crate::controller::ctx::{DeviceCtx, Trace};
use crate::controller::dense_map;
use crate::controller::{AdminCqInstallError, FetchCtx, NvmeController, IO_QUEUE_SLOT_CAPACITY};
use crate::regs::csts;
use crate::regs::{CompletionQueue, SubmissionQueue, DOORBELL_BAR0_OFFSET, MSIX_TABLE_BAR0_OFFSET, SQE_BYTES};

verus! {

broadcast use vstd::std_specs::hash::group_hash_axioms;

/// An empty completion queue that raises no interrupts; the first pass has phase 1.
pub open spec fn fresh_cq(base_gpa: u64, size: u32) -> CompletionQueue {
    CompletionQueue {
        base_gpa,
        size,
        tail: 0,
        phase: 1,
        head: 0,
        interrupt_vector: 0,
        interrupt_enabled: false,
        pending_completions: 0,
        last_fire: None,
    }
}

fn new_cq(base_gpa: u64, size: u32) -> (r: CompletionQueue)
    ensures
        r == fresh_cq(base_gpa, size),
{
    CompletionQueue {
        base_gpa,
        size,
        tail: 0,
        phase: 1,
        head: 0,
        interrupt_vector: 0,
        interrupt_enabled: false,
        pending_completions: 0,
        last_fire: None,
    }
}

impl SubmissionQueue {
    /// Entries to be fetched before the end of the queue when the tail moves to
    /// `new_tail`.
    pub open spec fn first_run(self, new_tail: u32) -> int {
        if new_tail > self.tail {
            new_tail - self.tail
        } else {
            self.size - self.tail
        }
    }

    /// Entries to be fetched from the start of the queue when the tail moves to
    /// `new_tail`.
    pub open spec fn second_run(self, new_tail: u32) -> int {
        if new_tail > self.tail {
            0
        } else {
            new_tail as int
        }
    }

    /// The length in bytes of each run fits a transfer, and the first run has an address.
    pub open spec fn fetchable(self, new_tail: u32) -> bool {
        &&& 0 <= self.first_run(new_tail) * 64 <= u32::MAX
        &&& self.second_run(new_tail) * 64 <= u32::MAX
        &&& self.base_gpa + self.tail * 64 <= u64::MAX
    }

    /// The tail is in the queue, the queue is at most as deep as a queue can be, and
    /// every slot has an address.
    pub open spec fn wf(self) -> bool {
        &&& self.tail < self.size <= 65536
        &&& self.base_gpa + (self.size - 1) * 64 <= u64::MAX
    }
}

/// A well formed queue can be fetched up to any tail.
pub proof fn law_wf_queue_fetchable(q: SubmissionQueue, new_tail: u32)
    requires
        q.wf(),
        new_tail < q.size,
    ensures
        q.fetchable(new_tail),
        (SubmissionQueue { tail: new_tail, ..q }).wf(),
{
}

/// The fetches in flight and the requests made to the link.
#[verifier::ext_equal]
pub struct Fetches {
    pub pending: Map<u64, FetchCtx>,
    pub trace: Trace,
}

impl Fetches {
    /// One fetch more: `count` entries from slot `start_slot` of queue `sq_id`.
    pub open spec fn fetch(self, sq_id: u16, base_gpa: u64, start_slot: u32, count: u32) -> Fetches {
        Fetches {
            pending: self.pending.insert(
                self.trace.next_token,
                FetchCtx { sq_id, count, start_slot },
            ),
            trace: self.trace.read((base_gpa + start_slot * 64) as u64, (count * 64) as u32),
        }
    }

    /// The fetches that bring queue `q`, number `sq_id`, up to `new_tail`: the slots
    /// from the old tail on, and then, where the new tail lies behind the old one,
    /// those from the start of the queue.
    pub open spec fn up_to(self, sq_id: u16, q: SubmissionQueue, new_tail: u32) -> Fetches {
        if new_tail == q.tail {
            self
        } else {
            let f = self.fetch(sq_id, q.base_gpa, q.tail, q.first_run(new_tail) as u32);
            if q.second_run(new_tail) > 0 {
                f.fetch(sq_id, q.base_gpa, 0, q.second_run(new_tail) as u32)
            } else {
                f
            }
        }
    }
}

/// The slots that the fetches for a move of the tail cover: slot by slot from the
/// old tail, going round at the end of the queue, and none twice.
pub proof fn law_runs_cover_the_new_entries(q: SubmissionQueue, new_tail: u32, i: int)
    requires
        q.wf(),
        new_tail < q.size,
        new_tail != q.tail,
    ensures
        q.first_run(new_tail) + q.second_run(new_tail) == (new_tail - q.tail) % (q.size as int),
        0 <= i < q.first_run(new_tail) ==> (q.tail + i) % (q.size as int) == q.tail + i,
        q.first_run(new_tail) <= i < q.first_run(new_tail) + q.second_run(new_tail) ==> (q.tail + i)
            % (q.size as int) == i - q.first_run(new_tail),
{
    let n = q.size as int;
    if new_tail > q.tail {
        vstd::arithmetic::div_mod::lemma_small_mod((new_tail - q.tail) as nat, n as nat);
    } else {
        vstd::arithmetic::div_mod::lemma_small_mod((new_tail - q.tail + n) as nat, n as nat);
        vstd::arithmetic::div_mod::lemma_mod_add_multiples_vanish(new_tail - q.tail, n);
    }
    if 0 <= i < q.first_run(new_tail) {
        vstd::arithmetic::div_mod::lemma_small_mod((q.tail + i) as nat, n as nat);
    }
    if q.first_run(new_tail) <= i < q.first_run(new_tail) + q.second_run(new_tail) {
        vstd::arithmetic::div_mod::lemma_small_mod((q.tail + i - n) as nat, n as nat);
        vstd::arithmetic::div_mod::lemma_mod_add_multiples_vanish(q.tail + i - n, n);
    }
}

/// The commands that `data` holds, fetched from slot `start_slot` on of queue
/// `sq_id` of `size` slots. Each comes with the head pointer after it, not with that
/// after the batch.
pub open spec fn fetched_commands(sq_id: u16, size: int, f: FetchCtx, data: Seq<u8>) -> Seq<
    (u16, u16, Sqe),
> {
    Seq::new(
        f.count as nat,
        |i: int| (sq_id, ((f.start_slot + i + 1) % size) as u16, cmd::sqe_at(data, i * 64)),
    )
}

/// The queue whose commands `data` holds, fetched under `token`, has slots, or is gone.
pub open spec fn fetch_fits(s: NvmeController, token: u64, data: Seq<u8>) -> bool {
    let f = s.pending_fetches@[token];
    s.pending_fetches@.contains_key(token) && data.len() == f.count * 64 && s.sqs@.contains_key(
        f.sq_id,
    ) ==> s.sqs@[f.sq_id].size > 0
}

/// `after` is `before` with the fetch under `token` over, which brought `data`: the
/// commands are in the inbox, and the head of the queue has moved past them. Where the
/// length is wrong the controller has failed instead; an unknown token changes nothing.
pub open spec fn fetch_taken(
    before: NvmeController,
    after: NvmeController,
    token: u64,
    data: Seq<u8>,
) -> bool {
    let known = before.pending_fetches@.contains_key(token);
    let f = before.pending_fetches@[token];
    let whole = known && data.len() == f.count * 64;
    let has_queue = before.sqs@.contains_key(f.sq_id);
    let q = before.sqs@[f.sq_id];
    &&& after.pending_fetches@ == before.pending_fetches@.remove(token)
    &&& after.csts == (if known && !whole {
        before.csts | csts::CFS
    } else {
        before.csts
    })
    &&& after.sqs@ == (if whole && has_queue {
        before.sqs@.insert(
            f.sq_id,
            SubmissionQueue { head: ((f.start_slot + f.count) % (q.size as int)) as u32, ..q },
        )
    } else {
        before.sqs@
    })
    &&& after.sqe_inbox@ == (if whole {
        before.sqe_inbox@ + fetched_commands(
            f.sq_id,
            if has_queue {
                q.size as int
            } else {
                1
            },
            f,
            data,
        )
    } else {
        before.sqe_inbox@
    })
    &&& after == (NvmeController {
        sqs: after.sqs,
        pending_fetches: after.pending_fetches,
        sqe_inbox: after.sqe_inbox,
        csts: after.csts,
        ..before
    })
    &&& after.sqs.capacity() == before.sqs.capacity()
}

/// The queue that a doorbell belongs to: the doorbells lie from 0x1000 up to the
/// MSI-X table, four bytes each; those of submission and completion queue `n` are
/// number `2 * n` and `2 * n + 1`. The first half of the result tells whether it is
/// one of a submission queue.
pub open spec fn doorbell_at(offset: u64) -> Option<(bool, u16)> {
    if 0x1000 <= offset < 0x2000 {
        Some(((offset - 0x1000) / 4 % 2 == 0, ((offset - 0x1000) / 4 / 2) as u16))
    } else {
        None
    }
}

/// Offset of the doorbell of a queue.
pub open spec fn doorbell_offset(is_sq: bool, qid: u16) -> int {
    0x1000 + (2 * qid + (if is_sq {
        0int
    } else {
        1int
    })) * 4
}

/// Every queue up to number 511 has a doorbell, which leads back to it.
pub proof fn law_doorbell_round_trip(is_sq: bool, qid: u16)
    requires
        qid < 512,
    ensures
        doorbell_at(doorbell_offset(is_sq, qid) as u64) == Some((is_sq, qid)),
{
}

impl NvmeController {
    /// The fetches of this controller, on link `t`.
    pub open spec fn fetches(&self, t: Trace) -> Fetches {
        Fetches { pending: self.pending_fetches@, trace: t }
    }

    /// See `doorbell_at`.
    pub fn parse_doorbell(offset: u64) -> (r: Option<(bool, u16)>)
        ensures
            r == doorbell_at(offset),
    {
        if offset < DOORBELL_BAR0_OFFSET || offset >= MSIX_TABLE_BAR0_OFFSET {
            return None;
        }
        let idx: u64 = (offset - DOORBELL_BAR0_OFFSET) / 4;
        assert((idx & 1) == idx % 2) by (bit_vector);
        let is_cq: bool = (idx & 1) != 0;
        let qid: u16 = (idx / 2) as u16;
        Some((!is_cq, qid))
    }

    /// Moves the tail of queue `sq_id` to `new_tail` and fetches the new entries.
    /// A tail beyond the queue is fatal; the result tells whether the tail was taken.
    pub fn advance_sq_to_tail(&mut self, ctx: &mut DeviceCtx, sq_id: u16, new_tail: u32) -> (r: bool)
        requires
            old(self).sqs@.contains_key(sq_id) && new_tail < old(self).sqs@[sq_id].size
                && new_tail != old(self).sqs@[sq_id].tail ==> old(self).sqs@[sq_id].fetchable(
                new_tail,
            ),
        ensures
            r == (old(self).sqs@.contains_key(sq_id) && new_tail < old(self).sqs@[sq_id].size),
            r ==> {
                let q = old(self).sqs@[sq_id];
                &&& final(self).sqs@ == old(self).sqs@.insert(
                    sq_id,
                    SubmissionQueue { tail: new_tail, ..q },
                )
                &&& final(self).fetches(final(ctx)@) == old(self).fetches(old(ctx)@).up_to(
                    sq_id,
                    q,
                    new_tail,
                )
                &&& final(self).csts == old(self).csts
            },
            !r ==> {
                &&& final(self).sqs@ == old(self).sqs@
                &&& final(self).fetches(final(ctx)@) == old(self).fetches(old(ctx)@)
                &&& final(self).csts == (if old(self).sqs@.contains_key(sq_id) {
                    old(self).csts | csts::CFS
                } else {
                    old(self).csts
                })
            },
            *final(self) == (NvmeController {
                sqs: final(self).sqs,
                pending_fetches: final(self).pending_fetches,
                csts: final(self).csts,
                ..*old(self)
            }),
            final(self).sqs.capacity() == old(self).sqs.capacity(),
    {
        let ghost before = self.fetches(ctx@);
        let q: SubmissionQueue = match self.sqs.get(&sq_id) {
            Some(q) => *q,
            None => {
                return false;
            },
        };
        if new_tail >= q.size {
            self.csts = self.csts | csts::CFS;
            return false;
        }
        if let Some(sq) = self.sqs.get_mut(&sq_id) {
            sq.tail = new_tail;
        }
        if q.tail == new_tail {
            return true;
        }
        let first_count: u32 = if new_tail > q.tail {
            new_tail - q.tail
        } else {
            q.size - q.tail
        };
        let second_count: u32 = if new_tail > q.tail {
            0
        } else {
            new_tail
        };
        let gpa1: u64 = q.base_gpa + q.tail as u64 * SQE_BYTES;
        let tok1: u64 = ctx.dma_read(gpa1, first_count * SQE_BYTES as u32);
        self.pending_fetches.insert(
            tok1,
            FetchCtx { sq_id, count: first_count, start_slot: q.tail },
        );
        if second_count > 0 {
            let tok2: u64 = ctx.dma_read(q.base_gpa, second_count * SQE_BYTES as u32);
            self.pending_fetches.insert(
                tok2,
                FetchCtx { sq_id, count: second_count, start_slot: 0 },
            );
        }
        assert(self.fetches(ctx@) =~= before.up_to(sq_id, q, new_tail));
        true
    }

    /// Takes in the bytes that a fetch brought. A fetch that brought too many or too
    /// few is fatal; one that nobody knows of is ignored.
    pub fn on_fetched_sqes(&mut self, token: u64, data: Vec<u8>)
        requires
            fetch_fits(*old(self), token, data@),
        ensures
            fetch_taken(*old(self), *final(self), token, data@),
    {
        let ghost inbox = self.sqe_inbox@;
        let f: FetchCtx = match self.pending_fetches.remove(&token) {
            Some(f) => f,
            None => {
                assert(self.pending_fetches@ =~= old(self).pending_fetches@.remove(token));
                return ;
            },
        };
        if data.len() as u64 != f.count as u64 * SQE_BYTES {
            self.csts = self.csts | csts::CFS;
            return ;
        }
        let mut size: u64 = 1;
        if let Some(sq) = self.sqs.get_mut(&f.sq_id) {
            size = sq.size as u64;
            let head: u64 = (f.start_slot as u64 + f.count as u64) % size;
            sq.head = head as u32;
        }
        let ghost after = *self;
        let mut i: u32 = 0;
        while i < f.count
            invariant
                i <= f.count,
                size > 0,
                data@.len() == f.count * 64,
                self.sqe_inbox@ =~= inbox + fetched_commands(
                    f.sq_id,
                    size as int,
                    f,
                    data@,
                ).take(i as int),
                *self == (NvmeController { sqe_inbox: self.sqe_inbox, ..after }),
            decreases f.count - i,
        {
            let head_after_this: u64 = (f.start_slot as u64 + i as u64 + 1) % size;
            assert(i * 64 + 64 <= data.len());
            let sqe = Sqe::decode_at(data.as_slice(), i as usize * 64);
            let ghost all = fetched_commands(f.sq_id, size as int, f, data@);
            self.sqe_inbox.push((f.sq_id, head_after_this as u16, sqe));
            assert(all.take(i + 1) =~= all.take(i as int).push(all[i as int]));
            i += 1;
        }
        let ghost all = fetched_commands(f.sq_id, size as int, f, data@);
        assert(all.take(f.count as int) =~= all);
    }

    /// Installs the admin completion queue. Installing the same queue again does
    /// nothing; another base or size is refused, and the queue stays as it is.
    pub fn nvme_install_admin_cq(&mut self, base_gpa: u64, qsize: u32) -> (r: Result<
        (),
        AdminCqInstallError,
    >)
        requires
            old(self).wf(),
        ensures
            final(self).wf(),
            *final(self) == (NvmeController { cqs: final(self).cqs, ..*old(self) }),
            (final(self).cqs@, r) == admin_cq_installed(old(self).cqs@, base_gpa, qsize),
    {
        if let Some(q) = self.cqs.get(&0) {
            if q.base_gpa == base_gpa && q.size == qsize {
                return Ok(());
            }
            return Err(
                AdminCqInstallError::MismatchedParams {
                    old_base_gpa: q.base_gpa,
                    old_size: q.size,
                    new_base_gpa: base_gpa,
                    new_size: qsize,
                },
            );
        }
        self.cqs.insert(0, new_cq(base_gpa, qsize));
        Ok(())
    }

    /// Installs the admin completion queue in place of any that is there.
    pub fn nvme_force_install_admin_cq(&mut self, base_gpa: u64, qsize: u32)
        requires
            old(self).wf(),
        ensures
            final(self).wf(),
            final(self).cqs@ == old(self).cqs@.insert(0, fresh_cq(base_gpa, qsize)),
            *final(self) == (NvmeController { cqs: final(self).cqs, ..*old(self) }),
    {
        self.cqs.insert(0, new_cq(base_gpa, qsize));
    }

    /// Installs I/O queue pair `qid` in place of any that is there: a completion
    /// queue at `cq_base_gpa` and a submission queue that completes to it. An
    /// identifier beyond the last slot changes nothing.
    pub fn nvme_force_install_io_queue(&mut self, qid: u16, cq_base_gpa: u64, qsize: u32)
        requires
            old(self).wf(),
            qid >= 1,
        ensures
            final(self).wf(),
            qid <= IO_QUEUE_SLOT_CAPACITY ==> {
                &&& final(self).cqs@ == old(self).cqs@.insert(qid, fresh_cq(cq_base_gpa, qsize))
                &&& final(self).sqs@ == old(self).sqs@.insert(
                    qid,
                    SubmissionQueue { base_gpa: 0, size: qsize, head: 0, tail: 0, cq_id: qid },
                )
            },
            qid > IO_QUEUE_SLOT_CAPACITY ==> {
                &&& final(self).cqs@ == old(self).cqs@
                &&& final(self).sqs@ == old(self).sqs@
            },
            *final(self) == (NvmeController {
                cqs: final(self).cqs,
                sqs: final(self).sqs,
                ..*old(self)
            }),
    {
        self.cqs.insert(qid, new_cq(cq_base_gpa, qsize));
        self.sqs.insert(
            qid,
            SubmissionQueue { base_gpa: 0, size: qsize, head: 0, tail: 0, cq_id: qid },
        );
    }

    pub fn nvme_has_admin_cq(&self) -> (r: bool)
        ensures
            r == self.cqs@.contains_key(0),
    {
        self.cqs.contains_key(&0)
    }

    /// Posts `cqe` to the admin completion queue, which has to be there.
    pub fn nvme_post_cqe(&mut self, ctx: &mut DeviceCtx, cqe: Cqe)
        requires
            old(self).cqs@.contains_key(0),
            old(self).cqs@[0].wf(),
        ensures
            final(self).link(final(ctx)@) == old(self).link(old(ctx)@).posted(
                old(self).irq_aggr_threshold,
                0,
                cqe,
            ),
            *final(self) == (NvmeController { cqs: final(self).cqs, ..*old(self) }),
            final(self).cqs.capacity() == old(self).cqs.capacity(),
    {
        self.post_cqe(ctx, 0, cqe);
    }

    /// Removes I/O submission queue `qid`; the result tells whether there was one.
    pub fn nvme_delete_io_sq(&mut self, qid: u16) -> (r: bool)
        ensures
            r == (qid != 0 && old(self).sqs@.contains_key(qid)),
            final(self).sqs@ == (if qid == 0 {
                old(self).sqs@
            } else {
                old(self).sqs@.remove(qid)
            }),
            *final(self) == (NvmeController { sqs: final(self).sqs, ..*old(self) }),
            final(self).sqs.capacity() == old(self).sqs.capacity(),
    {
        if qid == 0 {
            return false;
        }
        self.sqs.remove(&qid).is_some()
    }

    /// Removes I/O completion queue `qid`; the result tells whether there was one.
    pub fn nvme_delete_io_cq(&mut self, qid: u16) -> (r: bool)
        ensures
            r == (qid != 0 && old(self).cqs@.contains_key(qid)),
            final(self).cqs@ == (if qid == 0 {
                old(self).cqs@
            } else {
                old(self).cqs@.remove(qid)
            }),
            *final(self) == (NvmeController { cqs: final(self).cqs, ..*old(self) }),
            final(self).cqs.capacity() == old(self).cqs.capacity(),
    {
        if qid == 0 {
            return false;
        }
        self.cqs.remove(&qid).is_some()
    }

    /// The identifiers of the I/O submission queues, in ascending order.
    pub fn nvme_list_io_sqs(&self) -> (r: Vec<u16>)
        requires
            self.wf(),
        ensures
            dense_map::keys_ascending(r@),
            r@.to_set() == self.sqs@.dom().remove(0),
    {
        without_admin(self.sqs.keys())
    }

    /// The identifiers of the I/O completion queues, in ascending order.
    pub fn nvme_list_io_cqs(&self) -> (r: Vec<u16>)
        requires
            self.wf(),
        ensures
            dense_map::keys_ascending(r@),
            r@.to_set() == self.cqs@.dom().remove(0),
    {
        without_admin(self.cqs.keys())
    }
}

/// `ids` without 0.
fn without_admin(ids: Vec<u16>) -> (r: Vec<u16>)
    requires
        dense_map::keys_ascending(ids@),
    ensures
        dense_map::keys_ascending(r@),
        r@.to_set() == ids@.to_set().remove(0),
{
    let mut r: Vec<u16> = Vec::new();
    let mut i: usize = 0;
    while i < ids.len()
        invariant
            i <= ids@.len(),
            dense_map::keys_ascending(ids@),
            dense_map::keys_ascending(r@),
            forall|j: int| #![auto] 0 <= j < r@.len() ==> r@[j] != 0 && ids@.contains(r@[j]),
            forall|j: int| #![auto] 0 <= j < r@.len() && i < ids@.len() ==> r@[j] < ids@[i as int],
            forall|j: int| 0 <= j < i && (#[trigger] ids@[j]) != 0 ==> r@.contains(ids@[j]),
        decreases ids@.len() - i,
    {
        let ghost before = r@;
        if ids[i] != 0 {
            r.push(ids[i]);
            assert(r@[before.len() as int] == ids@[i as int]);
        }
        assert forall|j: int| 0 <= j < i + 1 && (#[trigger] ids@[j]) != 0 implies r@.contains(ids@[j]) by {
            if j < i {
                let k = choose|k: int| 0 <= k < before.len() && before[k] == ids@[j];
                assert(r@[k] == ids@[j]);
            }
        }
        i += 1;
    }
    assert forall|q: u16| #[trigger] r@.to_set().contains(q) <==> ids@.to_set().remove(0).contains(q) by {
        if r@.contains(q) {
            let j = choose|j: int| 0 <= j < r@.len() && r@[j] == q;
            assert(ids@.contains(r@[j]));
        }
        if ids@.contains(q) && q != 0 {
            let j = choose|j: int| 0 <= j < ids@.len() && ids@[j] == q;
            assert(r@.contains(ids@[j]));
        }
    }
    assert(r@.to_set() =~= ids@.to_set().remove(0));
    r
}

/// The last command of a fetch reports the head that the queue has after it, and each
/// one reports the slot after its own.
pub proof fn law_fetched_heads(f: FetchCtx, size: u32, data: Seq<u8>, i: int)
    requires
        0 < size <= 65536,
        0 <= i < f.count,
    ensures
        ({
            let c = fetched_commands(f.sq_id, size as int, f, data);
            &&& c.len() == f.count
            &&& c[i].1 == (f.start_slot + i + 1) % (size as int)
            &&& c.last().1 == (f.start_slot + f.count) % (size as int)
        }),
{
    vstd::arithmetic::div_mod::lemma_mod_bound(f.start_slot + i + 1, size as int);
    vstd::arithmetic::div_mod::lemma_mod_bound(f.start_slot + f.count, size as int);
}

/// The commands that a host submits by moving the tail of queue `q`, number `sq_id`, to
/// `new_tail`, where `slots` are the entries of the queue: slot by slot from the old tail,
/// each with the slot after it.
pub open spec fn submitted_commands(
    sq_id: u16,
    q: SubmissionQueue,
    slots: Seq<Sqe>,
    new_tail: u32,
) -> Seq<(u16, u16, Sqe)> {
    let n = q.size as int;
    Seq::new(
        ((new_tail - q.tail) % n) as nat,
        |i: int| (sq_id, ((q.tail + i + 1) % n) as u16, slots[(q.tail + i) % n]),
    )
}

/// What the fetches for a move of the tail bring, one after the other, are the commands
/// that the host submitted, in the order in which it put them into the queue.
pub proof fn law_fetches_bring_what_was_submitted(
    sq_id: u16,
    q: SubmissionQueue,
    slots: Seq<Sqe>,
    new_tail: u32,
    first: Seq<u8>,
    second: Seq<u8>,
)
    requires
        q.wf(),
        new_tail < q.size,
        new_tail != q.tail,
        slots.len() == q.size,
        forall|i: int|
            0 <= i < q.first_run(new_tail) ==> #[trigger] cmd::sqe_at(first, i * 64) == slots[q.tail
                + i],
        forall|i: int|
            0 <= i < q.second_run(new_tail) ==> #[trigger] cmd::sqe_at(second, i * 64) == slots[i],
    ensures
        ({
            let f1 = FetchCtx { sq_id, count: q.first_run(new_tail) as u32, start_slot: q.tail };
            let f2 = FetchCtx { sq_id, count: q.second_run(new_tail) as u32, start_slot: 0 };
            fetched_commands(sq_id, q.size as int, f1, first) + fetched_commands(
                sq_id,
                q.size as int,
                f2,
                second,
            ) == submitted_commands(sq_id, q, slots, new_tail)
        }),
{
    let n = q.size as int;
    let (r1, r2) = (q.first_run(new_tail), q.second_run(new_tail));
    let f1 = FetchCtx { sq_id, count: r1 as u32, start_slot: q.tail };
    let f2 = FetchCtx { sq_id, count: r2 as u32, start_slot: 0 };
    let a = fetched_commands(sq_id, n, f1, first);
    let b = fetched_commands(sq_id, n, f2, second);
    let c = submitted_commands(sq_id, q, slots, new_tail);
    law_runs_cover_the_new_entries(q, new_tail, 0);
    assert forall|i: int| 0 <= i < c.len() implies #[trigger] (a + b)[i] == c[i] by {
        law_runs_cover_the_new_entries(q, new_tail, i);
        if i < r1 {
            assert(cmd::sqe_at(first, i * 64) == slots[q.tail + i]);
        } else {
            assert(cmd::sqe_at(second, (i - r1) * 64) == slots[i - r1]);
            assert(q.tail + i + 1 == (i - r1 + 1) + n);
            vstd::arithmetic::div_mod::lemma_mod_add_multiples_vanish(i - r1 + 1, n);
        }
    }
    assert(a + b =~= c);
}

/// A queue that was removed is not listed any more, and every other one still is.
pub proof fn law_removed_queue_is_not_listed<V>(queues: Map<u16, V>, qid: u16, other: u16)
    requires
        other != qid,
    ensures
        !queues.remove(qid).dom().remove(0).contains(qid),
        queues.remove(qid).dom().remove(0).contains(other) <==> queues.dom().remove(0).contains(
            other,
        ),
{
}

/// The completion queues after an attempt to install the admin queue, and its result.
pub open spec fn admin_cq_installed(cqs: Map<u16, CompletionQueue>, base_gpa: u64, size: u32) -> (
    Map<u16, CompletionQueue>,
    Result<(), AdminCqInstallError>,
) {
    if !cqs.contains_key(0) {
        (cqs.insert(0, fresh_cq(base_gpa, size)), Ok(()))
    } else if cqs[0].base_gpa == base_gpa && cqs[0].size == size {
        (cqs, Ok(()))
    } else {
        (
            cqs,
            Err(
                AdminCqInstallError::MismatchedParams {
                    old_base_gpa: cqs[0].base_gpa,
                    old_size: cqs[0].size,
                    new_base_gpa: base_gpa,
                    new_size: size,
                },
            ),
        )
    }
}

/// Installing the admin queue again changes nothing, and never takes away one that is
/// there; the same queue is accepted again even after completions were posted to it.
pub proof fn law_install_is_idempotent(
    cqs: Map<u16, CompletionQueue>,
    base_gpa: u64,
    size: u32,
    other_base: u64,
    other_size: u32,
)
    ensures
        ({
            let (once, r) = admin_cq_installed(cqs, base_gpa, size);
            &&& once.contains_key(0)
            &&& r is Ok ==> admin_cq_installed(once, base_gpa, size) == (
                once,
                Ok::<(), AdminCqInstallError>(()),
            )
            &&& admin_cq_installed(once, other_base, other_size).0 == once
            &&& admin_cq_installed(
                once.insert(0, once[0].advanced()),
                once[0].base_gpa,
                once[0].size,
            ).1 is Ok
        }),
{
}

} // verus!
