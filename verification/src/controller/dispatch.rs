//! Dispatching fetched commands, and fused compare-and-write.
use vstd::prelude::*;

use crate::cmd;
use crate::cmd::nvm_opc;
use crate::cmd::sc;
use crate::cmd::{Cqe, Sqe};
use crate::controller::ctx::{DeviceCtx, Trace};
use crate::controller::inflight::{PendingIo, PendingOp};
use crate::controller::namespace::Namespace;
use crate::controller::post::Link;
use crate::controller::NvmeController;
use crate::regs::NVME_PAGE_SIZE;

verus! {

broadcast use vstd::std_specs::hash::group_hash_axioms;

/// A command that is to be executed.
#[derive(Debug, Clone, Copy, PartialEq, Eq, Structural)]
pub struct CommandRequest {
    pub sq_id: u16,
    pub sqe: Sqe,
    pub cid: u16,
    /// The head pointer that the completion reports.
    pub sq_head: u16,
    /// The completion queue that the completion goes to.
    pub cq_id: u16,
}

/// What remains to be done for a command.
#[derive(Debug, Clone, Copy, PartialEq, Eq, Structural)]
pub enum Route {
    /// Nothing.
    Done,
    /// Execute an admin command.
    Admin(CommandRequest),
    /// Execute an I/O command.
    Io(CommandRequest),
}

/// The namespace of an I/O command. Neither 0 nor the broadcast value names one.
pub open spec fn io_namespace(namespaces: Map<u32, Namespace>, nsid: u32) -> Option<Namespace> {
    if nsid == 0 || nsid == 0xffff_ffff || !namespaces.contains_key(nsid) {
        None
    } else {
        Some(namespaces[nsid])
    }
}

/// `second` is the write that belongs to the compare `first`: same namespace, same
/// blocks.
pub open spec fn fused_pair(first: Sqe, second: Sqe) -> bool {
    &&& second.spec_opcode() == nvm_opc::WRITE
    &&& first.nsid == second.nsid
    &&& first.spec_slba() == second.spec_slba()
    &&& first.spec_nlb() == second.spec_nlb()
}

/// The blocks fit one page, and the namespace holds plain blocks.
pub open spec fn fused_supported(ns: Namespace, nlb: int) -> bool {
    ns.plain() && nlb * vstd::arithmetic::power2::pow2(ns.lbads as nat) <= NVME_PAGE_SIZE
}

/// The namespace of command `first` serves I/O.
pub open spec fn serves(namespaces: Map<u32, Namespace>, first: Sqe) -> bool {
    let ns = io_namespace(namespaces, first.nsid);
    ns is Some && !ns->0.not_ready
}

/// The pair of `first` and `second` is accepted, and its compare starts.
pub open spec fn pair_starts(namespaces: Map<u32, Namespace>, first: Sqe, second: Sqe) -> bool {
    &&& fused_pair(first, second)
    &&& serves(namespaces, first)
    &&& fused_supported(io_namespace(namespaces, first.nsid)->0, first.spec_nlb())
}

/// What dispatching reads and changes: the first commands of fused pairs, the
/// transfers in flight, the completion queues and the link.
#[verifier::ext_equal]
pub struct Commands {
    pub fused: Map<u16, (Sqe, u16)>,
    pub ios: Map<u64, PendingIo>,
    pub link: Link,
}

impl Commands {
    /// The command of `sqe` completes with `status`.
    pub open spec fn refused(
        self,
        aggr_thr: u8,
        cq_id: u16,
        sq_id: u16,
        sqe: Sqe,
        head: u16,
        phase: u8,
        status: u16,
    ) -> Commands {
        Commands {
            link: self.link.posted(
                aggr_thr,
                cq_id,
                cmd::cqe_of(sqe.spec_cid(), sq_id, head, phase, status),
            ),
            ..self
        }
    }

    /// Both commands of a pair complete with `status`, the first one first. Each carries
    /// the phase tag that the queue has when it is posted.
    pub open spec fn pair_refused(
        self,
        aggr_thr: u8,
        cq_id: u16,
        sq_id: u16,
        first: (Sqe, u16),
        second: (Sqe, u16),
        status: u16,
    ) -> Commands {
        let s = self.refused(
            aggr_thr,
            cq_id,
            sq_id,
            first.0,
            first.1,
            self.link.phase(cq_id),
            status,
        );
        s.refused(aggr_thr, cq_id, sq_id, second.0, second.1, s.link.phase(cq_id), status)
    }

    /// A first command on queue `sq_id` that still waits for its second one fails.
    pub open spec fn stranded_refused(self, aggr_thr: u8, cq_id: u16, sq_id: u16) -> Commands {
        if self.fused.contains_key(sq_id) {
            let first = self.fused[sq_id];
            (Commands { fused: self.fused.remove(sq_id), ..self }).refused(
                aggr_thr,
                cq_id,
                sq_id,
                first.0,
                first.1,
                self.link.phase(cq_id),
                sc::INVALID_FIELD,
            )
        } else {
            self
        }
    }

    /// The command of `next` fails, and with it a first command on queue `sq_id` that
    /// still waits for its second one.
    pub open spec fn refused_with_waiting(
        self,
        aggr_thr: u8,
        cq_id: u16,
        sq_id: u16,
        next: (Sqe, u16),
    ) -> Commands {
        if self.fused.contains_key(sq_id) {
            (Commands { fused: self.fused.remove(sq_id), ..self }).pair_refused(
                aggr_thr,
                cq_id,
                sq_id,
                self.fused[sq_id],
                next,
                sc::INVALID_FIELD,
            )
        } else {
            self.refused(
                aggr_thr,
                cq_id,
                sq_id,
                next.0,
                next.1,
                self.link.phase(cq_id),
                sc::INVALID_FIELD,
            )
        }
    }

    /// The compare of a fused pair starts: its data is read from the host, and the
    /// write waits for the outcome. Nothing is read for a namespace that does not
    /// exist or is not ready.
    pub open spec fn compare_started(
        self,
        namespaces: Map<u32, Namespace>,
        aggr_thr: u8,
        cq_id: u16,
        sq_id: u16,
        first: (Sqe, u16),
        second: (Sqe, u16),
    ) -> Commands {
        match io_namespace(namespaces, first.0.nsid) {
            None => self.pair_refused(
                aggr_thr,
                cq_id,
                sq_id,
                first,
                second,
                sc::INVALID_NAMESPACE,
            ),
            Some(ns) => if ns.not_ready {
                self.pair_refused(aggr_thr, cq_id, sq_id, first, second, sc::NAMESPACE_NOT_READY)
            } else {
                Commands {
                    ios: self.ios.insert(
                        self.link.trace.next_token,
                        PendingIo {
                            sq_id,
                            cid: first.0.spec_cid(),
                            sq_head: first.1,
                            cq_id,
                            nsid: first.0.nsid,
                            op: PendingOp::NvmCompareSinglePrpFused {
                                lba: first.0.spec_slba(),
                                num_blocks: first.0.spec_nlb() as u32,
                                write_sqe: second.0,
                                write_sq_head: second.1,
                                write_sq_id: sq_id,
                            },
                        },
                    ),
                    link: Link {
                        trace: self.link.trace.read(
                            first.0.prp1,
                            (first.0.spec_nlb() * vstd::arithmetic::power2::pow2(
                                ns.lbads as nat,
                            )) as u32,
                        ),
                        ..self.link
                    },
                    ..self
                }
            },
        }
    }

    /// The second command of a fused pair came.
    pub open spec fn second_came(
        self,
        namespaces: Map<u32, Namespace>,
        aggr_thr: u8,
        cq_id: u16,
        sq_id: u16,
        second: (Sqe, u16),
    ) -> Commands {
        if !self.fused.contains_key(sq_id) {
            self.refused(
                aggr_thr,
                cq_id,
                sq_id,
                second.0,
                second.1,
                self.link.phase(cq_id),
                sc::INVALID_FIELD,
            )
        } else {
            let first = self.fused[sq_id];
            let s = Commands { fused: self.fused.remove(sq_id), ..self };
            let ns = io_namespace(namespaces, first.0.nsid);
            if !fused_pair(first.0, second.0) || (ns is Some && !fused_supported(
                ns->0,
                first.0.spec_nlb(),
            )) {
                s.pair_refused(aggr_thr, cq_id, sq_id, first, second, sc::INVALID_FIELD)
            } else {
                s.compare_started(namespaces, aggr_thr, cq_id, sq_id, first, second)
            }
        }
    }

    /// The command of `sqe` was taken from queue `sq_id`. Only I/O queues take fused
    /// commands; the first of a pair is a compare, and the second has to follow it
    /// directly: what comes in its place fails together with the first. A first command
    /// behind another one starts a pair of its own.
    pub open spec fn dispatched(
        self,
        namespaces: Map<u32, Namespace>,
        aggr_thr: u8,
        cq_id: u16,
        sq_id: u16,
        head: u16,
        sqe: Sqe,
    ) -> Commands {
        let fuse = sqe.spec_fuse();
        if sq_id == 0 {
            if fuse == 0 {
                self
            } else {
                self.refused(
                    aggr_thr,
                    cq_id,
                    sq_id,
                    sqe,
                    head,
                    self.link.phase(cq_id),
                    sc::INVALID_FIELD,
                )
            }
        } else if fuse == 0 && !self.fused.contains_key(sq_id) {
            self
        } else if fuse == 1 && sqe.spec_opcode() == nvm_opc::COMPARE {
            let s = self.stranded_refused(aggr_thr, cq_id, sq_id);
            Commands { fused: s.fused.insert(sq_id, (sqe, head)), ..s }
        } else if fuse == 2 {
            self.second_came(namespaces, aggr_thr, cq_id, sq_id, (sqe, head))
        } else {
            self.refused_with_waiting(aggr_thr, cq_id, sq_id, (sqe, head))
        }
    }
}

impl Commands {
    /// Dispatching the command of `sqe` from queue `sq_id` completes a command.
    pub open spec fn dispatch_posts(
        self,
        namespaces: Map<u32, Namespace>,
        sq_id: u16,
        sqe: Sqe,
    ) -> bool {
        let fuse = sqe.spec_fuse();
        let waiting = self.fused.contains_key(sq_id);
        if sq_id == 0 {
            fuse != 0
        } else if fuse == 0 || (fuse == 1 && sqe.spec_opcode() == nvm_opc::COMPARE) {
            waiting
        } else if fuse == 2 {
            !(waiting && pair_starts(namespaces, self.fused[sq_id].0, sqe))
        } else {
            true
        }
    }
}

/// What remains to be done for the command of `sqe`: one that is not fused is to be
/// executed, unless it comes in place of a second command; `waiting` tells whether a
/// first command waits on its queue.
pub open spec fn route_of(cq_id: u16, sq_id: u16, head: u16, sqe: Sqe, waiting: bool) -> Route {
    let req = CommandRequest { sq_id, sqe, cid: sqe.spec_cid(), sq_head: head, cq_id };
    if sqe.spec_fuse() != 0 || (sq_id != 0 && waiting) {
        Route::Done
    } else if sq_id == 0 {
        Route::Admin(req)
    } else {
        Route::Io(req)
    }
}

impl NvmeController {
    /// What dispatching reads and changes in this controller, on link `t`.
    pub open spec fn commands(&self, t: Trace) -> Commands {
        Commands {
            fused: self.pending_fused@,
            ios: self.pending_ios@,
            link: self.link(t),
        }
    }

    /// The completion queue of submission queue `sq_id`; 0 where there is no such queue.
    pub open spec fn cq_of(&self, sq_id: u16) -> u16 {
        if self.sqs@.contains_key(sq_id) {
            self.sqs@[sq_id].cq_id
        } else {
            0
        }
    }

    /// `self` differs from `other` at most in what dispatching changes.
    pub open spec fn same_but_commands(&self, other: NvmeController) -> bool {
        &&& *self == (NvmeController {
            pending_fused: self.pending_fused,
            pending_ios: self.pending_ios,
            cqs: self.cqs,
            ..other
        })
        &&& self.cqs.capacity() == other.cqs.capacity()
    }

    /// The namespace of an I/O command.
    pub fn ns(&self, nsid: u32) -> (r: Option<&Namespace>)
        ensures
            r == (match io_namespace(self.namespaces@, nsid) {
                Some(ns) => Some(&ns),
                None => None,
            }),
    {
        if nsid == 0 || nsid == 0xffff_ffff {
            return None;
        }
        self.namespaces.get(&nsid)
    }

    /// The namespace of an I/O command, to be changed in place.
    pub fn ns_mut(&mut self, nsid: u32) -> (r: Option<&mut Namespace>)
        ensures
            r is Some <==> io_namespace(old(self).namespaces@, nsid) is Some,
            match r {
                Some(ns) => *ns == old(self).namespaces@[nsid] && final(self).namespaces@ == old(
                    self,
                ).namespaces@.insert(nsid, *final(ns)),
                None => final(self).namespaces@ == old(self).namespaces@,
            },
            *final(self) == (NvmeController { namespaces: final(self).namespaces, ..*old(self) }),
            final(self).namespaces.capacity() == old(self).namespaces.capacity(),
    {
        if nsid == 0 || nsid == 0xffff_ffff {
            return None;
        }
        self.namespaces.get_mut(&nsid)
    }

    /// Logarithm of the block size of namespace `nsid`.
    pub fn ns_lbads(&self, nsid: u32) -> (r: Option<u8>)
        ensures
            r == (if self.namespaces@.contains_key(nsid) {
                Some(self.namespaces@[nsid].lbads)
            } else {
                None
            }),
    {
        match self.namespaces.get(&nsid) {
            Some(n) => Some(n.lbads),
            None => None,
        }
    }

    fn refuse(
        &mut self,
        ctx: &mut DeviceCtx,
        cq_id: u16,
        sq_id: u16,
        sqe: Sqe,
        head: u16,
        phase: u8,
        status: u16,
    )
        requires
            old(self).link(old(ctx)@).postable(cq_id),
        ensures
            final(self).commands(final(ctx)@) == old(self).commands(old(ctx)@).refused(
                old(self).irq_aggr_threshold,
                cq_id,
                sq_id,
                sqe,
                head,
                phase,
                status,
            ),
            final(self).same_but_commands(*old(self)),
            final(self).link(final(ctx)@).postable(cq_id),
    {
        self.post_cqe(ctx, cq_id, Cqe::error(sqe.cid(), sq_id, head, phase, status));
    }

    fn refuse_pair(
        &mut self,
        ctx: &mut DeviceCtx,
        cq_id: u16,
        sq_id: u16,
        first: (Sqe, u16),
        second: (Sqe, u16),
        status: u16,
    )
        requires
            old(self).link(old(ctx)@).postable(cq_id),
        ensures
            final(self).commands(final(ctx)@) == old(self).commands(old(ctx)@).pair_refused(
                old(self).irq_aggr_threshold,
                cq_id,
                sq_id,
                first,
                second,
                status,
            ),
            final(self).same_but_commands(*old(self)),
            final(self).link(final(ctx)@).postable(cq_id),
    {
        let phase: u8 = self.phase_of(cq_id);
        self.refuse(ctx, cq_id, sq_id, first.0, first.1, phase, status);
        let phase: u8 = self.phase_of(cq_id);
        self.refuse(ctx, cq_id, sq_id, second.0, second.1, phase, status);
    }

    fn refuse_stranded(&mut self, ctx: &mut DeviceCtx, cq_id: u16, sq_id: u16)
        requires
            old(self).pending_fused@.contains_key(sq_id) ==> old(self).link(old(ctx)@).postable(
                cq_id,
            ),
        ensures
            final(self).commands(final(ctx)@) == old(self).commands(old(ctx)@).stranded_refused(
                old(self).irq_aggr_threshold,
                cq_id,
                sq_id,
            ),
            final(self).same_but_commands(*old(self)),
    {
        let ghost s = self.commands(ctx@);
        if let Some(first) = self.pending_fused.remove(&sq_id) {
            assert(self.commands(ctx@) =~= (Commands { fused: s.fused.remove(sq_id), ..s }));
            let phase: u8 = self.phase_of(cq_id);
            self.refuse(ctx, cq_id, sq_id, first.0, first.1, phase, sc::INVALID_FIELD);
        } else {
            assert(self.commands(ctx@) =~= s);
        }
    }

    fn refuse_with_waiting(
        &mut self,
        ctx: &mut DeviceCtx,
        cq_id: u16,
        sq_id: u16,
        next: (Sqe, u16),
    )
        requires
            old(self).link(old(ctx)@).postable(cq_id),
        ensures
            final(self).commands(final(ctx)@) == old(self).commands(
                old(ctx)@,
            ).refused_with_waiting(old(self).irq_aggr_threshold, cq_id, sq_id, next),
            final(self).same_but_commands(*old(self)),
    {
        let ghost s = self.commands(ctx@);
        if let Some(first) = self.pending_fused.remove(&sq_id) {
            assert(self.commands(ctx@) =~= (Commands { fused: s.fused.remove(sq_id), ..s }));
            self.refuse_pair(ctx, cq_id, sq_id, first, next, sc::INVALID_FIELD);
        } else {
            assert(self.commands(ctx@) =~= s);
            let phase: u8 = self.phase_of(cq_id);
            self.refuse(ctx, cq_id, sq_id, next.0, next.1, phase, sc::INVALID_FIELD);
        }
    }

    /// Takes the command of `sqe` from queue `sq_id`; `head_after_this` is the head
    /// pointer after it. The result tells what remains to be done for it.
    pub fn dispatch_sqe(
        &mut self,
        ctx: &mut DeviceCtx,
        sq_id: u16,
        head_after_this: u16,
        sqe: Sqe,
    ) -> (r: Route)
        requires
            old(self).commands(old(ctx)@).dispatch_posts(old(self).namespaces@, sq_id, sqe)
                ==> old(self).link(old(ctx)@).postable(old(self).cq_of(sq_id)),
        ensures
            r == route_of(
                old(self).cq_of(sq_id),
                sq_id,
                head_after_this,
                sqe,
                old(self).pending_fused@.contains_key(sq_id),
            ),
            final(self).commands(final(ctx)@) == old(self).commands(old(ctx)@).dispatched(
                old(self).namespaces@,
                old(self).irq_aggr_threshold,
                old(self).cq_of(sq_id),
                sq_id,
                head_after_this,
                sqe,
            ),
            final(self).same_but_commands(*old(self)),
    {
        let cid: u16 = sqe.cid();
        let fuse: u8 = sqe.fuse();
        let cq_id: u16 = match self.sqs.get(&sq_id) {
            Some(q) => q.cq_id,
            None => 0,
        };
        let req = CommandRequest { sq_id, sqe, cid, sq_head: head_after_this, cq_id };
        if sq_id == 0 {
            if fuse != 0 {
                let phase: u8 = self.phase_of(cq_id);
                self.refuse(ctx, cq_id, sq_id, sqe, head_after_this, phase, sc::INVALID_FIELD);
                return Route::Done;
            }
            return Route::Admin(req);
        }
        if fuse == 0 && !self.pending_fused.contains_key(&sq_id) {
            return Route::Io(req);
        }
        if fuse == 1 && sqe.opcode() == nvm_opc::COMPARE {
            self.refuse_stranded(ctx, cq_id, sq_id);
            let ghost s = self.commands(ctx@);
            self.pending_fused.insert(sq_id, (sqe, head_after_this));
            assert(self.commands(ctx@) =~= (Commands {
                fused: s.fused.insert(sq_id, (sqe, head_after_this)),
                ..s
            }));
            return Route::Done;
        }
        if fuse == 2 {
            self.dispatch_fused_second(ctx, cq_id, sq_id, sqe, head_after_this);
            return Route::Done;
        }
        self.refuse_with_waiting(ctx, cq_id, sq_id, (sqe, head_after_this));
        Route::Done
    }

    fn dispatch_fused_second(
        &mut self,
        ctx: &mut DeviceCtx,
        cq_id: u16,
        sq_id: u16,
        sqe: Sqe,
        head: u16,
    )
        requires
            !(old(self).pending_fused@.contains_key(sq_id) && pair_starts(
                old(self).namespaces@,
                old(self).pending_fused@[sq_id].0,
                sqe,
            )) ==> old(self).link(old(ctx)@).postable(cq_id),
        ensures
            final(self).commands(final(ctx)@) == old(self).commands(old(ctx)@).second_came(
                old(self).namespaces@,
                old(self).irq_aggr_threshold,
                cq_id,
                sq_id,
                (sqe, head),
            ),
            final(self).same_but_commands(*old(self)),
    {
        let ghost s = self.commands(ctx@);
        let first: (Sqe, u16) = match self.pending_fused.remove(&sq_id) {
            Some(first) => first,
            None => {
                assert(self.commands(ctx@) =~= s);
                let phase: u8 = self.phase_of(cq_id);
                self.refuse(ctx, cq_id, sq_id, sqe, head, phase, sc::INVALID_FIELD);
                return ;
            },
        };
        assert(self.commands(ctx@) =~= (Commands { fused: s.fused.remove(sq_id), ..s }));
        let matching: bool = sqe.opcode() == nvm_opc::WRITE && first.0.nsid == sqe.nsid
            && first.0.slba() == sqe.slba() && first.0.nlb() == sqe.nlb();
        let supported: bool = match self.ns(first.0.nsid) {
            Some(ns) => {
                if ns.is_plain() {
                    let nlb: u64 = first.0.nlb() as u64;
                    let block: u64 = ns.data_bytes();
                    proof {
                        vstd::arithmetic::power2::lemma2_to64();
                        assert(nlb * block <= 0x1000_0000) by (nonlinear_arith)
                            requires
                                nlb <= 0x1_0000,
                                block <= 4096,
                        ;
                    }
                    nlb * block <= NVME_PAGE_SIZE
                } else {
                    false
                }
            },
            None => true,
        };
        if !matching || !supported {
            self.refuse_pair(ctx, cq_id, sq_id, first, (sqe, head), sc::INVALID_FIELD);
            return ;
        }
        self.dispatch_fused_compare_write(ctx, sq_id, first.0, first.1, sqe, head, cq_id);
    }

    /// Starts the compare of a fused pair.
    pub fn dispatch_fused_compare_write(
        &mut self,
        ctx: &mut DeviceCtx,
        sq_id: u16,
        compare_sqe: Sqe,
        compare_sq_head: u16,
        write_sqe: Sqe,
        write_sq_head: u16,
        cq_id: u16,
    )
        requires
            !serves(old(self).namespaces@, compare_sqe) ==> old(self).link(old(ctx)@).postable(
                cq_id,
            ),
            ({
                let ns = io_namespace(old(self).namespaces@, compare_sqe.nsid);
                ns is Some && !ns->0.not_ready ==> ns->0.lbads < 64 && compare_sqe.spec_nlb()
                    * vstd::arithmetic::power2::pow2(ns->0.lbads as nat) <= u64::MAX
            }),
        ensures
            final(self).commands(final(ctx)@) == old(self).commands(old(ctx)@).compare_started(
                old(self).namespaces@,
                old(self).irq_aggr_threshold,
                cq_id,
                sq_id,
                (compare_sqe, compare_sq_head),
                (write_sqe, write_sq_head),
            ),
            final(self).same_but_commands(*old(self)),
    {
        let first = (compare_sqe, compare_sq_head);
        let second = (write_sqe, write_sq_head);
        let nsid: u32 = compare_sqe.nsid;
        let nlb: u32 = compare_sqe.nlb();
        let bytes: u64 = match self.ns(nsid) {
            None => {
                self.refuse_pair(ctx, cq_id, sq_id, first, second, sc::INVALID_NAMESPACE);
                return ;
            },
            Some(ns) => {
                if ns.not_ready {
                    self.refuse_pair(ctx, cq_id, sq_id, first, second, sc::NAMESPACE_NOT_READY);
                    return ;
                }
                nlb as u64 * ns.data_bytes()
            },
        };
        let ghost s = self.commands(ctx@);
        let tok: u64 = ctx.dma_read(compare_sqe.prp1, bytes as u32);
        self.pending_ios.insert(
            tok,
            PendingIo {
                sq_id,
                cid: compare_sqe.cid(),
                sq_head: compare_sq_head,
                cq_id,
                nsid,
                op: PendingOp::NvmCompareSinglePrpFused {
                    lba: compare_sqe.slba(),
                    num_blocks: nlb,
                    write_sqe,
                    write_sq_head,
                    write_sq_id: sq_id,
                },
            },
        );
        assert(self.commands(ctx@) =~= s.compare_started(
            self.namespaces@,
            self.irq_aggr_threshold,
            cq_id,
            sq_id,
            first,
            second,
        ));
    }

    /// Posts the completion that executing a command gave, if it gave one; a command
    /// that waits for transfers completes later.
    pub fn complete_command(&mut self, ctx: &mut DeviceCtx, cq_id: u16, cqe: Option<Cqe>)
        requires
            cqe is Some ==> old(self).link(old(ctx)@).postable(cq_id),
        ensures
            final(self).link(final(ctx)@) == (match cqe {
                Some(c) => old(self).link(old(ctx)@).posted(
                    old(self).irq_aggr_threshold,
                    cq_id,
                    c,
                ),
                None => old(self).link(old(ctx)@),
            }),
            *final(self) == (NvmeController { cqs: final(self).cqs, ..*old(self) }),
            final(self).cqs.capacity() == old(self).cqs.capacity(),
    {
        if let Some(c) = cqe {
            self.post_cqe(ctx, cq_id, c);
        }
    }
}

/// A first command waits for the very next command of its queue and no longer: whatever
/// that command is, what waits afterwards, if anything does, is that command itself, the
/// first of another pair.
pub proof fn law_first_does_not_outlive_its_second(
    s: Commands,
    namespaces: Map<u32, Namespace>,
    aggr_thr: u8,
    cq_id: u16,
    sq_id: u16,
    head: u16,
    sqe: Sqe,
)
    requires
        sq_id != 0,
    ensures
        ({
            let r = s.dispatched(namespaces, aggr_thr, cq_id, sq_id, head, sqe);
            let starts_pair = sqe.spec_fuse() == 1 && sqe.spec_opcode() == nvm_opc::COMPARE;
            &&& r.fused.contains_key(sq_id) <==> starts_pair
            &&& starts_pair ==> r.fused[sq_id] == (sqe, head)
        }),
{
}

/// A command that comes in place of the second one, fused or not, is not executed: it and
/// the first one fail, the first one first, no transfer starts, and nothing waits any more.
pub proof fn law_broken_pair_fails_as_a_whole(
    s: Commands,
    namespaces: Map<u32, Namespace>,
    aggr_thr: u8,
    cq_id: u16,
    sq_id: u16,
    head: u16,
    sqe: Sqe,
)
    requires
        sq_id != 0,
        s.fused.contains_key(sq_id),
        sqe.spec_fuse() != 2,
        !(sqe.spec_fuse() == 1 && sqe.spec_opcode() == nvm_opc::COMPARE),
    ensures
        route_of(cq_id, sq_id, head, sqe, true) == Route::Done,
        s.dispatched(namespaces, aggr_thr, cq_id, sq_id, head, sqe) == (Commands {
            fused: s.fused.remove(sq_id),
            ..s
        }).pair_refused(aggr_thr, cq_id, sq_id, s.fused[sq_id], (sqe, head), sc::INVALID_FIELD),
        s.dispatched(namespaces, aggr_thr, cq_id, sq_id, head, sqe).ios == s.ios,
{
}

/// The completions of a refused pair carry the phase tag of the pass that their slots
/// belong to: where the first one fills the last slot, the second one has the other tag.
pub proof fn law_refused_pair_follows_the_phase(
    s: Commands,
    aggr_thr: u8,
    cq_id: u16,
    sq_id: u16,
    first: (Sqe, u16),
    second: (Sqe, u16),
    status: u16,
)
    requires
        s.link.cqs.contains_key(cq_id),
        s.link.cqs[cq_id].wf(),
        s.link.cqs[cq_id].phase <= 1,
    ensures
        ({
            let q = s.link.cqs[cq_id];
            let tag = if q.tail + 1 == q.size {
                (1 - q.phase) as u8
            } else {
                q.phase
            };
            let c1 = cmd::cqe_of(first.0.spec_cid(), sq_id, first.1, q.phase, status);
            let c2 = cmd::cqe_of(second.0.spec_cid(), sq_id, second.1, tag, status);
            s.pair_refused(aggr_thr, cq_id, sq_id, first, second, status).link == s.link.posted(
                aggr_thr,
                cq_id,
                c1,
            ).posted(aggr_thr, cq_id, c2)
        }),
{
    let p = s.link.cqs[cq_id].phase;
    assert(p <= 1 ==> p ^ 1 == 1 - p) by (bit_vector);
}

/// Fused pairs of different queues do not meet.
pub proof fn law_fused_pairs_stay_on_their_queue(
    s: Commands,
    namespaces: Map<u32, Namespace>,
    aggr_thr: u8,
    cq_id: u16,
    sq_id: u16,
    head: u16,
    sqe: Sqe,
    other: u16,
)
    requires
        other != sq_id,
    ensures
        ({
            let r = s.dispatched(namespaces, aggr_thr, cq_id, sq_id, head, sqe);
            &&& r.fused.contains_key(other) <==> s.fused.contains_key(other)
            &&& s.fused.contains_key(other) ==> r.fused[other] == s.fused[other]
        }),
{
}

/// The admin queue takes no fused commands: each is answered at once, and nothing else
/// happens.
pub proof fn law_admin_refuses_fused(
    s: Commands,
    namespaces: Map<u32, Namespace>,
    aggr_thr: u8,
    cq_id: u16,
    head: u16,
    sqe: Sqe,
)
    requires
        sqe.spec_fuse() != 0,
    ensures
        s.dispatched(namespaces, aggr_thr, cq_id, 0, head, sqe) == (Commands {
            link: s.link.posted(
                aggr_thr,
                cq_id,
                cmd::cqe_of(sqe.spec_cid(), 0, head, s.link.phase(cq_id), sc::INVALID_FIELD),
            ),
            ..s
        }),
        route_of(cq_id, 0, head, sqe, s.fused.contains_key(0)) == Route::Done,
{
}

/// A write of a fused pair starts only behind its compare: where the pair is accepted,
/// exactly one transfer starts, of the compare, of the bytes of the blocks and no more
/// than a page, and nothing is posted.
pub proof fn law_accepted_pair_compares_first(
    s: Commands,
    namespaces: Map<u32, Namespace>,
    aggr_thr: u8,
    cq_id: u16,
    sq_id: u16,
    head: u16,
    sqe: Sqe,
)
    requires
        sq_id != 0,
        sqe.spec_fuse() == 2,
        s.fused.contains_key(sq_id),
        fused_pair(s.fused[sq_id].0, sqe),
        io_namespace(namespaces, sqe.nsid) is Some,
        !io_namespace(namespaces, sqe.nsid)->0.not_ready,
        fused_supported(io_namespace(namespaces, sqe.nsid)->0, sqe.spec_nlb()),
    ensures
        ({
            let r = s.dispatched(namespaces, aggr_thr, cq_id, sq_id, head, sqe);
            let ns = io_namespace(namespaces, sqe.nsid)->0;
            let len = sqe.spec_nlb() * vstd::arithmetic::power2::pow2(ns.lbads as nat);
            &&& 0 < len <= NVME_PAGE_SIZE
            &&& r.link.cqs == s.link.cqs
            &&& r.link.trace == s.link.trace.read(s.fused[sq_id].0.prp1, len as u32)
            &&& r.ios.contains_key(s.link.trace.next_token)
            &&& r.ios[s.link.trace.next_token].op == (PendingOp::NvmCompareSinglePrpFused {
                lba: sqe.spec_slba(),
                num_blocks: sqe.spec_nlb() as u32,
                write_sqe: sqe,
                write_sq_head: head,
                write_sq_id: sq_id,
            })
        }),
{
    let ns = io_namespace(namespaces, sqe.nsid)->0;
    let n = sqe.spec_nlb();
    let p = vstd::arithmetic::power2::pow2(ns.lbads as nat) as int;
    vstd::arithmetic::power2::lemma_pow2_pos(ns.lbads as nat);
    assert(n * p > 0) by (nonlinear_arith)
        requires
            n > 0,
            p > 0,
    ;
}

} // verus!
