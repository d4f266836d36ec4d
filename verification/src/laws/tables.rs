//! Maps from small keys, tables of what waits, and the link.
use std::collections::HashMap;
use vstd::prelude::*;

use crate::controller::ctx::{DeviceCtx, Event, TransportEvent};
use crate::controller::dense_map::{DenseMap, SlotKey};
use crate::controller::inflight;
use crate::controller::inflight::{
    AbortableOp, CompareAccum, PendingIo, PiReadAccum, PiWriteAccum, PrpListOp, SepMetaReadAccum,
    SepMetaWriteAccum, SglOp, WriteAccum,
};
use crate::laws;

verus! {

/// A map that was just made holds nothing, and takes the keys up to the one that it was made
/// for; a key that it does not take leaves it as it was.
pub proof fn law_new_map_takes_its_keys<K: SlotKey, V>(
    max: usize,
    m: DenseMap<K, V>,
    after: &mut DenseMap<K, V>,
    k: K,
    v: V,
    r: Option<V>,
)
    requires
        call_ensures(DenseMap::<K, V>::new, (max,), m),
        call_ensures(DenseMap::<K, V>::insert, (after, k, v), r),
        *old(after) == m,
    ensures
        !m@.contains_key(k),
        r is None,
        final(after)@.contains_key(k) <==> k.slot() <= max,
        final(after)@.contains_key(k) ==> final(after)@[k] == v,
{
}

/// What is put under a key is found there until it is taken out, and what was there before is
/// handed back; other keys are not touched.
pub proof fn law_map_keeps_what_it_is_given<K: SlotKey, V>(
    m: &mut DenseMap<K, V>,
    k: K,
    v: V,
    r: Option<V>,
    other: K,
    found: Option<&V>,
    there: bool,
)
    requires
        k.slot() < old(m).capacity(),
        call_ensures(DenseMap::<K, V>::insert, (m, k, v), r),
        call_ensures(DenseMap::<K, V>::get, (final(m), &k), found),
        call_ensures(DenseMap::<K, V>::contains_key, (final(m), &k), there),
    ensures
        there,
        found is Some && *found->0 == v,
        r is Some <==> old(m)@.contains_key(k),
        r is Some ==> r->0 == old(m)@[k],
        other != k ==> (final(m)@.contains_key(other) <==> old(m)@.contains_key(other)),
        other != k && old(m)@.contains_key(other) ==> final(m)@[other] == old(m)@[other],
        final(m).capacity() == old(m).capacity(),
{
}

/// What is taken out is handed over and found no more; other keys are not touched.
pub proof fn law_map_lets_go<K: SlotKey, V>(
    m: &mut DenseMap<K, V>,
    k: K,
    r: Option<V>,
    other: K,
    found: Option<&V>,
    there: bool,
)
    requires
        call_ensures(DenseMap::<K, V>::remove, (m, &k), r),
        call_ensures(DenseMap::<K, V>::get, (final(m), &k), found),
        call_ensures(DenseMap::<K, V>::contains_key, (final(m), &k), there),
    ensures
        !there,
        found is None,
        r is Some <==> old(m)@.contains_key(k),
        r is Some ==> r->0 == old(m)@[k],
        other != k ==> (final(m)@.contains_key(other) <==> old(m)@.contains_key(other)),
        other != k && old(m)@.contains_key(other) ==> final(m)@[other] == old(m)@[other],
        final(m).capacity() == old(m).capacity(),
{
}

/// What is changed in place is changed under its key and under no other one.
pub proof fn law_map_is_changed_in_place<K: SlotKey, V>(
    m: &mut DenseMap<K, V>,
    k: K,
    r: Option<&mut V>,
    other: K,
)
    requires
        call_ensures(DenseMap::<K, V>::get_mut, (m, &k), r),
    ensures
        r is Some <==> old(m)@.contains_key(k),
        r is Some ==> {
            &&& *r->0 == old(m)@[k]
            &&& final(m)@.contains_key(k)
            &&& final(m)@[k] == *final(r->0)
        },
        other != k || r is None ==> {
            &&& final(m)@.contains_key(other) <==> old(m)@.contains_key(other)
            &&& old(m)@.contains_key(other) ==> final(m)@[other] == old(m)@[other]
        },
        final(m).capacity() == old(m).capacity(),
{
}

/// A key that is in the map can be used as an index, and gives what is under it.
pub proof fn law_map_is_indexed<K: SlotKey, V>(m: &DenseMap<K, V>, k: &K, v: &V)
    requires
        m@.contains_key(*k),
        call_ensures(<DenseMap<K, V> as core::ops::Index<&K>>::index, (m, k), v),
    ensures
        *v == m@[*k],
{
}

/// A map that was emptied holds nothing, and still takes the same keys.
pub proof fn law_map_is_emptied<K: SlotKey, V>(m: &mut DenseMap<K, V>, k: K)
    requires
        call_ensures(DenseMap::<K, V>::clear, (m,), ()),
    ensures
        !final(m)@.contains_key(k),
        final(m).capacity() == old(m).capacity(),
{
}

/// The keys come each once, in order; with them come the values under them; and there are as
/// many as are counted.
pub proof fn law_map_is_listed<K: SlotKey, V>(
    m: &DenseMap<K, V>,
    ks: Vec<K>,
    es: Vec<(K, &V)>,
    n: usize,
    k: K,
    i: int,
    j: int,
)
    requires
        call_ensures(DenseMap::<K, V>::keys, (m,), ks),
        call_ensures(DenseMap::<K, V>::iter, (m,), es),
        call_ensures(DenseMap::<K, V>::len, (m,), n),
    ensures
        ks@.contains(k) <==> m@.contains_key(k),
        0 <= i < j < ks@.len() ==> ks@[i].slot() < ks@[j].slot(),
        n == ks@.len(),
        es@.len() == ks@.len(),
        0 <= i < es@.len() ==> es@[i].0 == ks@[i] && m@.contains_key(es@[i].0) && *es@[i].1
            == m@[es@[i].0],
{
    assert(ks@.to_set().contains(k) <==> m@.dom().contains(k));
    let e = es@.map_values(|e: (K, &V)| e.0);
    crate::controller::dense_map::law_ascending_keys_unique(ks@, e);
    assert(ks@.no_duplicates());
    ks@.unique_seq_to_set();
    assert(e.len() == es@.len());
    if 0 <= i < es@.len() {
        assert(e[i] == es@[i].0);
        assert(ks@.to_set().contains(ks@[i]));
    }
}

/// Every key of a queue is its own slot.
pub proof fn law_slots_are_numbers(q: u16, n: u32, i: usize, j: usize)
    requires
        call_ensures(<u16 as SlotKey>::to_index, (q,), i),
        call_ensures(<u32 as SlotKey>::to_index, (n,), j),
    ensures
        i == q,
        j == n,
        q.slot() == q,
        n.slot() == n,
{
}

/// What waits names its command and where its completion goes.
pub proof fn law_what_waits_names_its_command(
    a: &WriteAccum,
    b: &CompareAccum,
    c: &PiWriteAccum,
    d: &PiReadAccum,
    e: &PrpListOp,
    f: &SglOp,
    g: &SepMetaWriteAccum,
    h: &SepMetaReadAccum,
    i: &PendingIo,
)
    ensures
        a.command() == (a.sq_id, a.cid) && a.target() == (a.cq_id, a.sq_head),
        b.command() == (b.sq_id, b.cid) && b.target() == (b.cq_id, b.sq_head),
        c.command() == (c.sq_id, c.cid) && c.target() == (c.cq_id, c.sq_head),
        d.command() == (d.sq_id, d.cid) && d.target() == (d.cq_id, d.sq_head),
        e.command() == (e.sq_id, e.cid) && e.target() == (e.cq_id, e.sq_head),
        f.command() == (f.sq_id, f.cid) && f.target() == (f.cq_id, f.sq_head),
        g.command() == (g.sq_id, g.cid) && g.target() == (g.cq_id, g.sq_head),
        h.command() == (h.sq_id, h.cid) && h.target() == (h.cq_id, h.sq_head),
        i.command() == (i.sq_id, i.cid) && i.target() == (i.cq_id, i.sq_head),
{
}

/// A scan takes out one entry of the command, if there is one, and tells where its completion
/// goes; every other entry stays as it was.
pub proof fn law_scan_takes_one<T: AbortableOp>(
    m: &mut HashMap<u64, T>,
    sqid: u16,
    cid: u16,
    r: Option<(u16, u16)>,
    t: u64,
)
    requires
        call_ensures(inflight::abort_scan::<T>, (m, sqid, cid), r),
    ensures
        old(m)@.contains_key(t) && old(m)@[t].command() == (sqid, cid) ==> r is Some,
        r is Some ==> exists|k: u64| #[trigger]
            old(m)@.contains_key(k) && old(m)@[k].command() == (sqid, cid)
                && old(m)@[k].target() == r->0 && !final(m)@.contains_key(k) && forall|u: u64|
                u != k ==> (#[trigger] final(m)@.contains_key(u) <==> old(m)@.contains_key(u)),
        final(m)@.contains_key(t) ==> old(m)@.contains_key(t) && final(m)@[t] == old(m)@[t],
        r is None ==> final(m)@ == old(m)@,
{
    if r is Some {
        let k = choose|k: u64| #[trigger]
            old(m)@.contains_key(k) && old(m)@[k].command() == (sqid, cid) && old(m)@[k].target()
                == r->0 && final(m)@ == old(m)@.remove(k);
        assert(old(m)@.contains_key(k));
    }
}

/// A sweep takes out every entry of the command and tells where the completion of one of them
/// goes; every other entry stays as it was.
pub proof fn law_sweep_takes_all<T: AbortableOp>(
    m: &mut HashMap<u64, T>,
    sqid: u16,
    cid: u16,
    r: Option<(u16, u16)>,
    t: u64,
)
    requires
        call_ensures(inflight::sweep_command::<T>, (m, sqid, cid), r),
    ensures
        final(m)@.contains_key(t) <==> old(m)@.contains_key(t) && old(m)@[t].command() != (
            sqid,
            cid,
        ),
        final(m)@.contains_key(t) ==> final(m)@[t] == old(m)@[t],
        old(m)@.contains_key(t) && old(m)@[t].command() == (sqid, cid) ==> r is Some,
        r is Some ==> exists|k: u64| #[trigger]
            old(m)@.contains_key(k) && old(m)@[k].command() == (sqid, cid)
                && old(m)@[k].target() == r->0,
{
}

/// Requests are made in order, each transfer under a token of its own, counted up from the
/// first one; nothing that was asked before changes, and the clock does not move.
pub proof fn law_requests_are_made_in_order(
    a: &mut DeviceCtx,
    b: &mut DeviceCtx,
    c: &mut DeviceCtx,
    gpa: u64,
    len: u32,
    data: Vec<u8>,
    vector: u32,
    read: u64,
    write: u64,
)
    requires
        call_ensures(DeviceCtx::dma_read, (a, gpa, len), read),
        call_ensures(DeviceCtx::dma_write, (b, gpa, data), write),
        call_ensures(DeviceCtx::fire_interrupt, (c, vector), ()),
    ensures
        read == old(a)@.next_token,
        laws::more_requests(old(a)@, final(a)@, 1),
        laws::request(old(a)@, final(a)@, 0) == (Event::DmaRead { token: read, gpa, len }),
        final(a)@.next_token == laws::token_after(read),
        write == old(b)@.next_token,
        laws::more_requests(old(b)@, final(b)@, 1),
        laws::request(old(b)@, final(b)@, 0) == (Event::DmaWrite {
            token: write,
            gpa,
            data: data@,
        }),
        final(b)@.next_token == laws::token_after(write),
        laws::more_requests(old(c)@, final(c)@, 1),
        laws::request(old(c)@, final(c)@, 0) == (Event::FireInterrupt { msix_index: vector }),
        final(c)@.next_token == old(c)@.next_token,
{
}

/// A write that nobody waits for is asked for like any other.
pub proof fn law_write_without_waiting(a: &mut DeviceCtx, gpa: u64, data: Vec<u8>)
    requires
        call_ensures(DeviceCtx::dma_write_fire_and_forget, (a, gpa, data), ()),
    ensures
        laws::more_requests(old(a)@, final(a)@, 1),
        laws::request(old(a)@, final(a)@, 0) == (Event::DmaWrite {
            token: old(a)@.next_token,
            gpa,
            data: data@,
        }),
        final(a)@.next_token == laws::token_after(old(a)@.next_token),
{
}

/// A new link has made no request, its first transfer gets the token that it was made with,
/// and its clock reads what it was set to. The requests that are handed over are all that
/// were made, in order, and then there are none; tokens go on.
pub proof fn law_link_hands_over_its_requests(
    token: u64,
    new: DeviceCtx,
    a: &mut DeviceCtx,
    now: u64,
    read: u64,
    b: &mut DeviceCtx,
    shown: &Vec<TransportEvent>,
    taken: Vec<TransportEvent>,
    i: int,
)
    requires
        call_ensures(DeviceCtx::with_start_token, (token,), new),
        call_ensures(DeviceCtx::set_now, (a, now), ()),
        call_ensures(DeviceCtx::now, (final(a),), read),
        call_ensures(DeviceCtx::events, (old(b),), shown),
        call_ensures(DeviceCtx::take_events, (b,), taken),
    ensures
        new@.events.len() == 0,
        new@.next_token == token,
        new@.now == 0,
        read == now,
        final(a)@.now == now,
        final(a)@.events == old(a)@.events,
        final(a)@.next_token == old(a)@.next_token,
        shown@.len() == old(b)@.events.len(),
        taken@.len() == old(b)@.events.len(),
        0 <= i < taken@.len() ==> taken@[i]@ == old(b)@.events[i] && shown@[i]@
            == old(b)@.events[i],
        final(b)@.events.len() == 0,
        final(b)@.next_token == old(b)@.next_token,
        final(b)@.now == old(b)@.now,
{
    let f = |e: TransportEvent| e@;
    assert(taken@.map_values(f).len() == taken@.len());
    assert(shown@.map_values(f).len() == shown@.len());
    if 0 <= i < taken@.len() {
        assert(taken@.map_values(f)[i] == taken@[i]@);
        assert(shown@.map_values(f)[i] == shown@[i]@);
    }
}

} // verus!
