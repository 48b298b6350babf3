//! Fan-out of a frame to every client but its origin, with slow-consumer
//! eviction: a client whose queue is full or closed is dropped, the frame is not.

use vstd::prelude::*;
use std::sync::Arc;
use crate::client_entry::{share_frame, try_send_frame, ClientEntry, SendOutcome};
use crate::frame::Frame;

verus! {

/// One enqueue attempt made by a broadcast.
#[derive(Clone, Copy, Debug, PartialEq, Eq, Structural)]
pub struct Delivery {
    pub client_id: u128,
    pub outcome: SendOutcome,
}

/// Some attempt of `ds` towards client `id` failed.
pub open spec fn delivery_failed(ds: Seq<Delivery>, id: u128) -> bool {
    exists|k: int| 0 <= k < ds.len() && ds[k].client_id == id && ds[k].outcome != SendOutcome::Sent
}

/// The identities of `cs`, in order.
pub open spec fn client_ids(cs: Seq<ClientEntry>) -> Seq<u128> {
    cs.map_values(|c: ClientEntry| c.client_id)
}

/// How many attempts of `ds` put the frame in the queue.
pub open spec fn sent_count(ds: Seq<Delivery>) -> nat
    decreases ds.len(),
{
    if ds.len() == 0 {
        0
    } else {
        sent_count(ds.drop_last()) + if ds.last().outcome == SendOutcome::Sent {
            1nat
        } else {
            0nat
        }
    }
}

/// How many attempts of `deliveries` put the frame in the queue.
pub fn count_sent(deliveries: &Vec<Delivery>) -> (r: usize)
    ensures
        r == sent_count(deliveries@),
{
    let mut n: usize = 0;
    let mut k: usize = 0;
    while k < deliveries.len()
        invariant
            k <= deliveries@.len(),
            n == sent_count(deliveries@.subrange(0, k as int)),
            n <= k,
        decreases deliveries@.len() - k,
    {
        assert(deliveries@.subrange(0, k + 1).drop_last() =~= deliveries@.subrange(0, k as int));
        if deliveries[k].outcome == SendOutcome::Sent {
            n = n + 1;
        }
        k = k + 1;
    }
    assert(deliveries@.subrange(0, k as int) =~= deliveries@);
    n
}

/// Holds of the clients other than `origin`.
pub open spec fn not_origin(origin: u128) -> spec_fn(ClientEntry) -> bool {
    |c: ClientEntry| c.client_id != origin
}

/// Holds of the clients that no attempt of `ds` failed for.
pub open spec fn not_failed(ds: Seq<Delivery>) -> spec_fn(ClientEntry) -> bool {
    |c: ClientEntry| !delivery_failed(ds, c.client_id)
}

/// The clients of `cs` that a broadcast from `origin` reaches, in order.
pub open spec fn recipients(cs: Seq<ClientEntry>, origin: u128) -> Seq<ClientEntry> {
    cs.filter(not_origin(origin))
}

/// The clients of `cs` that no attempt of `ds` failed for, in order.
pub open spec fn survivors(cs: Seq<ClientEntry>, ds: Seq<Delivery>) -> Seq<ClientEntry> {
    cs.filter(not_failed(ds))
}

/// Filtering one more element of `s` adds it at the end exactly when it is kept.
pub proof fn lemma_filter_step<A>(s: Seq<A>, p: spec_fn(A) -> bool, i: int)
    requires
        0 <= i < s.len(),
    ensures
        s.subrange(0, i + 1).filter(p) == if p(s[i]) {
            s.subrange(0, i).filter(p).push(s[i])
        } else {
            s.subrange(0, i).filter(p)
        },
{
    reveal(Seq::filter);
    assert(s.subrange(0, i + 1).drop_last() =~= s.subrange(0, i));
}

fn has_failed(deliveries: &Vec<Delivery>, id: u128) -> (r: bool)
    ensures
        r == delivery_failed(deliveries@, id),
{
    let mut k: usize = 0;
    while k < deliveries.len()
        invariant
            k <= deliveries@.len(),
            forall|j: int|
                0 <= j < k ==> !(deliveries@[j].client_id == id && deliveries@[j].outcome
                    != SendOutcome::Sent),
        decreases deliveries@.len() - k,
    {
        if deliveries[k].client_id == id && deliveries[k].outcome != SendOutcome::Sent {
            return true;
        }
        k = k + 1;
    }
    false
}

/// Removes every client that some attempt of `deliveries` failed for, keeping
/// the others in order.
pub fn evict_failed(clients: &mut Vec<ClientEntry>, deliveries: &Vec<Delivery>)
    ensures
        final(clients)@ == survivors(old(clients)@, deliveries@),
{
    let ghost s = clients@;
    let ghost p = not_failed(deliveries@);
    let mut i: usize = 0;
    let ghost mut j: int = 0;
    assert(s.subrange(0, 0).filter(p) =~= Seq::<ClientEntry>::empty()) by {
        reveal(Seq::filter);
    }
    assert(s.subrange(0, s.len() as int) =~= s);
    while i < clients.len()
        invariant
            p == not_failed(deliveries@),
            0 <= j <= s.len(),
            i <= j,
            clients@.len() == i + (s.len() - j),
            clients@.subrange(0, i as int) == s.subrange(0, j).filter(p),
            clients@.subrange(i as int, clients@.len() as int) == s.subrange(j, s.len() as int),
        decreases clients@.len() - i,
    {
        let ghost before = clients@;
        assert(before[i as int] == s[j]) by {
            assert(before.subrange(i as int, before.len() as int)[0] == s.subrange(j, s.len() as int)[0]);
        }
        proof {
            lemma_filter_step(s, p, j);
        }
        if has_failed(deliveries, clients[i].client_id) {
            assert(!p(s[j]));
            clients.remove(i);
            assert(clients@.subrange(0, i as int) =~= before.subrange(0, i as int));
            assert(clients@.subrange(i as int, clients@.len() as int) =~= s.subrange(j + 1, s.len() as int)) by {
                assert(clients@.subrange(i as int, clients@.len() as int) =~= before.subrange(i + 1, before.len() as int));
                assert(before.subrange(i + 1, before.len() as int) =~= before.subrange(i as int, before.len() as int).drop_first());
            }
        } else {
            assert(p(s[j]));
            i = i + 1;
            assert(clients@.subrange(0, i as int) =~= before.subrange(0, i - 1).push(before[i - 1]));
            assert(clients@.subrange(i as int, clients@.len() as int) =~= s.subrange(j + 1, s.len() as int)) by {
                assert(clients@.subrange(i as int, clients@.len() as int) =~= before.subrange(i as int - 1, before.len() as int).drop_first());
            }
        }
        proof {
            j = j + 1;
        }
    }
    assert(s.subrange(0, j) =~= s);
    assert(clients@ =~= clients@.subrange(0, i as int));
}

/// Offers `frame` to every client but `origin_id` without blocking, then
/// drops each client whose queue was full or closed. Returns the attempts made.
pub fn broadcast(origin_id: u128, frame: Arc<Frame>, clients: &mut Vec<ClientEntry>) -> (r: Vec<
    Delivery,
>)
    ensures
        r@.map_values(|d: Delivery| d.client_id) == client_ids(recipients(old(clients)@, origin_id)),
        forall|k: int| 0 <= k < r@.len() ==> (#[trigger] r@[k]).client_id != origin_id,
        final(clients)@ == survivors(old(clients)@, r@),
{
    let ghost s = clients@;
    let ghost p = not_origin(origin_id);
    let mut deliveries: Vec<Delivery> = Vec::new();
    let mut i: usize = 0;
    assert(s.subrange(0, 0).filter(p) =~= Seq::<ClientEntry>::empty()) by {
        reveal(Seq::filter);
    }
    while i < clients.len()
        invariant
            p == not_origin(origin_id),
            clients@ == s,
            i <= s.len(),
            deliveries@.map_values(|d: Delivery| d.client_id) == client_ids(
                s.subrange(0, i as int).filter(p),
            ),
            forall|k: int| 0 <= k < deliveries@.len() ==> (#[trigger] deliveries@[k]).client_id != origin_id,
        decreases s.len() - i,
    {
        proof {
            lemma_filter_step(s, p, i as int);
        }
        let ghost before = deliveries@;
        let entry = &clients[i];
        if entry.client_id != origin_id {
            assert(p(s[i as int]));
            let outcome = try_send_frame(&entry.writer_sender, share_frame(&frame));
            deliveries.push(Delivery { client_id: entry.client_id, outcome });
            assert(deliveries@.map_values(|d: Delivery| d.client_id) =~= before.map_values(
                |d: Delivery| d.client_id,
            ).push(entry.client_id));
            assert(client_ids(s.subrange(0, i + 1).filter(p)) =~= client_ids(
                s.subrange(0, i as int).filter(p),
            ).push(entry.client_id));
        } else {
            assert(!p(s[i as int]));
        }
        i = i + 1;
    }
    assert(s.subrange(0, i as int) =~= s);
    evict_failed(clients, &deliveries);
    deliveries
}

} // verus!
