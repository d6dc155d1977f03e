//! The way of a notification through the queue to the sender.

use crate::delivery::JobView;
use crate::queue::{NotificationView, QueueView};
use vstd::prelude::*;

verus! {

/// What becomes of offers: the first of them, as many as there is room for, are
/// queued in order behind what was there; the others are dropped, and each is
/// counted. A closed queue has no room.
pub proof fn law_offers_fill_then_drop(q: QueueView, ns: Seq<NotificationView>)
    requires
        q.items.len() <= q.capacity,
        q.dropped + ns.len() <= u64::MAX,
    ensures
        ({
            let after = q.offer_all(ns);
            let room = if q.closed {
                0
            } else if ns.len() < q.capacity - q.items.len() {
                ns.len() as int
            } else {
                q.capacity - q.items.len()
            };
            &&& after.items == q.items + ns.take(room)
            &&& after.dropped == q.dropped + ns.len() - room
            &&& after.capacity == q.capacity
            &&& after.closed == q.closed
        }),
    decreases ns.len(),
{
    if ns.len() == 0 {
        assert(q.items + ns.take(0) =~= q.items);
    } else {
        let fewer = ns.drop_last();
        law_offers_fill_then_drop(q, fewer);
        let room = if q.closed {
            0
        } else if ns.len() < q.capacity - q.items.len() {
            ns.len() as int
        } else {
            q.capacity - q.items.len()
        };
        if !q.closed && ns.len() <= q.capacity - q.items.len() {
            assert(fewer.take(fewer.len() as int) =~= fewer);
            assert((q.items + fewer).push(ns.last()) =~= q.items + ns.take(room));
        } else {
            assert(fewer.take(room) =~= ns.take(room));
        }
    }
}

/// An offer is taken if and only if the queue is open and short of its capacity.
pub proof fn law_when_an_offer_is_taken(q: QueueView, n: NotificationView)
    ensures
        q.has_room() <==> !q.closed && q.items.len() < q.capacity,
        q.has_room() ==> q.offer(n).items == q.items.push(n) && q.offer(n).dropped == q.dropped,
        !q.has_room() && q.dropped < u64::MAX ==> q.offer(n).items == q.items && q.offer(n).dropped
            == q.dropped + 1,
{
}

/// A new queue is open and empty, has dropped nothing, and is as deep as
/// `buffer_size` says, at least one.
pub proof fn law_queue_is_as_deep_as_configured(buffer_size: usize)
    ensures
        ({
            let q = QueueView::fresh(buffer_size);
            &&& q.items.len() == 0
            &&& q.capacity == if buffer_size == 0 {
                1
            } else {
                buffer_size as int
            }
            &&& q.dropped == 0
            &&& !q.closed
        }),
{
}

/// A notification becomes as many jobs as it has endpoints; the i-th is for the
/// i-th endpoint and carries the event's payload.
pub proof fn law_one_job_for_each_endpoint(n: NotificationView)
    ensures
        ({
            let jobs = crate::sender::jobs_of(n);
            &&& jobs.len() == n.endpoints.len()
            &&& forall|i: int|
                0 <= i < n.endpoints.len() ==> {
                    &&& (#[trigger] jobs[i]).endpoint == n.endpoints[i]
                    &&& jobs[i].payload == n.event.payload()
                }
        }),
{
}

/// One more notification at the end of the queue adds its jobs, one for each of
/// its endpoints in order, behind all the jobs that were waiting.
pub proof fn law_jobs_of_one_more_notification(ns: Seq<NotificationView>, n: NotificationView)
    ensures
        crate::sender::jobs_of_all(Seq::empty()).len() == 0,
        ({
            let before = crate::sender::jobs_of_all(ns);
            let after = crate::sender::jobs_of_all(ns.push(n));
            &&& after.len() == before.len() + n.endpoints.len()
            &&& after.take(before.len() as int) == before
            &&& forall|i: int|
                0 <= i < n.endpoints.len() ==> {
                    &&& (#[trigger] after[before.len() + i]).endpoint == n.endpoints[i]
                    &&& after[before.len() + i].payload == n.event.payload()
                }
        }),
    decreases ns.len(),
{
    let before = crate::sender::jobs_of_all(ns);
    let after = crate::sender::jobs_of_all(ns.push(n));
    let own = crate::sender::jobs_of(n);
    if ns.len() == 0 {
        assert(ns.push(n).drop_first() =~= ns);
        assert(ns.push(n)[0] == n);
        assert(after =~= own + before);
        assert(after =~= before + own);
    } else {
        law_jobs_of_one_more_notification(ns.drop_first(), n);
        let rest = crate::sender::jobs_of_all(ns.drop_first());
        let rest_after = crate::sender::jobs_of_all(ns.drop_first().push(n));
        assert(ns.push(n).drop_first() =~= ns.drop_first().push(n));
        assert(ns.push(n)[0] == ns[0]);
        assert(after == crate::sender::jobs_of(ns[0]) + rest_after);
        assert(before == crate::sender::jobs_of(ns[0]) + rest);
        assert forall|i: int| 0 <= i < own.len() implies #[trigger] rest_after[rest.len() + i]
            == own[i] by {}
        assert(rest_after =~= rest + own) by {
            assert forall|i: int| 0 <= i < rest_after.len() implies rest_after[i] == (rest
                + own)[i] by {
                if i < rest.len() {
                    assert(rest_after.take(rest.len() as int)[i] == rest_after[i]);
                } else {
                    assert(rest_after[rest.len() + (i - rest.len())] == own[i - rest.len()]);
                }
            }
        }
        assert(after =~= before + own);
    }
    assert(after.take(before.len() as int) =~= before);
}

/// The sender takes nothing off the queue while jobs are left at hand.
pub proof fn law_jobs_at_hand_come_first(backlog: Seq<JobView>, ns: Seq<NotificationView>)
    requires
        backlog.len() > 0,
    ensures
        crate::sender::upcoming(backlog, ns) == (backlog, ns),
{
}

/// Without jobs at hand the sender takes the oldest notification that has an
/// endpoint, for all its endpoints in order, and leaves those behind it.
pub proof fn law_oldest_notification_is_next(ns: Seq<NotificationView>, k: int)
    requires
        0 <= k < ns.len(),
        ns[k].endpoints.len() > 0,
        forall|j: int| 0 <= j < k ==> (#[trigger] ns[j]).endpoints.len() == 0,
    ensures
        ({
            let (todo, rest) = crate::sender::upcoming(Seq::empty(), ns);
            &&& rest == ns.skip(k + 1)
            &&& todo.len() == ns[k].endpoints.len()
            &&& forall|i: int|
                0 <= i < todo.len() ==> {
                    &&& (#[trigger] todo[i]).endpoint == ns[k].endpoints[i]
                    &&& todo[i].payload == ns[k].event.payload()
                }
        }),
    decreases k,
{
    if k == 0 {
        assert(ns.drop_first() =~= ns.skip(1));
    } else {
        let later = ns.drop_first();
        assert(ns[0].endpoints.len() == 0);
        assert forall|j: int| 0 <= j < k - 1 implies (#[trigger] later[j]).endpoints.len() == 0 by {
            assert(later[j] == ns[j + 1]);
        }
        law_oldest_notification_is_next(later, k - 1);
        assert(later.skip(k) =~= ns.skip(k + 1));
    }
}

/// A queue whose notifications have no endpoint, or that has none, holds no job.
pub proof fn law_nothing_to_do(ns: Seq<NotificationView>)
    requires
        forall|j: int| 0 <= j < ns.len() ==> (#[trigger] ns[j]).endpoints.len() == 0,
    ensures
        crate::sender::upcoming(Seq::empty(), ns).0.len() == 0,
        crate::sender::upcoming(Seq::empty(), ns).1.len() == 0,
    decreases ns.len(),
{
    if ns.len() > 0 {
        let later = ns.drop_first();
        assert forall|j: int| 0 <= j < later.len() implies (
        #[trigger] later[j]).endpoints.len() == 0 by {
            assert(later[j] == ns[j + 1]);
        }
        law_nothing_to_do(later);
    }
}

} // verus!
