//! The bounded queue between the plugin, which must not wait, and the background
//! sender, which may.

use crate::config::{EndpointConfig, EndpointView};
use crate::event::{EventView, WebhookEvent};
use std::collections::VecDeque;
use vstd::prelude::*;

verus! {

/// An event and the endpoints that hear of it.
#[derive(Debug)]
pub struct Notification {
    pub event: WebhookEvent,
    pub endpoints: Vec<EndpointConfig>,
}

/// What a [`Notification`] holds, as mathematical values.
#[verifier::ext_equal]
pub struct NotificationView {
    pub event: EventView,
    pub endpoints: Seq<EndpointView>,
}

impl View for Notification {
    type V = NotificationView;

    open spec fn view(&self) -> NotificationView {
        NotificationView {
            event: self.event@,
            endpoints: crate::config::endpoint_views(self.endpoints@),
        }
    }
}

pub open spec fn notification_views(s: Seq<Notification>) -> Seq<NotificationView> {
    s.map_values(|n: Notification| n@)
}

/// A bounded first-in, first-out queue of notifications. A full queue drops
/// what it is offered, and counts the drop.
pub struct EventQueue {
    items: VecDeque<Notification>,
    capacity: usize,
    dropped: u64,
    closed: bool,
}

/// What an [`EventQueue`] holds, as mathematical values.
#[verifier::ext_equal]
pub struct QueueView {
    /// The oldest first.
    pub items: Seq<NotificationView>,
    pub capacity: nat,
    /// Notifications dropped so far, up to what a `u64` counts.
    pub dropped: nat,
    /// Whether the offering side is gone.
    pub closed: bool,
}

impl QueueView {
    /// A queue that nothing was offered to.
    pub open spec fn fresh(buffer_size: usize) -> QueueView {
        QueueView {
            items: Seq::empty(),
            capacity: crate::circuit::at_least_one(buffer_size as int) as nat,
            dropped: 0,
            closed: false,
        }
    }

    /// The queue never holds more than its capacity.
    pub open spec fn wf(self) -> bool {
        &&& self.items.len() <= self.capacity
        &&& self.capacity >= 1
    }

    /// Whether an offer is taken.
    pub open spec fn has_room(self) -> bool {
        !self.closed && self.items.len() < self.capacity
    }

    /// The queue after one offer: at the end of the queue, or dropped and
    /// counted.
    pub open spec fn offer(self, n: NotificationView) -> QueueView {
        if self.has_room() {
            QueueView { items: self.items.push(n), ..self }
        } else {
            QueueView {
                dropped: if self.dropped < u64::MAX {
                    self.dropped + 1
                } else {
                    self.dropped
                },
                ..self
            }
        }
    }

    /// The queue after several offers, one after the other.
    pub open spec fn offer_all(self, ns: Seq<NotificationView>) -> QueueView
        decreases ns.len(),
    {
        if ns.len() == 0 {
            self
        } else {
            self.offer_all(ns.drop_last()).offer(ns.last())
        }
    }
}

/// What the receiving side finds.
#[derive(Debug)]
pub enum Received {
    /// The oldest notification.
    Item(Notification),
    /// Nothing at present.
    Empty,
    /// Nothing, and nothing more will come.
    Disconnected,
}

impl View for EventQueue {
    type V = QueueView;

    closed spec fn view(&self) -> QueueView {
        QueueView {
            items: notification_views(self.items@),
            capacity: self.capacity as nat,
            dropped: self.dropped as nat,
            closed: self.closed,
        }
    }
}

impl EventQueue {
    /// An empty queue of the given depth; a depth of nought counts as one.
    pub fn new(buffer_size: usize) -> (r: EventQueue)
        ensures
            r@ == QueueView::fresh(buffer_size),
            r@.wf(),
    {
        let capacity: usize = if buffer_size > 1 {
            buffer_size
        } else {
            1
        };
        let r = EventQueue { items: VecDeque::new(), capacity, dropped: 0, closed: false };
        assert(r@ =~= QueueView::fresh(buffer_size));
        r
    }

    /// Offers a notification without waiting. Says whether it was taken.
    pub fn try_send(&mut self, n: Notification) -> (r: bool)
        ensures
            final(self)@ == old(self)@.offer(n@),
            r == old(self)@.has_room(),
            old(self)@.wf() ==> final(self)@.wf(),
    {
        if !self.closed && self.items.len() < self.capacity {
            self.items.push_back(n);
            assert(self@ =~= old(self)@.offer(n@));
            true
        } else {
            if self.dropped < u64::MAX {
                self.dropped = self.dropped + 1;
            }
            assert(self@ =~= old(self)@.offer(n@));
            false
        }
    }

    /// Takes the oldest notification, if there is one.
    pub fn try_recv(&mut self) -> (r: Received)
        ensures
            old(self)@.wf() ==> final(self)@.wf(),
            match r {
                Received::Item(n) => {
                    &&& old(self)@.items.len() > 0
                    &&& n@ == old(self)@.items[0]
                    &&& final(self)@ == (QueueView {
                        items: old(self)@.items.drop_first(),
                        ..old(self)@
                    })
                },
                Received::Empty => {
                    &&& old(self)@.items.len() == 0
                    &&& !old(self)@.closed
                    &&& final(self)@ == old(self)@
                },
                Received::Disconnected => {
                    &&& old(self)@.items.len() == 0
                    &&& old(self)@.closed
                    &&& final(self)@ == old(self)@
                },
            },
    {
        match self.items.pop_front() {
            Some(n) => {
                assert(self@ =~= (QueueView {
                    items: old(self)@.items.drop_first(),
                    ..old(self)@
                }));
                Received::Item(n)
            },
            None => {
                assert(self@ =~= old(self)@);
                if self.closed {
                    Received::Disconnected
                } else {
                    Received::Empty
                }
            },
        }
    }

    /// Notes that the offering side is gone.
    pub fn close(&mut self)
        ensures
            final(self)@ == (QueueView { closed: true, ..old(self)@ }),
    {
        self.closed = true;
    }

    /// Notifications dropped so far.
    pub fn dropped(&self) -> (r: u64)
        ensures
            r == self@.dropped,
    {
        self.dropped
    }
}

/// A sequence of offers keeps the queue within its capacity, leaves what was
/// queued where it was, and either queues or counts every one of them.
pub proof fn law_bounded_and_counted(q: QueueView, ns: Seq<NotificationView>)
    requires
        q.wf(),
        q.dropped + ns.len() <= u64::MAX,
    ensures
        q.offer_all(ns).wf(),
        q.offer_all(ns).capacity == q.capacity,
        q.items.is_prefix_of(q.offer_all(ns).items),
        q.offer_all(ns).items.len() + q.offer_all(ns).dropped == q.items.len() + q.dropped
            + ns.len(),
    decreases ns.len(),
{
    if ns.len() > 0 {
        law_bounded_and_counted(q, ns.drop_last());
    }
}

/// While there is room for all of them, offers are queued in order and none is
/// dropped.
pub proof fn law_room_drops_nothing(q: QueueView, ns: Seq<NotificationView>)
    requires
        !q.closed,
        q.items.len() + ns.len() <= q.capacity,
    ensures
        q.offer_all(ns) == (QueueView { items: q.items + ns, ..q }),
    decreases ns.len(),
{
    if ns.len() > 0 {
        law_room_drops_nothing(q, ns.drop_last());
        assert((q.items + ns.drop_last()).push(ns.last()) =~= q.items + ns);
    } else {
        assert(q.items + ns =~= q.items);
    }
}

} // verus!
