use vstd::prelude::*;

use crate::updates::MessageUpdate;

verus! {

/// Updates held for one observer; past this, new updates for that observer
/// are dropped until its connection has taken the queue.
pub const QUEUE_CAPACITY: usize = 1024;

/// Failed deliveries in a row after which an observer is evicted.
pub const MAX_FAILURES: u8 = 3;

/// One live observer: its handle, the updates not yet handed to its
/// connection, and how many deliveries in a row have failed.
pub struct Observer {
    id: u64,
    queue: Vec<MessageUpdate>,
    failures: u8,
}

pub struct ObserverView {
    pub id: u64,
    pub queue: Seq<MessageUpdate>,
    pub failures: u8,
}

impl View for Observer {
    type V = ObserverView;

    closed spec fn view(&self) -> ObserverView {
        ObserverView { id: self.id, queue: self.queue@, failures: self.failures }
    }
}

/// The registry of live observers, each with its own outgoing queue, so that
/// a slow connection never holds up the canvas.
pub struct Broadcaster {
    observers: Vec<Observer>,
    next_id: u64,
}

/// Where the observer with handle `id` stands, if it is registered.
pub open spec fn position_of(obs: Seq<ObserverView>, id: u64) -> Option<int> {
    if exists|i: int| 0 <= i < obs.len() && obs[i].id == id {
        Some(choose|i: int| 0 <= i < obs.len() && obs[i].id == id)
    } else {
        None
    }
}

/// An observer's queue after `msg` was offered to it.
pub open spec fn enqueued(q: Seq<MessageUpdate>, msg: MessageUpdate) -> Seq<MessageUpdate> {
    if q.len() < QUEUE_CAPACITY {
        q.push(msg)
    } else {
        q
    }
}

impl Broadcaster {
    /// The registered observers, oldest first.
    pub closed spec fn observers(&self) -> Seq<ObserverView> {
        self.observers@.map_values(|o: Observer| o@)
    }

    /// The handle the next registration receives.
    pub closed spec fn next_id(&self) -> u64 {
        self.next_id
    }

    /// Handles are handed out in increasing order and below `next_id`, and no
    /// queue is over capacity.
    pub open spec fn wf(&self) -> bool {
        &&& forall|i: int, j: int|
            0 <= i < j < self.observers().len() ==> #[trigger] self.observers()[i].id
                < #[trigger] self.observers()[j].id
        &&& forall|i: int|
            0 <= i < self.observers().len() ==> #[trigger] self.observers()[i].id
                < self.next_id()
        &&& forall|i: int|
            0 <= i < self.observers().len() ==> #[trigger] self.observers()[i].queue.len()
                <= QUEUE_CAPACITY
    }

    pub fn new() -> (r: Self)
        ensures
            r.wf(),
            r.observers() == Seq::<ObserverView>::empty(),
            r.next_id() == 0,
    {
        let r = Broadcaster { observers: Vec::new(), next_id: 0 };
        assert(r.observers() =~= Seq::<ObserverView>::empty());
        r
    }

    /// Registers a new observer with an empty queue and returns its handle;
    /// `None` once every handle has been used.
    pub fn register(&mut self) -> (r: Option<u64>)
        requires
            old(self).wf(),
        ensures
            final(self).wf(),
            old(self).next_id() == u64::MAX ==> r is None && *final(self) == *old(self),
            old(self).next_id() < u64::MAX ==> {
                &&& r == Some(old(self).next_id())
                &&& final(self).next_id() == old(self).next_id() + 1
                &&& final(self).observers() == old(self).observers().push(
                    ObserverView { id: old(self).next_id(), queue: Seq::empty(), failures: 0 },
                )
            },
    {
        if self.next_id == u64::MAX {
            return None;
        }
        let id = self.next_id;
        self.observers.push(Observer { id, queue: Vec::new(), failures: 0 });
        self.next_id = id + 1;
        assert(self.observers() =~= old(self).observers().push(
            ObserverView { id, queue: Seq::empty(), failures: 0 },
        ));
        Some(id)
    }

    /// The index of the observer with handle `id`.
    fn find(&self, id: u64) -> (r: Option<usize>)
        requires
            self.wf(),
        ensures
            match position_of(self.observers(), id) {
                Some(i) => r == Some(i as usize),
                None => r is None,
            },
            r matches Some(i) ==> i < self.observers().len() && self.observers()[i as int].id
                == id,
    {
        let mut i: usize = 0;
        while i < self.observers.len()
            invariant
                self.wf(),
                i <= self.observers().len(),
                forall|j: int| 0 <= j < i ==> self.observers()[j].id != id,
            decreases self.observers().len() - i,
        {
            if self.observers[i].id == id {
                assert(self.observers()[i as int].id == id);
                proof {
                    let c = choose|j: int|
                        0 <= j < self.observers().len() && self.observers()[j].id == id;
                    if c != i {
                        assert(c > i);
                    }
                }
                return Some(i);
            }
            i = i + 1;
        }
        None
    }

    /// Removes the observer with handle `id`; `false` if there was none.
    pub fn unregister(&mut self, id: u64) -> (r: bool)
        requires
            old(self).wf(),
        ensures
            final(self).wf(),
            final(self).next_id() == old(self).next_id(),
            match position_of(old(self).observers(), id) {
                Some(i) => r && final(self).observers() == old(self).observers().remove(i),
                None => !r && final(self).observers() == old(self).observers(),
            },
    {
        match self.find(id) {
            Some(i) => {
                self.observers.remove(i);
                assert(self.observers() =~= old(self).observers().remove(i as int));
                true
            },
            None => false,
        }
    }

    /// Offers `msg` to every observer: each queue with room gets it at its
    /// end, so every observer sees updates in the order they were offered.
    pub fn broadcast(&mut self, msg: MessageUpdate)
        requires
            old(self).wf(),
        ensures
            final(self).wf(),
            final(self).next_id() == old(self).next_id(),
            final(self).observers().len() == old(self).observers().len(),
            forall|i: int|
                0 <= i < old(self).observers().len() ==> #[trigger] final(self).observers()[i]
                    == (ObserverView {
                    queue: enqueued(old(self).observers()[i].queue, msg),
                    ..old(self).observers()[i]
                }),
    {
        let n = self.observers.len();
        let mut i: usize = 0;
        while i < n
            invariant
                n == self.observers().len(),
                n == old(self).observers().len(),
                i <= n,
                self.next_id() == old(self).next_id(),
                forall|j: int|
                    0 <= j < i ==> #[trigger] self.observers()[j] == (ObserverView {
                        queue: enqueued(old(self).observers()[j].queue, msg),
                        ..old(self).observers()[j]
                    }),
                forall|j: int| i <= j < n ==> #[trigger] self.observers()[j] == old(self).observers()[j],
            decreases n - i,
        {
            let ghost prev = self.observers();
            if self.observers[i].queue.len() < QUEUE_CAPACITY {
                self.observers[i].queue.push(msg);
            }
            assert(self.observers() =~= prev.update(
                i as int,
                ObserverView { queue: enqueued(prev[i as int].queue, msg), ..prev[i as int] },
            ));
            i = i + 1;
        }
    }

    /// Hands over, oldest first, the updates queued for observer `id` and
    /// empties its queue; an empty list if there is no such observer.
    pub fn take_pending(&mut self, id: u64) -> (r: Vec<MessageUpdate>)
        requires
            old(self).wf(),
        ensures
            final(self).wf(),
            final(self).next_id() == old(self).next_id(),
            match position_of(old(self).observers(), id) {
                Some(i) => r@ == old(self).observers()[i].queue && final(self).observers()
                    == old(self).observers().update(
                    i,
                    ObserverView { queue: Seq::empty(), ..old(self).observers()[i] },
                ),
                None => r@ == Seq::<MessageUpdate>::empty() && final(self).observers() == old(
                    self,
                ).observers(),
            },
    {
        match self.find(id) {
            Some(i) => {
                let mut taken: Vec<MessageUpdate> = Vec::new();
                std::mem::swap(&mut taken, &mut self.observers[i].queue);
                assert(self.observers() =~= old(self).observers().update(
                    i as int,
                    ObserverView { queue: Seq::empty(), ..old(self).observers()[i as int] },
                ));
                taken
            },
            None => Vec::new(),
        }
    }

    /// Records that a delivery to observer `id` succeeded or failed. A
    /// success clears the failure count; the failure that reaches
    /// `MAX_FAILURES` evicts the observer. Returns whether it was evicted.
    pub fn report_delivery(&mut self, id: u64, delivered: bool) -> (evicted: bool)
        requires
            old(self).wf(),
        ensures
            final(self).wf(),
            final(self).next_id() == old(self).next_id(),
            match position_of(old(self).observers(), id) {
                Some(i) => {
                    let o = old(self).observers()[i];
                    if delivered {
                        !evicted && final(self).observers() == old(self).observers().update(
                            i,
                            ObserverView { failures: 0, ..o },
                        )
                    } else if o.failures + 1 >= MAX_FAILURES {
                        evicted && final(self).observers() == old(self).observers().remove(i)
                    } else {
                        !evicted && final(self).observers() == old(self).observers().update(
                            i,
                            ObserverView { failures: (o.failures + 1) as u8, ..o },
                        )
                    }
                },
                None => !evicted && final(self).observers() == old(self).observers(),
            },
    {
        match self.find(id) {
            Some(i) => {
                let ghost o = self.observers()[i as int];
                if delivered {
                    self.observers[i].failures = 0;
                    assert(self.observers() =~= old(self).observers().update(
                        i as int,
                        ObserverView { failures: 0, ..o },
                    ));
                    false
                } else if self.observers[i].failures >= MAX_FAILURES - 1 {
                    self.observers.remove(i);
                    assert(self.observers() =~= old(self).observers().remove(i as int));
                    true
                } else {
                    self.observers[i].failures = self.observers[i].failures + 1;
                    assert(self.observers() =~= old(self).observers().update(
                        i as int,
                        ObserverView { failures: (o.failures + 1) as u8, ..o },
                    ));
                    false
                }
            },
            None => false,
        }
    }

    /// The number of registered observers.
    pub fn len(&self) -> (r: usize)
        ensures
            r == self.observers().len(),
    {
        self.observers.len()
    }
}

} // verus!
