use vstd::prelude::*;

verus! {

/// One drain of a queue holding `before`: the queue holds `after`
/// afterwards, which is empty, and `results` has one entry per event, the
/// `i`-th being what `visit` returned on the `i`-th event in publish order.
pub open spec fn drained<T, R, F: Fn(&T) -> R>(before: Seq<T>, after: Seq<T>, results: Seq<R>, visit: F) -> bool {
    &&& after.len() == 0
    &&& results.len() == before.len()
    &&& forall|i: int| 0 <= i < results.len() ==> call_ensures(visit, (&before[i],), #[trigger] results[i])
}

/// A single-consumer mailbox: events are appended by `publish` and handed
/// out, in publish order, exactly once by `consume`.
pub struct EventQueue<T> {
    events: Vec<T>,
}

impl<T> View for EventQueue<T> {
    type V = Seq<T>;

    closed spec fn view(&self) -> Seq<T> {
        self.events@
    }
}

impl<T> EventQueue<T> {
    pub fn new() -> (r: Self)
        ensures
            r@ == Seq::<T>::empty(),
    {
        EventQueue { events: Vec::new() }
    }

    /// Appends `event` behind every pending event.
    pub fn publish(&mut self, event: T)
        ensures
            final(self)@ == old(self)@.push(event),
    {
        self.events.push(event);
    }

    /// Number of pending events.
    pub fn len(&self) -> (r: usize)
        ensures
            r == self@.len(),
    {
        self.events.len()
    }

    /// Calls `visit` once on each pending event, in publish order, collecting
    /// what each call returns; the queue is empty afterwards, whatever the
    /// visitor did.
    pub fn consume<R, F: Fn(&T) -> R>(&mut self, visit: F) -> (r: Vec<R>)
        requires
            forall|i: int| 0 <= i < old(self)@.len() ==> call_requires(visit, (&old(self)@[i],)),
        ensures
            final(self)@ == Seq::<T>::empty(),
            r@.len() == old(self)@.len(),
            forall|i: int| 0 <= i < r@.len() ==> call_ensures(visit, (&old(self)@[i],), #[trigger] r@[i]),
            drained(old(self)@, final(self)@, r@, visit),
    {
        let mut out: Vec<R> = Vec::new();
        let n = self.events.len();
        let mut i: usize = 0;
        while i < n
            invariant
                n == self.events@.len(),
                self.events@ == old(self)@,
                0 <= i <= n,
                out@.len() == i,
                forall|j: int| 0 <= j < old(self)@.len() ==> call_requires(visit, (&old(self)@[j],)),
                forall|j: int| 0 <= j < i ==> call_ensures(visit, (&old(self)@[j],), #[trigger] out@[j]),
            decreases n - i,
        {
            let v = visit(&self.events[i]);
            out.push(v);
            i = i + 1;
        }
        self.clear();
        out
    }

    /// Drops every pending event.
    pub fn clear(&mut self)
        ensures
            final(self)@ == Seq::<T>::empty(),
    {
        self.events.clear();
    }
}

/// Delivery happens once per publish: draining a queue visits every pending
/// event once, in publish order, and a second drain with no publish in
/// between visits nothing and leaves the queue empty.
pub proof fn lemma_drain_delivers_once<T, R, S, F: Fn(&T) -> R, G: Fn(&T) -> S>(
    events: Seq<T>,
    after: Seq<T>,
    first: Seq<R>,
    f: F,
    again: Seq<T>,
    second: Seq<S>,
    g: G,
)
    requires
        drained(events, after, first, f),
        drained(after, again, second, g),
    ensures
        first.len() == events.len(),
        forall|i: int| 0 <= i < events.len() ==> call_ensures(f, (&events[i],), #[trigger] first[i]),
        second.len() == 0,
        again.len() == 0,
{
}

} // verus!
