//! The queues that carry events across stages: ready events buffered until
//! after the spawn flush, and animation events produced by the runtime's
//! callback and drained by the animation tick.

use std::collections::VecDeque;

use vstd::prelude::*;

verus! {

/// Sent once a skeleton entity has its live controller and children.
pub struct SpineReadyEvent<E> {
    /// The skeleton entity.
    pub entity: E,
    /// Each bone's name with its bone entity (empty without bone entities).
    pub bones: Vec<(String, E)>,
}

/// Ready events waiting for the ready dispatcher, oldest first.
pub struct SpineReadyEvents<E> {
    events: Vec<SpineReadyEvent<E>>,
}

impl<E> View for SpineReadyEvents<E> {
    type V = Seq<SpineReadyEvent<E>>;

    closed spec fn view(&self) -> Seq<SpineReadyEvent<E>> {
        self.events@
    }
}

impl<E> SpineReadyEvents<E> {
    pub fn new() -> (r: Self)
        ensures
            r@ == Seq::<SpineReadyEvent<E>>::empty(),
    {
        SpineReadyEvents { events: Vec::new() }
    }

    pub fn push(&mut self, event: SpineReadyEvent<E>)
        ensures
            final(self)@ == old(self)@.push(event),
    {
        self.events.push(event);
    }

    /// Hands out every queued event, oldest first, and empties the queue.
    pub fn take(&mut self) -> (r: Vec<SpineReadyEvent<E>>)
        ensures
            r@ == old(self)@,
            final(self)@ == Seq::<SpineReadyEvent<E>>::empty(),
    {
        let mut out: Vec<SpineReadyEvent<E>> = Vec::new();
        std::mem::swap(&mut out, &mut self.events);
        out
    }
}

/// Animation events waiting for the animation tick, in order of production.
pub struct SpineEventQueue<T> {
    queue: VecDeque<T>,
}

impl<T> View for SpineEventQueue<T> {
    type V = Seq<T>;

    closed spec fn view(&self) -> Seq<T> {
        self.queue@
    }
}

impl<T> SpineEventQueue<T> {
    pub fn new() -> (r: Self)
        ensures
            r@ == Seq::<T>::empty(),
    {
        SpineEventQueue { queue: VecDeque::new() }
    }

    /// Queues an event behind those already waiting.
    pub fn push(&mut self, event: T)
        ensures
            final(self)@ == old(self)@.push(event),
    {
        self.queue.push_back(event);
    }

    /// Removes every waiting event and returns them, oldest first.
    pub fn drain(&mut self) -> (r: Vec<T>)
        ensures
            r@ == old(self)@,
            final(self)@ == Seq::<T>::empty(),
    {
        let mut out: Vec<T> = Vec::new();
        while self.queue.len() > 0
            invariant
                out@ + self.queue@ == old(self)@,
            decreases self.queue@.len(),
        {
            let ghost before = self.queue@;
            match self.queue.pop_front() {
                Some(e) => {
                    out.push(e);
                    assert(before == seq![e] + self.queue@);
                    assert(out@ + self.queue@ =~= old(self)@);
                },
                None => {},
            }
        }
        assert(out@ =~= old(self)@);
        out
    }
}

proof fn lemma_pushes_prefix<T>(states: Seq<SpineEventQueue<T>>, events: Seq<T>, i: int)
    requires
        states.len() == events.len() + 1,
        states[0]@ == Seq::<T>::empty(),
        forall|k: int| 0 <= k < events.len() ==> #[trigger] states[k + 1]@ == states[k]@.push(events[k]),
        0 <= i <= events.len(),
    ensures
        states[i]@ == events.subrange(0, i),
    decreases i,
{
    if i > 0 {
        lemma_pushes_prefix(states, events, i - 1);
        assert(states[i]@ == states[i - 1]@.push(events[i - 1]));
        assert(events.subrange(0, i - 1).push(events[i - 1]) =~= events.subrange(0, i));
    } else {
        assert(events.subrange(0, 0) =~= Seq::<T>::empty());
    }
}

/// Animation events come out in the order they were produced: starting from
/// a drained queue (`states[0]`), with each state the previous one after
/// `push` of the next event, the next `drain` returns exactly those events,
/// in order.
pub proof fn lemma_events_fifo<T>(states: Seq<SpineEventQueue<T>>, events: Seq<T>, drained: Seq<T>)
    requires
        states.len() == events.len() + 1,
        states[0]@ == Seq::<T>::empty(),
        forall|k: int| 0 <= k < events.len() ==> #[trigger] states[k + 1]@ == states[k]@.push(events[k]),
        drained == states.last()@,
    ensures
        drained == events,
{
    lemma_pushes_prefix(states, events, events.len() as int);
    assert(events.subrange(0, events.len() as int) =~= events);
}

} // verus!
