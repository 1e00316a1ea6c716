//! An indexed collection of independently lockable slots.
//!
//! Every slot owns a spinlock cell holding its value and a FIFO queue of
//! waiter tokens. Acquiring a free slot moves its value into a guard, so the
//! cell is empty for exactly as long as one guard is alive; handing the guard
//! back refills the cell and names the first queued waiter to wake. Each
//! operation is one atomic step of the protocol: a caller that finds a slot
//! held is queued and is expected to suspend until its token is handed out by
//! a release, then to try again.
use vstd::prelude::*;
use vstd::std_specs::cmp::PartialEqSpec;

verus! {

/// What one slot looks like from outside: its value while it is free
/// (`None` while a guard holds it) and its queue of waiter tokens, oldest first.
pub type SlotView<T> = (Option<T>, Seq<u64>);

/// Whether slot `i` is held by a guard.
pub open spec fn slot_held<T>(s: Seq<SlotView<T>>, i: int) -> bool {
    s[i].0 is None
}

/// Slot `i` after a guard took its value; its queue is kept.
pub open spec fn take_slot<T>(s: Seq<SlotView<T>>, i: int) -> Seq<SlotView<T>> {
    s.update(i, (None, s[i].1))
}

/// Slot `i` after waiter `w` joined the back of its queue.
pub open spec fn enqueue_waiter<T>(s: Seq<SlotView<T>>, i: int, w: u64) -> Seq<SlotView<T>> {
    s.update(i, (s[i].0, s[i].1.push(w)))
}

/// A queue after its oldest waiter, if any, was woken.
pub open spec fn rest_of_queue(q: Seq<u64>) -> Seq<u64> {
    if q.len() == 0 {
        q
    } else {
        q.drop_first()
    }
}

/// The waiter that a release wakes: the oldest one, if any.
pub open spec fn next_to_wake(q: Seq<u64>) -> Option<u64> {
    if q.len() == 0 {
        None
    } else {
        Some(q[0])
    }
}

/// Slot `i` after a guard handed back value `v`: the value is stored again
/// and the oldest waiter leaves the queue to be woken.
pub open spec fn return_slot<T>(s: Seq<SlotView<T>>, i: int, v: T) -> Seq<SlotView<T>> {
    s.update(i, (Some(v), rest_of_queue(s[i].1)))
}

/// A minimal exclusive-access cell: the payload, present while the cell is
/// free and lent out to the single holder while it is held.
pub struct Atomex<T> {
    data: Option<T>,
}

impl<T> View for Atomex<T> {
    type V = Option<T>;

    closed spec fn view(&self) -> Option<T> {
        self.data
    }
}

impl<T> Atomex<T> {
    /// A free cell holding `data`.
    pub fn new(data: T) -> (r: Self)
        ensures
            r@ == Some(data),
    {
        Atomex { data: Some(data) }
    }

    /// One attempt to acquire the cell, never waiting: on success the payload
    /// moves to the caller and the cell is held; on failure nothing changes.
    pub fn try_lock(&mut self) -> (r: Result<T, ()>)
        ensures
            match old(self)@ {
                Some(v) => r == Ok::<T, ()>(v) && final(self)@ is None,
                None => r == Err::<T, ()>(()) && final(self)@ is None,
            },
    {
        match self.data.take() {
            Some(v) => Ok(v),
            None => Err(()),
        }
    }

    /// Releases a held cell, storing the payload that the holder hands back.
    pub fn unlock(&mut self, data: T)
        requires
            old(self)@ is None,
        ensures
            final(self)@ == Some(data),
    {
        self.data = Some(data);
    }

    /// Whether the cell is held.
    pub fn check_lock(&self) -> (r: bool)
        ensures
            r == (self@ is None),
    {
        self.data.is_none()
    }
}

/// Exclusive ownership of one slot's value. It is made only by a successful
/// acquisition and can only be handed back once, so at most one guard per
/// slot is alive at any time.
pub struct MutecGuard<T> {
    value: T,
    index: usize,
}

impl<T> MutecGuard<T> {
    /// The slot this guard holds.
    pub closed spec fn slot(&self) -> usize {
        self.index
    }

    /// The value this guard holds.
    pub closed spec fn value(&self) -> T {
        self.value
    }

    /// The index of the slot this guard holds.
    pub fn index(&self) -> (r: usize)
        ensures
            r == self.slot(),
    {
        self.index
    }

    /// Read access to the held value.
    pub fn get(&self) -> (r: &T)
        ensures
            *r == self.value(),
    {
        &self.value
    }

    /// Write access to the held value.
    pub fn get_mut(&mut self) -> (r: &mut T)
        ensures
            *r == old(self).value(),
            final(self).value() == *final(r),
            final(self).slot() == old(self).slot(),
    {
        &mut self.value
    }

    /// Replaces the held value.
    pub fn set(&mut self, value: T)
        ensures
            final(self).value() == value,
            final(self).slot() == old(self).slot(),
    {
        self.value = value;
    }
}

impl<T: PartialEq> MutecGuard<T> {
    /// Whether the held value equals `other`.
    pub fn value_eq(&self, other: &T) -> (r: bool)
        ensures
            T::obeys_eq_spec() ==> r == self.value().eq_spec(other),
    {
        self.value.eq(other)
    }
}

impl<T: PartialEq> PartialEq for MutecGuard<T> {
    fn eq(&self, other: &Self) -> (r: bool) {
        self.value.eq(&other.value)
    }
}

impl<T: PartialEq> vstd::std_specs::cmp::PartialEqSpecImpl for MutecGuard<T> {
    open spec fn obeys_eq_spec() -> bool {
        T::obeys_eq_spec()
    }

    open spec fn eq_spec(&self, other: &MutecGuard<T>) -> bool {
        self.value().eq_spec(&other.value())
    }
}

/// The result of a blocking acquisition step.
pub enum LockOutcome<T> {
    /// The slot was free: here is its guard.
    Acquired(MutecGuard<T>),
    /// The slot is held: the waiter joined the back of its queue and should
    /// suspend until a release hands its token out, then try again.
    Queued,
}

struct Slot<T> {
    cell: Atomex<T>,
    waiters: std::collections::VecDeque<u64>,
}

impl<T> Slot<T> {
    closed spec fn view(&self) -> SlotView<T> {
        (self.cell@, self.waiters@)
    }
}

/// A growable sequence of independently lockable slots.
pub struct Mutec<T> {
    inner: Vec<Slot<T>>,
}

impl<T> View for Mutec<T> {
    type V = Seq<SlotView<T>>;

    closed spec fn view(&self) -> Seq<SlotView<T>> {
        self.inner@.map_values(|s: Slot<T>| s.view())
    }
}

impl<T> Mutec<T> {
    /// An empty collection.
    pub fn new() -> (r: Self)
        ensures
            r@ == Seq::<SlotView<T>>::empty(),
    {
        let r = Mutec { inner: Vec::new() };
        assert(r@ =~= Seq::<SlotView<T>>::empty());
        r
    }

    /// Appends a free slot holding `value`, with an empty queue.
    pub fn push(&mut self, value: T)
        ensures
            final(self)@ == old(self)@.push((Some(value), Seq::<u64>::empty())),
    {
        let slot = Slot { cell: Atomex::new(value), waiters: std::collections::VecDeque::new() };
        self.inner.push(slot);
        assert(final(self)@ =~= old(self)@.push((Some(value), Seq::<u64>::empty())));
    }

    /// The number of slots.
    pub fn len(&self) -> (r: usize)
        ensures
            r == self@.len(),
    {
        self.inner.len()
    }

    /// Whether slot `index` is held; a snapshot for diagnostics.
    pub fn check_lock(&self, index: usize) -> (r: bool)
        requires
            index < self@.len(),
        ensures
            r == slot_held(self@, index as int),
    {
        self.inner[index].cell.check_lock()
    }

    /// One attempt to acquire slot `index`, never waiting and never queueing.
    pub fn try_lock(&mut self, index: usize) -> (r: Result<MutecGuard<T>, ()>)
        requires
            index < old(self)@.len(),
        ensures
            match old(self)@[index as int].0 {
                Some(v) => match r {
                    Ok(g) => g.slot() == index && g.value() == v
                        && final(self)@ == take_slot(old(self)@, index as int),
                    Err(_) => false,
                },
                None => r is Err && final(self)@ == old(self)@,
            },
    {
        let got = self.inner[index].cell.try_lock();
        assert(self@ =~= take_slot(old(self)@, index as int));
        match got {
            Ok(value) => Ok(MutecGuard { value, index }),
            Err(_) => Err(()),
        }
    }

    /// One step of a blocking acquisition of slot `index` on behalf of
    /// `waiter`: a free slot is acquired; a held one gets `waiter` appended to
    /// the back of its queue.
    pub fn lock(&mut self, index: usize, waiter: u64) -> (r: LockOutcome<T>)
        requires
            index < old(self)@.len(),
        ensures
            match old(self)@[index as int].0 {
                Some(v) => match r {
                    LockOutcome::Acquired(g) => g.slot() == index && g.value() == v
                        && final(self)@ == take_slot(old(self)@, index as int),
                    LockOutcome::Queued => false,
                },
                None => r is Queued && final(self)@ == enqueue_waiter(
                    old(self)@,
                    index as int,
                    waiter,
                ),
            },
    {
        match self.try_lock(index) {
            Ok(g) => LockOutcome::Acquired(g),
            Err(_) => {
                self.inner[index].waiters.push_back(waiter);
                assert(self@ =~= enqueue_waiter(old(self)@, index as int, waiter));
                LockOutcome::Queued
            },
        }
    }

    /// Hands a guard back: its value is stored in its slot again, which
    /// becomes free, and the oldest waiter of that slot, if any, leaves the
    /// queue and is returned to be woken.
    pub fn unlock(&mut self, guard: MutecGuard<T>) -> (r: Option<u64>)
        requires
            guard.slot() < old(self)@.len(),
            slot_held(old(self)@, guard.slot() as int),
        ensures
            r == next_to_wake(old(self)@[guard.slot() as int].1),
            final(self)@ == return_slot(old(self)@, guard.slot() as int, guard.value()),
    {
        let MutecGuard { value, index } = guard;
        self.inner[index].cell.unlock(value);
        let r = self.inner[index].waiters.pop_front();
        assert(self@ =~= return_slot(old(self)@, index as int, value));
        r
    }

    /// Appends one free slot per value, in order.
    pub fn extend(&mut self, values: Vec<T>)
        ensures
            final(self)@ == old(self)@ + values@.map_values(
                |v: T| (Some(v), Seq::<u64>::empty()),
            ),
    {
        let ghost start = self@;
        let mut reversed: Vec<T> = Vec::new();
        let mut rest = values;
        while rest.len() > 0
            invariant
                self@ == start,
                rest@ + reversed@.reverse() == values@,
            decreases rest.len(),
        {
            let v = rest.pop().unwrap();
            proof {
                assert(reversed@.push(v).reverse() =~= seq![v] + reversed@.reverse());
                assert(rest@ + (seq![v] + reversed@.reverse()) =~= values@);
            }
            reversed.push(v);
        }
        assert(reversed@.reverse() =~= values@);
        let mut done: usize = 0;
        let total: usize = reversed.len();
        let ghost n = values@.len();
        assert(n == total);
        while reversed.len() > 0
            invariant
                reversed@.len() + done == n,
                n == values@.len(),
                n <= usize::MAX,
                forall|j: int| 0 <= j < reversed@.len() ==> reversed@[j] == values@[n - 1 - j],
                self@ == start + values@.subrange(0, done as int).map_values(
                    |v: T| (Some(v), Seq::<u64>::empty()),
                ),
            decreases reversed.len(),
        {
            let v = reversed.pop().unwrap();
            assert(v == values@[done as int]);
            self.push(v);
            done = done + 1;
            assert(values@.subrange(0, done as int) =~= values@.subrange(0, done - 1).push(v));
            assert(self@ =~= start + values@.subrange(0, done as int).map_values(
                |v: T| (Some(v), Seq::<u64>::empty()),
            ));
        }
        assert(values@.subrange(0, done as int) =~= values@);
    }

    /// Appends one free slot per element of `slice`, each holding a clone.
    pub fn extend_from_slice(&mut self, slice: &[T]) where T: Clone
        ensures
            final(self)@.len() == old(self)@.len() + slice@.len(),
            forall|j: int| 0 <= j < old(self)@.len() ==> final(self)@[j] == old(self)@[j],
            forall|j: int|
                0 <= j < slice@.len() ==> {
                    let s = #[trigger] final(self)@[old(self)@.len() + j];
                    &&& s.0 is Some
                    &&& cloned(slice@[j], s.0->0)
                    &&& s.1 == Seq::<u64>::empty()
                },
    {
        let mut i: usize = 0;
        while i < slice.len()
            invariant
                0 <= i <= slice@.len(),
                self@.len() == old(self)@.len() + i,
                forall|j: int| 0 <= j < old(self)@.len() ==> self@[j] == old(self)@[j],
                forall|j: int|
                    0 <= j < i ==> {
                        let s = #[trigger] self@[old(self)@.len() + j];
                        &&& s.0 is Some
                        &&& cloned(slice@[j], s.0->0)
                        &&& s.1 == Seq::<u64>::empty()
                    },
            decreases slice@.len() - i,
        {
            let v = slice[i].clone();
            self.push(v);
            assert(self@[old(self)@.len() + i] == (Some(v), Seq::<u64>::empty()));
            i += 1;
        }
    }

    /// Acquires every slot in ascending index order and returns all the
    /// guards at once. Every slot must be free: a held one could never be
    /// released while this runs.
    pub fn to_vec(&mut self) -> (r: Vec<MutecGuard<T>>)
        requires
            forall|j: int| 0 <= j < old(self)@.len() ==> !slot_held(old(self)@, j),
        ensures
            r@.len() == old(self)@.len(),
            forall|j: int|
                0 <= j < r@.len() ==> (#[trigger] r@[j]).slot() == j && old(self)@[j].0 == Some(
                    r@[j].value(),
                ),
            final(self)@ == old(self)@.map_values(|p: SlotView<T>| (None::<T>, p.1)),
    {
        let n = self.len();
        let mut r: Vec<MutecGuard<T>> = Vec::with_capacity(n);
        let mut index: usize = 0;
        while index < n
            invariant
                0 <= index <= n,
                n == old(self)@.len(),
                self@.len() == n,
                r@.len() == index,
                forall|j: int| 0 <= j < n ==> !slot_held(old(self)@, j),
                forall|j: int|
                    0 <= j < index ==> (#[trigger] r@[j]).slot() == j && old(self)@[j].0 == Some(
                        r@[j].value(),
                    ),
                forall|j: int| 0 <= j < index ==> #[trigger] self@[j] == (None::<T>, old(self)@[j].1),
                forall|j: int| index <= j < n ==> #[trigger] self@[j] == old(self)@[j],
            decreases n - index,
        {
            assert(!slot_held(old(self)@, index as int));
            if let Ok(g) = self.try_lock(index) {
                r.push(g);
            }
            index += 1;
        }
        assert(self@ =~= old(self)@.map_values(|p: SlotView<T>| (None::<T>, p.1)));
        r
    }

    /// A cursor that acquires the slots strictly in index order, from either end.
    pub fn iter(&self) -> (r: Iter)
        ensures
            r.front() == 0,
            r.back() == self@.len(),
    {
        Iter { index: 0, back_index: self.inner.len() }
    }

    /// A cursor that hands out whichever not yet visited slot is free first.
    pub fn async_iter(&self) -> (r: AsyncIter)
        ensures
            r.marked() == Seq::new(self@.len(), |j: int| false),
    {
        let n = self.inner.len();
        let mut progress: Vec<bool> = Vec::with_capacity(n);
        let mut i: usize = 0;
        while i < n
            invariant
                0 <= i <= n,
                n == self@.len(),
                progress@ == Seq::new(i as nat, |j: int| false),
            decreases n - i,
        {
            progress.push(false);
            i += 1;
            assert(progress@ =~= Seq::new(i as nat, |j: int| false));
        }
        AsyncIter { progress }
    }

    /// A collection with one free slot per value, in order.
    pub fn from_vec(values: Vec<T>) -> (r: Self)
        ensures
            r@ == values@.map_values(|v: T| (Some(v), Seq::<u64>::empty())),
    {
        let mut r = Mutec::new();
        r.extend(values);
        assert(r@ =~= values@.map_values(|v: T| (Some(v), Seq::<u64>::empty())));
        r
    }
}

/// A blocking, double-ended cursor over the slots: it acquires them strictly
/// in ascending order from the front and descending order from the back,
/// until the two ends meet.
pub struct Iter {
    index: usize,
    back_index: usize,
}

impl Iter {
    /// The next index to acquire from the front.
    pub closed spec fn front(&self) -> int {
        self.index as int
    }

    /// One past the next index to acquire from the back.
    pub closed spec fn back(&self) -> int {
        self.back_index as int
    }

    /// Acquires the front slot for `waiter` and advances; once the ends have
    /// met it yields nothing, however often it is called. When the front
    /// slot is held, `waiter` is queued on it and the cursor stays put.
    pub fn next<T>(&mut self, mutec: &mut Mutec<T>, waiter: u64) -> (r: Option<LockOutcome<T>>)
        requires
            old(self).front() < old(self).back() ==> old(self).back() <= old(mutec)@.len(),
        ensures
            final(self).back() == old(self).back(),
            old(self).front() >= old(self).back() ==> r is None && final(self).front() == old(
                self,
            ).front() && final(mutec)@ == old(mutec)@,
            old(self).front() < old(self).back() ==> match old(mutec)@[old(self).front()].0 {
                Some(v) => match r {
                    Some(LockOutcome::Acquired(g)) => g.slot() == old(self).front() && g.value()
                        == v && final(self).front() == old(self).front() + 1 && final(mutec)@
                        == take_slot(old(mutec)@, old(self).front()),
                    _ => false,
                },
                None => r == Some(LockOutcome::<T>::Queued) && final(self).front() == old(
                    self,
                ).front() && final(mutec)@ == enqueue_waiter(
                    old(mutec)@,
                    old(self).front(),
                    waiter,
                ),
            },
    {
        if self.index >= self.back_index {
            return None;
        }
        let r = mutec.lock(self.index, waiter);
        if let LockOutcome::Acquired(_) = &r {
            self.index = self.index + 1;
        }
        Some(r)
    }

    /// Acquires the slot just before the back end for `waiter` and moves the
    /// back end down; once the ends have met it yields nothing, however often
    /// it is called. When that slot is held, `waiter` is queued on it and the
    /// cursor stays put.
    pub fn next_back<T>(&mut self, mutec: &mut Mutec<T>, waiter: u64) -> (r: Option<LockOutcome<T>>)
        requires
            old(self).front() < old(self).back() ==> old(self).back() <= old(mutec)@.len(),
        ensures
            final(self).front() == old(self).front(),
            old(self).front() >= old(self).back() ==> r is None && final(self).back() == old(
                self,
            ).back() && final(mutec)@ == old(mutec)@,
            old(self).front() < old(self).back() ==> match old(mutec)@[old(self).back() - 1].0 {
                Some(v) => match r {
                    Some(LockOutcome::Acquired(g)) => g.slot() == old(self).back() - 1
                        && g.value() == v && final(self).back() == old(self).back() - 1
                        && final(mutec)@ == take_slot(old(mutec)@, old(self).back() - 1),
                    _ => false,
                },
                None => r == Some(LockOutcome::<T>::Queued) && final(self).back() == old(
                    self,
                ).back() && final(mutec)@ == enqueue_waiter(
                    old(mutec)@,
                    old(self).back() - 1,
                    waiter,
                ),
            },
    {
        if self.back_index <= self.index {
            return None;
        }
        let r = mutec.lock(self.back_index - 1, waiter);
        if let LockOutcome::Acquired(_) = &r {
            self.back_index = self.back_index - 1;
        }
        Some(r)
    }

    /// How many slots are left to acquire.
    pub fn len(&self) -> (r: usize)
        requires
            self.front() <= self.back(),
        ensures
            r == self.back() - self.front(),
    {
        self.back_index - self.index
    }
}

/// What one call of the opportunistic cursor found.
pub enum Sweep<T> {
    /// A slot not visited before was free: here is its guard.
    Produced(MutecGuard<T>),
    /// Every slot not visited yet is held: sweep again later.
    AllHeld,
    /// Every slot has been handed out.
    Exhausted,
}

/// A non-blocking cursor that hands out every slot exactly once, in an order
/// set by which slots are free when it looks.
pub struct AsyncIter {
    progress: Vec<bool>,
}

impl AsyncIter {
    /// One marker per slot: whether that slot has been handed out.
    pub closed spec fn marked(&self) -> Seq<bool> {
        self.progress@
    }

    /// Sweeps the unvisited slots in ascending order and hands out the first
    /// one that is free, marking it visited.
    pub fn next<T>(&mut self, mutec: &mut Mutec<T>) -> (r: Sweep<T>)
        requires
            old(self).marked().len() <= old(mutec)@.len(),
        ensures
            final(self).marked().len() == old(self).marked().len(),
            match r {
                Sweep::Produced(g) => {
                    let i = g.slot() as int;
                    &&& 0 <= i < old(self).marked().len()
                    &&& !old(self).marked()[i]
                    &&& old(mutec)@[i].0 == Some(g.value())
                    &&& forall|j: int|
                        0 <= j < i && !old(self).marked()[j] ==> slot_held(old(mutec)@, j)
                    &&& final(self).marked() == old(self).marked().update(i, true)
                    &&& final(mutec)@ == take_slot(old(mutec)@, i)
                },
                Sweep::AllHeld => {
                    &&& exists|j: int| 0 <= j < old(self).marked().len() && !old(self).marked()[j]
                    &&& forall|j: int|
                        0 <= j < old(self).marked().len() && !old(self).marked()[j] ==> slot_held(
                            old(mutec)@,
                            j,
                        )
                    &&& final(self).marked() == old(self).marked()
                    &&& final(mutec)@ == old(mutec)@
                },
                Sweep::Exhausted => {
                    &&& forall|j: int| 0 <= j < old(self).marked().len() ==> old(self).marked()[j]
                    &&& final(self).marked() == old(self).marked()
                    &&& final(mutec)@ == old(mutec)@
                },
            },
    {
        let n = self.progress.len();
        let mut open: bool = false;
        let mut index: usize = 0;
        while index < n
            invariant
                0 <= index <= n,
                n == self.progress@.len(),
                n <= mutec@.len(),
                self.progress@ == old(self).marked(),
                mutec@ == old(mutec)@,
                forall|j: int| 0 <= j < index && !self.progress@[j] ==> slot_held(mutec@, j),
                open <==> exists|j: int| 0 <= j < index && !self.progress@[j],
            decreases n - index,
        {
            if !self.progress[index] {
                open = true;
                match mutec.try_lock(index) {
                    Ok(g) => {
                        self.progress.set(index, true);
                        return Sweep::Produced(g);
                    },
                    Err(_) => {},
                }
            }
            index += 1;
        }
        if open {
            Sweep::AllHeld
        } else {
            Sweep::Exhausted
        }
    }
}

/// The collection after waiters `ws` each made one blocking attempt on slot
/// `i` while it was held, in order.
pub open spec fn queue_all<T>(s: Seq<SlotView<T>>, i: int, ws: Seq<u64>) -> Seq<SlotView<T>>
    decreases ws.len(),
{
    if ws.len() == 0 {
        s
    } else {
        enqueue_waiter(queue_all(s, i, ws.drop_last()), i, ws.last())
    }
}

/// Mutual exclusion: once a guard has taken slot `i`, any number of further
/// blocking attempts on it only queue their waiters, in arrival order; the
/// slot stays held, with its value out with the guard, and no other slot
/// changes.
pub proof fn lemma_mutual_exclusion<T>(s: Seq<SlotView<T>>, i: int, ws: Seq<u64>)
    requires
        0 <= i < s.len(),
        !slot_held(s, i),
    ensures
        ({
            let t = queue_all(take_slot(s, i), i, ws);
            &&& t.len() == s.len()
            &&& slot_held(t, i)
            &&& t[i].1 == s[i].1 + ws
            &&& forall|j: int| 0 <= j < s.len() && j != i ==> t[j] == s[j]
        }),
    decreases ws.len(),
{
    if ws.len() > 0 {
        lemma_mutual_exclusion(s, i, ws.drop_last());
        assert(s[i].1 + ws =~= (s[i].1 + ws.drop_last()).push(ws.last()));
    } else {
        assert(s[i].1 + ws =~= s[i].1);
    }
}

/// A counter slot after `k` rounds of acquire, add one, release.
pub open spec fn counter_rounds(s: Seq<SlotView<int>>, i: int, k: nat) -> Seq<SlotView<int>>
    decreases k,
{
    if k == 0 {
        s
    } else {
        let prev = counter_rounds(s, i, (k - 1) as nat);
        return_slot(take_slot(prev, i), i, prev[i].0->0 + 1)
    }
}

/// No lost updates: since each round holds the slot from acquisition to
/// release, `k` rounds of lock, increment, release add exactly `k` to the
/// counter, whichever callers ran them.
pub proof fn lemma_counter_rounds(s: Seq<SlotView<int>>, i: int, k: nat)
    requires
        0 <= i < s.len(),
        !slot_held(s, i),
    ensures
        counter_rounds(s, i, k).len() == s.len(),
        counter_rounds(s, i, k)[i].0 == Some(s[i].0->0 + k),
    decreases k,
{
    if k > 0 {
        lemma_counter_rounds(s, i, (k - 1) as nat);
    }
}

/// Non-blocking contention: a free slot can be taken; while it is taken a
/// second attempt finds it held; once the guard is handed back it is free
/// again with the returned value.
pub proof fn lemma_contention<T>(s: Seq<SlotView<T>>, i: int, v: T)
    requires
        0 <= i < s.len(),
        !slot_held(s, i),
    ensures
        slot_held(take_slot(s, i), i),
        !slot_held(return_slot(take_slot(s, i), i, v), i),
        return_slot(take_slot(s, i), i, v)[i].0 == Some(v),
{
}

/// The held flag of a cell reads free before acquisition, held while the
/// payload is out, and free again right after release.
pub proof fn lemma_peek_held<T>(s: Seq<SlotView<T>>, i: int, v: T)
    requires
        0 <= i < s.len(),
        s[i].0 is Some,
    ensures
        !slot_held(s, i),
        slot_held(take_slot(s, i), i),
        !slot_held(return_slot(take_slot(s, i), i, v), i),
{
}

/// Blocking handoff: a waiter that queued on a held slot behind `q` is woken
/// by the release that follows once `q` has been served, and its next
/// attempt finds the slot free with the value handed back.
pub proof fn lemma_handoff<T>(s: Seq<SlotView<T>>, i: int, w: u64, v: T)
    requires
        0 <= i < s.len(),
        slot_held(s, i),
        s[i].1.len() == 0,
    ensures
        ({
            let t = return_slot(enqueue_waiter(s, i, w), i, v);
            &&& next_to_wake(enqueue_waiter(s, i, w)[i].1) == Some(w)
            &&& !slot_held(t, i)
            &&& t[i].0 == Some(v)
            &&& t[i].1.len() == 0
        }),
{
    assert(enqueue_waiter(s, i, w)[i].1 =~= seq![w]);
}

/// Wakeups follow arrival order: joining the back of a non-empty queue
/// changes neither who is woken next nor the order of those behind.
pub proof fn lemma_fifo_wakeup(q: Seq<u64>, w: u64)
    requires
        q.len() > 0,
    ensures
        next_to_wake(q.push(w)) == next_to_wake(q),
        rest_of_queue(q.push(w)) == rest_of_queue(q).push(w),
{
    assert(rest_of_queue(q.push(w)) =~= rest_of_queue(q).push(w));
}

/// The indices that `k` forward steps of a sequential cursor hand out,
/// starting at `front` and stopping at `back`.
pub open spec fn forward_visits(front: int, back: int, k: nat) -> Seq<int>
    decreases k,
{
    if k == 0 || front >= back {
        Seq::empty()
    } else {
        seq![front] + forward_visits(front + 1, back, (k - 1) as nat)
    }
}

/// The indices that `k` backward steps of a sequential cursor hand out,
/// starting below `back` and stopping at `front`.
pub open spec fn backward_visits(front: int, back: int, k: nat) -> Seq<int>
    decreases k,
{
    if k == 0 || front >= back {
        Seq::empty()
    } else {
        seq![back - 1] + backward_visits(front, back - 1, (k - 1) as nat)
    }
}

/// Sequential completeness: from `front`, forward steps hand out each index
/// of `front..back` once, in ascending order, and nothing after that,
/// however many more steps are taken; backward steps hand them out in
/// descending order.
pub proof fn lemma_sequential_visits(front: int, back: int, k: nat)
    requires
        front <= back,
    ensures
        k >= back - front ==> forward_visits(front, back, k) == Seq::new(
            (back - front) as nat,
            |j: int| front + j,
        ),
        k >= back - front ==> backward_visits(front, back, k) == Seq::new(
            (back - front) as nat,
            |j: int| back - 1 - j,
        ),
        k < back - front ==> forward_visits(front, back, k) == Seq::new(k, |j: int| front + j),
        k < back - front ==> backward_visits(front, back, k) == Seq::new(k, |j: int| back - 1 - j),
    decreases k,
{
    if k > 0 && front < back {
        lemma_sequential_visits(front + 1, back, (k - 1) as nat);
        lemma_sequential_visits(front, back - 1, (k - 1) as nat);
        let m: nat = if k >= back - front { (back - front) as nat } else { k };
        assert(forward_visits(front, back, k) =~= Seq::new(m, |j: int| front + j));
        assert(backward_visits(front, back, k) =~= Seq::new(m, |j: int| back - 1 - j));
    } else if front >= back {
        assert(forward_visits(front, back, k) =~= Seq::new(0, |j: int| front + j));
        assert(backward_visits(front, back, k) =~= Seq::new(0, |j: int| back - 1 - j));
    } else {
        assert(forward_visits(front, back, k) =~= Seq::new(0, |j: int| front + j));
        assert(backward_visits(front, back, k) =~= Seq::new(0, |j: int| back - 1 - j));
    }
}

/// How many slots an opportunistic cursor has handed out.
pub open spec fn marked_count(m: Seq<bool>) -> nat
    decreases m.len(),
{
    if m.len() == 0 {
        0
    } else {
        marked_count(m.drop_last()) + if m.last() { 1nat } else { 0nat }
    }
}

/// Opportunistic completeness: handing out an unvisited slot raises the
/// count of visited slots by exactly one, the count never passes the number
/// of slots, and it reaches that number exactly when every slot has been
/// visited, which is when the cursor reports exhaustion. So every slot is
/// handed out once and only once.
pub proof fn lemma_opportunistic_visits(m: Seq<bool>, i: int)
    requires
        0 <= i < m.len(),
        !m[i],
    ensures
        marked_count(m.update(i, true)) == marked_count(m) + 1,
        marked_count(m) < m.len(),
        marked_count(m.update(i, true)) <= m.len(),
    decreases m.len(),
{
    lemma_marked_count_bound(m);
    lemma_marked_count_bound(m.update(i, true));
    if i == m.len() - 1 {
        assert(m.update(i, true).drop_last() =~= m.drop_last());
    } else {
        lemma_opportunistic_visits(m.drop_last(), i);
        assert(m.update(i, true).drop_last() =~= m.drop_last().update(i, true));
    }
}

/// The visited count never passes the number of slots, and equals it
/// exactly when every marker is set.
pub proof fn lemma_marked_count_bound(m: Seq<bool>)
    ensures
        marked_count(m) <= m.len(),
        marked_count(m) == m.len() <==> forall|j: int| 0 <= j < m.len() ==> m[j],
    decreases m.len(),
{
    if m.len() > 0 {
        lemma_marked_count_bound(m.drop_last());
        if forall|j: int| 0 <= j < m.len() ==> m[j] {
            assert forall|j: int| 0 <= j < m.drop_last().len() implies m.drop_last()[j] by {
                assert(m[j]);
            }
        }
        if forall|j: int| 0 <= j < m.drop_last().len() ==> m.drop_last()[j] {
            if m.last() {
                assert forall|j: int| 0 <= j < m.len() implies m[j] by {
                    if j < m.len() - 1 {
                        assert(m.drop_last()[j]);
                    }
                }
            }
        }
    }
}

} // verus!
