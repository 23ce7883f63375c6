use vstd::prelude::*;

verus! {

/// Why one download failed.
pub enum Error {
    /// The local file could not be written.
    File(String),
    /// The remote file could not be fetched.
    Remote(String),
}

/// Where one download of a batch stands.
pub enum Slot {
    Queued,
    InFlight,
    Done(Result<(), Error>),
}

/// Schedules a batch of downloads with a fixed ceiling on how many are in
/// flight at once. Downloads start in input order, each as soon as a place
/// is free; one's failure does not stop the others, and outcomes are kept
/// index for index with the input.
pub struct DownloadScheduler {
    limit: usize,
    next: usize,
    in_flight: usize,
    slots: Vec<Slot>,
    started: Ghost<Set<int>>,
}

impl DownloadScheduler {
    /// Downloads before `next` have started, the others are queued; the
    /// count in flight matches the slots and stays within the limit.
    pub closed spec fn wf(&self) -> bool {
        &&& self.limit > 0
        &&& self.next <= self.slots@.len()
        &&& forall|i: int| 0 <= i < self.slots@.len() ==> (#[trigger] self.slots@[i] is Queued <==> i
            >= self.next)
        &&& self.started@.finite()
        &&& forall|i: int| #[trigger]
            self.started@.contains(i) <==> (0 <= i < self.slots@.len()
                && self.slots@[i] is InFlight)
        &&& self.in_flight == self.started@.len()
        &&& self.in_flight <= self.limit
    }

    pub closed spec fn limit(&self) -> nat {
        self.limit as nat
    }

    /// How many downloads are in flight.
    pub closed spec fn in_flight_count(&self) -> nat {
        self.in_flight as nat
    }

    /// Where each download of the batch stands, in input order.
    pub closed spec fn slots(&self) -> Seq<Slot> {
        self.slots@
    }

    /// A scheduler for `count` downloads, at most `limit` at once; `None`
    /// where the limit is zero, under which no download could start.
    pub fn new(count: usize, limit: usize) -> (r: Option<DownloadScheduler>)
        ensures
            limit == 0 <==> r is None,
            r matches Some(s) ==> s.wf() && s.limit() == limit && s.in_flight_count() == 0
                && s.slots().len() == count && forall|i: int|
                0 <= i < count ==> #[trigger] s.slots()[i] is Queued,
    {
        if limit == 0 {
            return None;
        }
        let mut slots: Vec<Slot> = Vec::new();
        let mut i: usize = 0;
        while i < count
            invariant
                i <= count,
                slots@.len() == i,
                forall|j: int| 0 <= j < i ==> #[trigger] slots@[j] is Queued,
            decreases count - i,
        {
            slots.push(Slot::Queued);
            i = i + 1;
        }
        proof {
            assert(Set::<int>::empty().len() == 0);
        }
        Some(DownloadScheduler { limit, next: 0, in_flight: 0, slots, started: Ghost(Set::empty()) })
    }

    /// Admits the next queued download if a place is free, and returns its
    /// index; `None` where all have started or the limit is reached.
    pub fn start_next(&mut self) -> (r: Option<usize>)
        requires
            old(self).wf(),
        ensures
            final(self).wf(),
            final(self).limit() == old(self).limit(),
            match r {
                Some(i) => {
                    &&& old(self).in_flight_count() < old(self).limit()
                    &&& i < old(self).slots().len()
                    &&& old(self).slots()[i as int] is Queued
                    &&& forall|j: int| 0 <= j < i ==> !(#[trigger] old(self).slots()[j] is Queued)
                    &&& final(self).slots() == old(self).slots().update(i as int, Slot::InFlight)
                    &&& final(self).in_flight_count() == old(self).in_flight_count() + 1
                },
                None => {
                    &&& (old(self).in_flight_count() >= old(self).limit() || forall|j: int|
                        0 <= j < old(self).slots().len() ==> !(#[trigger] old(
                            self,
                        ).slots()[j] is Queued))
                    &&& final(self).slots() == old(self).slots()
                    &&& final(self).in_flight_count() == old(self).in_flight_count()
                },
            },
    {
        if self.in_flight >= self.limit || self.next >= self.slots.len() {
            return None;
        }
        let i = self.next;
        let ghost old_started = self.started@;
        self.slots.set(i, Slot::InFlight);
        self.next = i + 1;
        self.in_flight = self.in_flight + 1;
        self.started = Ghost(old_started.insert(i as int));
        proof {
            assert(!old_started.contains(i as int));
            assert(self.started@.len() == old_started.len() + 1);
            assert forall|j: int| 0 <= j < self.slots@.len() implies (#[trigger] self.slots@[j] is Queued
                <==> j >= self.next) by {
                if j != i {
                    assert(self.slots@[j] == old(self).slots@[j]);
                }
            }
        }
        Some(i)
    }

    /// Records how an in-flight download ended and frees its place; `false`
    /// with nothing changed where that download was not in flight.
    pub fn complete(&mut self, index: usize, result: Result<(), Error>) -> (r: bool)
        requires
            old(self).wf(),
        ensures
            final(self).wf(),
            final(self).limit() == old(self).limit(),
            r == (index < old(self).slots().len() && old(self).slots()[index as int] is InFlight),
            r ==> final(self).slots() == old(self).slots().update(index as int, Slot::Done(result))
                && final(self).in_flight_count() + 1 == old(self).in_flight_count(),
            !r ==> final(self).slots() == old(self).slots() && final(self).in_flight_count() == old(
                self,
            ).in_flight_count(),
    {
        if index >= self.slots.len() || !matches!(self.slots[index], Slot::InFlight) {
            return false;
        }
        let ghost old_started = self.started@;
        proof {
            assert(old_started.contains(index as int));
            assert(old_started.len() > 0);
        }
        self.slots.set(index, Slot::Done(result));
        self.in_flight = self.in_flight - 1;
        self.started = Ghost(old_started.remove(index as int));
        proof {
            assert(self.started@.len() == old_started.len() - 1);
            assert forall|j: int| 0 <= j < self.slots@.len() implies (#[trigger] self.slots@[j] is Queued
                <==> j >= self.next) by {
                if j != index {
                    assert(self.slots@[j] == old(self).slots@[j]);
                }
            }
        }
        true
    }

    /// How many downloads are in flight.
    pub fn in_flight(&self) -> (r: usize)
        ensures
            r == self.in_flight_count(),
    {
        self.in_flight
    }

    /// Whether every download has ended.
    pub fn is_finished(&self) -> (r: bool)
        ensures
            r == forall|i: int| 0 <= i < self.slots().len() ==> #[trigger] self.slots()[i] is Done,
    {
        let mut i: usize = 0;
        while i < self.slots.len()
            invariant
                i <= self.slots@.len(),
                forall|j: int| 0 <= j < i ==> #[trigger] self.slots@[j] is Done,
            decreases self.slots.len() - i,
        {
            if !matches!(self.slots[i], Slot::Done(_)) {
                return false;
            }
            i = i + 1;
        }
        true
    }

    /// The slots of the batch, in input order.
    pub fn into_slots(self) -> (r: Vec<Slot>)
        ensures
            r@ == self.slots(),
    {
        self.slots
    }
}

/// At no point are more downloads in flight than the limit allows.
pub proof fn lemma_in_flight_within_limit(s: &DownloadScheduler)
    requires
        s.wf(),
    ensures
        s.in_flight_count() <= s.limit(),
{
}

/// The indexes of the downloads that failed, in order; the batch succeeded
/// when there are none.
pub fn failures(slots: &Vec<Slot>) -> (r: Vec<usize>)
    ensures
        forall|k: int| 0 <= k < r@.len() ==> (#[trigger] r@[k] as int) < slots@.len() && slots@[r@[k] as int] matches Slot::Done(Err(_)),
        forall|i: int| 0 <= i < slots@.len() && (#[trigger] slots@[i] matches Slot::Done(Err(_))) ==> r@.contains(i as usize),
        forall|k: int, l: int| 0 <= k < l < r@.len() ==> r@[k] < r@[l],
{
    let mut r: Vec<usize> = Vec::new();
    let mut i: usize = 0;
    while i < slots.len()
        invariant
            i <= slots@.len(),
            forall|k: int| 0 <= k < r@.len() ==> (#[trigger] r@[k] as int) < i && slots@[r@[k] as int] matches Slot::Done(Err(_)),
            forall|j: int| 0 <= j < i && (#[trigger] slots@[j] matches Slot::Done(Err(_))) ==> r@.contains(j as usize),
            forall|k: int, l: int| 0 <= k < l < r@.len() ==> r@[k] < r@[l],
        decreases slots.len() - i,
    {
        if matches!(slots[i], Slot::Done(Err(_))) {
            let ghost before = r@;
            r.push(i);
            proof {
                assert(r@[before.len() as int] == i);
                assert forall|j: int| 0 <= j < i && (#[trigger] slots@[j] matches Slot::Done(Err(_))) implies r@.contains(j as usize) by {
                    let k = choose|k: int| 0 <= k < before.len() && before[k] == j as usize;
                    assert(r@[k] == j as usize);
                }
            }
        }
        i = i + 1;
    }
    r
}

} // verus!
