use vstd::prelude::*;

verus! {

/// What a pending transfer records: its channel, its token address, its
/// sender and its amount.
pub type PendingView = (Seq<char>, Seq<char>, Seq<char>, u128);

/// A transfer whose packet was sent and that may still be reversed.
#[derive(Debug, Clone, PartialEq, Eq)]
pub struct PendingTransfer {
    pub id: u64,
    pub channel: String,
    pub token: String,
    pub sender: String,
    pub amount: u128,
}

impl View for PendingTransfer {
    type V = PendingView;

    open spec fn view(&self) -> PendingView {
        (self.channel@, self.token@, self.sender@, self.amount)
    }
}

/// The pending transfers by id, and the id the next transfer gets.
pub struct PendingTransfers {
    records: Vec<PendingTransfer>,
    next_id: u64,
    map: Ghost<Map<u64, PendingView>>,
}

impl PendingTransfers {
    /// The pending transfers, by id.
    pub closed spec fn records(&self) -> Map<u64, PendingView> {
        self.map@
    }

    /// The id the next recorded transfer gets.
    pub closed spec fn next_id(&self) -> u64 {
        self.next_id
    }

    /// Each record is mapped under its id, every mapped id has a record, no
    /// two records share an id, and every id is below the next one.
    pub closed spec fn wf(&self) -> bool {
        &&& forall|i: int|
            0 <= i < self.records@.len() ==> #[trigger] self.map@.contains_key(self.records@[i].id)
                && self.map@[self.records@[i].id] == self.records@[i]@
        &&& forall|id: u64|
            #[trigger] self.map@.contains_key(id) ==> exists|i: int| 0 <= i < self.records@.len() && self.records@[i].id == id
        &&& forall|i: int, j: int| 0 <= i < j < self.records@.len() ==> self.records@[i].id != self.records@[j].id
        &&& forall|id: u64| #[trigger] self.map@.contains_key(id) ==> id < self.next_id
    }

    pub fn new() -> (r: PendingTransfers)
        ensures
            r.wf(),
            r.records() == Map::<u64, PendingView>::empty(),
            r.next_id() == 0,
    {
        PendingTransfers { records: Vec::new(), next_id: 0, map: Ghost(Map::empty()) }
    }

    /// No pending transfers; the first id given out is `next_id`.
    pub fn starting_at(next_id: u64) -> (r: PendingTransfers)
        ensures
            r.wf(),
            r.records() == Map::<u64, PendingView>::empty(),
            r.next_id() == next_id,
    {
        PendingTransfers { records: Vec::new(), next_id, map: Ghost(Map::empty()) }
    }

    pub fn next_transfer_id(&self) -> (r: u64)
        ensures
            r == self.next_id(),
    {
        self.next_id
    }

    /// The pending transfers, one entry per id.
    pub fn list(&self) -> (r: &Vec<PendingTransfer>)
        requires
            self.wf(),
        ensures
            forall|i: int| 0 <= i < r@.len() ==> #[trigger] self.records().contains_key(r@[i].id)
                && self.records()[r@[i].id] == r@[i]@,
            forall|id: u64| #[trigger] self.records().contains_key(id) ==> exists|i: int|
                0 <= i < r@.len() && r@[i].id == id,
    {
        assert forall|i: int| 0 <= i < self.records@.len() implies #[trigger] self.records().contains_key(self.records@[i].id)
            && self.records()[self.records@[i].id] == self.records@[i]@ by {
            assert(self.map@.contains_key(self.records@[i].id));
        }
        &self.records
    }

    fn find(&self, id: u64) -> (r: Option<usize>)
        requires
            self.wf(),
        ensures
            match r {
                Some(i) => i < self.records@.len() && self.records@[i as int].id == id,
                None => !self.records().contains_key(id),
            },
    {
        let mut i: usize = 0;
        while i < self.records.len()
            invariant
                self.wf(),
                i <= self.records@.len(),
                forall|j: int| 0 <= j < i ==> self.records@[j].id != id,
            decreases self.records@.len() - i,
        {
            if self.records[i].id == id {
                return Some(i);
            }
            i = i + 1;
        }
        proof {
            if self.map@.contains_key(id) {
                assert(exists|j: int| 0 <= j < self.records@.len() && self.records@[j].id == id);
            }
        }
        None
    }

    /// A copy of the pending transfer `id`, if there is one.
    pub fn get(&self, id: u64) -> (r: Option<PendingTransfer>)
        requires
            self.wf(),
        ensures
            match r {
                Some(p) => self.records().contains_key(id) && p.id == id && p@ == self.records()[id],
                None => !self.records().contains_key(id),
            },
    {
        match self.find(id) {
            Some(i) => {
                let p = &self.records[i];
                assert(self.map@.contains_key(self.records@[i as int].id));
                Some(PendingTransfer {
                    id: p.id,
                    channel: p.channel.clone(),
                    token: p.token.clone(),
                    sender: p.sender.clone(),
                    amount: p.amount,
                })
            },
            None => None,
        }
    }

    fn push_new(&mut self, p: PendingTransfer)
        requires
            old(self).wf(),
            !old(self).records().contains_key(p.id),
        ensures
            final(self).records@ == old(self).records@.push(p),
            final(self).map@ == old(self).map@.insert(p.id, p@),
            final(self).next_id == old(self).next_id,
            forall|i: int| 0 <= i < final(self).records@.len() ==> #[trigger] final(self).map@.contains_key(final(self).records@[i].id)
                && final(self).map@[final(self).records@[i].id] == final(self).records@[i]@,
            forall|id: u64| #[trigger] final(self).map@.contains_key(id) ==> exists|i: int|
                0 <= i < final(self).records@.len() && final(self).records@[i].id == id,
            forall|i: int, j: int| 0 <= i < j < final(self).records@.len() ==> final(self).records@[i].id != final(self).records@[j].id,
    {
        let ghost old_records = self.records@;
        let ghost k = p.id;
        let ghost v = p@;
        self.records.push(p);
        self.map = Ghost(self.map@.insert(k, v));
        let ghost n = old_records.len() as int;
        assert(self.records@[n].id == k);
        assert forall|j: int| 0 <= j < self.records@.len() implies #[trigger] self.map@.contains_key(self.records@[j].id)
            && self.map@[self.records@[j].id] == self.records@[j]@ by {
            if j < n {
                assert(old(self).map@.contains_key(old_records[j].id));
            }
        }
        assert forall|q: u64| #[trigger] self.map@.contains_key(q) implies exists|j: int|
            0 <= j < self.records@.len() && self.records@[j].id == q by {
            if q != k {
                let j = choose|j: int| 0 <= j < old_records.len() && old_records[j].id == q;
                assert(self.records@[j].id == q);
            } else {
                assert(self.records@[n].id == q);
            }
        }
        assert forall|a: int, b: int| 0 <= a < b < self.records@.len() implies self.records@[a].id != self.records@[b].id by {
            if b == n {
                assert(old(self).map@.contains_key(old_records[a].id));
            }
        }
    }

    /// Records a new pending transfer under the next id, which it returns.
    pub fn record(&mut self, channel: String, token: String, sender: String, amount: u128) -> (id: u64)
        requires
            old(self).wf(),
            old(self).next_id() < u64::MAX,
        ensures
            final(self).wf(),
            id == old(self).next_id(),
            final(self).next_id() == old(self).next_id() + 1,
            final(self).records() == old(self).records().insert(id, (channel@, token@, sender@, amount)),
    {
        let id = self.next_id;
        self.push_new(PendingTransfer { id, channel, token, sender, amount });
        let ghost recs = self.records@;
        let ghost m = self.map@;
        self.next_id = id + 1;
        assert(self.records@ == recs && self.map@ == m);
        assert forall|q: u64| #[trigger] self.map@.contains_key(q) implies q < self.next_id by {
            if q != id {
                assert(old(self).map@.contains_key(q));
            }
        }
        id
    }

    /// Puts back a pending transfer read from storage. It is refused where its
    /// id is already pending or is the largest id.
    pub fn restore(&mut self, p: PendingTransfer) -> (r: bool)
        requires
            old(self).wf(),
        ensures
            final(self).wf(),
            r <==> !old(self).records().contains_key(p.id) && p.id < u64::MAX,
            r ==> final(self).records() == old(self).records().insert(p.id, p@),
            r ==> final(self).next_id() == if p.id < old(self).next_id() {
                old(self).next_id()
            } else {
                (p.id + 1) as u64
            },
            !r ==> final(self).records() == old(self).records() && final(self).next_id() == old(self).next_id(),
    {
        if p.id == u64::MAX {
            return false;
        }
        if self.find(p.id).is_some() {
            return false;
        }
        let id = p.id;
        self.push_new(p);
        let ghost recs = self.records@;
        let ghost m = self.map@;
        if id >= self.next_id {
            self.next_id = id + 1;
        }
        assert(self.records@ == recs && self.map@ == m);
        assert forall|q: u64| #[trigger] self.map@.contains_key(q) implies q < self.next_id by {
            if q != id {
                assert(old(self).map@.contains_key(q));
            }
        }
        true
    }

    /// Removes the pending transfer `id`; whether it was pending.
    pub fn remove(&mut self, id: u64) -> (r: bool)
        requires
            old(self).wf(),
        ensures
            final(self).wf(),
            r == old(self).records().contains_key(id),
            final(self).records() == old(self).records().remove(id),
            final(self).next_id() == old(self).next_id(),
    {
        match self.find(id) {
            None => {
                assert(self.map@.remove(id) =~= self.map@);
                false
            },
            Some(i) => {
                let ghost old_records = self.records@;
                self.records.remove(i);
                self.map = Ghost(self.map@.remove(id));
                assert forall|j: int| 0 <= j < self.records@.len() implies #[trigger] self.map@.contains_key(self.records@[j].id)
                    && self.map@[self.records@[j].id] == self.records@[j]@ by {
                    let oj = if j < i { j } else { j + 1 };
                    assert(self.records@[j] == old_records[oj]);
                    assert(old(self).map@.contains_key(old_records[oj].id));
                    if oj < i {
                        assert(old_records[oj].id != old_records[i as int].id);
                    } else {
                        assert(old_records[i as int].id != old_records[oj].id);
                    }
                }
                assert forall|q: u64| #[trigger] self.map@.contains_key(q) implies exists|j: int|
                    0 <= j < self.records@.len() && self.records@[j].id == q by {
                    let k = choose|k: int| 0 <= k < old_records.len() && old_records[k].id == q;
                    if k < i {
                        assert(self.records@[k].id == q);
                    } else {
                        assert(k != i);
                        assert(self.records@[k - 1].id == q);
                    }
                }
                assert forall|a: int, b: int| 0 <= a < b < self.records@.len() implies self.records@[a].id != self.records@[b].id by {
                    let oa = if a < i { a } else { a + 1 };
                    let ob = if b < i { b } else { b + 1 };
                    assert(self.records@[a] == old_records[oa]);
                    assert(self.records@[b] == old_records[ob]);
                }
                true
            },
        }
    }
}

} // verus!
