//! The ban records and the store that keeps them, one per user.
use vstd::prelude::*;
use crate::errors::StoreError;

verus! {

/// One ban: the user it is about and why.
#[derive(Debug, PartialEq, Eq)]
pub struct Ban {
    pub id: i32,
    pub reason: String,
}

impl View for Ban {
    type V = (i32, Seq<char>);

    open spec fn view(&self) -> (i32, Seq<char>) {
        (self.id, self.reason@)
    }
}

impl Ban {
    /// A record with the same user and the same reason.
    pub fn duplicate(&self) -> (r: Ban)
        ensures
            r == *self,
    {
        Ban { id: self.id, reason: self.reason.clone() }
    }
}

/// Whether `records` holds exactly what `bans` maps: one record for each
/// user of the map, with the reason the map gives, and nothing else.
pub open spec fn lists(records: Seq<Ban>, bans: Map<i32, Seq<char>>) -> bool {
    &&& forall|i: int|
        0 <= i < records.len() ==> bans.contains_key(#[trigger] records[i].id)
            && bans[records[i].id] == records[i].reason@
    &&& forall|id: i32| #[trigger]
        bans.contains_key(id) ==> exists|i: int|
            0 <= i < records.len() && #[trigger] records[i].id == id
    &&& forall|i: int, j: int|
        0 <= i < j < records.len() ==> #[trigger] records[i].id != #[trigger] records[j].id
}

/// Whether a store that maps `bans` and was made for `limit` records
/// turns down a record for `id`: when the user is new to it and it is full.
pub open spec fn add_fails(bans: Map<i32, Seq<char>>, limit: nat, id: i32) -> bool {
    !bans.contains_key(id) && bans.dom().len() >= limit
}

/// Where in `records` the record of `id` stands, if there is one.
spec fn position(records: Seq<Ban>, id: i32) -> int {
    choose|i: int| 0 <= i < records.len() && records[i].id == id
}

/// Whether `records` holds a record of `id`.
spec fn holds(records: Seq<Ban>, id: i32) -> bool {
    exists|i: int| 0 <= i < records.len() && records[i].id == id
}

/// What a sequence of records maps, user to reason.
spec fn mapping(records: Seq<Ban>) -> Map<i32, Seq<char>> {
    Map::new(|id: i32| holds(records, id), |id: i32| records[position(records, id)].reason@)
}

/// Whether no user has two records.
spec fn distinct(records: Seq<Ban>) -> bool {
    forall|i: int, j: int|
        0 <= i < j < records.len() ==> #[trigger] records[i].id != #[trigger] records[j].id
}

/// In a sequence without a second record for any user, the record at
/// `i` is the one that the mapping gives for its user.
proof fn mapping_at(records: Seq<Ban>, i: int)
    requires
        distinct(records),
        0 <= i < records.len(),
    ensures
        holds(records, records[i].id),
        position(records, records[i].id) == i,
        mapping(records).contains_key(records[i].id),
        mapping(records)[records[i].id] == records[i].reason@,
{
    let id = records[i].id;
    assert(holds(records, id));
    let p = position(records, id);
    if p < i {
        assert(records[p].id != records[i].id);
    } else if i < p {
        assert(records[i].id != records[p].id);
    }
}

/// A store of ban records in memory, at most one for each user and no
/// more than it was made for.
pub struct BanStore {
    bans: Vec<Ban>,
    limit: usize,
}

impl BanStore {
    /// The records, user to reason.
    pub closed spec fn view(&self) -> Map<i32, Seq<char>> {
        mapping(self.bans@)
    }

    /// How many records the store was made for.
    pub closed spec fn limit(&self) -> nat {
        self.limit as nat
    }

    /// The invariant: no user has two records, and the records are no
    /// more than the limit.
    pub closed spec fn wf(&self) -> bool {
        &&& distinct(self.bans@)
        &&& self.bans@.len() <= self.limit
        &&& self@.dom().finite()
        &&& self@.dom().len() == self.bans@.len()
    }

    /// An empty store for at most `limit` records.
    pub fn new(limit: usize) -> (s: BanStore)
        ensures
            s.wf(),
            s@ == Map::<i32, Seq<char>>::empty(),
            s.limit() == limit,
    {
        let s = BanStore { bans: Vec::new(), limit };
        proof {
            assert(s@ =~= Map::<i32, Seq<char>>::empty());
        }
        s
    }

    /// How many records the store holds.
    pub fn len(&self) -> (n: usize)
        requires
            self.wf(),
        ensures
            n == self@.dom().len(),
            n <= self.limit(),
    {
        self.bans.len()
    }

    /// The index of the record of `id`, if the store holds one.
    fn find(&self, id: i32) -> (r: Option<usize>)
        requires
            self.wf(),
        ensures
            match r {
                Some(i) => i < self.bans@.len() && self.bans@[i as int].id == id,
                None => !holds(self.bans@, id),
            },
    {
        let mut i: usize = 0;
        while i < self.bans.len()
            invariant
                i <= self.bans@.len(),
                forall|k: int| 0 <= k < i ==> self.bans@[k].id != id,
            decreases self.bans@.len() - i,
        {
            if self.bans[i].id == id {
                return Some(i);
            }
            i = i + 1;
        }
        None
    }

    /// Every record of the store, each once.
    pub fn get_bans(&self) -> (r: Vec<Ban>)
        requires
            self.wf(),
        ensures
            lists(r@, self@),
            r@.len() == self@.dom().len(),
    {
        let mut out: Vec<Ban> = Vec::new();
        let mut i: usize = 0;
        while i < self.bans.len()
            invariant
                i <= self.bans@.len(),
                out@ == self.bans@.subrange(0, i as int),
            decreases self.bans@.len() - i,
        {
            let b = self.bans[i].duplicate();
            out.push(b);
            proof {
                assert(out@ =~= self.bans@.subrange(0, i + 1));
            }
            i = i + 1;
        }
        proof {
            assert(out@ =~= self.bans@);
            assert forall|k: int| 0 <= k < out@.len() implies self@.contains_key(
                #[trigger] out@[k].id,
            ) && self@[out@[k].id] == out@[k].reason@ by {
                mapping_at(self.bans@, k);
            }
        }
        out
    }

    /// The record of `id`, or `None` where the store holds none.
    pub fn get_ban(&self, id: i32) -> (r: Option<Ban>)
        requires
            self.wf(),
        ensures
            match r {
                Some(b) => self@.contains_key(id) && b@ == (id, self@[id]),
                None => !self@.contains_key(id),
            },
    {
        match self.find(id) {
            Some(i) => {
                proof {
                    mapping_at(self.bans@, i as int);
                }
                Some(self.bans[i].duplicate())
            },
            None => None,
        }
    }

    /// Records that `id` is banned for `reason`. A user that has a record
    /// keeps one, with the new reason. A new user is turned down where the
    /// store is full, and the store stays as it was.
    pub fn add_ban(&mut self, id: i32, reason: &str) -> (r: Result<(), StoreError>)
        requires
            old(self).wf(),
        ensures
            final(self).wf(),
            final(self).limit() == old(self).limit(),
            add_fails(old(self)@, old(self).limit(), id) ==> r == Err::<(), StoreError>(
                StoreError::Full,
            ) && final(self)@ == old(self)@,
            !add_fails(old(self)@, old(self).limit(), id) ==> r is Ok && final(self)@ == old(
                self,
            )@.insert(id, reason@),
    {
        let ghost before = self.bans@;
        match self.find(id) {
            Some(i) => {
                proof {
                    mapping_at(before, i as int);
                }
                self.bans[i] = Ban { id, reason: reason.to_owned() };
                proof {
                    let after = self.bans@;
                    assert forall|k: int| 0 <= k < after.len() implies #[trigger] after[k].id
                        == before[k].id by {}
                    assert(distinct(after));
                    assert forall|u: i32| holds(after, u) == holds(before, u) by {
                        if holds(before, u) {
                            let p = position(before, u);
                            assert(after[p].id == u);
                        }
                        if holds(after, u) {
                            let p = position(after, u);
                            assert(before[p].id == u);
                        }
                    }
                    assert forall|u: i32| holds(after, u) implies #[trigger] mapping(after)[u]
                        == mapping(before).insert(id, reason@)[u] by {
                        let p = position(after, u);
                        mapping_at(after, p);
                        mapping_at(before, p);
                    }
                    assert(mapping(after) =~= mapping(before).insert(id, reason@));
                }
                Ok(())
            },
            None => {
                if self.bans.len() >= self.limit {
                    return Err(StoreError::Full);
                }
                self.bans.push(Ban { id, reason: reason.to_owned() });
                proof {
                    let after = self.bans@;
                    assert(distinct(after));
                    assert forall|u: i32| holds(after, u) == (holds(before, u) || u == id) by {
                        if holds(before, u) {
                            let p = position(before, u);
                            assert(after[p].id == u);
                        }
                        if u == id {
                            assert(after[before.len() as int].id == u);
                        }
                        if holds(after, u) && u != id {
                            let p = position(after, u);
                            assert(before[p].id == u);
                        }
                    }
                    assert forall|u: i32| holds(after, u) implies #[trigger] mapping(after)[u]
                        == mapping(before).insert(id, reason@)[u] by {
                        let p = position(after, u);
                        mapping_at(after, p);
                        if p < before.len() {
                            mapping_at(before, p);
                        }
                    }
                    assert(mapping(after) =~= mapping(before).insert(id, reason@));
                }
                Ok(())
            },
        }
    }

    /// Removes the record of `id` if the store holds one.
    pub fn delete_ban(&mut self, id: i32)
        requires
            old(self).wf(),
        ensures
            final(self).wf(),
            final(self).limit() == old(self).limit(),
            final(self)@ == old(self)@.remove(id),
    {
        let ghost before = self.bans@;
        match self.find(id) {
            Some(i) => {
                proof {
                    mapping_at(before, i as int);
                }
                let _ = self.bans.remove(i);
                proof {
                    let after = self.bans@;
                    assert(after =~= before.remove(i as int));
                    assert forall|k: int| 0 <= k < after.len() implies #[trigger] after[k]
                        == before[if k < i { k } else { k + 1 }] by {}
                    assert(distinct(after)) by {
                        assert forall|a: int, b: int| 0 <= a < b < after.len() implies
                            #[trigger] after[a].id != #[trigger] after[b].id by {
                            let a0 = if a < i { a } else { a + 1 };
                            let b0 = if b < i { b } else { b + 1 };
                            assert(before[a0].id != before[b0].id);
                        }
                    }
                    assert forall|u: i32| holds(after, u) == (holds(before, u) && u != id) by {
                        if holds(before, u) && u != id {
                            let p = position(before, u);
                            let q = if p < i { p } else { p - 1 };
                            assert(after[q].id == u);
                        }
                        if holds(after, u) {
                            let q = position(after, u);
                            let p = if q < i { q } else { q + 1 };
                            assert(before[p].id == u);
                            if u == id {
                                mapping_at(before, p);
                            }
                        }
                    }
                    assert forall|u: i32| holds(after, u) implies #[trigger] mapping(after)[u]
                        == mapping(before)[u] by {
                        let q = position(after, u);
                        let p = if q < i { q } else { q + 1 };
                        mapping_at(after, q);
                        mapping_at(before, p);
                    }
                    assert(mapping(after) =~= mapping(before).remove(id));
                }
            },
            None => {
                proof {
                    assert(mapping(before) =~= mapping(before).remove(id));
                }
            },
        }
    }
}

} // verus!
