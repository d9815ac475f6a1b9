use vstd::prelude::*;

use crate::events::InstanceId;
use crate::instance::{GameInstance, InstanceError};

verus! {

/// The instances this process owns, at most one per identifier.
pub struct InstanceRegistry {
    entries: Vec<GameInstance>,
    map: Ghost<Map<InstanceId, GameInstance>>,
}

impl View for InstanceRegistry {
    type V = Map<InstanceId, GameInstance>;

    closed spec fn view(&self) -> Map<InstanceId, GameInstance> {
        self.map@
    }
}

impl InstanceRegistry {
    pub closed spec fn wf(&self) -> bool {
        &&& forall|i: int, j: int|
            0 <= i < j < self.entries@.len() ==> #[trigger] self.entries@[i].id_spec() != #[trigger] self.entries@[j].id_spec()
        &&& forall|i: int|
            0 <= i < self.entries@.len() ==> self.map@.contains_key(#[trigger] self.entries@[i].id_spec())
                && self.map@[self.entries@[i].id_spec()] == self.entries@[i]
        &&& forall|id: InstanceId|
            #[trigger] self.map@.contains_key(id) ==> exists|i: int| 0 <= i < self.entries@.len() && #[trigger] self.entries@[i].id_spec() == id
    }

    /// An empty registry.
    pub fn new() -> (r: Self)
        ensures
            r.wf(),
            r@ == Map::<InstanceId, GameInstance>::empty(),
    {
        InstanceRegistry { entries: Vec::new(), map: Ghost(Map::empty()) }
    }

    /// The number of instances.
    pub fn len(&self) -> (r: usize)
        requires
            self.wf(),
        ensures
            r == self@.dom().len(),
    {
        proof {
            self.lemma_dom_is_ids();
        }
        self.entries.len()
    }

    proof fn lemma_dom_is_ids(&self)
        requires
            self.wf(),
        ensures
            self.entries@.map_values(|g: GameInstance| g.id_spec()).no_duplicates(),
            self.entries@.map_values(|g: GameInstance| g.id_spec()).to_set() == self@.dom(),
            self@.dom().len() == self.entries@.len(),
    {
        let ids = self.entries@.map_values(|g: GameInstance| g.id_spec());
        assert(ids.to_set() =~= self@.dom()) by {
            assert forall|id: InstanceId| ids.to_set().contains(id) implies self@.dom().contains(id) by {
                let i = choose|i: int| 0 <= i < ids.len() && ids[i] == id;
                assert(self.entries@[i].id_spec() == id);
            }
            assert forall|id: InstanceId| self@.dom().contains(id) implies ids.to_set().contains(id) by {
                assert(self.map@.contains_key(id));
                let i = choose|i: int| 0 <= i < self.entries@.len() && #[trigger] self.entries@[i].id_spec() == id;
                assert(ids[i] == id);
            }
        }
        assert forall|i: int, j: int| 0 <= i < ids.len() && 0 <= j < ids.len() && i != j implies ids[i] != ids[j] by {
            if i < j {
                assert(self.entries@[i].id_spec() != self.entries@[j].id_spec());
            } else {
                assert(self.entries@[j].id_spec() != self.entries@[i].id_spec());
            }
        }
        ids.unique_seq_to_set();
    }

    fn position(&self, id: InstanceId) -> (r: Option<usize>)
        requires
            self.wf(),
        ensures
            r matches Some(i) ==> i < self.entries@.len() && self.entries@[i as int].id_spec() == id
                && self@.contains_key(id) && self@[id] == self.entries@[i as int],
            r is None <==> !self@.contains_key(id),
    {
        let mut i: usize = 0;
        while i < self.entries.len()
            invariant
                self.wf(),
                i <= self.entries@.len(),
                forall|j: int| 0 <= j < i ==> #[trigger] self.entries@[j].id_spec() != id,
            decreases self.entries.len() - i,
        {
            if self.entries[i].uuid() == id {
                return Some(i);
            }
            i = i + 1;
        }
        proof {
            if self@.contains_key(id) {
                let j = choose|j: int| 0 <= j < self.entries@.len() && #[trigger] self.entries@[j].id_spec() == id;
                assert(self.entries@[j].id_spec() != id);
            }
        }
        None
    }

    /// Whether an instance with identifier `id` is present.
    pub fn contains(&self, id: InstanceId) -> (r: bool)
        requires
            self.wf(),
        ensures
            r == self@.contains_key(id),
    {
        self.position(id).is_some()
    }

    /// The instance with identifier `id`, if present.
    pub fn get(&self, id: InstanceId) -> (r: Option<&GameInstance>)
        requires
            self.wf(),
        ensures
            r is None <==> !self@.contains_key(id),
            r matches Some(g) ==> *g == self@[id],
    {
        match self.position(id) {
            Some(i) => Some(&self.entries[i]),
            None => None,
        }
    }

    /// The identifiers of all instances, each once: a snapshot taken now.
    pub fn ids(&self) -> (r: Vec<InstanceId>)
        requires
            self.wf(),
        ensures
            r@.no_duplicates(),
            r@.to_set() == self@.dom(),
            r@.len() == self@.dom().len(),
    {
        proof {
            self.lemma_dom_is_ids();
        }
        let mut r: Vec<InstanceId> = Vec::new();
        let mut i: usize = 0;
        while i < self.entries.len()
            invariant
                i <= self.entries@.len(),
                r@ == self.entries@.subrange(0, i as int).map_values(|g: GameInstance| g.id_spec()),
            decreases self.entries.len() - i,
        {
            r.push(self.entries[i].uuid());
            proof {
                assert(self.entries@.subrange(0, i + 1).map_values(|g: GameInstance| g.id_spec())
                    =~= self.entries@.subrange(0, i as int).map_values(|g: GameInstance| g.id_spec()).push(self.entries@[i as int].id_spec()));
            }
            i = i + 1;
        }
        proof {
            assert(self.entries@.subrange(0, self.entries@.len() as int) =~= self.entries@);
        }
        r
    }

    /// Puts `instance` under its identifier, and hands back the instance
    /// that it displaces, if there was one.
    pub fn insert(&mut self, instance: GameInstance) -> (r: Option<GameInstance>)
        requires
            old(self).wf(),
        ensures
            final(self).wf(),
            final(self)@ == old(self)@.insert(instance.id_spec(), instance),
            r is None <==> !old(self)@.contains_key(instance.id_spec()),
            r matches Some(g) ==> g == old(self)@[instance.id_spec()],
    {
        let id = instance.uuid();
        match self.position(id) {
            Some(i) => {
                let displaced = self.entries.remove(i);
                self.entries.insert(i, instance);
                self.map = Ghost(self.map@.insert(id, instance));
                proof {
                    assert(self.entries@ =~= old(self).entries@.update(i as int, instance));
                    assert forall|k: InstanceId| #[trigger] self.map@.contains_key(k) implies exists|j: int|
                        0 <= j < self.entries@.len() && #[trigger] self.entries@[j].id_spec() == k by {
                        if k == id {
                            assert(self.entries@[i as int].id_spec() == k);
                        } else {
                            let j = choose|j: int| 0 <= j < old(self).entries@.len() && #[trigger] old(self).entries@[j].id_spec() == k;
                            assert(self.entries@[j].id_spec() == k);
                        }
                    }
                }
                Some(displaced)
            },
            None => {
                self.entries.push(instance);
                self.map = Ghost(self.map@.insert(id, instance));
                proof {
                    let n = old(self).entries@.len() as int;
                    assert(self.entries@ =~= old(self).entries@.push(instance));
                    assert forall|a: int, b: int| 0 <= a < b < self.entries@.len() implies
                        #[trigger] self.entries@[a].id_spec() != #[trigger] self.entries@[b].id_spec() by {
                        if b == n {
                            assert(old(self).map@.contains_key(old(self).entries@[a].id_spec()));
                        }
                    }
                    assert forall|k: InstanceId| #[trigger] self.map@.contains_key(k) implies exists|j: int|
                        0 <= j < self.entries@.len() && #[trigger] self.entries@[j].id_spec() == k by {
                        if k == id {
                            assert(self.entries@[n].id_spec() == k);
                        } else {
                            let j = choose|j: int| 0 <= j < old(self).entries@.len() && #[trigger] old(self).entries@[j].id_spec() == k;
                            assert(self.entries@[j].id_spec() == k);
                        }
                    }
                }
                None
            },
        }
    }

    /// Takes the instance with identifier `id` out, if present.
    pub fn remove(&mut self, id: InstanceId) -> (r: Option<GameInstance>)
        requires
            old(self).wf(),
        ensures
            final(self).wf(),
            final(self)@ == old(self)@.remove(id),
            r is None <==> !old(self)@.contains_key(id),
            r matches Some(g) ==> g == old(self)@[id],
    {
        match self.position(id) {
            Some(i) => {
                let g = self.entries.remove(i);
                self.map = Ghost(self.map@.remove(id));
                proof {
                    let o = old(self).entries@;
                    assert(self.entries@ =~= o.subrange(0, i as int) + o.subrange(i + 1, o.len() as int));
                    assert forall|a: int| 0 <= a < self.entries@.len() implies
                        #[trigger] self.entries@[a] == o[if a < i { a } else { a + 1 }] by {}
                    assert forall|a: int, b: int| 0 <= a < b < self.entries@.len() implies
                        #[trigger] self.entries@[a].id_spec() != #[trigger] self.entries@[b].id_spec() by {
                        let a2 = if a < i { a } else { a + 1 };
                        let b2 = if b < i { b } else { b + 1 };
                        assert(o[a2].id_spec() != o[b2].id_spec());
                    }
                    assert forall|a: int| 0 <= a < self.entries@.len() implies
                        self.map@.contains_key(#[trigger] self.entries@[a].id_spec())
                            && self.map@[self.entries@[a].id_spec()] == self.entries@[a] by {
                        let a2 = if a < i { a } else { a + 1 };
                        assert(o[a2].id_spec() != o[i as int].id_spec());
                        assert(old(self).map@.contains_key(o[a2].id_spec()));
                    }
                    assert forall|k: InstanceId| #[trigger] self.map@.contains_key(k) implies exists|j: int|
                        0 <= j < self.entries@.len() && #[trigger] self.entries@[j].id_spec() == k by {
                        let j = choose|j: int| 0 <= j < o.len() && #[trigger] o[j].id_spec() == k;
                        assert(j != i);
                        let j2 = if j < i { j } else { j - 1 };
                        assert(self.entries@[j2].id_spec() == k);
                    }
                }
                Some(g)
            },
            None => {
                proof {
                    assert(self.map@ =~= old(self).map@.remove(id));
                }
                None
            },
        }
    }

    /// Starts the instance with identifier `id`. A second start of an
    /// instance that runs already leaves it as it is and reports
    /// `AlreadyRunning`, so one identifier never has two live processes.
    pub fn start(&mut self, id: InstanceId) -> (r: Result<(), InstanceError>)
        requires
            old(self).wf(),
        ensures
            final(self).wf(),
            r matches Err(e) ==> final(self)@ == old(self)@ && (e == InstanceError::NotFound <==> !old(self)@.contains_key(id)),
            r == Err::<(), InstanceError>(InstanceError::AlreadyRunning) <==> old(self)@.contains_key(id) && old(self)@[id].running_spec(),
            r is Ok <==> old(self)@.contains_key(id) && !old(self)@[id].running_spec(),
            r is Ok ==> final(self)@ == old(self)@.insert(id, old(self)@[id].with_running(true)),
    {
        match self.remove(id) {
            None => Err(InstanceError::NotFound),
            Some(mut g) => {
                let r = g.start();
                self.insert(g);
                proof {
                    assert(self.map@ =~= old(self).map@.insert(id, g));
                }
                r
            },
        }
    }

    /// Stops the instance with identifier `id`; stopping one that is absent
    /// or stopped already changes nothing. Returns whether it was running.
    pub fn stop(&mut self, id: InstanceId) -> (r: bool)
        requires
            old(self).wf(),
        ensures
            final(self).wf(),
            r == (old(self)@.contains_key(id) && old(self)@[id].running_spec()),
            old(self)@.contains_key(id) ==> final(self)@ == old(self)@.insert(id, old(self)@[id].with_running(false)),
            !old(self)@.contains_key(id) ==> final(self)@ == old(self)@,
    {
        match self.remove(id) {
            None => false,
            Some(mut g) => {
                let r = g.stop();
                self.insert(g);
                proof {
                    assert(self.map@ =~= old(self).map@.insert(id, g));
                }
                r
            },
        }
    }
}

/// One identifier, one entry: whatever is put in the registry, it never
/// holds two instances under one identifier, and a start on an instance that
/// runs already leaves the registry as it was.
pub proof fn lemma_at_most_one_entry_per_id(reg: InstanceRegistry, id: InstanceId)
    requires
        reg.wf(),
        reg@.contains_key(id),
    ensures
        reg@[id].id_spec() == id,
{
    let i = choose|i: int| 0 <= i < reg.entries@.len() && #[trigger] reg.entries@[i].id_spec() == id;
    assert(reg.map@[reg.entries@[i].id_spec()] == reg.entries@[i]);
}

} // verus!
